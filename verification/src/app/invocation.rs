//! What the route of a handler does with a request: extract the arguments in
//! order, then call the handler; the first rejection is the answer.
//!
//! The caller performs each step and reports what came of it; the decisions are
//! made here.

use crate::derive::route;
use crate::derive::route::{HandlerFn, PlanModel, RouteInput, RoutePlan};
use vstd::prelude::*;

verus! {

/// What is performed next for a request.
#[derive(Clone, Copy, Debug, PartialEq, Eq, Structural)]
pub enum HandlerStep {
    /// Extract the argument at this position.
    Extract(usize),
    /// Call the handler with what was extracted, and answer with what it
    /// returns.
    Call,
    /// Answer with the rejection.
    AnswerRejection,
}

/// What is performed next, once so many arguments have been extracted and an
/// extractor has failed or not.
pub open spec fn step_after(arguments: nat, extracted: nat, failed: bool) -> HandlerStep {
    if failed {
        HandlerStep::AnswerRejection
    } else if extracted < arguments {
        HandlerStep::Extract(extracted as usize)
    } else {
        HandlerStep::Call
    }
}

/// What to perform next, once `extracted` of the arguments have been extracted
/// and an extractor has failed or not.
pub fn next_step(arguments: usize, extracted: usize, failed: bool) -> (s: HandlerStep)
    requires
        extracted <= arguments,
    ensures
        s == if failed {
            HandlerStep::AnswerRejection
        } else if extracted < arguments {
            HandlerStep::Extract(extracted)
        } else {
            HandlerStep::Call
        },
        s == step_after(arguments as nat, extracted as nat, failed),
{
    if failed {
        HandlerStep::AnswerRejection
    } else if extracted < arguments {
        HandlerStep::Extract(extracted)
    } else {
        HandlerStep::Call
    }
}

/// A request on its way through a route.
pub struct Invocation {
    arguments: usize,
    extracted: usize,
    failed: bool,
}

/// A request on its way through a route, as a value.
#[verifier::ext_equal]
pub struct Progress {
    pub arguments: nat,
    pub extracted: nat,
    pub failed: bool,
}

impl View for Invocation {
    type V = Progress;

    closed spec fn view(&self) -> Progress {
        Progress {
            arguments: self.arguments as nat,
            extracted: self.extracted as nat,
            failed: self.failed,
        }
    }
}

impl Progress {
    /// Before anything was extracted.
    pub open spec fn begun(arguments: nat) -> Progress {
        Progress { arguments, extracted: 0, failed: false }
    }

    /// What is performed next.
    pub open spec fn step(self) -> HandlerStep {
        step_after(self.arguments, self.extracted, self.failed)
    }

    /// After an extractor accepted the request, or not.
    pub open spec fn after(self, accepted: bool) -> Progress {
        if !(self.step() is Extract) {
            self
        } else if accepted {
            Progress { extracted: self.extracted + 1, ..self }
        } else {
            Progress { failed: true, ..self }
        }
    }

    /// The steps that are performed from here to the answer. `accepts` tells
    /// whether the extractor at a position accepts the request.
    pub open spec fn steps(self, accepts: spec_fn(int) -> bool) -> Seq<HandlerStep>
        decreases self.arguments - self.extracted,
    {
        if self.step() is Extract && self.extracted < self.arguments {
            if accepts(self.extracted as int) {
                seq![self.step()] + self.after(true).steps(accepts)
            } else {
                seq![self.step(), self.after(false).step()]
            }
        } else {
            seq![self.step()]
        }
    }
}

impl Invocation {
    #[verifier::type_invariant]
    closed spec fn wf(self) -> bool {
        self.extracted <= self.arguments
    }

    /// A request that has reached the route of a handler with so many
    /// arguments.
    pub fn new(arguments: usize) -> (out: Self)
        ensures
            out@ == Progress::begun(arguments as nat),
    {
        Invocation { arguments, extracted: 0, failed: false }
    }

    /// A request that has reached a route.
    pub fn of(plan: &RoutePlan) -> (out: Self)
        ensures
            out@ == Progress::begun(plan@.bindings.len()),
    {
        Invocation::new(plan.bindings.len())
    }

    /// What to perform now.
    pub fn step(&self) -> (s: HandlerStep)
        ensures
            s == self@.step(),
    {
        proof {
            use_type_invariant(self);
        }
        next_step(self.arguments, self.extracted, self.failed)
    }

    /// Goes on after an extractor accepted the request, or not, and says what
    /// to perform then.
    pub fn advance(&mut self, accepted: bool) -> (s: HandlerStep)
        ensures
            final(self)@ == old(self)@.after(accepted),
            s == final(self)@.step(),
    {
        proof {
            use_type_invariant(&*self);
        }
        if !self.failed && self.extracted < self.arguments {
            if accepted {
                self.extracted = self.extracted + 1;
            } else {
                self.failed = true;
            }
        }
        self.step()
    }
}

// ---------------------------------------------------------------------------
// laws
// ---------------------------------------------------------------------------

/// The extraction of the arguments from one position up to another.
pub open spec fn extractions(from: nat, to: nat) -> Seq<HandlerStep> {
    Seq::new((to - from) as nat, |i: int| HandlerStep::Extract((from + i) as usize))
}

proof fn lemma_steps(p: Progress, accepts: spec_fn(int) -> bool, stop: nat)
    requires
        !p.failed,
        p.extracted <= stop <= p.arguments <= usize::MAX,
        forall|i: int| p.extracted <= i < stop ==> #[trigger] accepts(i),
        stop < p.arguments ==> !accepts(stop as int),
    ensures
        p.steps(accepts) == if stop < p.arguments {
            extractions(p.extracted, stop + 1).push(HandlerStep::AnswerRejection)
        } else {
            extractions(p.extracted, stop).push(HandlerStep::Call)
        },
    decreases stop - p.extracted,
{
    if p.extracted < stop {
        assert(accepts(p.extracted as int));
        let next = p.after(true);
        lemma_steps(next, accepts, stop);
        assert(p.steps(accepts) == seq![p.step()] + next.steps(accepts));
        if stop < p.arguments {
            assert(seq![p.step()] + extractions(next.extracted, stop + 1).push(
                HandlerStep::AnswerRejection,
            ) =~= extractions(p.extracted, stop + 1).push(HandlerStep::AnswerRejection));
        } else {
            assert(seq![p.step()] + extractions(next.extracted, stop).push(HandlerStep::Call)
                =~= extractions(p.extracted, stop).push(HandlerStep::Call));
        }
    } else if stop < p.arguments {
        assert(p.steps(accepts) =~= extractions(p.extracted, stop + 1).push(
            HandlerStep::AnswerRejection,
        ));
    } else {
        assert(p.steps(accepts) =~= extractions(p.extracted, stop).push(HandlerStep::Call));
    }
}

/// Where every extractor accepts a request, the arguments of the handler are
/// extracted in the order they are declared, each once, and then the handler is
/// called, once.
pub proof fn an_accepted_request_reaches_the_handler(
    method: Seq<char>,
    input: RouteInput,
    f: HandlerFn,
    plan: PlanModel,
    accepts: spec_fn(int) -> bool,
)
    requires
        route::plan_of(method, input, f) == Ok::<PlanModel, Seq<char>>(plan),
        forall|i: int| 0 <= i < f.arguments@.len() ==> #[trigger] accepts(i),
        f.arguments@.len() <= usize::MAX,
    ensures
        Progress::begun(plan.bindings.len()).steps(accepts) == extractions(
            0,
            f.arguments@.len(),
        ).push(HandlerStep::Call),
{
    lemma_steps(Progress::begun(plan.bindings.len()), accepts, f.arguments@.len());
}

/// The first extractor to reject a request ends it: the arguments before it
/// were extracted in order, its rejection is the answer, and neither a later
/// extractor nor the handler runs.
pub proof fn the_first_rejection_is_the_answer(
    method: Seq<char>,
    input: RouteInput,
    f: HandlerFn,
    plan: PlanModel,
    accepts: spec_fn(int) -> bool,
    first: nat,
)
    requires
        route::plan_of(method, input, f) == Ok::<PlanModel, Seq<char>>(plan),
        first < f.arguments@.len() <= usize::MAX,
        forall|i: int| 0 <= i < first ==> #[trigger] accepts(i),
        !accepts(first as int),
    ensures
        Progress::begun(plan.bindings.len()).steps(accepts) == extractions(0, first + 1).push(
            HandlerStep::AnswerRejection,
        ),
{
    lemma_steps(Progress::begun(plan.bindings.len()), accepts, first);
}

/// Once a request is rejected, or its handler is called, whatever is reported
/// changes nothing.
pub proof fn nothing_follows_the_answer(p: Progress, accepted: bool)
    requires
        !(p.step() is Extract),
    ensures
        p.after(accepted) == p,
{
}

} // verus!
