//! Middleware: layers wrapped around handlers.

use vstd::prelude::*;

pub mod common;
pub mod cors;

verus! {

/// A handler inside its layers.
///
/// A layer proceeds inward or short-circuits, which is how auth and rate-limit
/// layers reject a request without the handler ever seeing it.
pub enum Chain<L, H> {
    /// The handler itself.
    Handler(H),
    /// A layer, and the rest of the chain.
    Layer(L, Box<Chain<L, H>>),
}

impl<L, H> Chain<L, H> {
    /// The layers, outermost first.
    pub open spec fn layers(self) -> Seq<L>
        decreases self,
    {
        match self {
            Chain::Handler(_) => Seq::empty(),
            Chain::Layer(layer, rest) => seq![layer] + rest.layers(),
        }
    }

    /// The handler at the centre.
    pub open spec fn handler(self) -> H
        decreases self,
    {
        match self {
            Chain::Handler(handler) => handler,
            Chain::Layer(_, rest) => rest.handler(),
        }
    }
}

/// Wraps `handler` in `layers`, with the first element outermost.
pub fn compose<L, H>(handler: H, layers: Vec<L>) -> (chain: Chain<L, H>)
    ensures
        chain.layers() == layers@,
        chain.handler() == handler,
{
    let mut layers = layers;
    let ghost all = layers@;
    let mut chain = Chain::Handler(handler);
    assert(all.skip(all.len() as int) =~= Seq::<L>::empty());
    // Fold from the inside out so the first layer ends up seeing the request
    // first.
    while layers.len() > 0
        invariant
            layers@ == all.take(layers@.len() as int),
            layers@.len() <= all.len(),
            chain.layers() == all.skip(layers@.len() as int),
            chain.handler() == handler,
        decreases layers@.len(),
    {
        let ghost n = layers@.len() as int;
        match layers.pop() {
            Some(layer) => {
                let ghost inner = chain;
                chain = Chain::Layer(layer, Box::new(chain));
                assert(chain.layers() == seq![layer] + inner.layers());
                assert(seq![layer] + all.skip(n) =~= all.skip(n - 1));
                assert(layers@ =~= all.take(n - 1));
            },
            None => {},
        }
    }
    assert(all.skip(0) =~= all);
    chain
}

/// The rest of a chain, as a layer sees it.
///
/// Calling [`Next::run`] proceeds inward; not calling it short-circuits.
pub struct Next<'a, L, H>(pub &'a Chain<L, H>);

/// What a request meets next on its way inward.
pub enum Inward<'a, L, H> {
    /// The handler.
    Handler(&'a H),
    /// A layer, and what it may proceed to.
    Layer(&'a L, Next<'a, L, H>),
}

impl<'a, L, H> Next<'a, L, H> {
    pub fn new(chain: &'a Chain<L, H>) -> (next: Self)
        ensures
            next.0 == chain,
    {
        Next(chain)
    }

    /// Proceeds inward by one.
    pub fn run(self) -> (inward: Inward<'a, L, H>)
        ensures
            match inward {
                Inward::Handler(h) => self.0.layers().len() == 0 && *h == self.0.handler(),
                Inward::Layer(l, rest) => {
                    &&& self.0.layers() == seq![*l] + rest.0.layers()
                    &&& self.0.handler() == rest.0.handler()
                },
            },
    {
        match self.0 {
            Chain::Handler(h) => Inward::Handler(h),
            Chain::Layer(l, rest) => Inward::Layer(l, Next(&**rest)),
        }
    }
}

} // verus!
