//! A small users service: its store, and the rules of its handlers.

use crate::error::{ApiError, Problem};
use crate::extract::cookies;
use crate::extract::cookies::Bearer;
use crate::headers;
use crate::openapi::spec::{Response, ResponseModel};
use crate::operation::{ContextModel, OperationContext, OperationInput};
use crate::request::Request;
use crate::sse;
use crate::sse::Event;
use crate::text;
use vstd::prelude::*;
use vstd::string::*;

verus! {

// ---------------------------------------------------------------------------
// models
// ---------------------------------------------------------------------------

/// What a user is allowed to do.
#[derive(Clone, Copy, Debug, PartialEq, Eq, Structural)]
pub enum Role {
    /// Full access.
    Admin,
    /// Can change their own data.
    Member,
    /// Read-only.
    Guest,
}

/// A user of the system.
pub struct User {
    /// Server-assigned identifier.
    pub id: u64,
    /// The name shown to other people.
    pub display_name: String,
    pub email: String,
    /// When absent, the user has not told us.
    pub age: Option<u8>,
    pub roles: Vec<Role>,
}

/// A user, as a value.
#[verifier::ext_equal]
pub struct UserModel {
    pub id: u64,
    pub display_name: Seq<char>,
    pub email: Seq<char>,
    pub age: Option<u8>,
    pub roles: Seq<Role>,
}

impl View for User {
    type V = UserModel;

    open spec fn view(&self) -> UserModel {
        UserModel {
            id: self.id,
            display_name: self.display_name@,
            email: self.email@,
            age: self.age,
            roles: self.roles@,
        }
    }
}

/// The payload for creating a user.
pub struct CreateUser {
    pub display_name: String,
    pub email: String,
    pub age: Option<u8>,
    pub roles: Vec<Role>,
}

/// The user that a payload becomes.
pub open spec fn created(create: CreateUser, id: u64) -> UserModel {
    UserModel {
        id,
        display_name: create.display_name@,
        email: create.email@,
        age: create.age,
        roles: create.roles@,
    }
}

/// Query parameters for listing users.
pub struct ListQuery {
    /// Case-insensitive substring match against the display name.
    pub q: Option<String>,
    /// Several roles are alternatives.
    pub role: Vec<Role>,
    /// Maximum number of results.
    pub limit: Option<u32>,
}

/// A page of results.
pub struct Page<T> {
    pub items: Vec<T>,
    pub total: usize,
}

impl User {
    pub fn copy(&self) -> (out: Self)
        ensures
            out@ == self@,
    {
        let mut roles: Vec<Role> = Vec::new();
        for i in 0..self.roles.len()
            invariant
                roles@ == self.roles@.take(i as int),
        {
            roles.push(self.roles[i]);
            assert(roles@ =~= self.roles@.take(i + 1));
        }
        assert(roles@ =~= self.roles@);
        User {
            id: self.id,
            display_name: self.display_name.clone(),
            email: self.email.clone(),
            age: self.age,
            roles,
        }
    }
}

// ---------------------------------------------------------------------------
// the store
// ---------------------------------------------------------------------------

/// A text in small letters.
pub uninterp spec fn small_letters(s: Seq<char>) -> Seq<char>;

/// `str::to_lowercase`: ASCII capitals become their small letters. What becomes
/// of text beyond ASCII is named, not described.
#[verifier::external_body]
fn lowercase(s: &str) -> (out: String)
    ensures
        out@ == small_letters(s@),
        (forall|i: int| 0 <= i < s@.len() ==> ((#[trigger] s@[i]) as int) < 128) ==> out@
            == text::ascii_lower(s@),
{
    s.to_lowercase()
}

/// An in-memory store, standing in for a database.
pub struct Store {
    users: Vec<User>,
    last_id: u64,
}

/// The users of a list, as values.
pub open spec fn user_models(list: Seq<User>) -> Seq<UserModel> {
    list.map_values(|u: User| u@)
}

/// The position of a user.
pub open spec fn position(users: Seq<UserModel>, id: u64) -> Option<int>
    decreases users.len(),
{
    if users.len() == 0 {
        None
    } else if users.last().id == id {
        Some(users.len() - 1)
    } else {
        position(users.drop_last(), id)
    }
}

/// The user with an id.
pub open spec fn find(users: Seq<UserModel>, id: u64) -> Option<UserModel> {
    match position(users, id) {
        Some(i) => Some(users[i]),
        None => None,
    }
}

/// Whether a user is one that a query asks for.
pub open spec fn selected(query: ListQuery, user: UserModel) -> bool {
    &&& match query.q {
        Some(needle) => text::has_part(
            small_letters(user.display_name),
            small_letters(needle@),
        ),
        None => true,
    }
    &&& query.role@.len() == 0 || exists|i: int|
        0 <= i < user.roles.len() && query.role@.contains(#[trigger] user.roles[i])
}

/// The users that a query asks for, in the order of their ids.
pub open spec fn matching(query: ListQuery, users: Seq<UserModel>) -> Seq<UserModel>
    decreases users.len(),
{
    if users.len() == 0 {
        Seq::empty()
    } else {
        let before = matching(query, users.drop_last());
        if selected(query, users.last()) {
            before.push(users.last())
        } else {
            before
        }
    }
}

/// The first of a list, up to a limit.
pub open spec fn up_to(list: Seq<UserModel>, limit: nat) -> Seq<UserModel> {
    if limit < list.len() {
        list.take(limit as int)
    } else {
        list
    }
}

/// How many results a query wants at most.
pub open spec fn limit_of(query: ListQuery) -> nat {
    match query.limit {
        Some(n) => n as nat,
        None => 20,
    }
}

impl Store {
    /// The users, in the order of their ids.
    pub closed spec fn users(&self) -> Seq<UserModel> {
        user_models(self.users@)
    }

    /// The id that was given out last.
    pub closed spec fn last(&self) -> u64 {
        self.last_id
    }

    /// Ids ascend, and none was given out later than the last.
    pub open spec fn wf(&self) -> bool {
        &&& forall|i: int, j: int|
            0 <= i < j < self.users().len() ==> (#[trigger] self.users()[i]).id < (
            #[trigger] self.users()[j]).id
        &&& forall|i: int|
            0 <= i < self.users().len() ==> 1 <= (#[trigger] self.users()[i]).id <= self.last()
    }

    pub fn new() -> (store: Self)
        ensures
            store.wf(),
            store.users() == Seq::<UserModel>::empty(),
            store.last() == 0,
    {
        let store = Store { users: Vec::new(), last_id: 0 };
        assert(store.users() =~= Seq::<UserModel>::empty());
        store
    }

    /// Whether an identifier is left for another user.
    pub fn has_room(&self) -> (r: bool)
        ensures
            r == (self.last() < u64::MAX),
    {
        self.last_id < u64::MAX
    }

    /// Adds a user under a fresh id.
    pub fn insert(&mut self, create: CreateUser) -> (user: User)
        requires
            old(self).wf(),
            old(self).last() < u64::MAX,
        ensures
            final(self).wf(),
            user@ == created(create, (old(self).last() + 1) as u64),
            final(self).users() == old(self).users().push(user@),
            final(self).last() == old(self).last() + 1,
    {
        let ghost before = self.users();
        let id = self.last_id + 1;
        self.last_id = id;
        let CreateUser { display_name, email, age, roles } = create;
        let user = User { id, display_name, email, age, roles };
        let kept = user.copy();
        self.users.push(kept);
        assert(self.users() =~= before.push(user@));
        user
    }

    fn index(&self, id: u64) -> (at: Option<usize>)
        ensures
            match at {
                Some(i) => i < self.users().len() && position(self.users(), id) == Some(i as int)
                    && self.users()[i as int].id == id,
                None => position(self.users(), id) is None,
            },
    {
        let ghost all = self.users();
        let mut i: usize = self.users.len();
        assert(all.take(i as int) =~= all);
        while i > 0
            invariant
                i <= self.users@.len(),
                all == self.users(),
                position(all, id) == position(all.take(i as int), id),
            decreases i,
        {
            assert(all.take(i as int).drop_last() =~= all.take(i - 1));
            assert(all.take(i as int).last() == self.users@[i - 1]@);
            if self.users[i - 1].id == id {
                return Some(i - 1);
            }
            i -= 1;
        }
        None
    }

    pub fn get(&self, id: u64) -> (user: Option<User>)
        ensures
            match user {
                Some(u) => find(self.users(), id) == Some(u@),
                None => find(self.users(), id) is None,
            },
    {
        match self.index(id) {
            Some(i) => Some(self.users[i].copy()),
            None => None,
        }
    }

    /// Removes a user, if there is one with this id.
    pub fn remove(&mut self, id: u64) -> (removed: bool)
        requires
            old(self).wf(),
        ensures
            final(self).wf(),
            removed == (find(old(self).users(), id) is Some),
            final(self).last() == old(self).last(),
            final(self).users() == match position(old(self).users(), id) {
                Some(i) => old(self).users().remove(i),
                None => old(self).users(),
            },
    {
        let ghost before = self.users();
        match self.index(id) {
            Some(i) => {
                self.users.remove(i);
                assert(self.users() =~= before.remove(i as int));
                true
            },
            None => false,
        }
    }

    /// The users that a query asks for, up to its limit, and how many there are
    /// in all.
    pub fn list(&self, query: &ListQuery) -> (page: Page<User>)
        ensures
            page.total == matching(*query, self.users()).len(),
            user_models(page.items@) == up_to(
                matching(*query, self.users()),
                limit_of(*query),
            ),
    {
        let limit: usize = match query.limit {
            Some(n) => n as usize,
            None => 20,
        };
        let ghost all = self.users();
        let mut items: Vec<User> = Vec::new();
        let mut total: usize = 0;
        let n: usize = self.users.len();
        assert(user_models(items@) =~= Seq::<UserModel>::empty());
        for i in 0..n
            invariant
                n == self.users@.len(),
                all == self.users(),
                limit == limit_of(*query),
                total <= i,
                total == matching(*query, all.take(i as int)).len(),
                user_models(items@) == up_to(matching(*query, all.take(i as int)), limit as nat),
        {
            let ghost before = matching(*query, all.take(i as int));
            assert(all.take(i + 1).drop_last() =~= all.take(i as int));
            assert(all.take(i + 1).last() == self.users@[i as int]@);
            if selects(query, &self.users[i]) {
                let ghost after = before.push(self.users@[i as int]@);
                if total < limit {
                    let user = self.users[i].copy();
                    let ghost held = items@;
                    items.push(user);
                    assert(user_models(items@) =~= user_models(held).push(user@));
                    assert(user_models(items@) =~= up_to(after, limit as nat));
                } else {
                    assert(up_to(after, limit as nat) =~= up_to(before, limit as nat));
                }
                total += 1;
            }
        }
        assert(all.take(n as int) =~= all);
        Page { items, total }
    }
}

/// Whether a user is one that a query asks for.
fn selects(query: &ListQuery, user: &User) -> (r: bool)
    ensures
        r == selected(*query, user@),
{
    if let Some(needle) = &query.q {
        let name = lowercase(user.display_name.as_str());
        let part = lowercase(needle.as_str());
        if !text::contains_text(name.as_str(), part.as_str()) {
            return false;
        }
    }
    if query.role.len() == 0 {
        return true;
    }
    for i in 0..user.roles.len()
        invariant
            query.role@.len() > 0,
            match query.q {
                Some(needle) => text::has_part(
                    small_letters(user@.display_name),
                    small_letters(needle@),
                ),
                None => true,
            },
            forall|k: int| 0 <= k < i ==> !query.role@.contains(#[trigger] user.roles@[k]),
    {
        for j in 0..query.role.len()
            invariant
                i < user.roles@.len(),
                match query.q {
                    Some(needle) => text::has_part(
                        small_letters(user@.display_name),
                        small_letters(needle@),
                    ),
                    None => true,
                },
                forall|k: int| 0 <= k < j ==> (#[trigger] query.role@[k]) != user.roles@[i as int],
        {
            if query.role[j] == user.roles[i] {
                assert(query.role@.contains(user@.roles[i as int]));
                return true;
            }
        }
        assert(!query.role@.contains(user.roles@[i as int]));
    }
    assert forall|k: int| 0 <= k < user@.roles.len() implies !query.role@.contains(
        #[trigger] user@.roles[k],
    ) by {
        assert(!query.role@.contains(user.roles@[k]));
    }
    false
}

// ---------------------------------------------------------------------------
// handlers
// ---------------------------------------------------------------------------

/// What is answered where there is no user with an id.
pub open spec fn no_user(id: u64) -> Problem {
    Problem::detailed(404, "No user with id "@ + text::decimal(id as nat) + "."@)
}

fn missing(id: u64) -> (e: ApiError)
    ensures
        e@ == no_user(id),
{
    let mut detail = "No user with id ".to_owned();
    detail.append(text::decimal_text(id).as_str());
    detail.append(".");
    ApiError::not_found(detail.as_str())
}

/// Fetches one user by id.
pub fn get_user(store: &Store, id: u64) -> (r: Result<User, ApiError>)
    ensures
        match r {
            Ok(user) => find(store.users(), id) == Some(user@),
            Err(e) => find(store.users(), id) is None && e@ == no_user(id),
        },
{
    match store.get(id) {
        Some(user) => Ok(user),
        None => Err(missing(id)),
    }
}

/// Where a created user is found.
pub fn user_location(id: u64) -> (out: String)
    ensures
        out@ == "/users/"@ + text::decimal(id as nat),
{
    let mut out = "/users/".to_owned();
    out.append(text::decimal_text(id).as_str());
    out
}

/// Deletes a user.
pub fn delete_user(store: &mut Store, id: u64) -> (r: Result<(), ApiError>)
    requires
        old(store).wf(),
    ensures
        final(store).wf(),
        final(store).last() == old(store).last(),
        match position(old(store).users(), id) {
            Some(i) => r is Ok && final(store).users() == old(store).users().remove(i),
            None => r is Err && r->Err_0@ == no_user(id) && final(store).users() == old(
                store,
            ).users(),
        },
{
    if store.remove(id) {
        Ok(())
    } else {
        Err(missing(id))
    }
}

/// An authenticated administrator.
#[derive(Clone, Copy, Debug)]
pub struct Admin;

/// What is answered to a token that is not an administrator's.
pub open spec fn not_admin() -> Problem {
    Problem::detailed(403, "That token is not an admin token."@)
}

/// Admits a request that carries one of the tokens that may delete things.
pub fn authorise(req: &Request, tokens: &Vec<String>) -> (r: Result<Admin, ApiError>)
    ensures
        match cookies::token_in(headers::first(req@.headers, "authorization"@)) {
            Ok(token) => if text::views(tokens@).contains(token) {
                r is Ok
            } else {
                r is Err && r->Err_0@ == not_admin()
            },
            Err(problem) => r is Err && r->Err_0@ == problem,
        },
{
    match Bearer::from_request(req) {
        Ok(Bearer(token)) => {
            if text::has_text(tokens, token.as_str()) {
                Ok(Admin)
            } else {
                Err(ApiError::forbidden("That token is not an admin token."))
            }
        },
        Err(e) => Err(e),
    }
}

/// Taking an administrator as an argument puts the requirement of a bearer
/// token, and both ways of being refused, into the document.
impl OperationInput for Admin {
    open spec fn described(c: ContextModel) -> ContextModel {
        Bearer::described(c).with_response(
            "403"@,
            ResponseModel::new("The token is valid but not an admin token"@),
        )
    }

    fn describe(ctx: &mut OperationContext) {
        Bearer::describe(ctx);
        ctx.add_response("403", Response::new("The token is valid but not an admin token"));
    }
}

/// One step of a countdown: the event to send, and what remains.
pub fn countdown_step(remaining: u8) -> (step: Option<(Event, u8)>)
    ensures
        match step {
            Some((event, rest)) => {
                &&& remaining > 0
                &&& rest == remaining - 1
                &&& event@ == (sse::EventModel {
                    name: Some("tick"@),
                    ..sse::EventModel::data(text::decimal(remaining as nat))
                })
            },
            None => remaining == 0,
        },
{
    if remaining == 0 {
        return None;
    }
    let event = Event::data(text::decimal_text(remaining as u64).as_str()).named("tick");
    Some((event, remaining - 1))
}

// ---------------------------------------------------------------------------
// laws
// ---------------------------------------------------------------------------

/// A created user can be read back, and every other one is as it was.
pub proof fn a_created_user_can_be_read_back(users: Seq<UserModel>, user: UserModel, other: u64)
    ensures
        find(users.push(user), user.id) == Some(user),
        other != user.id ==> find(users.push(user), other) == find(users, other),
{
    assert(users.push(user).drop_last() =~= users);
    lemma_position(users, other);
}

proof fn lemma_position(users: Seq<UserModel>, id: u64)
    ensures
        match position(users, id) {
            Some(i) => 0 <= i < users.len() && users[i].id == id,
            None => forall|i: int| 0 <= i < users.len() ==> (#[trigger] users[i]).id != id,
        },
    decreases users.len(),
{
    if users.len() > 0 && users.last().id != id {
        lemma_position(users.drop_last(), id);
        assert forall|i: int|
            position(users, id) is None && 0 <= i < users.len() implies (#[trigger] users[i]).id
            != id by {
            if i < users.len() - 1 {
                assert(users[i] == users.drop_last()[i]);
            }
        }
    }
}

/// A removed user cannot be read again.
pub proof fn a_removed_user_is_gone(store: Store, id: u64)
    requires
        store.wf(),
        position(store.users(), id) is Some,
    ensures
        find(store.users().remove(position(store.users(), id)->0), id) is None,
{
    let users = store.users();
    lemma_position(users, id);
    let i = position(users, id)->0;
    let rest = users.remove(i);
    lemma_position(rest, id);
    assert forall|k: int| 0 <= k < rest.len() implies (#[trigger] rest[k]).id != id by {
        if k < i {
            assert(rest[k] == users[k]);
        } else {
            assert(rest[k] == users[k + 1]);
        }
    }
}

/// A page holds what was asked for, and no more than was asked for.
pub proof fn a_page_keeps_to_its_query(query: ListQuery, users: Seq<UserModel>, i: int)
    requires
        0 <= i < up_to(matching(query, users), limit_of(query)).len(),
    ensures
        selected(query, up_to(matching(query, users), limit_of(query))[i]),
        up_to(matching(query, users), limit_of(query)).len() <= limit_of(query),
{
    lemma_matching(query, users, i);
}

proof fn lemma_matching(query: ListQuery, users: Seq<UserModel>, i: int)
    requires
        0 <= i < matching(query, users).len(),
    ensures
        selected(query, matching(query, users)[i]),
    decreases users.len(),
{
    if users.len() > 0 && i < matching(query, users.drop_last()).len() {
        lemma_matching(query, users.drop_last(), i);
    }
}

} // verus!
