//! What the user store of the example keeps to.

use crate::example;
use crate::example::{CreateUser, ListQuery, UserModel};
use crate::text;
use vstd::prelude::*;
use vstd::string::*;

verus! {

/// A user is what was asked for, under the id they were given.
pub proof fn a_user_is_what_was_asked_for(create: CreateUser, id: u64)
    ensures
        example::created(create, id).id == id,
        example::created(create, id).display_name == create.display_name@,
        example::created(create, id).email == create.email@,
        example::created(create, id).age == create.age,
        example::created(create, id).roles == create.roles@,
{
}

/// Without a limit twenty users are listed; with one, that many.
pub proof fn a_page_has_a_limit(query: ListQuery, list: Seq<UserModel>, i: int)
    ensures
        query.limit is None ==> example::limit_of(query) == 20,
        query.limit matches Some(n) ==> example::limit_of(query) == n as nat,
        0 <= i < list.len() && i < example::limit_of(query) ==> i < example::up_to(
            list,
            example::limit_of(query),
        ).len() && example::up_to(list, example::limit_of(query))[i] == list[i],
        example::up_to(list, example::limit_of(query)).len() <= example::limit_of(query),
        example::up_to(list, example::limit_of(query)).len() <= list.len(),
{
}

/// A query that asks for nothing in particular asks for everyone. One with a
/// text asks for the users whose name holds it, whatever the case of either, and
/// one with roles for the users with at least one of them.
pub proof fn a_query_asks_for_what_it_says(
    query: ListQuery,
    user: UserModel,
    a: Seq<char>,
    b: Seq<char>,
    i: int,
)
    ensures
        query.q is None && query.role@.len() == 0 ==> example::selected(query, user),
        query.role@.len() == 0 && query.q is Some && example::small_letters(user.display_name) == a
            + example::small_letters(query.q->0@) + b ==> example::selected(query, user),
        query.q is None && 0 <= i < user.roles.len() && query.role@.contains(user.roles[i])
            ==> example::selected(query, user),
        query.role@.len() > 0 && (forall|k: int|
            0 <= k < user.roles.len() ==> !query.role@.contains(#[trigger] user.roles[k]))
            ==> !example::selected(query, user),
{
    if let Some(needle) = query.q {
        let part = example::small_letters(needle@);
        let whole = a + part + b;
        assert(whole.subrange(a.len() as int, (a.len() + part.len()) as int) =~= part);
        assert(text::part_at(whole, part, a.len() as int));
    }
}

/// Everyone that a query asks for is listed, and in the order they are kept in.
pub proof fn everyone_asked_for_is_listed(query: ListQuery, users: Seq<UserModel>, user: UserModel)
    ensures
        example::matching(query, Seq::empty()).len() == 0,
        example::selected(query, user) ==> example::matching(query, users.push(user))
            == example::matching(query, users).push(user),
        !example::selected(query, user) ==> example::matching(query, users.push(user))
            == example::matching(query, users),
{
    assert(users.push(user).drop_last() =~= users);
}

/// A user who is not there is not found, and a token that is not an
/// administrator's admits to nothing.
pub proof fn refusals_say_why(id: u64)
    ensures
        example::no_user(id).status == 404,
        example::no_user(id).detail == Some("No user with id "@ + text::decimal(id as nat) + "."@),
        example::not_admin().status == 403,
        example::not_admin().detail == Some("That token is not an admin token."@),
{
}

} // verus!
