//! The five resource handlers, run against the reference store: each takes
//! bound input and the store, performs exactly one store operation, and
//! answers as the service does over HTTP. Together with the store's own
//! contracts these pin down the service's observable behaviour; the
//! program wires the same decisions to a relational store instead.

use vstd::prelude::*;

use crate::model::{views_of, CreateUser, User};
use crate::response::{ApiError, STATUS_NO_CONTENT};
use crate::store::UserStore;

verus! {

/// Lists every row present in the store, in store order, and no others; an
/// empty store yields an empty vector, not an error.
pub fn list_users(store: &UserStore) -> (r: Vec<User>)
    ensures
        views_of(r@) == store@.rows,
{
    let rows = store.list();
    let n = rows.len();
    let mut out: Vec<User> = Vec::new();
    let mut i: usize = 0;
    while i < n
        invariant
            n == rows.len(),
            i <= n,
            views_of(rows@) == store@.rows,
            views_of(out@) == store@.rows.subrange(0, i as int),
        decreases n - i,
    {
        let ghost before = out@;
        out.push(rows[i].clone());
        proof {
            assert(out@ == before.push(rows@[i as int]));
            assert(views_of(before).len() == before.len());
            assert(before.len() == i as int);
            assert(views_of(rows@).len() == rows@.len());
            assert forall|j: int| 0 <= j < out@.len() implies views_of(out@)[j] == store@.rows[j] by {
                if j < i as int {
                    assert(views_of(before)[j] == store@.rows.subrange(0, i as int)[j]);
                } else {
                    assert(out@[j] == rows@[i as int]);
                    assert(views_of(rows@)[j] == store@.rows[j]);
                }
            }
            assert(views_of(out@) =~= store@.rows.subrange(0, i as int + 1));
        }
        i = i + 1;
    }
    proof {
        assert(store@.rows.subrange(0, n as int) =~= store@.rows);
    }
    out
}

/// Creates a row for the payload and answers with it; the store assigns
/// the id and records `now` as the creation instant. The one failure is a
/// store that has run out of ids, answered as an internal error with the
/// store unchanged.
pub fn create_user(store: &mut UserStore, payload: &CreateUser, now: i64) -> (r: Result<
    User,
    ApiError,
>)
    requires
        old(store)@.wf(),
    ensures
        final(store)@.wf(),
        r is Ok <==> old(store)@.next_id < i32::MAX as int,
        match r {
            Ok(u) => {
                &&& u@ == old(store)@.created_row(payload@.username, payload@.email, now as int)
                &&& final(store)@ == old(store)@.after_create(
                    payload@.username,
                    payload@.email,
                    now as int,
                )
            },
            Err(e) => e == ApiError::InternalError && *final(store) == *old(store),
        },
{
    if store.can_create() {
        Ok(store.create(payload, now))
    } else {
        Err(ApiError::InternalError)
    }
}

/// Answers with the row holding `id`; a store that has none answers not
/// found, never an internal error.
pub fn get_user(store: &UserStore, id: i32) -> (r: Result<User, ApiError>)
    requires
        store@.wf(),
    ensures
        match r {
            Ok(u) => store@.lookup(id as int) == Some(u@),
            Err(e) => e == ApiError::NotFound && store@.lookup(id as int) is None,
        },
{
    match store.get(id) {
        Some(u) => Ok(u.clone()),
        None => Err(ApiError::NotFound),
    }
}

/// Overwrites `username` and `email` of the row holding `id` and answers
/// with the updated row; its `id` and `created_at` stay as they were. A
/// missing id changes nothing and is answered as an internal error, not as
/// not found: the collapse is kept deliberately, as the service has always
/// answered it.
pub fn update_user(store: &mut UserStore, id: i32, payload: &CreateUser) -> (r: Result<
    User,
    ApiError,
>)
    requires
        old(store)@.wf(),
    ensures
        final(store)@.wf(),
        final(store)@ == old(store)@.after_update(id as int, payload@.username, payload@.email),
        r is Ok <==> old(store)@.contains_id(id as int),
        match r {
            Ok(u) => u@ == final(store)@.rows[old(store)@.index_of(id as int)],
            Err(e) => e == ApiError::InternalError,
        },
{
    match store.update(id, payload) {
        Some(u) => Ok(u),
        None => Err(ApiError::InternalError),
    }
}

/// Removes the row holding `id`, if any, and answers 204 with no body
/// whether or not a row was there.
pub fn delete_user(store: &mut UserStore, id: i32) -> (r: u16)
    requires
        old(store)@.wf(),
    ensures
        final(store)@.wf(),
        final(store)@ == old(store)@.after_delete(id as int),
        r == STATUS_NO_CONTENT,
{
    store.delete(id);
    STATUS_NO_CONTENT
}

} // verus!
