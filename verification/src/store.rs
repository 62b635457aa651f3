//! A reference store for user rows with exact semantics: rows live in
//! insertion order, the store assigns ids from a counter that starts at 1,
//! and no two rows ever share an id. It stands in for the relational table
//! behind the service, so that the handlers' behaviour can be stated and
//! proved against it, and so that tests can run against a store whose
//! behaviour is pinned down.

use vstd::prelude::*;

use crate::model::{views_of, CreateUser, User, UserView};

verus! {

/// The image of the store: the rows in store order, and the id the next
/// created row will receive.
#[verifier::ext_equal]
pub ghost struct StoreView {
    pub rows: Seq<UserView>,
    pub next_id: int,
}

impl StoreView {
    /// Well-formedness: ids start at 1, every id was assigned below
    /// `next_id`, and no two rows share an id.
    pub open spec fn wf(self) -> bool {
        &&& 1 <= self.next_id
        &&& forall|i: int|
            0 <= i < self.rows.len() ==> 1 <= (#[trigger] self.rows[i]).id < self.next_id
        &&& forall|i: int, j: int|
            0 <= i < j < self.rows.len() ==> (#[trigger] self.rows[i]).id != (
            #[trigger] self.rows[j]).id
    }

    /// Whether some row holds `id`.
    pub open spec fn contains_id(self, id: int) -> bool {
        exists|i: int| 0 <= i < self.rows.len() && (#[trigger] self.rows[i]).id == id
    }

    /// The position of the row that holds `id`; meaningful only when
    /// `contains_id(id)` holds, and then unique in a well-formed store.
    pub open spec fn index_of(self, id: int) -> int {
        choose|i: int| 0 <= i < self.rows.len() && (#[trigger] self.rows[i]).id == id
    }

    /// The row that holds `id`, if any.
    pub open spec fn lookup(self, id: int) -> Option<UserView> {
        if self.contains_id(id) {
            Some(self.rows[self.index_of(id)])
        } else {
            None
        }
    }

    /// The row a create call adds: the next free id, the payload's texts,
    /// and the creation instant the store observed.
    pub open spec fn created_row(self, username: Seq<char>, email: Seq<char>, now: int) -> UserView {
        UserView { id: self.next_id, username, email, created_at: now }
    }

    /// The store after a create: the new row appended, the counter advanced.
    pub open spec fn after_create(self, username: Seq<char>, email: Seq<char>, now: int) -> StoreView {
        StoreView {
            rows: self.rows.push(self.created_row(username, email, now)),
            next_id: self.next_id + 1,
        }
    }

    /// The store after an update of `id`: only `username` and `email` of
    /// that row change; a missing id leaves the store as it was.
    pub open spec fn after_update(self, id: int, username: Seq<char>, email: Seq<char>) -> StoreView {
        if self.contains_id(id) {
            let i = self.index_of(id);
            let row = self.rows[i];
            StoreView {
                rows: self.rows.update(
                    i,
                    UserView { id: row.id, username, email, created_at: row.created_at },
                ),
                next_id: self.next_id,
            }
        } else {
            self
        }
    }

    /// The store after a delete of `id`: the row holding it is gone; a
    /// missing id leaves the store as it was. The counter never goes back,
    /// so a deleted id is never reissued.
    pub open spec fn after_delete(self, id: int) -> StoreView {
        if self.contains_id(id) {
            StoreView { rows: self.rows.remove(self.index_of(id)), next_id: self.next_id }
        } else {
            self
        }
    }
}

/// In a well-formed store, a position whose row holds `id` is the one
/// `index_of` picks.
pub proof fn lemma_index_unique(s: StoreView, i: int, id: int)
    requires
        s.wf(),
        0 <= i < s.rows.len(),
        s.rows[i].id == id,
    ensures
        s.contains_id(id),
        s.index_of(id) == i,
{
    assert(s.contains_id(id));
    let j = s.index_of(id);
    if j < i {
        assert(s.rows[j].id != s.rows[i].id);
    } else if i < j {
        assert(s.rows[i].id != s.rows[j].id);
    }
}

/// Law: a create followed by a get of the new id yields the created row:
/// its texts are the payload's, and its id and creation instant are the
/// ones the store assigned. `lookup` is a function of the store alone and
/// a get leaves the store untouched, so repeated reads yield the same row.
pub proof fn law_create_then_get(s: StoreView, username: Seq<char>, email: Seq<char>, now: int)
    requires
        s.wf(),
    ensures
        s.after_create(username, email, now).wf(),
        s.after_create(username, email, now).lookup(s.next_id) == Some(
            UserView { id: s.next_id, username, email, created_at: now },
        ),
{
    let t = s.after_create(username, email, now);
    assert forall|i: int| 0 <= i < t.rows.len() implies 1 <= (#[trigger] t.rows[i]).id
        < t.next_id by {
        if i < t.rows.len() - 1 {
            assert(t.rows[i] == s.rows[i]);
        }
    }
    assert forall|i: int, j: int| 0 <= i < j < t.rows.len() implies (#[trigger] t.rows[i]).id != (
    #[trigger] t.rows[j]).id by {
        if j < t.rows.len() - 1 {
            assert(t.rows[i] == s.rows[i] && t.rows[j] == s.rows[j]);
        } else {
            assert(t.rows[i] == s.rows[i]);
        }
    }
    lemma_index_unique(t, s.rows.len() as int, s.next_id);
}

/// Law: a delete followed by a get of the same id finds nothing.
pub proof fn law_delete_then_get(s: StoreView, id: int)
    requires
        s.wf(),
    ensures
        s.after_delete(id).wf(),
        s.after_delete(id).lookup(id) is None,
{
    lemma_delete_wf(s, id);
    if s.contains_id(id) {
        let k = s.index_of(id);
        assert(0 <= k < s.rows.len() && s.rows[k].id == id);
        let t = s.after_delete(id);
        assert forall|i: int| 0 <= i < t.rows.len() implies (#[trigger] t.rows[i]).id != id by {
            let i0 = if i < k {
                i
            } else {
                i + 1
            };
            assert(t.rows[i] == s.rows[i0]);
            if i0 < k {
                assert(s.rows[i0].id != s.rows[k].id);
            } else {
                assert(s.rows[k].id != s.rows[i0].id);
            }
        }
    }
}

/// Law: an update of an existing id overwrites exactly `username` and
/// `email` of that row, keeps its `id` and `created_at`, and leaves every
/// other row, the row count and the id counter unchanged.
pub proof fn law_update_overwrites(s: StoreView, id: int, username: Seq<char>, email: Seq<char>)
    requires
        s.wf(),
        s.contains_id(id),
    ensures
        s.after_update(id, username, email).wf(),
        s.after_update(id, username, email).next_id == s.next_id,
        s.after_update(id, username, email).rows.len() == s.rows.len(),
        s.after_update(id, username, email).lookup(id) == Some(
            UserView { id, username, email, created_at: s.lookup(id)->Some_0.created_at },
        ),
        forall|i: int|
            0 <= i < s.rows.len() && i != s.index_of(id) ==> s.after_update(
                id,
                username,
                email,
            ).rows[i] == s.rows[i],
{
    lemma_update_wf(s, id, username, email);
    let k = s.index_of(id);
    assert(0 <= k < s.rows.len() && s.rows[k].id == id);
    let t = s.after_update(id, username, email);
    lemma_index_unique(t, k, id);
}

/// Law: repeating the same update twice leaves the same store as doing it
/// once.
pub proof fn law_update_idempotent(s: StoreView, id: int, username: Seq<char>, email: Seq<char>)
    requires
        s.wf(),
    ensures
        s.after_update(id, username, email).after_update(id, username, email) == s.after_update(
            id,
            username,
            email,
        ),
{
    if s.contains_id(id) {
        lemma_update_wf(s, id, username, email);
        let k = s.index_of(id);
        assert(0 <= k < s.rows.len() && s.rows[k].id == id);
        let t = s.after_update(id, username, email);
        assert(t.rows[k].id == id);
        lemma_index_unique(t, k, id);
        let u = t.after_update(id, username, email);
        assert(u.rows =~= t.rows);
        assert(u =~= t);
    }
}

/// The exec store: a growable row vector and the next id to assign.
pub struct UserStore {
    rows: Vec<User>,
    next_id: i32,
}

impl View for UserStore {
    type V = StoreView;

    closed spec fn view(&self) -> StoreView {
        StoreView { rows: views_of(self.rows@), next_id: self.next_id as int }
    }
}

impl UserStore {
    /// An empty store; the first created row will receive id 1.
    pub fn new() -> (s: Self)
        ensures
            s@.wf(),
            s@.rows == Seq::<UserView>::empty(),
            s@.next_id == 1,
    {
        let s = UserStore { rows: Vec::new(), next_id: 1 };
        proof {
            assert(s@.rows =~= Seq::<UserView>::empty());
        }
        s
    }

    /// Every row present in the store, in store order, and no others.
    pub fn list(&self) -> (r: &Vec<User>)
        ensures
            views_of(r@) == self@.rows,
    {
        &self.rows
    }

    /// The position of the row holding `id`, if any.
    fn index_for(&self, id: i32) -> (r: Option<usize>)
        requires
            self@.wf(),
        ensures
            match r {
                Some(i) => {
                    &&& i < self.rows.len()
                    &&& self@.rows[i as int].id == id as int
                    &&& self@.contains_id(id as int)
                    &&& self@.index_of(id as int) == i as int
                },
                None => !self@.contains_id(id as int),
            },
    {
        let n = self.rows.len();
        let mut i: usize = 0;
        while i < n
            invariant
                self@.wf(),
                n == self.rows.len(),
                i <= n,
                forall|j: int| 0 <= j < i ==> (#[trigger] self@.rows[j]).id != id as int,
            decreases n - i,
        {
            if self.rows[i].id == id {
                proof {
                    lemma_index_unique(self@, i as int, id as int);
                }
                return Some(i);
            }
            i = i + 1;
        }
        None
    }

    /// The row holding `id`, or nothing when the store has none.
    pub fn get(&self, id: i32) -> (r: Option<&User>)
        requires
            self@.wf(),
        ensures
            match r {
                Some(u) => self@.lookup(id as int) == Some(u@),
                None => self@.lookup(id as int) is None,
            },
    {
        match self.index_for(id) {
            Some(i) => Some(&self.rows[i]),
            None => None,
        }
    }

    /// Whether the store still has an id to assign; only a store that has
    /// assigned every positive id is exhausted.
    pub fn can_create(&self) -> (r: bool)
        ensures
            r == (self@.next_id < i32::MAX as int),
    {
        self.next_id < i32::MAX
    }

    /// Adds a row for the payload: the store assigns the next free id and
    /// records `now` as the creation instant. Returns the new row.
    pub fn create(&mut self, payload: &CreateUser, now: i64) -> (u: User)
        requires
            old(self)@.wf(),
            old(self)@.next_id < i32::MAX as int,
        ensures
            final(self)@ == old(self)@.after_create(payload@.username, payload@.email, now as int),
            final(self)@.wf(),
            u@ == old(self)@.created_row(payload@.username, payload@.email, now as int),
    {
        let row = User {
            id: self.next_id,
            username: payload.username.clone(),
            email: payload.email.clone(),
            created_at: now,
        };
        let result = row.clone();
        self.rows.push(row);
        self.next_id = self.next_id + 1;
        proof {
            let ghost post = old(self)@.after_create(payload@.username, payload@.email, now as int);
            assert(self@.rows =~= post.rows);
            assert(self@ =~= post);
            assert forall|i: int| 0 <= i < post.rows.len() implies 1 <= (
            #[trigger] post.rows[i]).id < post.next_id by {
                if i < post.rows.len() - 1 {
                    assert(old(self)@.rows[i] == post.rows[i]);
                }
            }
        }
        result
    }

    /// Overwrites `username` and `email` of the row holding `id`, leaving
    /// its `id` and `created_at` as they were, and returns the updated row;
    /// a missing id changes nothing and returns nothing.
    pub fn update(&mut self, id: i32, payload: &CreateUser) -> (r: Option<User>)
        requires
            old(self)@.wf(),
        ensures
            final(self)@ == old(self)@.after_update(id as int, payload@.username, payload@.email),
            final(self)@.wf(),
            match r {
                Some(u) => {
                    &&& old(self)@.contains_id(id as int)
                    &&& u@ == final(self)@.rows[old(self)@.index_of(id as int)]
                },
                None => !old(self)@.contains_id(id as int),
            },
    {
        match self.index_for(id) {
            Some(i) => {
                let created_at = self.rows[i].created_at;
                let row = User {
                    id,
                    username: payload.username.clone(),
                    email: payload.email.clone(),
                    created_at,
                };
                let result = row.clone();
                let _previous = self.rows.remove(i);
                self.rows.insert(i, row);
                proof {
                    let ghost post = old(self)@.after_update(
                        id as int,
                        payload@.username,
                        payload@.email,
                    );
                    assert(self@.rows =~= post.rows);
                    assert(self@ =~= post);
                    lemma_update_wf(old(self)@, id as int, payload@.username, payload@.email);
                }
                Some(result)
            },
            None => {
                None
            },
        }
    }

    /// Removes the row holding `id`, if any; removing a missing id is not
    /// an error and changes nothing.
    pub fn delete(&mut self, id: i32)
        requires
            old(self)@.wf(),
        ensures
            final(self)@ == old(self)@.after_delete(id as int),
            final(self)@.wf(),
    {
        match self.index_for(id) {
            Some(i) => {
                let _removed = self.rows.remove(i);
                proof {
                    let ghost post = old(self)@.after_delete(id as int);
                    assert(self@.rows =~= post.rows);
                    assert(self@ =~= post);
                    lemma_delete_wf(old(self)@, id as int);
                }
            },
            None => {
            },
        }
    }
}

/// An update keeps the store well formed: every id stays in place.
pub proof fn lemma_update_wf(s: StoreView, id: int, username: Seq<char>, email: Seq<char>)
    requires
        s.wf(),
    ensures
        s.after_update(id, username, email).wf(),
        s.after_update(id, username, email).rows.len() == s.rows.len(),
        forall|i: int|
            0 <= i < s.rows.len() ==> (#[trigger] s.after_update(
                id,
                username,
                email,
            ).rows[i]).id == s.rows[i].id,
{
    if s.contains_id(id) {
        let t = s.after_update(id, username, email);
        assert forall|i: int| 0 <= i < t.rows.len() implies (#[trigger] t.rows[i]).id
            == s.rows[i].id by {}
    }
}

/// A delete keeps the store well formed: what remains is a subsequence of
/// what was there.
pub proof fn lemma_delete_wf(s: StoreView, id: int)
    requires
        s.wf(),
    ensures
        s.after_delete(id).wf(),
{
    if s.contains_id(id) {
        let k = s.index_of(id);
        let t = s.after_delete(id);
        assert forall|i: int, j: int| 0 <= i < j < t.rows.len() implies (
        #[trigger] t.rows[i]).id != (#[trigger] t.rows[j]).id by {
            let i0 = if i < k { i } else { i + 1 };
            let j0 = if j < k { j } else { j + 1 };
            assert(t.rows[i] == s.rows[i0]);
            assert(t.rows[j] == s.rows[j0]);
        }
    }
}

} // verus!
