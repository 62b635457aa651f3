//! The data model: a persisted user row and the transient payload that
//! creates or updates one.

use vstd::prelude::*;

verus! {

/// A persisted account row. The store assigns `id` and `created_at` at
/// creation and never changes them; `username` and `email` are set at
/// creation and may be overwritten by an update. The creation instant is
/// held as microseconds since the Unix epoch, so that contracts can speak
/// of it as a plain integer.
#[derive(Debug)]
pub struct User {
    pub id: i32,
    pub username: String,
    pub email: String,
    pub created_at: i64,
}

/// The mathematical image of a `User`: each field as an unbounded value.
pub ghost struct UserView {
    pub id: int,
    pub username: Seq<char>,
    pub email: Seq<char>,
    pub created_at: int,
}

impl View for User {
    type V = UserView;

    open spec fn view(&self) -> UserView {
        UserView {
            id: self.id as int,
            username: self.username@,
            email: self.email@,
            created_at: self.created_at as int,
        }
    }
}

impl Clone for User {
    fn clone(&self) -> (r: Self)
        ensures
            r == *self,
    {
        User {
            id: self.id,
            username: self.username.clone(),
            email: self.email.clone(),
            created_at: self.created_at,
        }
    }
}

/// The input shape for the create and update operations: both texts are
/// required; nothing further is validated at this layer.
#[derive(Debug)]
pub struct CreateUser {
    pub username: String,
    pub email: String,
}

/// The mathematical image of a `CreateUser` payload.
pub ghost struct CreateUserView {
    pub username: Seq<char>,
    pub email: Seq<char>,
}

impl View for CreateUser {
    type V = CreateUserView;

    open spec fn view(&self) -> CreateUserView {
        CreateUserView { username: self.username@, email: self.email@ }
    }
}

impl Clone for CreateUser {
    fn clone(&self) -> (r: Self)
        ensures
            r == *self,
    {
        CreateUser { username: self.username.clone(), email: self.email.clone() }
    }
}

/// The images of a sequence of rows, in the same order.
pub open spec fn views_of(rows: Seq<User>) -> Seq<UserView> {
    rows.map_values(|u: User| u@)
}

} // verus!
