use vstd::prelude::*;
use crate::ids::fresh_id;

verus! {

/// The mathematical model of a user record: the identifier as a 128-bit
/// value and the textual fields as character sequences.
#[verifier::ext_equal]
pub ghost struct UserView {
    pub id: u128,
    pub name: Seq<char>,
    pub email: Seq<char>,
    pub age: u32,
}

/// A user record. The identifier is assigned once, at construction, and the
/// email is expected to be in canonical form when the record is stored.
#[derive(Debug, PartialEq, Eq)]
pub struct User {
    pub id: u128,
    pub name: String,
    pub email: String,
    pub age: u32,
}

impl View for User {
    type V = UserView;

    open spec fn view(&self) -> UserView {
        UserView { id: self.id, name: self.name@, email: self.email@, age: self.age }
    }
}

impl DeepView for User {
    type V = UserView;

    open spec fn deep_view(&self) -> UserView {
        self.view()
    }
}

impl Clone for User {
    /// A clone carries the same record.
    fn clone(&self) -> (r: Self)
        ensures
            r@ == self@,
    {
        User { id: self.id, name: self.name.clone(), email: self.email.clone(), age: self.age }
    }
}

impl User {
    /// Builds a record around a freshly drawn identifier; nothing is promised
    /// of the identifier itself, since the draw is random.
    pub fn new(name: String, email: String, age: u32) -> (r: Self)
        ensures
            r@.name == name@,
            r@.email == email@,
            r@.age == age,
    {
        User { id: fresh_id(), name, email, age }
    }

    /// A user is an adult exactly when at least eighteen years old.
    pub fn is_adult(&self) -> (r: bool)
        ensures
            r == (self.age >= 18),
    {
        self.age >= 18
    }

    pub fn update_name(&mut self, name: String)
        ensures
            final(self)@ == (UserView { name: name@, ..old(self)@ }),
    {
        self.name = name;
    }

    pub fn update_email(&mut self, email: String)
        ensures
            final(self)@ == (UserView { email: email@, ..old(self)@ }),
    {
        self.email = email;
    }

    pub fn update_age(&mut self, age: u32)
        ensures
            final(self)@ == (UserView { age, ..old(self)@ }),
    {
        self.age = age;
    }
}

} // verus!
