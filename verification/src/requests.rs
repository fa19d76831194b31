use vstd::prelude::*;
use vstd::string::StrSliceExecFns;
use crate::text::{str_contains_char, trim_str, trimmed};

verus! {

/// A name is acceptable when something is left of it after trimming and it
/// has at most one hundred characters.
pub open spec fn valid_name(s: Seq<char>) -> bool {
    trimmed(s).len() > 0 && s.len() <= 100
}

/// An email is acceptable when it mentions an '@' and its length lies
/// between five and two hundred fifty-five characters.
pub open spec fn valid_email(s: Seq<char>) -> bool {
    s.contains('@') && 5 <= s.len() <= 255
}

/// An age is acceptable up to one hundred fifty.
pub open spec fn valid_age(a: u32) -> bool {
    a <= 150
}

pub open spec fn valid_create(name: Seq<char>, email: Seq<char>, age: u32) -> bool {
    valid_name(name) && valid_email(email) && valid_age(age)
}

/// The message for an unacceptable name; the empty check wins over the
/// length check.
pub open spec fn name_error(s: Seq<char>) -> Seq<char> {
    if trimmed(s).len() == 0 {
        "Name cannot be empty"@
    } else {
        "Name cannot exceed 100 characters"@
    }
}

/// The message for an unacceptable email; the format check wins over the
/// upper length check.
pub open spec fn email_error(s: Seq<char>) -> Seq<char> {
    if !(s.contains('@') && s.len() >= 5) {
        "Invalid email format"@
    } else {
        "Email cannot exceed 255 characters"@
    }
}

/// The first failing rule's message for a creation request; meaningful only
/// when the request is not acceptable.
pub open spec fn create_error(name: Seq<char>, email: Seq<char>, age: u32) -> Seq<char> {
    if !valid_name(name) {
        name_error(name)
    } else if !valid_email(email) {
        email_error(email)
    } else {
        "Age must be realistic"@
    }
}

#[derive(Debug)]
pub struct CreateUserRequest {
    pub name: String,
    pub email: String,
    pub age: u32,
}

impl CreateUserRequest {
    /// Checks every field rule, failing fast with the first violation.
    pub fn validate(&self) -> (r: Result<(), String>)
        ensures
            r is Ok <==> valid_create(self.name@, self.email@, self.age),
            r matches Err(m) ==> m@ == create_error(self.name@, self.email@, self.age),
    {
        let name_trim = trim_str(self.name.as_str());
        if name_trim.is_empty() {
            return Err("Name cannot be empty".to_owned());
        }
        if self.name.as_str().unicode_len() > 100 {
            return Err("Name cannot exceed 100 characters".to_owned());
        }
        if !str_contains_char(self.email.as_str(), '@') || self.email.as_str().unicode_len() < 5 {
            return Err("Invalid email format".to_owned());
        }
        if self.email.as_str().unicode_len() > 255 {
            return Err("Email cannot exceed 255 characters".to_owned());
        }
        if self.age > 150 {
            return Err("Age must be realistic".to_owned());
        }
        Ok(())
    }
}

#[derive(Debug)]
pub struct UpdateUserRequest {
    pub name: Option<String>,
    pub email: Option<String>,
    pub age: Option<u32>,
}

impl UpdateUserRequest {
    /// Every present field meets its rule; absent fields are not judged.
    pub open spec fn valid(&self) -> bool {
        &&& match self.name {
            Some(n) => valid_name(n@),
            None => true,
        }
        &&& match self.email {
            Some(e) => valid_email(e@),
            None => true,
        }
        &&& match self.age {
            Some(a) => valid_age(a),
            None => true,
        }
    }

    /// The first failing rule's message; meaningful only when invalid.
    pub open spec fn error_msg(&self) -> Seq<char> {
        if (match self.name {
            Some(n) => !valid_name(n@),
            None => false,
        }) {
            name_error(self.name->0@)
        } else if (match self.email {
            Some(e) => !valid_email(e@),
            None => false,
        }) {
            email_error(self.email->0@)
        } else {
            "Age must be realistic"@
        }
    }

    /// Checks the rules on whichever fields are present, failing fast.
    pub fn validate(&self) -> (r: Result<(), String>)
        ensures
            r is Ok <==> self.valid(),
            r matches Err(m) ==> m@ == self.error_msg(),
    {
        match &self.name {
            Some(name) => {
                let name_trim = trim_str(name.as_str());
                if name_trim.is_empty() {
                    return Err("Name cannot be empty".to_owned());
                }
                if name.as_str().unicode_len() > 100 {
                    return Err("Name cannot exceed 100 characters".to_owned());
                }
            },
            None => {},
        }
        match &self.email {
            Some(email) => {
                if !str_contains_char(email.as_str(), '@') || email.as_str().unicode_len() < 5 {
                    return Err("Invalid email format".to_owned());
                }
                if email.as_str().unicode_len() > 255 {
                    return Err("Email cannot exceed 255 characters".to_owned());
                }
            },
            None => {},
        }
        match self.age {
            Some(age) => {
                if age > 150 {
                    return Err("Age must be realistic".to_owned());
                }
            },
            None => {},
        }
        Ok(())
    }

    /// At least one field is present.
    pub open spec fn has_any(&self) -> bool {
        self.name is Some || self.email is Some || self.age is Some
    }

    /// True exactly when at least one field is present.
    pub fn has_updates(&self) -> (r: bool)
        ensures
            r == self.has_any(),
    {
        self.name.is_some() || self.email.is_some() || self.age.is_some()
    }
}

/// The effective page size: the given limit clamped to one hundred, or ten
/// when none was given.
pub open spec fn effective_limit(limit: Option<usize>) -> usize {
    match limit {
        Some(l) => if l <= 100 {
            l
        } else {
            100
        },
        None => 10,
    }
}

/// The effective page start: the given offset, or zero when none was given.
pub open spec fn effective_offset(offset: Option<usize>) -> usize {
    match offset {
        Some(o) => o,
        None => 0,
    }
}

#[derive(Debug)]
pub struct ListUsersQuery {
    pub limit: Option<usize>,
    pub offset: Option<usize>,
}

impl Default for ListUsersQuery {
    /// The default query asks for the first ten users.
    fn default() -> (r: Self)
        ensures
            r.limit == Some(10usize),
            r.offset == Some(0usize),
    {
        ListUsersQuery { limit: Some(10), offset: Some(0) }
    }
}

impl ListUsersQuery {
    /// A present limit must lie between one and one hundred; any offset is
    /// acceptable.
    pub open spec fn valid(&self) -> bool {
        match self.limit {
            Some(l) => 1 <= l <= 100,
            None => true,
        }
    }

    pub fn validate(&self) -> (r: Result<(), String>)
        ensures
            r is Ok <==> self.valid(),
            r matches Err(m) ==> m@ == "Limit must be between 1 and 100"@,
    {
        match self.limit {
            Some(l) => {
                if l == 0 || l > 100 {
                    return Err("Limit must be between 1 and 100".to_owned());
                }
            },
            None => {},
        }
        Ok(())
    }

    /// The requested page size, clamped defensively even when validation was
    /// bypassed.
    pub fn get_limit(&self) -> (r: usize)
        ensures
            r == effective_limit(self.limit),
    {
        match self.limit {
            Some(l) => if l <= 100 {
                l
            } else {
                100
            },
            None => 10,
        }
    }

    pub fn get_offset(&self) -> (r: usize)
        ensures
            r == effective_offset(self.offset),
    {
        match self.offset {
            Some(o) => o,
            None => 0,
        }
    }
}

} // verus!
