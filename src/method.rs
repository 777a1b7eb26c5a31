//! Request methods known to the router.
use vstd::prelude::*;
use crate::text::str_eq;

verus! {

#[derive(Clone, Copy, Debug, PartialEq, Eq, Structural, Hash)]
pub enum Method {
    Get,
    Post,
    Update,
    Delete,
}

/// The method a method name stands for.
pub open spec fn method_named(s: Seq<char>) -> Option<Method> {
    if s == "GET"@ {
        Some(Method::Get)
    } else if s == "POST"@ {
        Some(Method::Post)
    } else if s == "UPDATE"@ {
        Some(Method::Update)
    } else if s == "DELETE"@ {
        Some(Method::Delete)
    } else {
        None
    }
}

impl Method {
    /// The method named `s`, in capitals; any other name is refused.
    pub fn from_str(s: &str) -> (r: Result<Method, ()>)
        ensures
            r matches Ok(m) ==> method_named(s@) == Some(m),
            r is Err ==> method_named(s@) is None,
    {
        if str_eq(s, "GET") {
            Ok(Method::Get)
        } else if str_eq(s, "POST") {
            Ok(Method::Post)
        } else if str_eq(s, "UPDATE") {
            Ok(Method::Update)
        } else if str_eq(s, "DELETE") {
            Ok(Method::Delete)
        } else {
            Err(())
        }
    }
}

} // verus!
