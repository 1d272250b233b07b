use vstd::prelude::*;

use crate::text::str_eq;

verus! {

/// The HTTP methods a request can have.
#[allow(non_camel_case_types, clippy::upper_case_acronyms)]
#[derive(Debug, Clone, Copy, PartialEq, Eq, Structural)]
pub enum METHODS {
    GET,
    POST,
    PUT,
    PATCH,
    DELETE,
    HEAD,
    OPTIONS,
}

/// The error for a text that names no method.
#[derive(Debug, Clone, Copy, PartialEq, Eq, Structural)]
pub struct UnknownMethod;

/// The method that a text names: its name written in capitals.
pub open spec fn method_named(s: Seq<char>) -> Option<METHODS> {
    if s == "GET"@ {
        Some(METHODS::GET)
    } else if s == "POST"@ {
        Some(METHODS::POST)
    } else if s == "PUT"@ {
        Some(METHODS::PUT)
    } else if s == "PATCH"@ {
        Some(METHODS::PATCH)
    } else if s == "DELETE"@ {
        Some(METHODS::DELETE)
    } else if s == "HEAD"@ {
        Some(METHODS::HEAD)
    } else if s == "OPTIONS"@ {
        Some(METHODS::OPTIONS)
    } else {
        None
    }
}

/// The name of a method, in capitals.
pub open spec fn method_name(m: METHODS) -> Seq<char> {
    match m {
        METHODS::GET => "GET"@,
        METHODS::POST => "POST"@,
        METHODS::PUT => "PUT"@,
        METHODS::PATCH => "PATCH"@,
        METHODS::DELETE => "DELETE"@,
        METHODS::HEAD => "HEAD"@,
        METHODS::OPTIONS => "OPTIONS"@,
    }
}

impl METHODS {
    /// Reads a method from its name.
    pub fn from_str(s: &str) -> (r: Result<METHODS, UnknownMethod>)
        ensures
            match r {
                Ok(m) => method_named(s@) == Some(m),
                Err(_) => method_named(s@) is None,
            },
    {
        if str_eq(s, "GET") {
            Ok(METHODS::GET)
        } else if str_eq(s, "POST") {
            Ok(METHODS::POST)
        } else if str_eq(s, "PUT") {
            Ok(METHODS::PUT)
        } else if str_eq(s, "PATCH") {
            Ok(METHODS::PATCH)
        } else if str_eq(s, "DELETE") {
            Ok(METHODS::DELETE)
        } else if str_eq(s, "HEAD") {
            Ok(METHODS::HEAD)
        } else if str_eq(s, "OPTIONS") {
            Ok(METHODS::OPTIONS)
        } else {
            Err(UnknownMethod)
        }
    }

    /// The name of the method, in capitals.
    pub fn as_str(&self) -> (r: &'static str)
        ensures
            r@ == method_name(*self),
    {
        match self {
            METHODS::GET => "GET",
            METHODS::POST => "POST",
            METHODS::PUT => "PUT",
            METHODS::PATCH => "PATCH",
            METHODS::DELETE => "DELETE",
            METHODS::HEAD => "HEAD",
            METHODS::OPTIONS => "OPTIONS",
        }
    }
}

/// Law: reading the name of a method gives the method back.
pub proof fn lemma_method_name_round_trip(m: METHODS)
    ensures
        method_named(method_name(m)) == Some(m),
{
    reveal_strlit("GET");
    reveal_strlit("POST");
    reveal_strlit("PUT");
    reveal_strlit("PATCH");
    reveal_strlit("DELETE");
    reveal_strlit("HEAD");
    reveal_strlit("OPTIONS");
    let names = seq!["GET"@, "POST"@, "PUT"@, "PATCH"@, "DELETE"@, "HEAD"@, "OPTIONS"@];
    assert forall|i: int, j: int| 0 <= i < j < 7 implies names[i] != names[j] by {
        if names[i].len() == names[j].len() {
            if names[i].len() == 3 {
                assert(names[i][0] != names[j][0]);
            } else if names[i].len() == 4 {
                assert(names[i][0] != names[j][0] || names[i][1] != names[j][1]);
            } else {
                assert(names[i][0] != names[j][0]);
            }
        }
    }
    assert(names[0] != names[2]);
    assert(names[1] != names[5]);
    assert(names[0] != names[3]);
}

} // verus!
