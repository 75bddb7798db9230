//! The fixed enumeration of request methods.

use vstd::prelude::*;

use crate::text::{is_ws_char, str_eq};

verus! {

/// The methods the request-line parser accepts.  A method token must match
/// one of the canonical names below exactly (case-sensitively).
#[derive(Clone, Copy, Debug, PartialEq, Eq, Structural)]
pub enum Method {
    Get,
    Head,
    Post,
    Put,
    Delete,
    Connect,
    Options,
    Trace,
    Patch,
}

/// The method named by `s`, if any.
pub open spec fn spec_method_of(s: Seq<char>) -> Option<Method> {
    if s == "GET"@ {
        Some(Method::Get)
    } else if s == "HEAD"@ {
        Some(Method::Head)
    } else if s == "POST"@ {
        Some(Method::Post)
    } else if s == "PUT"@ {
        Some(Method::Put)
    } else if s == "DELETE"@ {
        Some(Method::Delete)
    } else if s == "CONNECT"@ {
        Some(Method::Connect)
    } else if s == "OPTIONS"@ {
        Some(Method::Options)
    } else if s == "TRACE"@ {
        Some(Method::Trace)
    } else if s == "PATCH"@ {
        Some(Method::Patch)
    } else {
        None
    }
}

/// The canonical name of a method.
pub open spec fn spec_method_name(m: Method) -> Seq<char> {
    match m {
        Method::Get => "GET"@,
        Method::Head => "HEAD"@,
        Method::Post => "POST"@,
        Method::Put => "PUT"@,
        Method::Delete => "DELETE"@,
        Method::Connect => "CONNECT"@,
        Method::Options => "OPTIONS"@,
        Method::Trace => "TRACE"@,
        Method::Patch => "PATCH"@,
    }
}

/// A method's canonical name parses back to that method, and is a
/// non-empty token free of whitespace — fit to stand first on a request
/// line.
pub proof fn lemma_method_name_roundtrip(m: Method)
    ensures
        spec_method_of(spec_method_name(m)) == Some(m),
        spec_method_name(m).len() > 0,
        forall|k: int| 0 <= k < spec_method_name(m).len() ==> !is_ws_char(spec_method_name(m)[k]),
{
    reveal_strlit("GET");
    reveal_strlit("HEAD");
    reveal_strlit("POST");
    reveal_strlit("PUT");
    reveal_strlit("DELETE");
    reveal_strlit("CONNECT");
    reveal_strlit("OPTIONS");
    reveal_strlit("TRACE");
    reveal_strlit("PATCH");
    assert(("GET"@).len() == 3 && ("GET"@)[0] == 'G');
    assert(("HEAD"@).len() == 4 && ("HEAD"@)[0] == 'H');
    assert(("POST"@).len() == 4 && ("POST"@)[0] == 'P');
    assert(("PUT"@).len() == 3 && ("PUT"@)[0] == 'P');
    assert(("DELETE"@).len() == 6 && ("DELETE"@)[0] == 'D');
    assert(("CONNECT"@).len() == 7 && ("CONNECT"@)[0] == 'C');
    assert(("OPTIONS"@).len() == 7 && ("OPTIONS"@)[0] == 'O');
    assert(("TRACE"@).len() == 5 && ("TRACE"@)[0] == 'T');
    assert(("PATCH"@).len() == 5 && ("PATCH"@)[0] == 'P');
    match m {
        Method::Get => assert(spec_method_of("GET"@) == Some(Method::Get)),
        Method::Head => assert(spec_method_of("HEAD"@) == Some(Method::Head)),
        Method::Post => assert(spec_method_of("POST"@) == Some(Method::Post)),
        Method::Put => assert(spec_method_of("PUT"@) == Some(Method::Put)),
        Method::Delete => assert(spec_method_of("DELETE"@) == Some(Method::Delete)),
        Method::Connect => assert(spec_method_of("CONNECT"@) == Some(Method::Connect)),
        Method::Options => assert(spec_method_of("OPTIONS"@) == Some(Method::Options)),
        Method::Trace => assert(spec_method_of("TRACE"@) == Some(Method::Trace)),
        Method::Patch => assert(spec_method_of("PATCH"@) == Some(Method::Patch)),
    }
}

/// The empty token names no method: every canonical name is non-empty.
pub proof fn lemma_empty_token_names_no_method()
    ensures
        spec_method_of(Seq::empty()) is None,
{
    reveal_strlit("GET");
    reveal_strlit("HEAD");
    reveal_strlit("POST");
    reveal_strlit("PUT");
    reveal_strlit("DELETE");
    reveal_strlit("CONNECT");
    reveal_strlit("OPTIONS");
    reveal_strlit("TRACE");
    reveal_strlit("PATCH");
    assert(("GET"@).len() == 3);
    assert(("HEAD"@).len() == 4);
    assert(("POST"@).len() == 4);
    assert(("PUT"@).len() == 3);
    assert(("DELETE"@).len() == 6);
    assert(("CONNECT"@).len() == 7);
    assert(("OPTIONS"@).len() == 7);
    assert(("TRACE"@).len() == 5);
    assert(("PATCH"@).len() == 5);
}

impl Method {
    /// Parse a method token.  Returns `None` when the token names no
    /// method of the enumeration.
    pub fn from_name(s: &str) -> (r: Option<Method>)
        ensures
            r == spec_method_of(s@),
    {
        if str_eq(s, "GET") {
            Some(Method::Get)
        } else if str_eq(s, "HEAD") {
            Some(Method::Head)
        } else if str_eq(s, "POST") {
            Some(Method::Post)
        } else if str_eq(s, "PUT") {
            Some(Method::Put)
        } else if str_eq(s, "DELETE") {
            Some(Method::Delete)
        } else if str_eq(s, "CONNECT") {
            Some(Method::Connect)
        } else if str_eq(s, "OPTIONS") {
            Some(Method::Options)
        } else if str_eq(s, "TRACE") {
            Some(Method::Trace)
        } else if str_eq(s, "PATCH") {
            Some(Method::Patch)
        } else {
            None
        }
    }

    /// The canonical name of this method.
    pub fn name(self) -> (r: &'static str)
        ensures
            r@ == spec_method_name(self),
    {
        match self {
            Method::Get => "GET",
            Method::Head => "HEAD",
            Method::Post => "POST",
            Method::Put => "PUT",
            Method::Delete => "DELETE",
            Method::Connect => "CONNECT",
            Method::Options => "OPTIONS",
            Method::Trace => "TRACE",
            Method::Patch => "PATCH",
        }
    }
}

} // verus!
