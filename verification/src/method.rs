//! The HTTP methods.

use crate::text::same_text;
use vstd::prelude::*;

verus! {

/// The HTTP methods that a path can bind a handler to.
#[derive(Debug, Clone, Copy, PartialEq, Eq, Structural)]
pub enum HttpMethod {
    Get,
    Put,
    Post,
    Delete,
    Options,
    Head,
    Patch,
    Trace,
}

/// The name of a method as a route declaration writes it, in lower case.
pub open spec fn method_name(method: HttpMethod) -> Seq<char> {
    match method {
        HttpMethod::Get => "get"@,
        HttpMethod::Put => "put"@,
        HttpMethod::Post => "post"@,
        HttpMethod::Delete => "delete"@,
        HttpMethod::Options => "options"@,
        HttpMethod::Head => "head"@,
        HttpMethod::Patch => "patch"@,
        HttpMethod::Trace => "trace"@,
    }
}

/// The method that is written `name`, if there is one.
pub open spec fn method_named(name: Seq<char>) -> Option<HttpMethod> {
    if name == "get"@ {
        Some(HttpMethod::Get)
    } else if name == "put"@ {
        Some(HttpMethod::Put)
    } else if name == "post"@ {
        Some(HttpMethod::Post)
    } else if name == "delete"@ {
        Some(HttpMethod::Delete)
    } else if name == "options"@ {
        Some(HttpMethod::Options)
    } else if name == "head"@ {
        Some(HttpMethod::Head)
    } else if name == "patch"@ {
        Some(HttpMethod::Patch)
    } else if name == "trace"@ {
        Some(HttpMethod::Trace)
    } else {
        None
    }
}

/// The eight methods in the order in which a path item lists them.
pub open spec fn methods_in_order() -> Seq<HttpMethod> {
    seq![
        HttpMethod::Get,
        HttpMethod::Put,
        HttpMethod::Post,
        HttpMethod::Delete,
        HttpMethod::Options,
        HttpMethod::Head,
        HttpMethod::Patch,
        HttpMethod::Trace,
    ]
}

/// The position of a method in [`methods_in_order`].
pub open spec fn method_index(method: HttpMethod) -> nat {
    match method {
        HttpMethod::Get => 0,
        HttpMethod::Put => 1,
        HttpMethod::Post => 2,
        HttpMethod::Delete => 3,
        HttpMethod::Options => 4,
        HttpMethod::Head => 5,
        HttpMethod::Patch => 6,
        HttpMethod::Trace => 7,
    }
}

/// Each method is the one that its name names.
pub proof fn lemma_method_named_its_name(method: HttpMethod)
    ensures
        method_named(method_name(method)) == Some(method),
{
    reveal_strlit("get");
    reveal_strlit("put");
    reveal_strlit("post");
    reveal_strlit("delete");
    reveal_strlit("options");
    reveal_strlit("head");
    reveal_strlit("patch");
    reveal_strlit("trace");
    let n = method_name(method);
    match method {
        HttpMethod::Get => {},
        HttpMethod::Put => {
            assert(n[0] == 'p' && n[1] == 'u');
        },
        HttpMethod::Post => {
            assert(n[0] == 'p' && n[1] == 'o');
        },
        HttpMethod::Delete => {
            assert(n[0] == 'd');
        },
        HttpMethod::Options => {
            assert(n[0] == 'o');
        },
        HttpMethod::Head => {
            assert(n[0] == 'h');
        },
        HttpMethod::Patch => {
            assert(n[0] == 'p' && n[1] == 'a');
        },
        HttpMethod::Trace => {
            assert(n[0] == 't');
        },
    }
}

impl HttpMethod {
    /// The name of the method as a route declaration writes it.
    pub fn name(&self) -> (r: &'static str)
        ensures
            r@ == method_name(*self),
    {
        match self {
            HttpMethod::Get => "get",
            HttpMethod::Put => "put",
            HttpMethod::Post => "post",
            HttpMethod::Delete => "delete",
            HttpMethod::Options => "options",
            HttpMethod::Head => "head",
            HttpMethod::Patch => "patch",
            HttpMethod::Trace => "trace",
        }
    }

    /// Whether `other` is the name of this method.  Names are in lower
    /// case: `GET` names no method.
    pub fn eq_name(&self, other: &str) -> (r: bool)
        ensures
            r == (other@ == method_name(*self)),
    {
        same_text(other, self.name())
    }

    /// The method that is written `name`.
    pub fn from_name(name: &str) -> (r: Option<HttpMethod>)
        ensures
            r == method_named(name@),
    {
        if same_text(name, "get") {
            Some(HttpMethod::Get)
        } else if same_text(name, "put") {
            Some(HttpMethod::Put)
        } else if same_text(name, "post") {
            Some(HttpMethod::Post)
        } else if same_text(name, "delete") {
            Some(HttpMethod::Delete)
        } else if same_text(name, "options") {
            Some(HttpMethod::Options)
        } else if same_text(name, "head") {
            Some(HttpMethod::Head)
        } else if same_text(name, "patch") {
            Some(HttpMethod::Patch)
        } else if same_text(name, "trace") {
            Some(HttpMethod::Trace)
        } else {
            None
        }
    }

    /// The eight methods in the order in which a path item lists them.
    pub fn all() -> (r: [HttpMethod; 8])
        ensures
            r@ == methods_in_order(),
    {
        let r = [
            HttpMethod::Get,
            HttpMethod::Put,
            HttpMethod::Post,
            HttpMethod::Delete,
            HttpMethod::Options,
            HttpMethod::Head,
            HttpMethod::Patch,
            HttpMethod::Trace,
        ];
        assert(r@ =~= methods_in_order());
        r
    }
}

} // verus!
