//! HTTP request methods.

use crate::text::text_eq;
use vstd::prelude::*;
use vstd::string::*;

verus! {

/// An HTTP request method.
#[derive(Debug, PartialEq, Eq)]
pub enum Method {
    Options,
    Get,
    Post,
    Put,
    Delete,
    Head,
    Trace,
    Connect,
    Patch,
    /// A method that is none of the above, by its name.
    Extension(String),
}

/// The mathematical value of a [`Method`].
pub enum MethodView {
    Options,
    Get,
    Post,
    Put,
    Delete,
    Head,
    Trace,
    Connect,
    Patch,
    Extension(Seq<char>),
}

impl View for Method {
    type V = MethodView;

    open spec fn view(&self) -> MethodView {
        match *self {
            Method::Options => MethodView::Options,
            Method::Get => MethodView::Get,
            Method::Post => MethodView::Post,
            Method::Put => MethodView::Put,
            Method::Delete => MethodView::Delete,
            Method::Head => MethodView::Head,
            Method::Trace => MethodView::Trace,
            Method::Connect => MethodView::Connect,
            Method::Patch => MethodView::Patch,
            Method::Extension(s) => MethodView::Extension(s@),
        }
    }
}

/// The name of a method as it stands on the wire.
pub open spec fn method_name(m: MethodView) -> Seq<char> {
    match m {
        MethodView::Options => "OPTIONS"@,
        MethodView::Get => "GET"@,
        MethodView::Post => "POST"@,
        MethodView::Put => "PUT"@,
        MethodView::Delete => "DELETE"@,
        MethodView::Head => "HEAD"@,
        MethodView::Trace => "TRACE"@,
        MethodView::Connect => "CONNECT"@,
        MethodView::Patch => "PATCH"@,
        MethodView::Extension(s) => s,
    }
}

/// The method that a name on the wire stands for.
pub open spec fn method_named(name: Seq<char>) -> MethodView {
    if name == "OPTIONS"@ {
        MethodView::Options
    } else if name == "GET"@ {
        MethodView::Get
    } else if name == "POST"@ {
        MethodView::Post
    } else if name == "PUT"@ {
        MethodView::Put
    } else if name == "DELETE"@ {
        MethodView::Delete
    } else if name == "HEAD"@ {
        MethodView::Head
    } else if name == "TRACE"@ {
        MethodView::Trace
    } else if name == "CONNECT"@ {
        MethodView::Connect
    } else if name == "PATCH"@ {
        MethodView::Patch
    } else {
        MethodView::Extension(name)
    }
}

/// A simple method needs no CORS preflight: `GET`, `HEAD` or `POST`.
pub open spec fn is_simple_method(m: MethodView) -> bool {
    m is Get || m is Head || m is Post
}

impl Clone for Method {
    fn clone(&self) -> (r: Self)
        ensures
            r@ == self@,
    {
        match self {
            Method::Options => Method::Options,
            Method::Get => Method::Get,
            Method::Post => Method::Post,
            Method::Put => Method::Put,
            Method::Delete => Method::Delete,
            Method::Head => Method::Head,
            Method::Trace => Method::Trace,
            Method::Connect => Method::Connect,
            Method::Patch => Method::Patch,
            Method::Extension(s) => Method::Extension(s.clone()),
        }
    }
}

impl Method {
    /// The method that `name` stands for: one of the nine standard methods
    /// where the name is exactly theirs, an extension method otherwise.
    pub fn from_name(name: &str) -> (r: Method)
        ensures
            r@ == method_named(name@),
    {
        if text_eq(name, "OPTIONS") {
            Method::Options
        } else if text_eq(name, "GET") {
            Method::Get
        } else if text_eq(name, "POST") {
            Method::Post
        } else if text_eq(name, "PUT") {
            Method::Put
        } else if text_eq(name, "DELETE") {
            Method::Delete
        } else if text_eq(name, "HEAD") {
            Method::Head
        } else if text_eq(name, "TRACE") {
            Method::Trace
        } else if text_eq(name, "CONNECT") {
            Method::Connect
        } else if text_eq(name, "PATCH") {
            Method::Patch
        } else {
            Method::Extension(name.to_owned())
        }
    }

    /// The name of the method as it stands on the wire.
    pub fn name(&self) -> (r: String)
        ensures
            r@ == method_name(self@),
    {
        match self {
            Method::Options => "OPTIONS".to_owned(),
            Method::Get => "GET".to_owned(),
            Method::Post => "POST".to_owned(),
            Method::Put => "PUT".to_owned(),
            Method::Delete => "DELETE".to_owned(),
            Method::Head => "HEAD".to_owned(),
            Method::Trace => "TRACE".to_owned(),
            Method::Connect => "CONNECT".to_owned(),
            Method::Patch => "PATCH".to_owned(),
            Method::Extension(s) => s.clone(),
        }
    }

    /// Whether this method and `other` are the same method.
    pub fn same(&self, other: &Method) -> (r: bool)
        ensures
            r == (self@ == other@),
    {
        match (self, other) {
            (Method::Options, Method::Options) => true,
            (Method::Get, Method::Get) => true,
            (Method::Post, Method::Post) => true,
            (Method::Put, Method::Put) => true,
            (Method::Delete, Method::Delete) => true,
            (Method::Head, Method::Head) => true,
            (Method::Trace, Method::Trace) => true,
            (Method::Connect, Method::Connect) => true,
            (Method::Patch, Method::Patch) => true,
            (Method::Extension(a), Method::Extension(b)) => *a == *b,
            _ => false,
        }
    }

    /// Whether this is a simple method: `GET`, `HEAD` or `POST`.
    pub fn is_simple(&self) -> (r: bool)
        ensures
            r == is_simple_method(self@),
    {
        match self {
            Method::Get | Method::Head | Method::Post => true,
            _ => false,
        }
    }
}

/// Naming a standard method and reading the name back gives the method.
pub proof fn law_method_names_round_trip(m: MethodView)
    requires
        !(m is Extension),
    ensures
        method_named(method_name(m)) == m,
{
    reveal_strlit("OPTIONS");
    reveal_strlit("GET");
    reveal_strlit("POST");
    reveal_strlit("PUT");
    reveal_strlit("DELETE");
    reveal_strlit("HEAD");
    reveal_strlit("TRACE");
    reveal_strlit("CONNECT");
    reveal_strlit("PATCH");
    let n = method_name(m);
    if m is Get {
        assert(n.len() == 3);
        assert(n[0] == 'G');
    }
    if m is Put {
        assert(n.len() == 3);
        assert(n[0] == 'P');
    }
    if m is Post {
        assert(n.len() == 4);
        assert(n[0] == 'P');
    }
    if m is Head {
        assert(n.len() == 4);
        assert(n[0] == 'H');
    }
    if m is Trace {
        assert(n.len() == 5);
        assert(n[0] == 'T');
    }
    if m is Patch {
        assert(n.len() == 5);
        assert(n[0] == 'P');
    }
    if m is Delete {
        assert(n.len() == 6);
    }
    if m is Options {
        assert(n.len() == 7);
        assert(n[0] == 'O');
    }
    if m is Connect {
        assert(n.len() == 7);
        assert(n[0] == 'C');
    }
}

} // verus!
