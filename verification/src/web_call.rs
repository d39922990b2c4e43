//! Tools that make an HTTP request.
use vstd::prelude::*;

use crate::json::{text_view, Json};
use crate::process::filled_in;
use crate::template::{argument_pairs, argument_texts, pairs_view, substitute, Escape};
use crate::text::{same, to_uppercase, uppercased};

verus! {

/// The method of a request.
#[derive(Debug, Clone, Copy, PartialEq, Eq, Structural)]
pub enum Method {
    Get,
    Delete,
    Put,
    Post,
}

/// The method that a word in upper case names; POST where it names none.
pub open spec fn method_named(upper: Seq<char>) -> Method {
    if upper == "GET"@ {
        Method::Get
    } else if upper == "DELETE"@ {
        Method::Delete
    } else if upper == "PUT"@ {
        Method::Put
    } else {
        Method::Post
    }
}

/// Where the arguments go.
pub enum Payload {
    /// Into the query, name by name.
    Query(Vec<(String, String)>),
    /// Into the body, as JSON.
    Body,
}

/// A request to send.
pub struct Request {
    pub method: Method,
    pub url: String,
    pub payload: Payload,
}

/// The method that a word in upper case names.
pub fn method_of(upper: &str) -> (r: Method)
    ensures
        r == method_named(upper@),
{
    if same(upper, "GET") {
        Method::Get
    } else if same(upper, "DELETE") {
        Method::Delete
    } else if same(upper, "PUT") {
        Method::Put
    } else {
        Method::Post
    }
}

/// The method that is asked for: POST by default.
pub open spec fn method_asked(method: Option<Seq<char>>) -> Method {
    match method {
        Some(m) => method_named(uppercased(m)),
        None => Method::Post,
    }
}

/// Plans a request: placeholders in the URL are filled in; the arguments are
/// sent as the query of GET and DELETE requests and as the body of others.
pub fn plan_request(url: &str, method: Option<&str>, arguments: &Json) -> (r: Request)
    ensures
        r.method == method_asked(text_view(method)),
        r.url@ == filled_in(url@, arguments@, Escape::Verbatim),
        match r.payload {
            Payload::Query(pairs) => (r.method is Get || r.method is Delete) && pairs_view(pairs@) == argument_texts(
                arguments@,
            ),
            Payload::Body => r.method is Put || r.method is Post,
        },
{
    let method = match method {
        Some(m) => method_of(to_uppercase(m).as_str()),
        None => Method::Post,
    };
    let payload = match method {
        Method::Get => Payload::Query(argument_pairs(arguments)),
        Method::Delete => Payload::Query(argument_pairs(arguments)),
        Method::Put => Payload::Body,
        Method::Post => Payload::Body,
    };
    Request { method, url: substitute(url, arguments), payload }
}

/// What a response gives: its body, or an error with the status.
pub fn response_result(success: bool, status: &str, body: String) -> (r: Result<String, String>)
    ensures
        match r {
            Ok(t) => success && t@ == body@,
            Err(e) => !success && e@ == "HTTP "@ + status@ + ": "@ + body@,
        },
{
    if success {
        Ok(body)
    } else {
        let mut e = "HTTP ".to_owned();
        e.push_str(status);
        e.push_str(": ");
        e.push_str(body.as_str());
        Err(e)
    }
}

/// Each method has its word, in whatever case; without a word, or with
/// another, a request is a POST.
pub proof fn law_words_name_their_methods(word: Seq<char>)
    ensures
        uppercased(word) == "GET"@ ==> method_asked(Some(word)) is Get,
        uppercased(word) == "DELETE"@ ==> method_asked(Some(word)) is Delete,
        uppercased(word) == "PUT"@ ==> method_asked(Some(word)) is Put,
        uppercased(word) == "POST"@ ==> method_asked(Some(word)) is Post,
        uppercased(word) != "GET"@ && uppercased(word) != "DELETE"@ && uppercased(word) != "PUT"@
            ==> method_asked(Some(word)) is Post,
        method_asked(None) is Post,
{
    reveal_strlit("GET");
    reveal_strlit("DELETE");
    reveal_strlit("PUT");
    reveal_strlit("POST");
    assert("GET"@.len() == 3 && "DELETE"@.len() == 6 && "PUT"@.len() == 3 && "POST"@.len() == 4);
    assert("GET"@[0] == 'G' && "PUT"@[0] == 'P');
}

} // verus!
