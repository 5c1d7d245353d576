//! The requests and replies that processes exchange.
use vstd::prelude::*;

verus! {

/// A parameter of a request.
#[derive(Debug, Clone, PartialEq, Eq)]
pub enum ParamValue {
    /// A text.
    Text(String),
    /// A number.
    Integer(i64),
    /// A truth value.
    Boolean(bool),
    /// Anything else.
    Other,
}

impl ParamValue {
    /// The text that this is, where it is one.
    pub open spec fn text(self) -> Option<Seq<char>> {
        match self {
            ParamValue::Text(s) => Some(s@),
            _ => None,
        }
    }
}

/// A request: a command and its parameters.
#[derive(Debug, Clone, PartialEq, Eq)]
pub struct Request {
    pub cmd: String,
    pub param: Vec<ParamValue>,
}

impl Request {
    /// The text at place `i` of the parameters, where there is one.
    pub open spec fn text_at(self, i: int) -> Option<Seq<char>> {
        if 0 <= i < self.param.len() {
            self.param[i].text()
        } else {
            None
        }
    }

    /// The text at place `i` of the parameters, where there is one.
    pub fn param_text(&self, i: usize) -> (r: Option<&str>)
        ensures
            crate::config::opt_view(r) == self.text_at(i as int),
    {
        if i < self.param.len() {
            match &self.param[i] {
                ParamValue::Text(s) => Some(s.as_str()),
                _ => None,
            }
        } else {
            None
        }
    }
}

/// The reply to a request that is refused.
#[derive(Debug, Clone, PartialEq, Eq)]
pub struct ErrResponse {
    /// The error's number.
    pub err: u32,
    pub message: String,
    pub stack: Option<String>,
}

/// A parameter is handed out as text where it is one, by its place.
pub proof fn law_text_parameters(request: &Request, i: usize, r: Option<&str>)
    requires
        call_ensures(Request::param_text, (request, i), r),
    ensures
        i >= request.param.len() ==> r is None,
        i < request.param.len() ==> match request.param[i as int] {
            ParamValue::Text(s) => r is Some && r.unwrap()@ == s@,
            _ => r is None,
        },
{
}

}
