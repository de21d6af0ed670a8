use vstd::prelude::*;
use vstd::string::StrSliceExecFns;

use crate::error::{ErrorView, ResolveError};

verus! {

/// A relative specifier begins with `./` or `../`.
pub open spec fn is_relative_specifier(s: Seq<char>) -> bool {
    ||| (s.len() >= 2 && s[0] == '.' && s[1] == '/')
    ||| (s.len() >= 3 && s[0] == '.' && s[1] == '.' && s[2] == '/')
}

/// An absolute specifier begins with `/`.
pub open spec fn is_absolute_specifier(s: Seq<char>) -> bool {
    s.len() >= 1 && s[0] == '/'
}

/// Spec-level image of a classified request.
pub enum RequestView {
    Relative(Seq<char>),
    Absolute(Seq<char>),
    Bare(Seq<char>),
}

/// A specifier string categorized by its leading characters alone.
/// Classification is total for non-empty input and never touches the
/// filesystem; a bare (package-name) specifier is recognized but is not
/// resolved by this engine.
pub enum Request {
    Relative(String),
    Absolute(String),
    Bare(String),
}

impl View for Request {
    type V = RequestView;

    open spec fn view(&self) -> RequestView {
        match self {
            Request::Relative(s) => RequestView::Relative(s@),
            Request::Absolute(s) => RequestView::Absolute(s@),
            Request::Bare(s) => RequestView::Bare(s@),
        }
    }
}

/// What classification yields for every specifier: the empty string is
/// malformed; otherwise exactly one of the three kinds, by prefix.
pub open spec fn spec_classify(s: Seq<char>) -> Result<RequestView, ErrorView> {
    if s.len() == 0 {
        Err(ErrorView::MalformedSpecifier)
    } else if is_relative_specifier(s) {
        Ok(RequestView::Relative(s))
    } else if is_absolute_specifier(s) {
        Ok(RequestView::Absolute(s))
    } else {
        Ok(RequestView::Bare(s))
    }
}

pub open spec fn classify_view(r: Result<Request, ResolveError>) -> Result<
    RequestView,
    ErrorView,
> {
    match r {
        Ok(q) => Ok(q@),
        Err(e) => Err(e@),
    }
}

impl Request {
    /// Classify a raw specifier by its leading characters.
    pub fn parse(specifier: &str) -> (r: Result<Request, ResolveError>)
        ensures
            classify_view(r) == spec_classify(specifier@),
    {
        let n = specifier.unicode_len();
        if n == 0 {
            return Err(ResolveError::MalformedSpecifier);
        }
        let c0 = specifier.get_char(0);
        if c0 == '/' {
            return Ok(Request::Absolute(specifier.to_owned()));
        }
        if c0 == '.' {
            if n >= 2 && specifier.get_char(1) == '/' {
                return Ok(Request::Relative(specifier.to_owned()));
            }
            if n >= 3 && specifier.get_char(1) == '.' && specifier.get_char(2) == '/' {
                return Ok(Request::Relative(specifier.to_owned()));
            }
        }
        Ok(Request::Bare(specifier.to_owned()))
    }
}

} // verus!
