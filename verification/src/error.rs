use vstd::prelude::*;

verus! {

/// Spec-level image of a terminal resolution error.
pub enum ErrorView {
    MalformedSpecifier,
    UnsupportedRequest,
    ManifestError { path: Seq<char>, message: Seq<char> },
    NotFound,
}

/// The terminal error kinds of the resolution engine.
///
/// A broken manifest (`ManifestError`) is kept strictly distinct from an
/// absent file (`NotFound`): the former carries the offending manifest path
/// and the parser's own description of the failure.
#[derive(Debug, Clone, PartialEq, Eq)]
pub enum ResolveError {
    /// The specifier cannot be classified (it is empty).
    MalformedSpecifier,
    /// The specifier classifies to a kind outside the engine's scope
    /// (a bare package name).
    UnsupportedRequest,
    /// A package manifest exists but cannot be parsed.
    ManifestError { path: String, message: String },
    /// Every probe step ran and none matched, and no manifest error
    /// occurred along the way.
    NotFound,
}

impl View for ResolveError {
    type V = ErrorView;

    open spec fn view(&self) -> ErrorView {
        match self {
            ResolveError::MalformedSpecifier => ErrorView::MalformedSpecifier,
            ResolveError::UnsupportedRequest => ErrorView::UnsupportedRequest,
            ResolveError::ManifestError { path, message } => ErrorView::ManifestError {
                path: path@,
                message: message@,
            },
            ResolveError::NotFound => ErrorView::NotFound,
        }
    }
}

/// The outcome of a whole resolution, as the contracts state it.
pub open spec fn outcome_view(r: Result<String, ResolveError>) -> Result<Seq<char>, ErrorView> {
    match r {
        Ok(p) => Ok(p@),
        Err(e) => Err(e@),
    }
}

/// The outcome of a single probe step, as the contracts state it.
pub open spec fn state_view(r: Result<Option<String>, ResolveError>) -> Result<
    Option<Seq<char>>,
    ErrorView,
> {
    match r {
        Ok(o) => Ok(o.deep_view()),
        Err(e) => Err(e@),
    }
}

} // verus!
