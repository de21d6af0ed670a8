//! A module-specifier resolution engine in the style of the Node.js
//! `require` algorithm, together with two small source-level checks
//! (import ordering and `autocomplete` attribute validity).
//!
//! The engine works against an explicit in-memory filesystem value, so
//! every step of the algorithm is a pure, verified function of its inputs.

use vstd::prelude::*;

mod autocomplete;
mod error;
mod fs;
mod import_first;
mod json;
mod package_json;
mod path;
mod request;
mod span;
mod strutil;

pub use autocomplete::{
    AutocompleteDiagnostic, AutocompleteValid, AutocompleteValidConfig, JsxAttribute,
    JsxAttributeItem, JsxAttributeValue, JsxOpeningElement, is_valid_autocomplete_value,
    spec_is_valid_autocomplete_value, spec_run, split_whitespace_of,
};
pub use error::{ErrorView, ResolveError, outcome_view, state_view};
pub use fs::FileSystem;
pub use import_first::{
    First, FirstDiagnostic, FirstDiagnosticView, FirstReport, FirstState, ProgramInfo,
    StatementInfo, StatementKind, StatementKindView, StatementView, build_code, spec_build_code,
    spec_run_once,
};
pub use span::Span;
pub use package_json::PackageJson;
pub use path::{
    join_path, lemma_join_is_absolute, lemma_join_is_normalized, lemma_normalize_path_absolute,
    lemma_normalize_path_idempotent, normalize_path, spec_join, spec_normalize_path,
};
pub use request::{Request, RequestView, is_absolute_specifier, is_relative_specifier};

use error::ErrorView as EV;
use json::{json_main, json_parse_err};
use request::spec_classify;
use vstd::string::StringExecFns;

verus! {

pub type ResolveResult = Result<String, ResolveError>;

type ResolveState = Result<Option<String>, ResolveError>;

/// The file probe: the exact candidate wins if it is a file; otherwise the
/// candidate with `.js` appended; otherwise no match.
pub open spec fn spec_load_as_file(fs: Map<Seq<char>, Seq<char>>, p: Seq<char>) -> Option<
    Seq<char>,
> {
    if fs.contains_key(p) {
        Some(p)
    } else if fs.contains_key(p + ".js"@) {
        Some(p + ".js"@)
    } else {
        None
    }
}

/// The index fallback: `index.js` directly under the candidate, or nothing.
pub open spec fn spec_load_index(fs: Map<Seq<char>, Seq<char>>, p: Seq<char>) -> Option<Seq<char>> {
    let ip = spec_join(p, "index.js"@);
    if fs.contains_key(ip) {
        Some(ip)
    } else {
        None
    }
}

/// The directory probe. A manifest that exists but does not parse is a
/// terminal manifest error, never a plain miss. A manifest with an entry
/// field pins the search to that entry: a miss there is terminal, with no
/// index fallback. Only an absent manifest, or one without the entry
/// field, falls through to the index lookup.
pub open spec fn spec_load_as_directory(fs: Map<Seq<char>, Seq<char>>, p: Seq<char>) -> Result<
    Option<Seq<char>>,
    ErrorView,
> {
    let pj = spec_join(p, "package.json"@);
    if fs.contains_key(pj) {
        let text = fs[pj];
        match json_parse_err(text) {
            Some(msg) => Err(EV::ManifestError { path: pj, message: msg }),
            None => match json_main(text) {
                Some(main) => match spec_load_as_file(fs, spec_join(p, main)) {
                    Some(q) => Ok(Some(q)),
                    None => Err(EV::NotFound),
                },
                None => Ok(spec_load_index(fs, p)),
            },
        }
    } else {
        Ok(spec_load_index(fs, p))
    }
}

/// The whole algorithm: classify, join, file probe first, then directory
/// probe, then terminal not-found. A pure function of the filesystem, the
/// base directory and the specifier.
pub open spec fn spec_resolve(
    fs: Map<Seq<char>, Seq<char>>,
    dir: Seq<char>,
    specifier: Seq<char>,
) -> Result<Seq<char>, ErrorView> {
    if specifier.len() == 0 {
        Err(EV::MalformedSpecifier)
    } else if is_relative_specifier(specifier) || is_absolute_specifier(specifier) {
        let candidate = if is_relative_specifier(specifier) {
            spec_join(dir, specifier)
        } else {
            spec_normalize_path(specifier)
        };
        match spec_load_as_file(fs, candidate) {
            Some(p) => Ok(p),
            None => match spec_load_as_directory(fs, candidate) {
                Ok(Some(p)) => Ok(p),
                Ok(None) => Err(EV::NotFound),
                Err(e) => Err(e),
            },
        }
    } else {
        Err(EV::UnsupportedRequest)
    }
}

/// The resolution engine. It holds no state between calls: every outcome
/// is a function of the call's own arguments.
pub struct Resolver;

impl Resolver {
    pub fn new() -> (r: Self) {
        Resolver
    }

    /// Resolve `request` at the base directory `path` against `fs`: one
    /// absolute file path, or exactly one terminal error.
    pub fn resolve(&self, fs: &FileSystem, path: &str, request: &str) -> (r: ResolveResult)
        ensures
            outcome_view(r) == spec_resolve(fs@, path@, request@),
    {
        self.resolve_impl(fs, path, request)
    }

    fn resolve_impl(&self, fs: &FileSystem, path: &str, request: &str) -> (r: ResolveResult)
        ensures
            outcome_view(r) == spec_resolve(fs@, path@, request@),
    {
        let classified = match Request::parse(request) {
            Ok(c) => c,
            Err(e) => {
                return Err(e);
            },
        };
        proof {
            assert(spec_classify(request@) is Ok);
        }
        let candidate = match classified {
            Request::Relative(_) => join_path(path, request),
            Request::Absolute(_) => normalize_path(request),
            Request::Bare(_) => {
                return Err(ResolveError::UnsupportedRequest);
            },
        };
        if let Some(found) = self.load_as_file(fs, candidate.as_str())? {
            return Ok(found);
        }
        match self.load_as_directory(fs, candidate.as_str())? {
            Some(found) => Ok(found),
            None => Err(ResolveError::NotFound),
        }
    }

    /// File probe: the exact path, then the path with `.js` appended.
    /// Existence checks only; never an error.
    pub fn load_as_file(&self, fs: &FileSystem, path: &str) -> (r: ResolveState)
        ensures
            r matches Ok(o) && o.deep_view() == spec_load_as_file(fs@, path@),
    {
        if fs.is_file(path) {
            return Ok(Some(path.to_owned()));
        }
        let path_js = path.to_owned().concat(".js");
        if fs.is_file(path_js.as_str()) {
            return Ok(Some(path_js));
        }
        Ok(None)
    }

    /// Index fallback: `index.js` directly under the candidate.
    pub fn load_index(&self, fs: &FileSystem, path: &str) -> (r: ResolveState)
        ensures
            r matches Ok(o) && o.deep_view() == spec_load_index(fs@, path@),
    {
        let index_path = join_path(path, "index.js");
        if fs.is_file(index_path.as_str()) {
            return Ok(Some(index_path));
        }
        Ok(None)
    }

    /// Directory probe: manifest-driven when a manifest exists, index
    /// fallback otherwise. A manifest parse failure is terminal and is
    /// never downgraded to a plain miss.
    pub fn load_as_directory(&self, fs: &FileSystem, path: &str) -> (r: ResolveState)
        ensures
            state_view(r) == spec_load_as_directory(fs@, path@),
    {
        let package_json_path = join_path(path, "package.json");
        let text = match fs.read(package_json_path.as_str()) {
            Some(text) => text,
            None => {
                return self.load_index(fs, path);
            },
        };
        let package_json = match PackageJson::parse(text.as_str()) {
            Ok(pkg) => pkg,
            Err(message) => {
                return Err(ResolveError::ManifestError { path: package_json_path, message });
            },
        };
        let main_field = match package_json.main {
            Some(main_field) => main_field,
            None => {
                return self.load_index(fs, path);
            },
        };
        let main_field_path = join_path(path, main_field.as_str());
        match self.load_as_file(fs, main_field_path.as_str())? {
            Some(found) => Ok(Some(found)),
            None => Err(ResolveError::NotFound),
        }
    }
}

/// Every specifier that does not begin with `./`, `../` or `/` — that is,
/// every non-empty bare specifier — resolves to the unsupported-request
/// error, whatever the filesystem and base directory hold. (The empty
/// specifier is the one exception: it is malformed instead.)
pub proof fn lemma_bare_is_unsupported(
    fs: Map<Seq<char>, Seq<char>>,
    dir: Seq<char>,
    specifier: Seq<char>,
)
    requires
        specifier.len() > 0,
        !is_relative_specifier(specifier),
        !is_absolute_specifier(specifier),
    ensures
        spec_resolve(fs, dir, specifier) == Err::<Seq<char>, ErrorView>(EV::UnsupportedRequest),
{
}

/// Resolution is pure: two calls with the same base directory and
/// specifier against an unchanged filesystem yield identical outcomes.
pub proof fn lemma_resolve_deterministic(
    fs1: Map<Seq<char>, Seq<char>>,
    fs2: Map<Seq<char>, Seq<char>>,
    dir: Seq<char>,
    specifier: Seq<char>,
)
    requires
        fs1 == fs2,
    ensures
        spec_resolve(fs1, dir, specifier) == spec_resolve(fs2, dir, specifier),
{
}

/// File-first ordering: a file literally named like the candidate always
/// wins, even when a directory probe could also match.
pub proof fn lemma_exact_file_wins(
    fs: Map<Seq<char>, Seq<char>>,
    dir: Seq<char>,
    specifier: Seq<char>,
)
    requires
        is_relative_specifier(specifier),
        fs.contains_key(spec_join(dir, specifier)),
    ensures
        spec_resolve(fs, dir, specifier) == Ok::<Seq<char>, ErrorView>(spec_join(dir, specifier)),
{
}

/// Every successful resolution returns an absolute path: whatever probe
/// produced it, it begins at the root.
pub proof fn lemma_resolved_path_is_absolute(
    fs: Map<Seq<char>, Seq<char>>,
    dir: Seq<char>,
    specifier: Seq<char>,
    p: Seq<char>,
)
    requires
        spec_resolve(fs, dir, specifier) == Ok::<Seq<char>, ErrorView>(p),
    ensures
        p.len() >= 1,
        p[0] == '/',
{
    let candidate = if is_relative_specifier(specifier) {
        spec_join(dir, specifier)
    } else {
        spec_normalize_path(specifier)
    };
    lemma_join_is_absolute(dir, specifier);
    lemma_normalize_path_absolute(specifier);
    lemma_join_is_absolute(candidate, "index.js"@);
    let pj = spec_join(candidate, "package.json"@);
    if fs.contains_key(pj) {
        let text = fs[pj];
        if json_parse_err(text) is None && json_main(text) is Some {
            lemma_join_is_absolute(candidate, json_main(text)->0);
        }
    }
}

/// Soundness of success: a resolved path always names a file that exists
/// on the filesystem the call was given.
pub proof fn lemma_resolved_file_exists(
    fs: Map<Seq<char>, Seq<char>>,
    dir: Seq<char>,
    specifier: Seq<char>,
    p: Seq<char>,
)
    requires
        spec_resolve(fs, dir, specifier) == Ok::<Seq<char>, ErrorView>(p),
    ensures
        fs.contains_key(p),
{
}

} // verus!
