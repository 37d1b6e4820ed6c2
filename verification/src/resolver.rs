//! Resolvers: ordered rules that map an identifier to a storage binding and a
//! location in it.

use crate::http_types::HeaderMap;
use crate::pattern::{
    capture_names, compiles, find, regex_capture_names, regex_compiles, regex_find, regex_replace,
    replace,
};
use crate::response::{status_of, ErrorKind, Outcome};
use crate::storage::{guard_permits, AllowGuard, Scheme, Storage};
use crate::template::{references_resolve, references_valid};
use vstd::prelude::*;
use vstd::utf8::encode_utf8;

verus! {

/// Why a resolver cannot be built.
#[derive(Clone, Copy, Debug, PartialEq, Eq, Structural)]
pub enum ConfigError {
    /// The pattern is no regular expression.
    InvalidPattern,
    /// The substitution refers to a group that the pattern does not have.
    UnresolvedReference,
}

/// Why an identifier is not resolved.
#[derive(Clone, Copy, Debug, PartialEq, Eq, Structural)]
pub enum ResolutionError {
    /// No resolver matches the identifier and accepts the request.
    NoMatch,
    /// The identifier is empty.
    InvalidInput,
}

impl ConfigError {
    pub fn kind(&self) -> (kind: ErrorKind)
        ensures
            kind == ErrorKind::InternalConfigError,
    {
        ErrorKind::InternalConfigError
    }
}

impl ResolutionError {
    /// The kind under which the error is reported.
    pub open spec fn kind_spec(self) -> ErrorKind {
        match self {
            ResolutionError::NoMatch => ErrorKind::NoMatch,
            ResolutionError::InvalidInput => ErrorKind::InvalidInput,
        }
    }

    pub fn kind(&self) -> (kind: ErrorKind)
        ensures
            kind == self.kind_spec(),
    {
        match self {
            ResolutionError::NoMatch => ErrorKind::NoMatch,
            ResolutionError::InvalidInput => ErrorKind::InvalidInput,
        }
    }
}

/// What a request brings along: the scheme that it asks a response for,
/// which the guards inspect, and its headers.
#[derive(Debug)]
pub struct RequestContext {
    pub scheme: Scheme,
    pub headers: HeaderMap,
}

/// A resolver as the contracts see it.
pub struct ResolverView {
    pub pattern: Seq<char>,
    pub substitution: Seq<char>,
    pub storage: Storage,
    pub allow_guard: Option<AllowGuard>,
}

/// Whether a pattern and a substitution make a resolver: the pattern
/// compiles, and every group that the substitution refers to is one of its
/// groups.
pub open spec fn well_formed(pattern: Seq<char>, substitution: Seq<char>) -> bool {
    regex_compiles(pattern) && references_resolve(substitution, 0, regex_capture_names(pattern))
}

/// Whether a match spans the whole identifier, from its first byte to its last.
pub open spec fn spans_all(span: Option<(usize, usize)>, identifier: Seq<char>) -> bool {
    span matches Some(found) && found.0 == 0 && found.1 == encode_utf8(identifier).len() as usize
}

impl ResolverView {
    /// Whether the resolver takes the identifier: its pattern matches the
    /// identifier in full, and its guard, if it has one, accepts the scheme.
    pub open spec fn matches(self, identifier: Seq<char>, scheme: Scheme) -> bool {
        spans_all(regex_find(self.pattern, identifier), identifier) && guard_permits(
            self.allow_guard,
            scheme,
        )
    }

    /// The location that the resolver gives for an identifier it takes.
    pub open spec fn resolved_path(self, identifier: Seq<char>) -> Seq<char> {
        regex_replace(self.pattern, identifier, self.substitution)
    }
}

/// One rule: a pattern over identifiers, a substitution that gives the
/// location, the storage that holds the data, and an optional guard.
#[derive(Debug)]
pub struct Resolver {
    pattern: String,
    substitution: String,
    storage: Storage,
    allow_guard: Option<AllowGuard>,
}

impl View for Resolver {
    type V = ResolverView;

    closed spec fn view(&self) -> ResolverView {
        ResolverView {
            pattern: self.pattern@,
            substitution: self.substitution@,
            storage: self.storage,
            allow_guard: self.allow_guard,
        }
    }
}

impl Resolver {
    #[verifier::type_invariant]
    spec fn inv(&self) -> bool {
        well_formed(self.pattern@, self.substitution@)
    }

    /// Builds a resolver, or says why the pattern and the substitution do not
    /// make one.
    pub fn new(
        storage: Storage,
        pattern: &str,
        substitution: &str,
        allow_guard: Option<AllowGuard>,
    ) -> (result: Result<Resolver, ConfigError>)
        ensures
            match result {
                Ok(resolver) => well_formed(pattern@, substitution@) && resolver@ == (ResolverView {
                    pattern: pattern@,
                    substitution: substitution@,
                    storage,
                    allow_guard,
                }),
                Err(ConfigError::InvalidPattern) => !regex_compiles(pattern@),
                Err(ConfigError::UnresolvedReference) => regex_compiles(pattern@)
                    && !references_resolve(substitution@, 0, regex_capture_names(pattern@)),
            },
    {
        if !compiles(pattern) {
            return Err(ConfigError::InvalidPattern);
        }
        let groups = capture_names(pattern);
        if !references_valid(substitution, &groups) {
            return Err(ConfigError::UnresolvedReference);
        }
        Ok(
            Resolver {
                pattern: pattern.to_owned(),
                substitution: substitution.to_owned(),
                storage,
                allow_guard,
            },
        )
    }

    pub fn pattern(&self) -> (pattern: &str)
        ensures
            pattern@ == self@.pattern,
    {
        self.pattern.as_str()
    }

    pub fn substitution(&self) -> (substitution: &str)
        ensures
            substitution@ == self@.substitution,
    {
        self.substitution.as_str()
    }

    pub fn storage(&self) -> (storage: &Storage)
        ensures
            *storage == self@.storage,
    {
        &self.storage
    }

    pub fn allow_guard(&self) -> (allow_guard: Option<AllowGuard>)
        ensures
            allow_guard == self@.allow_guard,
    {
        self.allow_guard
    }

    /// Gives the location for an identifier that this resolver takes, and
    /// nothing for any other.
    pub fn resolve_id(&self, identifier: &str, context: &RequestContext) -> (path: Option<String>)
        ensures
            path.is_some() == self@.matches(identifier@, context.scheme),
            path matches Some(found) ==> found@ == self@.resolved_path(identifier@),
    {
        proof {
            use_type_invariant(self);
        }
        let permitted = match self.allow_guard {
            Some(guard) => guard.permits(context.scheme),
            None => true,
        };
        if !permitted {
            return None;
        }
        match find(self.pattern.as_str(), identifier) {
            Some((start, end)) => {
                if start == 0 && end == identifier.len() {
                    Some(replace(self.pattern.as_str(), identifier, self.substitution.as_str()))
                } else {
                    None
                }
            },
            None => None,
        }
    }
}

/// The position of the first resolver from `from` on that takes the
/// identifier, or the length of the list where none does.
pub open spec fn first_match(
    resolvers: Seq<ResolverView>,
    identifier: Seq<char>,
    scheme: Scheme,
    from: int,
) -> int
    decreases resolvers.len() - from,
{
    if from < 0 || from >= resolvers.len() {
        resolvers.len() as int
    } else if resolvers[from].matches(identifier, scheme) {
        from
    } else {
        first_match(resolvers, identifier, scheme, from + 1)
    }
}

/// What resolving an identifier against a list comes to: the storage and the
/// location of the first resolver that takes it.
pub open spec fn resolution(
    resolvers: Seq<ResolverView>,
    identifier: Seq<char>,
    scheme: Scheme,
) -> Result<(Storage, Seq<char>), ResolutionError> {
    let first = first_match(resolvers, identifier, scheme, 0);
    if identifier.len() == 0 {
        Err(ResolutionError::InvalidInput)
    } else if first >= resolvers.len() {
        Err(ResolutionError::NoMatch)
    } else {
        Ok((resolvers[first].storage, resolvers[first].resolved_path(identifier)))
    }
}

/// What a call of `resolve` returned, as the contracts see it.
pub open spec fn resolved(result: Result<(&Storage, String), ResolutionError>) -> Result<
    (Storage, Seq<char>),
    ResolutionError,
> {
    match result {
        Ok((storage, path)) => Ok((*storage, path@)),
        Err(error) => Err(error),
    }
}

/// Resolution is deterministic: what `resolve` returns depends on the list,
/// the identifier and the scheme alone, so two calls on the same three
/// return the same.
pub proof fn lemma_resolve_deterministic(
    resolvers: Seq<ResolverView>,
    identifier: Seq<char>,
    scheme: Scheme,
    once: Result<(&Storage, String), ResolutionError>,
    twice: Result<(&Storage, String), ResolutionError>,
)
    requires
        resolved(once) == resolution(resolvers, identifier, scheme),
        resolved(twice) == resolution(resolvers, identifier, scheme),
    ensures
        resolved(once) == resolved(twice),
{
}

/// Where the search from `from` ends: at the first resolver that takes the
/// identifier, with none before it, or past the end of the list.
pub proof fn lemma_first_match_is_first(
    resolvers: Seq<ResolverView>,
    identifier: Seq<char>,
    scheme: Scheme,
    from: int,
)
    requires
        0 <= from <= resolvers.len(),
    ensures
        from <= first_match(resolvers, identifier, scheme, from) <= resolvers.len(),
        first_match(resolvers, identifier, scheme, from) < resolvers.len()
            ==> resolvers[first_match(resolvers, identifier, scheme, from)].matches(
            identifier,
            scheme,
        ),
        forall|j: int|
            from <= j < first_match(resolvers, identifier, scheme, from)
                ==> !(#[trigger] resolvers[j]).matches(identifier, scheme),
    decreases resolvers.len() - from,
{
    if from < resolvers.len() && !resolvers[from].matches(identifier, scheme) {
        lemma_first_match_is_first(resolvers, identifier, scheme, from + 1);
    }
}

/// The first match wins: where two resolvers of a list both take an
/// identifier, the result is never that of the later one. It is that of a
/// resolver no later than the earlier one, and of the earlier one itself
/// where no resolver before it takes the identifier.
pub proof fn lemma_first_match_wins(
    resolvers: Seq<ResolverView>,
    identifier: Seq<char>,
    scheme: Scheme,
    earlier: int,
    later: int,
)
    requires
        0 <= earlier < later < resolvers.len(),
        identifier.len() > 0,
        resolvers[earlier].matches(identifier, scheme),
        resolvers[later].matches(identifier, scheme),
    ensures
        first_match(resolvers, identifier, scheme, 0) <= earlier,
        resolution(resolvers, identifier, scheme) == Ok::<(Storage, Seq<char>), ResolutionError>(
            (
                resolvers[first_match(resolvers, identifier, scheme, 0)].storage,
                resolvers[first_match(resolvers, identifier, scheme, 0)].resolved_path(identifier),
            ),
        ),
        (forall|j: int| 0 <= j < earlier ==> !(#[trigger] resolvers[j]).matches(identifier, scheme))
            ==> resolution(resolvers, identifier, scheme) == Ok::<
            (Storage, Seq<char>),
            ResolutionError,
        >((resolvers[earlier].storage, resolvers[earlier].resolved_path(identifier))),
{
    lemma_first_match_is_first(resolvers, identifier, scheme, 0);
}

/// An identifier that no resolver of the list takes has no match, and that
/// error is reported as not found.
pub proof fn lemma_no_match(
    resolvers: Seq<ResolverView>,
    identifier: Seq<char>,
    scheme: Scheme,
    message: String,
)
    requires
        identifier.len() > 0,
        forall|j: int|
            0 <= j < resolvers.len() ==> !(#[trigger] resolvers[j]).matches(identifier, scheme),
    ensures
        resolution(resolvers, identifier, scheme) == Err::<(Storage, Seq<char>), ResolutionError>(
            ResolutionError::NoMatch,
        ),
        status_of(Outcome::Failure(ResolutionError::NoMatch.kind_spec(), message)) == 404,
{
    lemma_first_match_is_first(resolvers, identifier, scheme, 0);
}

/// The resolvers of a server, in the order in which they are tried.
#[derive(Debug)]
pub struct ResolverList {
    resolvers: Vec<Resolver>,
}

impl View for ResolverList {
    type V = Seq<ResolverView>;

    closed spec fn view(&self) -> Seq<ResolverView> {
        Seq::new(self.resolvers@.len(), |i: int| self.resolvers@[i]@)
    }
}

impl ResolverList {
    pub fn new(resolvers: Vec<Resolver>) -> (list: ResolverList)
        ensures
            list@.len() == resolvers@.len(),
            forall|i: int| 0 <= i < resolvers@.len() ==> list@[i] == #[trigger] resolvers@[i]@,
    {
        ResolverList { resolvers }
    }

    pub fn len(&self) -> (len: usize)
        ensures
            len == self@.len(),
    {
        self.resolvers.len()
    }

    pub fn get(&self, index: usize) -> (resolver: Option<&Resolver>)
        ensures
            resolver.is_some() == (index < self@.len()),
            resolver matches Some(found) ==> found@ == self@[index as int],
    {
        if index < self.resolvers.len() {
            Some(&self.resolvers[index])
        } else {
            None
        }
    }

    /// Resolves an identifier: the resolvers are tried in order, and the first
    /// that takes the identifier gives the storage and the location. An empty
    /// identifier is refused; one that no resolver takes has no match.
    pub fn resolve(&self, identifier: &str, context: &RequestContext) -> (result: Result<
        (&Storage, String),
        ResolutionError,
    >)
        ensures
            resolved(result) == resolution(self@, identifier@, context.scheme),
    {
        if identifier.is_empty() {
            return Err(ResolutionError::InvalidInput);
        }
        let mut i: usize = 0;
        while i < self.resolvers.len()
            invariant
                i <= self.resolvers.len(),
                identifier@.len() != 0,
                self@.len() == self.resolvers.len(),
                first_match(self@, identifier@, context.scheme, 0) == first_match(
                    self@,
                    identifier@,
                    context.scheme,
                    i as int,
                ),
            decreases self.resolvers.len() - i,
        {
            let resolver = &self.resolvers[i];
            assert(self@[i as int] == resolver@);
            match resolver.resolve_id(identifier, context) {
                Some(path) => {
                    return Ok((&resolver.storage, path));
                },
                None => {},
            }
            i += 1;
        }
        Err(ResolutionError::NoMatch)
    }
}

} // verus!
