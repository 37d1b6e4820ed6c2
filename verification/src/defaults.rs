//! A sample configuration: the directories that hold the sample data, and
//! two resolvers over them.

use crate::resolver::{well_formed, ConfigError, Resolver, ResolverView};
use crate::storage::{AllowGuard, LocalStorage, Scheme, Storage};
use std::path::Path;
use vstd::prelude::*;
use vstd::string::*;

verus! {

/// Calls `Path::parent` and copies the result into a string. The syntax of
/// paths belongs to the platform, so the contract states only what holds on
/// each of them: the parent is the path without its last component, so a
/// shorter beginning of it, and the empty path has none.
#[verifier::external_body]
fn parent_of(path: &str) -> (parent: Option<String>)
    ensures
        path@.len() == 0 ==> parent.is_none(),
        parent matches Some(found) ==> found@.len() < path@.len() && found@.is_prefix_of(path@),
{
    Path::new(path).parent().map(|parent| parent.to_string_lossy().into_owned())
}

/// Calls `Path::join` and copies the result into a string. Nothing is stated
/// of it: the separator belongs to the platform.
#[verifier::external_body]
fn join(base: &str, part: &str) -> (joined: String) {
    Path::new(base).join(part).to_string_lossy().into_owned()
}

/// The directory above the one that holds the crate's manifest, where the
/// manifest's directory has one above it.
pub fn default_dir(manifest_dir: &str) -> (dir: Option<String>)
    ensures
        manifest_dir@.len() == 0 ==> dir.is_none(),
        dir matches Some(found) ==> found@.len() < manifest_dir@.len() && found@.is_prefix_of(
            manifest_dir@,
        ),
{
    parent_of(manifest_dir)
}

/// The directory `data` under `dir`: there is one exactly where there is a
/// `dir` to look under.
pub fn data_dir_under(dir: Option<String>) -> (data: Option<String>)
    ensures
        data.is_some() == dir.is_some(),
{
    match dir {
        Some(dir) => Some(join(dir.as_str(), "data")),
        None => None,
    }
}

/// The directory `data` under `default_dir`, where the sample data is kept.
/// Whether the manifest's directory has one above it is for the platform to
/// say; what follows from its answer is `data_dir_under`.
pub fn default_dir_data(manifest_dir: &str) -> (dir: Option<String>)
    ensures
        manifest_dir@.len() == 0 ==> dir.is_none(),
{
    data_dir_under(default_dir(manifest_dir))
}

/// Whether `resolver` is the sample resolver with the given pattern: it
/// substitutes the first group, accepts every scheme, and is bound to the
/// local storage at `data_dir`, served by `authority` under `/data`.
pub open spec fn is_sample_resolver(
    resolver: ResolverView,
    pattern: Seq<char>,
    authority: Seq<char>,
    data_dir: Seq<char>,
    scheme: Scheme,
) -> bool {
    &&& resolver.pattern == pattern
    &&& resolver.substitution == "$1"@
    &&& resolver.allow_guard == Some(AllowGuard { allow_http: true, allow_https: true })
    &&& resolver.storage matches Storage::Local { local_storage }
    &&& local_storage.scheme == scheme
    &&& local_storage.authority@ == authority
    &&& local_storage.base_directory@ == data_dir
    &&& local_storage.response_url_prefix@ == "/data"@
}

fn sample_resolver(pattern: &str, authority: &str, data_dir: &str, scheme: Scheme) -> (result:
    Result<Resolver, ConfigError>)
    ensures
        result.is_ok() == well_formed(pattern@, "$1"@),
        result matches Ok(resolver) ==> is_sample_resolver(
            resolver@,
            pattern@,
            authority@,
            data_dir@,
            scheme,
        ),
{
    let local_storage = LocalStorage::new(
        scheme,
        authority.to_owned(),
        data_dir.to_owned(),
        String::from_str("/data"),
    );
    Resolver::new(Storage::Local { local_storage }, pattern, "$1", Some(AllowGuard::default()))
}

/// The two sample resolvers, in their order: identifiers that begin with `1-`
/// and those that begin with `2-`, each resolved to what follows the prefix.
/// They are built where both patterns make a resolver.
pub fn default_test_resolver(authority: &str, data_dir: &str, scheme: Scheme) -> (result: Result<
    Vec<Resolver>,
    ConfigError,
>)
    ensures
        result.is_ok() == (well_formed("^1-(.*)$"@, "$1"@) && well_formed("^2-(.*)$"@, "$1"@)),
        result matches Ok(resolvers) ==> {
            &&& resolvers@.len() == 2
            &&& is_sample_resolver(resolvers@[0]@, "^1-(.*)$"@, authority@, data_dir@, scheme)
            &&& is_sample_resolver(resolvers@[1]@, "^2-(.*)$"@, authority@, data_dir@, scheme)
        },
{
    let first = match sample_resolver("^1-(.*)$", authority, data_dir, scheme) {
        Ok(resolver) => resolver,
        Err(error) => {
            return Err(error);
        },
    };
    let second = match sample_resolver("^2-(.*)$", authority, data_dir, scheme) {
        Ok(resolver) => resolver,
        Err(error) => {
            return Err(error);
        },
    };
    let mut resolvers: Vec<Resolver> = Vec::new();
    resolvers.push(first);
    resolvers.push(second);
    Ok(resolvers)
}

} // verus!
