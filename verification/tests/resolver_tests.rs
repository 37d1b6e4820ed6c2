use htsget_resolve::http_types::HeaderMap;
use htsget_resolve::resolver::{
    ConfigError, RequestContext, ResolutionError, Resolver, ResolverList,
};
use htsget_resolve::response::{translate, ErrorKind, Outcome};
use htsget_resolve::storage::{AllowGuard, LocalStorage, Scheme, Storage};
use htsget_resolve::template::{chars_of, references_valid};

fn local(dir: &str) -> Storage {
    Storage::Local {
        local_storage: LocalStorage::new(
            Scheme::Http,
            "127.0.0.1:8081".to_string(),
            dir.to_string(),
            "/data".to_string(),
        ),
    }
}

fn bucket(name: &str) -> Storage {
    Storage::S3 { bucket: name.to_string() }
}

fn http() -> RequestContext {
    RequestContext { scheme: Scheme::Http, headers: HeaderMap::new() }
}

fn https() -> RequestContext {
    RequestContext { scheme: Scheme::Https, headers: HeaderMap::new() }
}

fn two_resolvers() -> ResolverList {
    ResolverList::new(vec![
        Resolver::new(local("a"), "^1-(.*)$", "$1", None).unwrap(),
        Resolver::new(bucket("b"), "^2-(.*)$", "$1", None).unwrap(),
    ])
}

#[test]
fn substitution_of_first_group() {
    let resolver = Resolver::new(local("a"), "^1-(.*)$", "$1", None).unwrap();
    assert_eq!(resolver.resolve_id("1-abc", &http()), Some("abc".to_string()));
}

#[test]
fn resolver_keeps_what_it_was_built_from() {
    let guard = AllowGuard { allow_http: true, allow_https: false };
    let resolver = Resolver::new(bucket("b"), "^x(.)$", "y$1", Some(guard)).unwrap();
    assert_eq!(resolver.pattern(), "^x(.)$");
    assert_eq!(resolver.substitution(), "y$1");
    assert_eq!(resolver.storage(), &bucket("b"));
    assert_eq!(resolver.allow_guard(), Some(guard));
}

#[test]
fn second_resolver_takes_its_identifier() {
    let list = two_resolvers();
    let (storage, path) = list.resolve("2-xyz", &http()).unwrap();
    assert_eq!(storage, &bucket("b"));
    assert_eq!(path, "xyz");
}

#[test]
fn first_resolver_takes_its_identifier() {
    let list = two_resolvers();
    let (storage, path) = list.resolve("1-abc", &http()).unwrap();
    assert_eq!(storage, &local("a"));
    assert_eq!(path, "abc");
}

#[test]
fn unknown_identifier_has_no_match_and_is_not_found() {
    let list = two_resolvers();
    let error = list.resolve("3-xyz", &http()).unwrap_err();
    assert_eq!(error, ResolutionError::NoMatch);
    assert_eq!(error.kind(), ErrorKind::NoMatch);
    let response = translate(Outcome::Failure(error.kind(), "3-xyz".to_string()));
    assert_eq!(response.status, 404);
    let body: serde_json::Value = serde_json::from_str(&response.body).unwrap();
    assert_eq!(body.get("error").and_then(|v| v.as_str()), Some("NoMatch"));
    assert_eq!(body.get("message").and_then(|v| v.as_str()), Some("3-xyz"));
}

#[test]
fn empty_list_has_no_match() {
    let list = ResolverList::new(Vec::new());
    assert_eq!(list.len(), 0);
    assert_eq!(list.resolve("1-abc", &http()).unwrap_err(), ResolutionError::NoMatch);
}

#[test]
fn empty_identifier_is_invalid() {
    let list = two_resolvers();
    let error = list.resolve("", &http()).unwrap_err();
    assert_eq!(error, ResolutionError::InvalidInput);
    assert_eq!(error.kind().status_code(), 400);
    let everything = ResolverList::new(vec![Resolver::new(local("a"), ".*", "x", None).unwrap()]);
    assert_eq!(everything.resolve("", &http()).unwrap_err(), ResolutionError::InvalidInput);
}

#[test]
fn first_match_wins() {
    let list = ResolverList::new(vec![
        Resolver::new(local("first"), "^id-(.*)$", "one/$1", None).unwrap(),
        Resolver::new(bucket("second"), "^id-(\\d+)$", "two/$1", None).unwrap(),
    ]);
    let (storage, path) = list.resolve("id-42", &http()).unwrap();
    assert_eq!(storage, &local("first"));
    assert_eq!(path, "one/42");
}

#[test]
fn resolution_is_repeatable() {
    let list = two_resolvers();
    for identifier in ["1-abc", "2-xyz", "3-xyz", ""] {
        let once = list.resolve(identifier, &http()).map(|(s, p)| (s.clone(), p));
        let twice = list.resolve(identifier, &http()).map(|(s, p)| (s.clone(), p));
        assert_eq!(once, twice);
    }
}

#[test]
fn pattern_must_match_the_whole_identifier() {
    let list = ResolverList::new(vec![Resolver::new(local("a"), "abc", "found", None).unwrap()]);
    assert_eq!(list.resolve("xabcx", &http()).unwrap_err(), ResolutionError::NoMatch);
    assert_eq!(list.resolve("abcx", &http()).unwrap_err(), ResolutionError::NoMatch);
    let (_, path) = list.resolve("abc", &http()).unwrap();
    assert_eq!(path, "found");
}

#[test]
fn whole_match_counts_bytes_of_the_identifier() {
    let list = ResolverList::new(vec![Resolver::new(local("a"), "^(.*)$", "<$1>", None).unwrap()]);
    let (_, path) = list.resolve("dänisch-é", &http()).unwrap();
    assert_eq!(path, "<dänisch-é>");
}

#[test]
fn guard_rejects_a_scheme() {
    let only_https = AllowGuard { allow_http: false, allow_https: true };
    let list = ResolverList::new(vec![
        Resolver::new(local("secure"), "^1-(.*)$", "s/$1", Some(only_https)).unwrap(),
        Resolver::new(bucket("open"), "^1-(.*)$", "o/$1", Some(AllowGuard::all())).unwrap(),
    ]);
    let (storage, path) = list.resolve("1-abc", &https()).unwrap();
    assert_eq!((storage, path.as_str()), (&local("secure"), "s/abc"));
    let (storage, path) = list.resolve("1-abc", &http()).unwrap();
    assert_eq!((storage, path.as_str()), (&bucket("open"), "o/abc"));
    let strict = ResolverList::new(vec![
        Resolver::new(local("secure"), "^1-(.*)$", "s/$1", Some(only_https)).unwrap(),
    ]);
    assert_eq!(strict.resolve("1-abc", &http()).unwrap_err(), ResolutionError::NoMatch);
}

#[test]
fn guard_permits_by_scheme() {
    let guard = AllowGuard { allow_http: true, allow_https: false };
    assert!(guard.permits(Scheme::Http));
    assert!(!guard.permits(Scheme::Https));
    assert!(AllowGuard::all().permits(Scheme::Https));
    assert_eq!(AllowGuard::default(), AllowGuard::all());
}

#[test]
fn list_hands_out_its_resolvers_in_order() {
    let list = two_resolvers();
    assert_eq!(list.len(), 2);
    assert_eq!(list.get(0).unwrap().pattern(), "^1-(.*)$");
    assert_eq!(list.get(1).unwrap().pattern(), "^2-(.*)$");
    assert!(list.get(2).is_none());
}

#[test]
fn invalid_pattern_is_refused() {
    let error = Resolver::new(local("a"), "^1-(.*$", "$1", None).unwrap_err();
    assert_eq!(error, ConfigError::InvalidPattern);
    assert_eq!(error.kind(), ErrorKind::InternalConfigError);
    assert_eq!(error.kind().status_code(), 500);
}

#[test]
fn reference_to_a_missing_group_is_refused() {
    let error = Resolver::new(local("a"), "^abc$", "$1", None).unwrap_err();
    assert_eq!(error, ConfigError::UnresolvedReference);
    assert_eq!(
        Resolver::new(local("a"), "^(a)(b)$", "$2-$3", None).unwrap_err(),
        ConfigError::UnresolvedReference
    );
    assert_eq!(
        Resolver::new(local("a"), "^(a)$", "${2}", None).unwrap_err(),
        ConfigError::UnresolvedReference
    );
    assert_eq!(
        Resolver::new(local("a"), "^(?P<id>a)$", "$name", None).unwrap_err(),
        ConfigError::UnresolvedReference
    );
    assert_eq!(
        Resolver::new(local("a"), "^(a)$", "$1a", None).unwrap_err(),
        ConfigError::UnresolvedReference
    );
}

#[test]
fn references_to_groups_that_exist_are_accepted() {
    assert!(Resolver::new(local("a"), "^abc$", "$0", None).is_ok());
    assert!(Resolver::new(local("a"), "^abc$", "plain", None).is_ok());
    assert!(Resolver::new(local("a"), "^abc$", "cost: $$1", None).is_ok());
    assert!(Resolver::new(local("a"), "^abc$", "trailing $", None).is_ok());
    assert!(Resolver::new(local("a"), "^abc$", "${1", None).is_ok());
    assert!(Resolver::new(local("a"), "^abc$", "$-1", None).is_ok());
    assert!(Resolver::new(local("a"), "^(a)(b)$", "${2}$1", None).is_ok());
    assert!(Resolver::new(local("a"), "^(a)(b)$", "$002", None).is_ok());
    let named = Resolver::new(local("a"), "^(?P<id>.*)-(?P<kind>.*)$", "$kind/${id}x", None).unwrap();
    assert_eq!(named.resolve_id("7-bam", &http()), Some("bam/7x".to_string()));
}

#[test]
fn references_are_checked_against_the_groups() {
    let groups = vec![None, None, Some("id".to_string())];
    assert!(references_valid("", &groups));
    assert!(references_valid("$0$1$2", &groups));
    assert!(references_valid("$id ${id} ${2}", &groups));
    assert!(!references_valid("$3", &groups));
    assert!(!references_valid("${}", &groups));
    assert!(!references_valid("$ids", &groups));
    assert!(!references_valid("ok $1 then ${other}", &groups));
    assert!(!references_valid("$99999999999999999999999999999999999999999", &groups));
    assert!(references_valid("$$3", &groups));
    assert!(!references_valid("$$$3", &groups));
    assert!(!references_valid("$0", &Vec::new()));
}

#[test]
fn chars_of_a_string() {
    assert_eq!(chars_of("a$é"), vec!['a', '$', 'é']);
    assert_eq!(chars_of(""), Vec::<char>::new());
}
