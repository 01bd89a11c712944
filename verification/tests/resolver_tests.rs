use cnb_shim::request::{resolve, ShimOptions};

fn no_opts() -> ShimOptions {
    ShimOptions { version: None, name: None, api: None, stacks: None }
}

#[test]
fn valid_pair_resolves_to_joined_identifier() {
    let req = resolve("my-namespace", "my-name", &no_opts()).unwrap();
    assert_eq!(req.id.as_text(), "my-namespace/my-name");
}

#[test]
fn absent_version_defaults() {
    let req = resolve("ns", "name", &no_opts()).unwrap();
    assert_eq!(req.version.major, 0);
    assert_eq!(req.version.minor, 1);
    assert_eq!(req.version.patch, 0);
    assert!(req.version.pre.is_none());
}

#[test]
fn malformed_versions_fail_with_version_error() {
    for bad in ["abc", "1.2", "1.2.3.4", "1.2.3-", "1.2.", ".1.2", "1.2.3 ", ""] {
        let opts = ShimOptions {
            version: Some(bad.to_string()),
            name: None,
            api: None,
            stacks: None,
        };
        let err = resolve("ns", "name", &opts).unwrap_err();
        assert_eq!(err.message(), "invalid buildpack version", "input: {:?}", bad);
    }
}

#[test]
fn version_with_pre_release_parses() {
    let opts = ShimOptions {
        version: Some("1.2.3-alpha.1".to_string()),
        name: None,
        api: None,
        stacks: None,
    };
    let req = resolve("ns", "name", &opts).unwrap();
    assert_eq!(req.version.major, 1);
    assert_eq!(req.version.minor, 2);
    assert_eq!(req.version.patch, 3);
    assert_eq!(req.version.pre.as_deref(), Some("alpha.1"));
}

#[test]
fn absent_stacks_default_to_fixed_pair() {
    let req = resolve("ns", "name", &no_opts()).unwrap();
    assert_eq!(req.stacks.len(), 2);
    assert_eq!(req.stacks[0].id, "heroku-18");
    assert_eq!(req.stacks[1].id, "heroku-20");
    assert!(req.stacks[0].mixins.is_empty());
    assert!(req.stacks[1].mixins.is_empty());
}

#[test]
fn requested_stacks_are_kept_in_order() {
    let opts = ShimOptions {
        version: None,
        name: None,
        api: None,
        stacks: Some(vec!["heroku-20".to_string(), "io.buildpacks.stacks.bionic".to_string()]),
    };
    let req = resolve("ns", "name", &opts).unwrap();
    assert_eq!(req.stacks.len(), 2);
    assert_eq!(req.stacks[0].id, "heroku-20");
    assert_eq!(req.stacks[1].id, "io.buildpacks.stacks.bionic");
}

#[test]
fn invalid_stack_fails() {
    let opts = ShimOptions {
        version: None,
        name: None,
        api: None,
        stacks: Some(vec!["heroku-20".to_string(), "bad stack".to_string()]),
    };
    let err = resolve("ns", "name", &opts).unwrap_err();
    assert_eq!(err.message(), "invalid stack");
}

#[test]
fn namespace_with_disallowed_character_fails() {
    let err = resolve("my namespace", "my-name", &no_opts()).unwrap_err();
    assert_eq!(err.message(), "invalid buildpack id");
}

#[test]
fn identifier_edge_cases() {
    assert!(resolve("", "name", &no_opts()).is_err());
    assert!(resolve("ns", "", &no_opts()).is_err());
    assert!(resolve("a.b", "c-d", &no_opts()).is_ok());
    assert!(resolve("a..b", "c", &no_opts()).is_err());
    assert!(resolve("a-", "c", &no_opts()).is_err());
    assert!(resolve("1", "2", &no_opts()).is_ok());
}

#[test]
fn display_name_defaults_to_name_segment() {
    let req = resolve("ns", "my-name", &no_opts()).unwrap();
    assert_eq!(req.name, "my-name");
    let opts = ShimOptions {
        version: None,
        name: Some("Pretty Name".to_string()),
        api: None,
        stacks: None,
    };
    let req = resolve("ns", "my-name", &opts).unwrap();
    assert_eq!(req.name, "Pretty Name");
}

#[test]
fn api_versions() {
    let req = resolve("ns", "name", &no_opts()).unwrap();
    assert_eq!((req.api.major, req.api.minor), (0, 4));
    let opts = ShimOptions {
        version: None,
        name: None,
        api: Some("0.6".to_string()),
        stacks: None,
    };
    let req = resolve("ns", "name", &opts).unwrap();
    assert_eq!((req.api.major, req.api.minor), (0, 6));
    for bad in ["abc", "0", "0.4.1", "0.x", "x.4", ""] {
        let opts = ShimOptions {
            version: None,
            name: None,
            api: Some(bad.to_string()),
            stacks: None,
        };
        let err = resolve("ns", "name", &opts).unwrap_err();
        assert_eq!(err.message(), "invalid buildpack api", "input: {:?}", bad);
    }
}
