use cnb_shim::manifest::manifest_text;
use cnb_shim::request::{resolve, ShimOptions, ShimRequest};

fn shim_request(version: Option<&str>, name: Option<&str>, api: Option<&str>, stacks: Option<Vec<&str>>) -> ShimRequest {
    let opts = ShimOptions {
        version: version.map(|s| s.to_string()),
        name: name.map(|s| s.to_string()),
        api: api.map(|s| s.to_string()),
        stacks: stacks.map(|ss| ss.into_iter().map(|s| s.to_string()).collect()),
    };
    resolve("my-namespace", "my-name", &opts).unwrap()
}

#[test]
fn manifest_pins_version_api_and_stack() {
    let req = shim_request(Some("1.2.3"), None, Some("0.4"), Some(vec!["heroku-20"]));
    let m = manifest_text(&req);
    assert!(m.contains("api = \"0.4\""), "{}", m);
    assert!(m.contains("version = \"1.2.3\""), "{}", m);
    assert!(m.contains("id = \"my-namespace/my-name\""), "{}", m);
    assert!(m.contains("clear_env = false"), "{}", m);
    assert!(m.contains("order = []"), "{}", m);
    assert!(m.contains("[metadata]"), "{}", m);
    assert_eq!(m.matches("[[stacks]]").count(), 1, "{}", m);
    assert!(m.contains("id = \"heroku-20\""), "{}", m);
    assert!(m.contains("mixins = []"), "{}", m);
}

#[test]
fn manifest_is_well_formed_toml() {
    let req = shim_request(Some("1.2.3"), Some("Ruby"), Some("0.4"), None);
    let m = manifest_text(&req);
    let doc: toml::Value = toml::from_str(&m).unwrap();
    assert_eq!(doc["api"].as_str(), Some("0.4"));
    assert_eq!(doc["buildpack"]["id"].as_str(), Some("my-namespace/my-name"));
    assert_eq!(doc["buildpack"]["name"].as_str(), Some("Ruby"));
    assert_eq!(doc["buildpack"]["version"].as_str(), Some("1.2.3"));
    assert_eq!(doc["buildpack"]["clear_env"].as_bool(), Some(false));
    let stacks = doc["stacks"].as_array().unwrap();
    assert_eq!(stacks.len(), 2);
    assert_eq!(stacks[0]["id"].as_str(), Some("heroku-18"));
    assert_eq!(stacks[1]["id"].as_str(), Some("heroku-20"));
    assert_eq!(stacks[0]["mixins"].as_array().unwrap().len(), 0);
    assert_eq!(doc["order"].as_array().unwrap().len(), 0);
    assert_eq!(doc["metadata"].as_table().unwrap().len(), 0);
}

#[test]
fn display_name_is_escaped() {
    let req = shim_request(None, Some("a\"b\\c\nd\te"), None, None);
    let m = manifest_text(&req);
    assert!(m.contains("name = \"a\\\"b\\\\c\\nd\\te\""), "{}", m);
    let doc: toml::Value = toml::from_str(&m).unwrap();
    assert_eq!(doc["buildpack"]["name"].as_str(), Some("a\"b\\c\nd\te"));
}

#[test]
fn control_characters_are_escaped() {
    let req = shim_request(None, Some("a\u{1}b\u{7f}c"), None, None);
    let m = manifest_text(&req);
    assert!(m.contains("name = \"a\\u0001b\\u007fc\""), "{}", m);
}

#[test]
fn manifest_defaults() {
    let req = shim_request(None, None, None, None);
    let m = manifest_text(&req);
    assert!(m.contains("api = \"0.4\""), "{}", m);
    assert!(m.contains("version = \"0.1.0\""), "{}", m);
    assert!(m.contains("name = \"my-name\""), "{}", m);
    assert_eq!(m.matches("[[stacks]]").count(), 2, "{}", m);
}
