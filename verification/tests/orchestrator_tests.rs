use cnb_shim::archive::{unpack_entries, BinFiles};
use cnb_shim::errors::FetchFailure;
use cnb_shim::request::{resolve, ShimOptions};
use cnb_shim::shim::{complete_request, FetchOutcome};
use flate2::{write::GzEncoder, Compression};

fn bins() -> BinFiles {
    BinFiles {
        detect: b"detect".to_vec(),
        build: b"build".to_vec(),
        release: b"release".to_vec(),
        exports: b"exports".to_vec(),
    }
}

fn legacy_tgz(files: &[(&str, &[u8])]) -> Vec<u8> {
    let enc = GzEncoder::new(Vec::new(), Compression::default());
    let mut b = tar::Builder::new(enc);
    for (path, data) in files {
        let mut h = tar::Header::new_gnu();
        h.set_entry_type(tar::EntryType::file());
        h.set_mode(0o644);
        h.set_size(data.len() as u64);
        b.append_data(&mut h, path, *data).unwrap();
    }
    b.into_inner().unwrap().finish().unwrap()
}

#[test]
fn successful_request_produces_the_full_package() {
    let opts = ShimOptions {
        version: Some("1.2.3".to_string()),
        name: None,
        api: Some("0.4".to_string()),
        stacks: Some(vec!["heroku-20".to_string()]),
    };
    let req = resolve("my-namespace", "my-name", &opts).unwrap();
    let legacy = legacy_tgz(&[("bin/compile", b"compile")]);
    let reply = complete_request(&req, &bins(), FetchOutcome::Fetched(legacy)).unwrap();

    assert_eq!(reply.status, 200);
    assert_eq!(reply.content_type, "application/x-gzip");
    assert!(reply.content_disposition.starts_with("attachment; filename=\""));
    assert!(reply.content_disposition.ends_with(".tgz\""));

    let entries = unpack_entries(&reply.body).unwrap();
    let toml_bytes = &entries.iter().find(|e| e.path == "buildpack.toml").unwrap().data;
    let manifest = String::from_utf8(toml_bytes.clone()).unwrap();
    assert!(manifest.contains("version = \"1.2.3\""), "{}", manifest);
    assert!(manifest.contains("api = \"0.4\""), "{}", manifest);
    assert_eq!(manifest.matches("[[stacks]]").count(), 1, "{}", manifest);
    assert!(manifest.contains("id = \"heroku-20\""), "{}", manifest);
    assert!(entries.iter().any(|e| e.path == "target/bin/compile" && e.data == b"compile"));
    assert!(entries.iter().any(|e| e.path == "bin/detect" && e.data == b"detect"));
}

#[test]
fn transport_failure_is_a_client_error() {
    let req = resolve("ns", "name", &ShimOptions {
        version: None,
        name: None,
        api: None,
        stacks: None,
    })
    .unwrap();
    let failure = complete_request(&req, &bins(), FetchOutcome::Failed(FetchFailure::Transport))
        .unwrap_err();
    assert_eq!(failure.status_code(), 400);
    assert_eq!(failure.message(), "Can't download v2 buildpack");
}

#[test]
fn local_io_failure_is_a_service_error() {
    let req = resolve("ns", "name", &ShimOptions {
        version: None,
        name: None,
        api: None,
        stacks: None,
    })
    .unwrap();
    let failure = complete_request(&req, &bins(), FetchOutcome::Failed(FetchFailure::LocalIo))
        .unwrap_err();
    assert_eq!(failure.status_code(), 500);
}

#[test]
fn corrupt_legacy_package_is_a_service_error() {
    let req = resolve("ns", "name", &ShimOptions {
        version: None,
        name: None,
        api: None,
        stacks: None,
    })
    .unwrap();
    let failure = complete_request(&req, &bins(), FetchOutcome::Fetched(b"junk".to_vec()))
        .unwrap_err();
    assert_eq!(failure.status_code(), 500);
    assert_eq!(failure.message(), "Could not untar v2 buildpack");
}
