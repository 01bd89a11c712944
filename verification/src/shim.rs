//! The request orchestrator's verified steps: the registry URL, the output
//! package assembly, and the response envelope.

use vstd::prelude::*;
use vstd::string::{StrSliceExecFns, StringExecFns, StringSliceAdditionalSpecFns};
use crate::archive::{
    BinFiles, Entry, EntryV, copy_bytes, entries_view, pack_entries, targz_of, unpack_entries,
    wf_entries,
};
use crate::errors::{classify_fetch_failure, FetchFailure, ServiceError, ShimFailure};
use crate::ident::BuildpackId;
use crate::manifest::{manifest_text, manifest_text_spec};
use crate::request::ShimRequest;

verus! {

/// The registry URL a legacy package is fetched from:
/// `<registry-base>/<namespace>/<name>.tgz`.
pub fn registry_url(id: &BuildpackId) -> (r: String)
    ensures
        r@ == "https://buildpack-registry.s3.amazonaws.com/buildpacks/"@ + id.text_seq()
            + ".tgz"@,
{
    let mut url = "https://buildpack-registry.s3.amazonaws.com/buildpacks/".to_owned();
    url.append(id.as_text());
    url.append(".tgz");
    url
}

/// A character of a fresh token: a lowercase hexadecimal digit or a hyphen.
pub open spec fn is_token_char(c: char) -> bool {
    ('0' <= c && c <= '9') || ('a' <= c && c <= 'f') || c == '-'
}

/// Relies on uuid::Uuid::new_v4 and its Display form: a freshly generated
/// random identifier, rendered hyphenated as 36 characters, each a lowercase
/// hexadecimal digit or a hyphen. Nothing relates two calls: only what holds
/// of every outcome is stated.
#[verifier::external_body]
fn fresh_token() -> (r: String)
    ensures
        r@.len() == 36,
        forall|i: int| 0 <= i < 36 ==> is_token_char(#[trigger] r@[i]),
{
    format!("{}", uuid::Uuid::new_v4())
}

/// A fresh output package name: a random token plus the `.tgz` suffix, used
/// both as the advertised file name and nowhere else.
pub fn package_filename() -> (r: String)
    ensures
        r@.len() == 40,
        r@.subrange(36, 40) == ".tgz"@,
        forall|i: int| 0 <= i < 36 ==> is_token_char(#[trigger] r@[i]),
{
    let mut name = fresh_token();
    let ghost token = name@;
    name.append(".tgz");
    proof {
        reveal_strlit(".tgz");
        assert(name@.subrange(36, 40) =~= ".tgz"@);
        assert forall|i: int| 0 <= i < 36 implies is_token_char(#[trigger] name@[i]) by {
            assert(name@[i] == token[i]);
        }
    }
    name
}

/// The response the orchestrator hands back to the transport on success.
#[derive(Debug)]
pub struct ShimResponse {
    pub status: u16,
    pub content_type: String,
    pub content_disposition: String,
    pub body: Vec<u8>,
}

/// Wraps a finished package as the successful response: status 200, the
/// gzip content type, and an attachment disposition naming the package.
pub fn respond(filename: &str, body: Vec<u8>) -> (r: ShimResponse)
    ensures
        r.status == 200,
        r.content_type@ == "application/x-gzip"@,
        r.content_disposition@ == "attachment; filename=\""@ + filename@ + "\""@,
        r.body@ == body@,
{
    let mut disposition = "attachment; filename=\"".to_owned();
    disposition.append(filename);
    disposition.append("\"");
    ShimResponse {
        status: 200,
        content_type: "application/x-gzip".to_owned(),
        content_disposition: disposition,
        body,
    }
}

/// The fixed entries at the root of every produced package: the `bin`
/// directory with the four entry points, the manifest, and the `target`
/// directory the legacy contents go under.
pub open spec fn fixed_entries(manifest_bytes: Seq<u8>, bins: BinFiles) -> Seq<EntryV> {
    seq![
        EntryV { path: "bin"@, data: Seq::empty(), is_dir: true, mode: 0o755 },
        EntryV { path: "bin/detect"@, data: bins.detect@, is_dir: false, mode: 0o755 },
        EntryV { path: "bin/build"@, data: bins.build@, is_dir: false, mode: 0o755 },
        EntryV { path: "bin/release"@, data: bins.release@, is_dir: false, mode: 0o755 },
        EntryV { path: "bin/exports"@, data: bins.exports@, is_dir: false, mode: 0o755 },
        EntryV { path: "buildpack.toml"@, data: manifest_bytes, is_dir: false, mode: 0o644 },
        EntryV { path: "target"@, data: Seq::empty(), is_dir: true, mode: 0o755 },
    ]
}

/// A legacy entry moved under the `target` directory, otherwise unchanged.
pub open spec fn target_entry(e: EntryV) -> EntryV {
    EntryV { path: "target/"@ + e.path, data: e.data, is_dir: e.is_dir, mode: e.mode }
}

/// The full entry list of the produced package: the fixed root entries,
/// then every legacy entry under `target/`, in order, contents unchanged.
pub open spec fn shim_entries(
    manifest_bytes: Seq<u8>,
    bins: BinFiles,
    legacy: Seq<EntryV>,
) -> Seq<EntryV> {
    fixed_entries(manifest_bytes, bins) + legacy.map_values(|e: EntryV| target_entry(e))
}

/// Prefixing a well-formed path with `target/` keeps it well-formed.
proof fn lemma_wf_target_prefix(p: Seq<char>)
    requires
        crate::archive::wf_path(p),
    ensures
        crate::archive::wf_path("target/"@ + p),
{
    reveal_strlit("target/");
    let t = "target/"@;
    let q = t + p;
    assert(t.len() == 7);
    assert(q[0] == 't');
    assert(q[q.len() - 1] == p[p.len() - 1]);
    assert forall|i: int| 0 <= i < q.len() implies (#[trigger] q[i]) != '\0' && q[i] != '\\' by {
        if i >= 7 {
            assert(q[i] == p[i - 7]);
        }
    }
    assert forall|i: int|
        0 <= i < q.len() - 1 implies !((#[trigger] q[i]) == '/' && q[i + 1] == '/') by {
        if i == 6 {
            assert(q[7] == p[0]);
        } else if i >= 7 {
            assert(q[i] == p[i - 7] && q[i + 1] == p[i - 6]);
        }
    }
    assert forall|i: int|
        0 <= i < q.len() implies !#[trigger] crate::archive::dot_component_at(q, i) by {
        if i >= 7 {
            assert(q[i] == p[i - 7]);
            if i > 7 {
                assert(q[i - 1] == p[i - 8]);
            }
            if i + 1 < q.len() {
                assert(q[i + 1] == p[i - 6]);
            }
            if crate::archive::dot_component_at(q, i) {
                assert(crate::archive::dot_component_at(p, i - 7));
            }
        }
    }
    assert forall|i: int|
        0 <= i < q.len() implies !#[trigger] crate::archive::dotdot_component_at(q, i) by {
        if i >= 7 {
            assert(q[i] == p[i - 7]);
            if i > 7 {
                assert(q[i - 1] == p[i - 8]);
            }
            if i + 1 < q.len() {
                assert(q[i + 1] == p[i - 6]);
            }
            if i + 2 < q.len() {
                assert(q[i + 2] == p[i - 5]);
            }
            if crate::archive::dotdot_component_at(q, i) {
                assert(crate::archive::dotdot_component_at(p, i - 7));
            }
        }
    }
}

/// The fixed root entries are all ones the tar format stores verbatim.
proof fn lemma_fixed_entries_wf(manifest_bytes: Seq<u8>, bins: BinFiles)
    ensures
        crate::archive::wf_entries(fixed_entries(manifest_bytes, bins)),
{
    reveal_strlit("bin");
    reveal_strlit("bin/detect");
    reveal_strlit("bin/build");
    reveal_strlit("bin/release");
    reveal_strlit("bin/exports");
    reveal_strlit("buildpack.toml");
    reveal_strlit("target");
    assert(crate::archive::wf_path("bin"@));
    assert(crate::archive::wf_path("bin/detect"@));
    assert(crate::archive::wf_path("bin/build"@));
    assert(crate::archive::wf_path("bin/release"@));
    assert(crate::archive::wf_path("bin/exports"@));
    assert(crate::archive::wf_path("buildpack.toml"@));
    assert(crate::archive::wf_path("target"@));
    let fs = fixed_entries(manifest_bytes, bins);
    assert forall|i: int| 0 <= i < fs.len() implies crate::archive::wf_entry(#[trigger] fs[i]) by {
        assert(fs.len() == 7);
    }
}

/// The whole output entry list is well-formed whenever the legacy entries
/// are.
proof fn lemma_shim_entries_wf(manifest_bytes: Seq<u8>, bins: BinFiles, legacy: Seq<EntryV>)
    requires
        wf_entries(legacy),
    ensures
        wf_entries(shim_entries(manifest_bytes, bins, legacy)),
{
    lemma_fixed_entries_wf(manifest_bytes, bins);
    let all = shim_entries(manifest_bytes, bins, legacy);
    let fixed = fixed_entries(manifest_bytes, bins);
    let mapped = legacy.map_values(|e: EntryV| target_entry(e));
    assert forall|i: int| 0 <= i < all.len() implies crate::archive::wf_entry(#[trigger] all[i]) by {
        if i < 7 {
            assert(all[i] == fixed[i]);
            assert(crate::archive::wf_entry(fixed[i]));
        } else {
            assert(all[i] == mapped[i - 7]);
            assert(mapped[i - 7] == target_entry(legacy[i - 7]));
            assert(crate::archive::wf_entry(legacy[i - 7]));
            lemma_wf_target_prefix(legacy[i - 7].path);
        }
    }
}

/// What fetching the legacy package came to: its bytes, or how it failed.
pub enum FetchOutcome {
    Fetched(Vec<u8>),
    Failed(FetchFailure),
}

/// Runs every stage of a resolved request after the fetch: classifies a
/// fetch failure, synthesizes the manifest, transcodes the legacy package,
/// and wraps the result under a fresh package name. Strictly sequential: any
/// failure short-circuits, only a transport failure of the fetch counts
/// against the client, and a fetched package that decodes as a well-formed
/// archive is owed a successful response.
pub fn complete_request(req: &ShimRequest, bins: &BinFiles, fetch: FetchOutcome) -> (r: Result<
    ShimResponse,
    ShimFailure,
>)
    ensures
        fetch matches FetchOutcome::Failed(f) ==> r is Err && (f is Transport
            ==> r->Err_0 is BadRequest) && (f is LocalIo ==> r->Err_0 is Service),
        fetch is Fetched && r is Err ==> r->Err_0 is Service
            && (r->Err_0->Service_0.msg_seq() == "Could not untar v2 buildpack"@
            || r->Err_0->Service_0.msg_seq() == "Could not create shimmed tarball"@),
        (exists|s: Seq<EntryV>|
            wf_entries(s) && (fetch matches FetchOutcome::Fetched(b) && b@ == targz_of(s))) ==> r
            is Ok,
        r is Ok ==> {
            &&& r->Ok_0.status == 200
            &&& r->Ok_0.content_type@ == "application/x-gzip"@
            &&& exists|t: Seq<char>|
                t.len() == 40 && t.subrange(36, 40) == ".tgz"@ && (forall|i: int|
                    0 <= i < 36 ==> is_token_char(#[trigger] t[i]))
                    && r->Ok_0.content_disposition@ == "attachment; filename=\""@ + t + "\""@
        },
        forall|s: Seq<EntryV>|
            wf_entries(s) && (fetch matches FetchOutcome::Fetched(b) && b@ == targz_of(s)) ==> r
                is Ok && r->Ok_0.body@ == targz_of(
                shim_entries(
                    vstd::utf8::encode_utf8(manifest_text_spec(*req)),
                    *bins,
                    s,
                ),
            ),
{
    let legacy = match fetch {
        FetchOutcome::Fetched(bytes) => bytes,
        FetchOutcome::Failed(f) => {
            return Err(classify_fetch_failure(&f));
        },
    };
    let manifest = manifest_text(req);
    let package = match build_package(manifest.as_str(), bins, &legacy) {
        Ok(p) => p,
        Err(e) => {
            return Err(ShimFailure::Service(e));
        },
    };
    let filename = package_filename();
    Ok(respond(filename.as_str(), package))
}

/// Transcodes a fetched legacy package into the v3 package: unpacks it,
/// lays its entries under `target/` beside the manifest and the fixed entry
/// points, and packs the result. On the encoding of any well-formed legacy
/// entry sequence it succeeds, and the result is exactly the encoding of
/// `shim_entries` over that sequence.
pub fn build_package(manifest: &str, bins: &BinFiles, legacy_targz: &Vec<u8>) -> (r: Result<
    Vec<u8>,
    ServiceError,
>)
    ensures
        forall|s: Seq<EntryV>|
            wf_entries(s) && legacy_targz@ == targz_of(s) ==> r is Ok && r->Ok_0@ == targz_of(
                shim_entries(manifest.spec_bytes(), *bins, s),
            ),
        r is Err ==> (r->Err_0.msg_seq() == "Could not untar v2 buildpack"@
            || r->Err_0.msg_seq() == "Could not create shimmed tarball"@),
{
    let legacy = match unpack_entries(legacy_targz) {
        Ok(es) => es,
        Err(_) => {
            return Err(ServiceError::new("Could not untar v2 buildpack"));
        },
    };
    let mut out: Vec<Entry> = Vec::new();
    out.push(Entry { path: "bin".to_owned(), data: Vec::new(), is_dir: true, mode: 0o755 });
    out.push(
        Entry { path: "bin/detect".to_owned(), data: copy_bytes(&bins.detect), is_dir: false, mode: 0o755 },
    );
    out.push(
        Entry { path: "bin/build".to_owned(), data: copy_bytes(&bins.build), is_dir: false, mode: 0o755 },
    );
    out.push(
        Entry { path: "bin/release".to_owned(), data: copy_bytes(&bins.release), is_dir: false, mode: 0o755 },
    );
    out.push(
        Entry { path: "bin/exports".to_owned(), data: copy_bytes(&bins.exports), is_dir: false, mode: 0o755 },
    );
    out.push(
        Entry { path: "buildpack.toml".to_owned(), data: manifest.as_bytes_vec(), is_dir: false, mode: 0o644 },
    );
    out.push(Entry { path: "target".to_owned(), data: Vec::new(), is_dir: true, mode: 0o755 });
    proof {
        assert(entries_view(out@) =~~= fixed_entries(manifest.spec_bytes(), *bins));
    }
    let ghost fixed = fixed_entries(manifest.spec_bytes(), *bins);
    let n: usize = legacy.len();
    let mut i: usize = 0;
    while i < n
        invariant
            i <= n,
            n == legacy@.len(),
            out@.len() == 7 + i,
            forall|k: int| 0 <= k < 7 ==> (#[trigger] out@[k])@ == fixed[k],
            forall|k: int| 0 <= k < i ==> (#[trigger] out@[7 + k])@ == target_entry(legacy@[k]@),
        decreases n - i,
    {
        let e = &legacy[i];
        let mut path = "target/".to_owned();
        path.append(e.path.as_str());
        out.push(Entry { path, data: copy_bytes(&e.data), is_dir: e.is_dir, mode: e.mode });
        i = i + 1;
        proof {
            assert(out@[7 + i - 1]@ == target_entry(legacy@[i - 1]@));
        }
    }
    proof {
        let all = shim_entries(manifest.spec_bytes(), *bins, entries_view(legacy@));
        let mapped = entries_view(legacy@).map_values(|e: EntryV| target_entry(e));
        assert forall|k: int| 0 <= k < all.len() implies all[k] == entries_view(out@)[k] by {
            if k < 7 {
                assert(all[k] == fixed[k]);
            } else {
                assert(all[k] == mapped[k - 7]);
                assert(mapped[k - 7] == target_entry(entries_view(legacy@)[k - 7]));
                assert(entries_view(legacy@)[k - 7] == legacy@[k - 7]@);
                assert(out@[7 + (k - 7)]@ == target_entry(legacy@[k - 7]@));
            }
            assert(entries_view(out@)[k] == out@[k]@);
        }
        assert(entries_view(out@) =~= shim_entries(
            manifest.spec_bytes(),
            *bins,
            entries_view(legacy@),
        ));
    }
    match pack_entries(&out) {
        Ok(bytes) => Ok(bytes),
        Err(_) => {
            proof {
                assert forall|s: Seq<EntryV>|
                    !(wf_entries(s) && legacy_targz@ == targz_of(s)) by {
                    if wf_entries(s) && legacy_targz@ == targz_of(s) {
                        assert(entries_view(legacy@) == s);
                        lemma_shim_entries_wf(manifest.spec_bytes(), *bins, s);
                        assert(wf_entries(entries_view(out@)));
                    }
                }
            }
            Err(ServiceError::new("Could not create shimmed tarball"))
        },
    }
}

} // verus!
