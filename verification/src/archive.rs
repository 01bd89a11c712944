//! The archive transcoder's data model: archives as sequences of entries,
//! packed to and unpacked from gzip-compressed tar bytes through trusted
//! wrappers around the tar and flate2 crates.

use vstd::prelude::*;
use vstd::slice::slice_to_vec;

verus! {

/// One archive entry: a relative path, the file bytes (empty for a
/// directory), and the permission bits.
pub struct Entry {
    pub path: String,
    pub data: Vec<u8>,
    pub is_dir: bool,
    pub mode: u32,
}

/// The mathematical model of an entry.
pub struct EntryV {
    pub path: Seq<char>,
    pub data: Seq<u8>,
    pub is_dir: bool,
    pub mode: u32,
}

impl View for Entry {
    type V = EntryV;

    open spec fn view(&self) -> EntryV {
        EntryV { path: self.path@, data: self.data@, is_dir: self.is_dir, mode: self.mode }
    }
}

pub open spec fn entries_view(es: Seq<Entry>) -> Seq<EntryV> {
    es.map_values(|e: Entry| e@)
}

/// A packing or unpacking failure, mapped to a service error by the caller.
#[derive(Debug)]
pub struct ArchiveFault;

pub open spec fn starts_component(p: Seq<char>, i: int) -> bool {
    i == 0 || p[i - 1] == '/'
}

pub open spec fn dot_component_at(p: Seq<char>, i: int) -> bool {
    starts_component(p, i) && p[i] == '.' && (i + 1 == p.len() || p[i + 1] == '/')
}

pub open spec fn dotdot_component_at(p: Seq<char>, i: int) -> bool {
    starts_component(p, i) && p[i] == '.' && i + 1 < p.len() && p[i + 1] == '.' && (i + 2 == p.len()
        || p[i + 2] == '/')
}

/// A path that the tar format stores verbatim: relative, with no empty,
/// `.` or `..` components, and no NUL or backslash characters.
pub open spec fn wf_path(p: Seq<char>) -> bool {
    &&& p.len() > 0
    &&& p[0] != '/'
    &&& p[p.len() - 1] != '/'
    &&& forall|i: int| 0 <= i < p.len() ==> (#[trigger] p[i]) != '\0' && p[i] != '\\'
    &&& forall|i: int| 0 <= i < p.len() - 1 ==> !((#[trigger] p[i]) == '/' && p[i + 1] == '/')
    &&& forall|i: int| 0 <= i < p.len() ==> !#[trigger] dot_component_at(p, i)
    &&& forall|i: int| 0 <= i < p.len() ==> !#[trigger] dotdot_component_at(p, i)
}

/// An entry that packing stores and unpacking returns verbatim.
pub open spec fn wf_entry(e: EntryV) -> bool {
    &&& wf_path(e.path)
    &&& e.mode <= 0o7777777
    &&& e.is_dir ==> e.data.len() == 0
}

pub open spec fn wf_entries(s: Seq<EntryV>) -> bool {
    forall|i: int| 0 <= i < s.len() ==> wf_entry(#[trigger] s[i])
}

/// The gzip-compressed tar encoding of an entry sequence, as the tar and
/// flate2 crates produce it at the default compression level.
pub uninterp spec fn targz_of(entries: Seq<EntryV>) -> Seq<u8>;

/// Relies on tar::Builder and flate2::write::GzEncoder: appending each entry
/// with its path, type, mode and size and finishing both streams yields the
/// gzip-compressed tar encoding of exactly those entries, a deterministic
/// function of the entries and nothing else. Success is owed: the sink is an
/// in-memory vector, so no write can fail, and tar's path encoding accepts
/// every path `wf_path` admits (it rejects only absolute, empty, `.`/`..`
/// and NUL-bearing paths; over-long ones go through the GNU long-name
/// extension, which cannot fail on an in-memory sink either).
#[verifier::external_body]
fn pack_raw(entries: &Vec<Entry>) -> (r: Result<Vec<u8>, ArchiveFault>)
    requires
        wf_entries(entries_view(entries@)),
    ensures
        r is Ok,
        r->Ok_0@ == targz_of(entries_view(entries@)),
{
    let enc = flate2::write::GzEncoder::new(Vec::new(), flate2::Compression::default());
    let mut builder = tar::Builder::new(enc);
    for e in entries.iter() {
        let mut h = tar::Header::new_gnu();
        h.set_entry_type(if e.is_dir { tar::EntryType::dir() } else { tar::EntryType::file() });
        h.set_mode(e.mode);
        h.set_size(e.data.len() as u64);
        builder.append_data(&mut h, &e.path, e.data.as_slice()).map_err(|_| ArchiveFault)?;
    }
    let enc = builder.into_inner().map_err(|_| ArchiveFault)?;
    enc.finish().map(|v| v).map_err(|_| ArchiveFault)
}

/// Relies on tar::Archive and flate2::read::GzDecoder: reading an archive
/// that `targz_of` encodes lists exactly the entries it was packed from,
/// with the same paths, contents, types and modes, in the same order.
#[verifier::external_body]
fn unpack_raw(bytes: &Vec<u8>) -> (r: Result<Vec<Entry>, ArchiveFault>)
    ensures
        forall|s: Seq<EntryV>|
            wf_entries(s) && bytes@ == targz_of(s) ==> r is Ok && entries_view(r->Ok_0@) == s,
{
    let mut archive = tar::Archive::new(flate2::read::GzDecoder::new(bytes.as_slice()));
    let mut out: Vec<Entry> = Vec::new();
    for entry in archive.entries().map_err(|_| ArchiveFault)? {
        let mut entry = entry.map_err(|_| ArchiveFault)?;
        let path = String::from_utf8(entry.path_bytes().to_vec()).map_err(|_| ArchiveFault)?;
        let mode = entry.header().mode().map_err(|_| ArchiveFault)?;
        let is_dir = entry.header().entry_type().is_dir();
        let mut data = Vec::new();
        std::io::Read::read_to_end(&mut entry, &mut data).map_err(|_| ArchiveFault)?;
        out.push(Entry { path, data, is_dir, mode });
    }
    Ok(out)
}

/// Packs entries into a gzip-compressed tar archive. Succeeds exactly on
/// entry lists the tar format stores verbatim, and then returns exactly
/// their encoding.
pub fn pack_entries(entries: &Vec<Entry>) -> (r: Result<Vec<u8>, ArchiveFault>)
    ensures
        r is Ok <==> wf_entries(entries_view(entries@)),
        r is Ok ==> r->Ok_0@ == targz_of(entries_view(entries@)),
{
    if !check_entries(entries) {
        return Err(ArchiveFault);
    }
    pack_raw(entries)
}

/// Unpacks a gzip-compressed tar archive into its entries. On the encoding
/// of any well-formed entry sequence it returns exactly that sequence.
pub fn unpack_entries(bytes: &Vec<u8>) -> (r: Result<Vec<Entry>, ArchiveFault>)
    ensures
        forall|s: Seq<EntryV>|
            wf_entries(s) && bytes@ == targz_of(s) ==> r is Ok && entries_view(r->Ok_0@) == s,
{
    unpack_raw(bytes)
}

/// Checks that every entry is one the tar format stores verbatim.
pub fn check_entries(entries: &Vec<Entry>) -> (r: bool)
    ensures
        r == wf_entries(entries_view(entries@)),
{
    let n: usize = entries.len();
    let mut i: usize = 0;
    while i < n
        invariant
            i <= n,
            n == entries@.len(),
            forall|k: int| 0 <= k < i ==> wf_entry(#[trigger] entries_view(entries@)[k]),
        decreases n - i,
    {
        let e = &entries[i];
        let ok = check_path(&e.path) && e.mode <= 0o7777777 && (!e.is_dir || e.data.len() == 0);
        proof {
            assert(entries_view(entries@)[i as int] == entries@[i as int]@);
        }
        if !ok {
            return false;
        }
        i = i + 1;
    }
    true
}

/// Checks a path against `wf_path`.
fn check_path(p: &str) -> (r: bool)
    ensures
        r == wf_path(p@),
{
    let cs = crate::text::str_chars(p);
    let n: usize = cs.len();
    if n == 0 {
        return false;
    }
    if cs[0] == '/' || cs[n - 1] == '/' {
        return false;
    }
    let mut i: usize = 0;
    while i < n
        invariant
            i <= n,
            0 < n == cs@.len(),
            cs@ == p@,
            forall|k: int| 0 <= k < i ==> (#[trigger] p@[k]) != '\0' && p@[k] != '\\',
            forall|k: int| 0 <= k < i && k < n - 1 ==> !((#[trigger] p@[k]) == '/' && p@[k + 1] == '/'),
            forall|k: int| 0 <= k < i ==> !#[trigger] dot_component_at(p@, k),
            forall|k: int| 0 <= k < i ==> !#[trigger] dotdot_component_at(p@, k),
        decreases n - i,
    {
        let c = cs[i];
        if c == '\0' || c == '\\' {
            return false;
        }
        if i + 1 < n && c == '/' && cs[i + 1] == '/' {
            return false;
        }
        let starts = i == 0 || cs[i - 1] == '/';
        if starts && c == '.' {
            if i + 1 == n || cs[i + 1] == '/' {
                proof {
                    assert(dot_component_at(p@, i as int));
                }
                return false;
            }
            if cs[i + 1] == '.' && (i + 2 == n || cs[i + 2] == '/') {
                proof {
                    assert(dotdot_component_at(p@, i as int));
                }
                return false;
            }
        }
        proof {
            assert(!dot_component_at(p@, i as int));
            assert(!dotdot_component_at(p@, i as int));
        }
        i = i + 1;
    }
    true
}

/// The four fixed entry-point executables shipped with the service.
pub struct BinFiles {
    pub detect: Vec<u8>,
    pub build: Vec<u8>,
    pub release: Vec<u8>,
    pub exports: Vec<u8>,
}

/// Copies a byte vector.
pub fn copy_bytes(v: &Vec<u8>) -> (r: Vec<u8>)
    ensures
        r@ == v@,
{
    slice_to_vec(v.as_slice())
}

} // verus!
