//! Verified core of a buildpack shim service: it validates request
//! parameters, synthesizes a v3 buildpack manifest, and transcodes a
//! legacy buildpack archive into a v3 package.

pub mod archive;
pub mod errors;
pub mod ident;
pub mod manifest;
pub mod request;
pub mod shim;
pub mod text;
pub mod version;

use vstd::prelude::*;

verus! {

/// `GET /health` always answers 200 with this fixed body.
pub fn health_check() -> (r: (u16, String))
    ensures
        r.0 == 200,
        r.1@ == "health check ok"@,
{
    (200, "health check ok".to_owned())
}

} // verus!
