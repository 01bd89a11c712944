//! The identifier & parameter resolver: turns raw path segments and query
//! options into a fully validated request descriptor.

use vstd::prelude::*;
use crate::errors::BadRequestError;
use crate::ident::{BuildpackId, is_identifier, joined_id};
use crate::text::str_chars;
use crate::version::{
    ApiVersion, Version, api_fits, api_models, is_api_string, is_version_string, version_fits,
    version_models,
};

verus! {

/// The raw query options of a shim request, as the transport hands them over.
pub struct ShimOptions {
    pub version: Option<String>,
    pub name: Option<String>,
    pub api: Option<String>,
    pub stacks: Option<Vec<String>>,
}

/// A target platform stack. No mixin data is ever populated.
#[derive(Debug)]
pub struct Stack {
    pub id: String,
    pub mixins: Vec<String>,
}

/// The fully resolved request descriptor.
#[derive(Debug)]
pub struct ShimRequest {
    pub id: BuildpackId,
    pub version: Version,
    pub name: String,
    pub api: ApiVersion,
    pub stacks: Vec<Stack>,
}

pub open spec fn version_param_ok(opts: &ShimOptions) -> bool {
    match opts.version {
        None => true,
        Some(v) => is_version_string(v@) && version_fits(v@),
    }
}

pub open spec fn api_param_ok(opts: &ShimOptions) -> bool {
    match opts.api {
        None => true,
        Some(a) => is_api_string(a@) && api_fits(a@),
    }
}

pub open spec fn stacks_param_ok(opts: &ShimOptions) -> bool {
    match opts.stacks {
        None => true,
        Some(ss) => forall|i: int| 0 <= i < ss@.len() ==> is_identifier(#[trigger] ss@[i]@),
    }
}

/// What a successful resolution returns: the joined identifier, the parsed
/// or default version and API version, the display name, and the requested
/// or default stacks, each with empty mixins.
pub open spec fn resolved_ok(
    req: ShimRequest,
    ns: Seq<char>,
    nm: Seq<char>,
    opts: &ShimOptions,
) -> bool {
    &&& req.id.wf()
    &&& req.id.text_seq() == joined_id(ns, nm)
    &&& match opts.version {
        None => req.version.major == 0 && req.version.minor == 1 && req.version.patch == 0
            && req.version.pre is None,
        Some(v) => version_models(req.version, v@),
    }
    &&& match opts.name {
        None => req.name@ == nm,
        Some(d) => req.name@ == d@,
    }
    &&& match opts.api {
        None => req.api.major == 0 && req.api.minor == 4,
        Some(a) => api_models(req.api, a@),
    }
    &&& match opts.stacks {
        None => {
            &&& req.stacks@.len() == 2
            &&& req.stacks@[0].id@ == "heroku-18"@
            &&& req.stacks@[1].id@ == "heroku-20"@
        },
        Some(ss) => {
            &&& req.stacks@.len() == ss@.len()
            &&& forall|i: int| 0 <= i < ss@.len() ==> (#[trigger] req.stacks@[i].id)@ == ss@[i]@
        },
    }
    &&& forall|i: int| 0 <= i < req.stacks@.len() ==> (#[trigger] req.stacks@[i].mixins)@.len()
        == 0
}

/// Validates the path segments and query options of a request and resolves
/// them into a request descriptor, or fails with the client-input error of
/// the first invalid parameter, in the order identifier, version, API
/// version, stacks.
pub fn resolve(namespace: &str, name: &str, opts: &ShimOptions) -> (r: Result<
    ShimRequest,
    BadRequestError,
>)
    ensures
        r is Ok <==> (is_identifier(joined_id(namespace@, name@)) && version_param_ok(opts)
            && api_param_ok(opts) && stacks_param_ok(opts)),
        r is Ok ==> resolved_ok(r->Ok_0, namespace@, name@, opts),
        !is_identifier(joined_id(namespace@, name@)) ==> r is Err && r->Err_0.msg_seq()
            == "invalid buildpack id"@,
        is_identifier(joined_id(namespace@, name@)) && !version_param_ok(opts) ==> r is Err
            && r->Err_0.msg_seq() == "invalid buildpack version"@,
        is_identifier(joined_id(namespace@, name@)) && version_param_ok(opts) && !api_param_ok(
            opts,
        ) ==> r is Err && r->Err_0.msg_seq() == "invalid buildpack api"@,
        is_identifier(joined_id(namespace@, name@)) && version_param_ok(opts) && api_param_ok(opts)
            && !stacks_param_ok(opts) ==> r is Err && r->Err_0.msg_seq() == "invalid stack"@,
{
    let id = match BuildpackId::parse(namespace, name) {
        Some(id) => id,
        None => {
            return Err(BadRequestError::new("invalid buildpack id"));
        },
    };
    let version = match &opts.version {
        None => Version::default_version(),
        Some(v) => match Version::parse(v.as_str()) {
            Some(v) => v,
            None => {
                return Err(BadRequestError::new("invalid buildpack version"));
            },
        },
    };
    let display = match &opts.name {
        Some(d) => d.clone(),
        None => name.to_owned(),
    };
    let api = match &opts.api {
        None => ApiVersion::default_api(),
        Some(a) => match ApiVersion::parse(a.as_str()) {
            Some(a) => a,
            None => {
                return Err(BadRequestError::new("invalid buildpack api"));
            },
        },
    };
    let stacks = match &opts.stacks {
        None => default_stacks(),
        Some(ss) => match parse_stacks(ss) {
            Some(st) => st,
            None => {
                return Err(BadRequestError::new("invalid stack"));
            },
        },
    };
    Ok(ShimRequest { id, version, name: display, api, stacks })
}

/// The fixed stack pair used when the request names none.
fn default_stacks() -> (r: Vec<Stack>)
    ensures
        r@.len() == 2,
        r@[0].id@ == "heroku-18"@,
        r@[1].id@ == "heroku-20"@,
        forall|i: int| 0 <= i < r@.len() ==> (#[trigger] r@[i].mixins)@.len() == 0,
{
    let mut r: Vec<Stack> = Vec::new();
    r.push(Stack { id: "heroku-18".to_owned(), mixins: Vec::new() });
    r.push(Stack { id: "heroku-20".to_owned(), mixins: Vec::new() });
    r
}

/// Validates each requested stack identifier, building the stack list.
fn parse_stacks(ss: &Vec<String>) -> (r: Option<Vec<Stack>>)
    ensures
        match r {
            Some(st) => {
                &&& forall|i: int| 0 <= i < ss@.len() ==> is_identifier(#[trigger] ss@[i]@)
                &&& st@.len() == ss@.len()
                &&& forall|i: int| 0 <= i < ss@.len() ==> (#[trigger] st@[i].id)@ == ss@[i]@
                &&& forall|i: int| 0 <= i < st@.len() ==> (#[trigger] st@[i].mixins)@.len() == 0
            },
            None => !(forall|i: int| 0 <= i < ss@.len() ==> is_identifier(#[trigger] ss@[i]@)),
        },
{
    let n: usize = ss.len();
    let mut st: Vec<Stack> = Vec::new();
    let mut i: usize = 0;
    while i < n
        invariant
            i <= n,
            n == ss@.len(),
            st@.len() == i,
            forall|k: int| 0 <= k < i ==> is_identifier(#[trigger] ss@[k]@),
            forall|k: int| 0 <= k < i ==> (#[trigger] st@[k].id)@ == ss@[k]@,
            forall|k: int| 0 <= k < i ==> (#[trigger] st@[k].mixins)@.len() == 0,
        decreases n - i,
    {
        let cs = str_chars(ss[i].as_str());
        if !crate::ident::check_identifier(&cs) {
            return None;
        }
        st.push(Stack { id: ss[i].clone(), mixins: Vec::new() });
        i = i + 1;
    }
    Some(st)
}

} // verus!
