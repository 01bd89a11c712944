//! The buildpack identifier grammar: alphanumeric segments separated by
//! `/`, `.` or `-`, and the identifier type built from a namespace and a
//! name path segment.

use vstd::prelude::*;
use vstd::string::StringExecFns;
use crate::text::{is_alnum, str_chars};

verus! {

pub open spec fn is_sep(c: char) -> bool {
    c == '/' || c == '.' || c == '-'
}

pub open spec fn is_ident_char(c: char) -> bool {
    is_alnum(c) || is_sep(c)
}

/// The identifier grammar: one or more non-empty alphanumeric segments,
/// joined by single separator characters.
pub open spec fn is_identifier(s: Seq<char>) -> bool {
    &&& s.len() > 0
    &&& forall|i: int| 0 <= i < s.len() ==> is_ident_char(#[trigger] s[i])
    &&& is_alnum(s[0])
    &&& is_alnum(s[s.len() - 1])
    &&& forall|i: int| 0 <= i < s.len() - 1 ==> !(is_sep(#[trigger] s[i]) && is_sep(s[i + 1]))
}

/// A namespace and a name joined by a slash.
pub open spec fn joined_id(ns: Seq<char>, name: Seq<char>) -> Seq<char> {
    ns + seq!['/'] + name
}

/// Joining two identifiers with a slash yields an identifier again, so every
/// valid `(namespace, name)` pair resolves to the identifier
/// `"namespace/name"`.
pub proof fn lemma_identifier_join(ns: Seq<char>, name: Seq<char>)
    requires
        is_identifier(ns),
        is_identifier(name),
    ensures
        is_identifier(joined_id(ns, name)),
{
    let j = joined_id(ns, name);
    assert(j.len() == ns.len() + 1 + name.len());
    assert forall|i: int| 0 <= i < j.len() implies is_ident_char(#[trigger] j[i]) by {
        if i < ns.len() {
            assert(j[i] == ns[i]);
        } else if i == ns.len() {
            assert(j[i] == '/');
        } else {
            assert(j[i] == name[i - ns.len() - 1]);
        }
    }
    assert(j[0] == ns[0]);
    assert(j[j.len() - 1] == name[name.len() - 1]);
    assert forall|i: int| 0 <= i < j.len() - 1 implies !(is_sep(#[trigger] j[i]) && is_sep(j[i + 1])) by {
        if i + 1 < ns.len() {
            assert(j[i] == ns[i] && j[i + 1] == ns[i + 1]);
        } else if i + 1 == ns.len() {
            assert(j[i + 1] == ns[i + 1 - 1] || true);
            assert(j[i] == ns[i] && !is_sep(ns[ns.len() - 1]));
        } else if i == ns.len() {
            assert(j[i + 1] == name[0] && !is_sep(name[0]));
        } else {
            assert(j[i] == name[i - ns.len() - 1] && j[i + 1] == name[i - ns.len()]);
        }
    }
}

/// Checks a character vector against the identifier grammar.
pub fn check_identifier(s: &Vec<char>) -> (r: bool)
    ensures
        r == is_identifier(s@),
{
    let n: usize = s.len();
    if n == 0 {
        return false;
    }
    if !alnum_exec(s[0]) || !alnum_exec(s[n - 1]) {
        return false;
    }
    let mut i: usize = 0;
    while i < n
        invariant
            0 < n == s@.len(),
            i <= n,
            forall|k: int| 0 <= k < i ==> is_ident_char(#[trigger] s@[k]),
            forall|k: int| 0 <= k < i - 1 ==> !(is_sep(#[trigger] s@[k]) && is_sep(s@[k + 1])),
        decreases n - i,
    {
        let c = s[i];
        if !alnum_exec(c) && !sep_exec(c) {
            return false;
        }
        if i > 0 && sep_exec(s[i - 1]) && sep_exec(c) {
            return false;
        }
        i = i + 1;
    }
    true
}

fn alnum_exec(c: char) -> (r: bool)
    ensures
        r == is_alnum(c),
{
    ('a' <= c && c <= 'z') || ('A' <= c && c <= 'Z') || ('0' <= c && c <= '9')
}

fn sep_exec(c: char) -> (r: bool)
    ensures
        r == is_sep(c),
{
    c == '/' || c == '.' || c == '-'
}

/// A validated buildpack identifier; its text always matches the identifier
/// grammar.
#[derive(Debug)]
pub struct BuildpackId {
    text: String,
}

impl BuildpackId {
    pub closed spec fn wf(&self) -> bool {
        is_identifier(self.text@)
    }

    /// The identifier's text, of the form `namespace/name`.
    pub closed spec fn text_seq(&self) -> Seq<char> {
        self.text@
    }

    /// Builds the identifier `namespace/name`, failing unless the joined
    /// token matches the identifier grammar.
    pub fn parse(namespace: &str, name: &str) -> (r: Option<BuildpackId>)
        ensures
            match r {
                Some(id) => id.wf() && id.text_seq() == joined_id(namespace@, name@)
                    && is_identifier(joined_id(namespace@, name@)),
                None => !is_identifier(joined_id(namespace@, name@)),
            },
    {
        let mut text = namespace.to_owned();
        text.append("/");
        text.append(name);
        proof {
            reveal_strlit("/");
            assert(text@ =~= joined_id(namespace@, name@));
        }
        let cs = str_chars(text.as_str());
        if check_identifier(&cs) {
            Some(BuildpackId { text })
        } else {
            None
        }
    }

    /// The identifier's text as a string.
    pub fn as_text(&self) -> (r: &str)
        ensures
            r@ == self.text_seq(),
    {
        self.text.as_str()
    }
}

} // verus!
