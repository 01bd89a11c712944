//! The metadata synthesizer: renders the v3 manifest document
//! (`buildpack.toml`) for a resolved request, deterministically and exactly.

use vstd::prelude::*;
use vstd::string::StringExecFns;
use crate::request::{ShimRequest, Stack};
use crate::text::{dec_str, push_u64};
use crate::version::{ApiVersion, Version};

verus! {

/// The character for the hexadecimal digit `n`, lower case.
pub open spec fn hex_char(n: nat) -> char {
    if n < 10 {
        ((48 + n) as u8) as char
    } else {
        ((87 + n) as u8) as char
    }
}

/// How one character is written inside a TOML basic string: quotes,
/// backslashes and control characters are escaped, all else passes through.
pub open spec fn esc_char(c: char) -> Seq<char> {
    if c == '"' {
        seq!['\\', '"']
    } else if c == '\\' {
        seq!['\\', '\\']
    } else if c == '\n' {
        seq!['\\', 'n']
    } else if c == '\r' {
        seq!['\\', 'r']
    } else if c == '\t' {
        seq!['\\', 't']
    } else if (c as u32) < 0x20 || (c as u32) == 0x7f {
        seq!['\\', 'u', '0', '0', hex_char(((c as u32) / 16) as nat), hex_char(
            ((c as u32) % 16) as nat,
        )]
    } else {
        seq![c]
    }
}

/// A string escaped for a TOML basic string, character by character.
pub open spec fn esc(s: Seq<char>) -> Seq<char>
    decreases s.len(),
{
    if s.len() == 0 {
        Seq::empty()
    } else {
        esc(s.drop_last()) + esc_char(s.last())
    }
}

/// The text of a version: `major.minor.patch`, then `-pre` if present.
pub open spec fn version_text(v: Version) -> Seq<char> {
    dec_str(v.major as nat) + seq!['.'] + dec_str(v.minor as nat) + seq!['.'] + dec_str(
        v.patch as nat,
    ) + match v.pre {
        None => Seq::<char>::empty(),
        Some(p) => seq!['-'] + p@,
    }
}

/// The text of an API version: `major.minor`.
pub open spec fn api_text(a: ApiVersion) -> Seq<char> {
    dec_str(a.major as nat) + seq!['.'] + dec_str(a.minor as nat)
}

/// One `[[stacks]]` block of the manifest.
pub open spec fn stack_block(id: Seq<char>) -> Seq<char> {
    "\n[[stacks]]\nid = \""@ + id + "\"\nmixins = []\n"@
}

/// The `[[stacks]]` blocks of the manifest, one per stack, in order.
pub open spec fn stacks_text(ss: Seq<Stack>) -> Seq<char>
    decreases ss.len(),
{
    if ss.len() == 0 {
        Seq::empty()
    } else {
        stacks_text(ss.drop_last()) + stack_block(ss.last().id@)
    }
}

/// The whole manifest document: the API version and the empty build order,
/// the buildpack identity block with `clear_env = false` and no homepage,
/// one block per stack, and the empty metadata table.
pub open spec fn manifest_text_spec(req: ShimRequest) -> Seq<char> {
    "api = \""@ + api_text(req.api) + "\"\norder = []\n\n[buildpack]\nid = \""@ + req.id.text_seq()
        + "\"\nname = \""@ + esc(req.name@) + "\"\nversion = \""@ + version_text(req.version)
        + "\"\nclear_env = false\n"@ + stacks_text(req.stacks@) + "\n[metadata]\n"@
}

/// Renders the manifest document of a resolved request. Total: it cannot
/// fail.
pub fn manifest_text(req: &ShimRequest) -> (r: String)
    ensures
        r@ == manifest_text_spec(*req),
{
    let mut out = String::new();
    out.append("api = \"");
    push_u64(&mut out, req.api.major);
    out.push('.');
    push_u64(&mut out, req.api.minor);
    proof {
        reveal_strlit(".");
        assert(out@ =~= "api = \""@ + api_text(req.api));
    }
    out.append("\"\norder = []\n\n[buildpack]\nid = \"");
    out.append(req.id.as_text());
    out.append("\"\nname = \"");
    push_escaped(&mut out, req.name.as_str());
    out.append("\"\nversion = \"");
    push_version(&mut out, &req.version);
    out.append("\"\nclear_env = false\n");
    let ghost head = out@;
    let n: usize = req.stacks.len();
    let mut i: usize = 0;
    while i < n
        invariant
            i <= n,
            n == req.stacks@.len(),
            out@ == head + stacks_text(req.stacks@.subrange(0, i as int)),
        decreases n - i,
    {
        out.append("\n[[stacks]]\nid = \"");
        out.append(req.stacks[i].id.as_str());
        out.append("\"\nmixins = []\n");
        i = i + 1;
        proof {
            let pre = req.stacks@.subrange(0, i - 1);
            let cur = req.stacks@.subrange(0, i as int);
            assert(cur.drop_last() =~= pre);
            assert(cur.last() == req.stacks@[i - 1]);
            assert(out@ =~= head + stacks_text(cur));
        }
    }
    out.append("\n[metadata]\n");
    proof {
        assert(req.stacks@.subrange(0, n as int) =~= req.stacks@);
        assert(out@ =~= manifest_text_spec(*req));
    }
    out
}

/// Appends `major.minor.patch[-pre]` to `out`.
fn push_version(out: &mut String, v: &Version)
    ensures
        final(out)@ == old(out)@ + version_text(*v),
{
    push_u64(out, v.major);
    out.push('.');
    push_u64(out, v.minor);
    out.push('.');
    push_u64(out, v.patch);
    match &v.pre {
        None => {},
        Some(p) => {
            out.push('-');
            out.append(p.as_str());
        },
    }
    proof {
        assert(final(out)@ =~= old(out)@ + version_text(*v));
    }
}

/// Appends the TOML-escaped form of `s` to `out`.
fn push_escaped(out: &mut String, s: &str)
    ensures
        final(out)@ == old(out)@ + esc(s@),
{
    let cs = crate::text::str_chars(s);
    let n: usize = cs.len();
    let mut i: usize = 0;
    while i < n
        invariant
            i <= n,
            n == cs@.len(),
            cs@ == s@,
            out@ == old(out)@ + esc(s@.subrange(0, i as int)),
        decreases n - i,
    {
        push_escaped_char(out, cs[i]);
        i = i + 1;
        proof {
            let cur = s@.subrange(0, i as int);
            assert(cur.drop_last() =~= s@.subrange(0, i - 1));
            assert(cur.last() == s@[i - 1]);
            assert(out@ =~= old(out)@ + esc(cur));
        }
    }
    proof {
        assert(s@.subrange(0, n as int) =~= s@);
    }
}

/// Appends the escaped form of one character to `out`.
fn push_escaped_char(out: &mut String, c: char)
    ensures
        final(out)@ == old(out)@ + esc_char(c),
{
    if c == '"' {
        out.append("\\\"");
        proof {
            reveal_strlit("\\\"");
            assert(final(out)@ =~= old(out)@ + esc_char(c));
        }
    } else if c == '\\' {
        out.append("\\\\");
        proof {
            reveal_strlit("\\\\");
            assert(final(out)@ =~= old(out)@ + esc_char(c));
        }
    } else if c == '\n' {
        out.append("\\n");
        proof {
            reveal_strlit("\\n");
            assert(final(out)@ =~= old(out)@ + esc_char(c));
        }
    } else if c == '\r' {
        out.append("\\r");
        proof {
            reveal_strlit("\\r");
            assert(final(out)@ =~= old(out)@ + esc_char(c));
        }
    } else if c == '\t' {
        out.append("\\t");
        proof {
            reveal_strlit("\\t");
            assert(final(out)@ =~= old(out)@ + esc_char(c));
        }
    } else {
        let v = c as u32;
        if v < 0x20 || v == 0x7f {
            out.append("\\u00");
            out.push(hex_char_exec(v / 16));
            out.push(hex_char_exec(v % 16));
            proof {
                reveal_strlit("\\u00");
                assert(final(out)@ =~= old(out)@ + esc_char(c));
            }
        } else {
            out.push(c);
            proof {
                assert(final(out)@ =~= old(out)@ + esc_char(c));
            }
        }
    }
}

/// The character for the hexadecimal digit `d`, lower case.
fn hex_char_exec(d: u32) -> (r: char)
    requires
        d < 16,
    ensures
        r == hex_char(d as nat),
{
    if d < 10 {
        (48 + d as u8) as char
    } else {
        (87 + d as u8) as char
    }
}

} // verus!
