//! Turning a git subprocess's raw output into text and a result.
//!
//! Running the process is the caller's business; the byte decoding with
//! its GBK fallback, the Windows extended-path prefix handling, and the
//! shaping of the command's result are decided here.

use vstd::prelude::*;
use vstd::string::StrSliceExecFns;
use vstd::string::StringExecFns;
use vstd::utf8::decode_utf8;
use vstd::utf8::valid_utf8;

verus! {

/// The text encoding_rs's GBK decoder produces for a byte string; it
/// depends on the bytes alone.
pub uninterp spec fn gbk_decoded(bytes: Seq<u8>) -> Seq<char>;

/// Relies on encoding_rs::GBK.decode: the decoded text is a function of
/// the input bytes alone.
#[verifier::external_body]
fn gbk_decode(bytes: &[u8]) -> (r: String)
    ensures
        r@ == gbk_decoded(bytes@),
{
    let (text, _, _) = encoding_rs::GBK.decode(bytes);
    text.into_owned()
}

/// Relies on String::from_utf8: it succeeds exactly on valid UTF-8 and
/// returns its decoding.
#[verifier::external_body]
fn utf8_decode(bytes: &[u8]) -> (r: Option<String>)
    ensures
        match r {
            Some(s) => valid_utf8(bytes@) && s@ == decode_utf8(bytes@),
            None => !valid_utf8(bytes@),
        },
{
    String::from_utf8(bytes.to_vec()).ok()
}

/// The text a console byte string denotes: its UTF-8 decoding when it is
/// valid UTF-8, and its GBK decoding otherwise.
pub open spec fn decoded_console(bytes: Seq<u8>) -> Seq<char> {
    if valid_utf8(bytes) {
        decode_utf8(bytes)
    } else {
        gbk_decoded(bytes)
    }
}

/// Decode a console byte string, trying UTF-8 first and falling back to
/// GBK.
pub fn decode_console_bytes(bytes: &[u8]) -> (r: String)
    ensures
        r@ == decoded_console(bytes@),
{
    match utf8_decode(bytes) {
        Some(s) => s,
        None => gbk_decode(bytes),
    }
}

/// A character this module's trim removes: ASCII whitespace only, a
/// deliberate narrowing — console error text carries no other whitespace
/// worth stripping, and the narrower predicate keeps the trim exact.
pub open spec fn is_ascii_ws(c: char) -> bool {
    c == ' ' || c == '\t' || c == '\r' || c == '\n'
}

/// The end of the whitespace run that starts at `i`.
pub open spec fn ws_run_end(s: Seq<char>, i: int) -> int
    decreases s.len() - i + 1,
{
    if 0 <= i < s.len() && is_ascii_ws(s[i]) {
        ws_run_end(s, i + 1)
    } else {
        i
    }
}

/// Where the text before `j` ends once trailing whitespace is dropped.
pub open spec fn ws_trim_end(s: Seq<char>, j: int) -> int
    decreases j,
{
    if 0 < j <= s.len() && is_ascii_ws(s[j - 1]) {
        ws_trim_end(s, j - 1)
    } else {
        j
    }
}

/// The text with ASCII whitespace removed from both ends. Unicode-only
/// whitespace is deliberately left in place; see `is_ascii_ws`.
pub open spec fn trimmed(s: Seq<char>) -> Seq<char> {
    let a = ws_run_end(s, 0);
    let t = s.subrange(a, s.len() as int);
    t.subrange(0, ws_trim_end(t, t.len() as int))
}

/// Whether a character is ASCII whitespace.
fn is_ws_char(c: char) -> (b: bool)
    ensures
        b == is_ascii_ws(c),
{
    c == ' ' || c == '\t' || c == '\r' || c == '\n'
}

/// The index where the leading whitespace run of the text ends.
fn leading_ws_end(s: &str, len: usize) -> (a: usize)
    requires
        len == s@.len(),
    ensures
        a == ws_run_end(s@, 0),
        a <= len,
{
    let mut a: usize = 0;
    while a < len
        invariant
            len == s@.len(),
            0 <= a <= len,
            ws_run_end(s@, 0) == ws_run_end(s@, a as int),
        decreases len - a,
    {
        if !is_ws_char(s.get_char(a)) {
            assert(ws_run_end(s@, a as int) == a);
            return a;
        }
        a += 1;
    }
    assert(ws_run_end(s@, len as int) == len);
    len
}

/// Where the text before `len`, past `a`, ends once trailing whitespace is
/// dropped, as an index into the whole text.
fn trailing_ws_start(s: &str, a: usize, len: usize) -> (e: usize)
    requires
        len == s@.len(),
        a <= len,
    ensures
        a <= e <= len,
        ws_trim_end(s@.subrange(a as int, len as int), (len - a) as int) == e - a,
{
    let ghost t = s@.subrange(a as int, len as int);
    let mut e: usize = len;
    while e > a
        invariant
            len == s@.len(),
            0 <= a <= e <= len,
            t == s@.subrange(a as int, len as int),
            ws_trim_end(t, (len - a) as int) == ws_trim_end(t, e - a),
        decreases e,
    {
        if !is_ws_char(s.get_char(e - 1)) {
            proof {
                assert(t[e - a - 1] == s@[e - 1]);
                assert(ws_trim_end(t, e - a) == e - a);
            }
            return e;
        }
        proof {
            assert(t[e - a - 1] == s@[e - 1]);
            assert(ws_trim_end(t, e - a) == ws_trim_end(t, e - a - 1));
        }
        e -= 1;
    }
    assert(ws_trim_end(t, 0) == 0);
    a
}

/// Remove ASCII whitespace from both ends of the text.
pub fn trim_ascii(s: &str) -> (r: String)
    ensures
        r@ == trimmed(s@),
{
    let len = s.unicode_len();
    let a = leading_ws_end(s, len);
    let e = trailing_ws_start(s, a, len);
    proof {
        let t = s@.subrange(a as int, len as int);
        assert(t.subrange(0, e - a) =~= s@.subrange(a as int, e as int));
    }
    let piece = s.substring_char(a, e);
    String::from_str(piece)
}

/// The Windows extended-length path prefix.
pub open spec fn unc_prefix() -> Seq<char> {
    "\\\\?\\"@
}

/// The path with a leading extended-length prefix removed, if one is
/// there.
pub open spec fn spec_strip_unc(p: Seq<char>) -> Seq<char> {
    if p.len() >= 4 && p.subrange(0, 4) == unc_prefix() {
        p.subrange(4, p.len() as int)
    } else {
        p
    }
}

/// Strip the Windows extended-length prefix from a path.
pub fn strip_unc_prefix(path: &str) -> (r: String)
    ensures
        r@ == spec_strip_unc(path@),
{
    proof {
        reveal_strlit("\\\\?\\");
    }
    let len = path.unicode_len();
    if len >= 4 && path.get_char(0) == '\\' && path.get_char(1) == '\\' && path.get_char(2) == '?'
        && path.get_char(3) == '\\' {
        assert(path@.subrange(0, 4) =~= unc_prefix());
        let rest = path.substring_char(4, len);
        String::from_str(rest)
    } else {
        proof {
            if len >= 4 && path@.subrange(0, 4) == unc_prefix() {
                assert(path@[0] == unc_prefix()[0]);
                assert(path@[1] == unc_prefix()[1]);
                assert(path@[2] == unc_prefix()[2]);
                assert(path@[3] == unc_prefix()[3]);
            }
        }
        String::from_str(path)
    }
}

/// Shape a git command's raw outcome into its result: decoded standard
/// output on success, and on failure an error built from the decoded,
/// trimmed standard error, with a fixed message when that is empty.
pub fn git_output_to_result(success: bool, stdout: &[u8], stderr: &[u8]) -> (r: Result<
    String,
    String,
>)
    ensures
        success ==> (r matches Ok(s) && s@ == decoded_console(stdout@)),
        !success ==> (r matches Err(e) && e@ == "Git命令执行失败: "@ + trimmed(
            if stderr@.len() == 0 {
                "命令执行失败，但没有错误信息"@
            } else {
                decoded_console(stderr@)
            },
        )),
{
    if success {
        Ok(decode_console_bytes(stdout))
    } else {
        let message = if stderr.len() == 0 {
            String::from_str("命令执行失败，但没有错误信息")
        } else {
            decode_console_bytes(stderr)
        };
        let cleaned = trim_ascii(message.as_str());
        let mut e = String::from_str("Git命令执行失败: ");
        e.append(cleaned.as_str());
        Err(e)
    }
}

} // verus!
