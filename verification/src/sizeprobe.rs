//! Learning a remote artifact's byte size through an ordered fallback
//! chain: a HEAD request, a one-byte range request, a WebDAV PROPFIND, and
//! finally a range request that only proves the file exists.
//!
//! The caller performs each request and reports what it parsed out of the
//! response; the machine here fixes the order of the strategies and the
//! result each outcome produces. No strategy failure is fatal: each one
//! only advances the chain.

use vstd::prelude::*;
use vstd::string::StrSliceExecFns;
use vstd::string::StringExecFns;

use crate::digits::digits_val;
use crate::digits::is_numeric_seg;
use crate::digits::parse_u64;
use crate::format::format_file_size;
use crate::format::spec_format_size;
use crate::text::find_from_spec;
use crate::text::find_substring_from;
use crate::text::lemma_find_from_some;
use crate::text::split_on;
use crate::text::split_string;

verus! {

/// What the caller observed while serving one probe strategy.
#[derive(Clone, Copy, PartialEq, Eq, Structural, Debug)]
pub enum ProbeOutcome {
    /// The response carried a byte size and it parsed.
    Measured(u64),
    /// The request succeeded but carried no size.
    Confirmed,
    /// The request failed or its response was unusable.
    Failed,
}

/// Where the probe chain stands: which request to issue next, or the final
/// size and its display label.
pub enum ProbeState {
    /// Issue a HEAD request and read its content-length header.
    Head,
    /// Issue a GET with byte range `0-0` and read the content-range total.
    RangeQuery,
    /// Issue a WebDAV PROPFIND at depth 0 and scan for the content length.
    Propfind,
    /// Issue a GET with byte range `0-1023`; success proves existence only.
    Existence,
    /// The probe is over: the size and its human label.
    Done(u64, String),
}

/// The probe state with the label abstracted to its characters.
pub enum ProbeStateView {
    Head,
    RangeQuery,
    Propfind,
    Existence,
    Done(u64, Seq<char>),
}

impl View for ProbeState {
    type V = ProbeStateView;

    open spec fn view(&self) -> ProbeStateView {
        match self {
            ProbeState::Head => ProbeStateView::Head,
            ProbeState::RangeQuery => ProbeStateView::RangeQuery,
            ProbeState::Propfind => ProbeStateView::Propfind,
            ProbeState::Existence => ProbeStateView::Existence,
            ProbeState::Done(size, label) => ProbeStateView::Done(*size, label@),
        }
    }
}

/// The byte size reported when a strategy only proves the file exists: a
/// fixed placeholder, not a measurement.
pub const PLACEHOLDER_SIZE: u64 = 10000000;

/// The transition relation of the probe chain: a measured size ends the
/// chain with that size; anything else moves to the next strategy. The
/// last strategy ends the chain with the placeholder on success and with
/// size zero otherwise.
pub open spec fn probe_step(s: ProbeStateView, o: ProbeOutcome) -> ProbeStateView {
    match s {
        ProbeStateView::Head => match o {
            ProbeOutcome::Measured(n) => ProbeStateView::Done(n, spec_format_size(n)),
            _ => ProbeStateView::RangeQuery,
        },
        ProbeStateView::RangeQuery => match o {
            ProbeOutcome::Measured(n) => ProbeStateView::Done(n, spec_format_size(n)),
            _ => ProbeStateView::Propfind,
        },
        ProbeStateView::Propfind => match o {
            ProbeOutcome::Measured(n) => ProbeStateView::Done(n, spec_format_size(n)),
            _ => ProbeStateView::Existence,
        },
        ProbeStateView::Existence => match o {
            ProbeOutcome::Failed => ProbeStateView::Done(0, "未知"@),
            _ => ProbeStateView::Done(PLACEHOLDER_SIZE as u64, "约 10 MB"@),
        },
        ProbeStateView::Done(size, label) => ProbeStateView::Done(size, label),
    }
}

/// Advance the probe chain by one strategy outcome.
pub fn probe_advance(s: ProbeState, o: ProbeOutcome) -> (r: ProbeState)
    ensures
        r@ == probe_step(s@, o),
{
    match s {
        ProbeState::Head => match o {
            ProbeOutcome::Measured(n) => ProbeState::Done(n, format_file_size(n)),
            _ => ProbeState::RangeQuery,
        },
        ProbeState::RangeQuery => match o {
            ProbeOutcome::Measured(n) => ProbeState::Done(n, format_file_size(n)),
            _ => ProbeState::Propfind,
        },
        ProbeState::Propfind => match o {
            ProbeOutcome::Measured(n) => ProbeState::Done(n, format_file_size(n)),
            _ => ProbeState::Existence,
        },
        ProbeState::Existence => match o {
            ProbeOutcome::Failed => ProbeState::Done(0, String::from_str("未知")),
            _ => ProbeState::Done(PLACEHOLDER_SIZE, String::from_str("约 10 MB")),
        },
        ProbeState::Done(size, label) => ProbeState::Done(size, label),
    }
}

/// When the first two strategies fail and PROPFIND measures a size, the
/// chain ends with the measured size, never with the placeholder.
pub proof fn lemma_propfind_beats_placeholder(n: u64)
    ensures
        probe_step(
            probe_step(probe_step(ProbeStateView::Head, ProbeOutcome::Failed), ProbeOutcome::Failed),
            ProbeOutcome::Measured(n),
        ) == ProbeStateView::Done(n, spec_format_size(n)),
{
}

/// The total size carried by a `content-range` header of the form
/// `bytes start-end/total`: the piece after the first slash, read as a
/// number.
pub open spec fn content_range_total(s: Seq<char>) -> Option<u64> {
    let parts = split_on(s, '/');
    if parts.len() >= 2 && is_numeric_seg(parts[1]) && digits_val(parts[1]) <= u64::MAX {
        Some(digits_val(parts[1]) as u64)
    } else {
        None
    }
}

/// Read the total size out of a `content-range` header value.
pub fn parse_content_range_total(s: &str) -> (r: Option<u64>)
    ensures
        r == content_range_total(s@),
{
    let parts = split_string(s, '/');
    if parts.len() >= 2 {
        proof {
            assert(parts.deep_view()[1] == parts@[1]@);
        }
        parse_u64(parts[1].as_str())
    } else {
        None
    }
}

/// The text between the first occurrence of `open` and the first
/// occurrence of `close` at or after it, when both are present in order.
pub open spec fn tag_content(body: Seq<char>, open: Seq<char>, close: Seq<char>) -> Option<
    Seq<char>,
> {
    match find_from_spec(body, open, 0) {
        None => None,
        Some(i) => match find_from_spec(body, close, i) {
            None => None,
            Some(j) => if j >= i + open.len() {
                Some(body.subrange(i + open.len(), j))
            } else {
                None
            },
        },
    }
}

/// Extract the text between a pair of tags.
fn tag_text(body: &str, open: &str, close: &str) -> (r: Option<String>)
    ensures
        match r {
            Some(t) => tag_content(body@, open@, close@) == Some(t@),
            None => tag_content(body@, open@, close@) is None,
        },
{
    let open_len = open.unicode_len();
    let body_len = body.unicode_len();
    match find_substring_from(body, open, 0) {
        None => None,
        Some(i) => {
            proof {
                lemma_find_from_some(body@, open@, 0, i as int);
            }
            match find_substring_from(body, close, i) {
                None => None,
                Some(j) => {
                    proof {
                        lemma_find_from_some(body@, close@, i as int, j as int);
                        assert(i + open_len <= body_len);
                    }
                    if j >= i + open_len {
                        let t = body.substring_char(i + open_len, j);
                        Some(String::from_str(t))
                    } else {
                        None
                    }
                },
            }
        },
    }
}

/// The number a tag pair encloses, when the tags are present in order and
/// the enclosed text is a number that fits 64 bits.
pub open spec fn tag_number(body: Seq<char>, open: Seq<char>, close: Seq<char>) -> Option<u64> {
    match tag_content(body, open, close) {
        Some(t) => if is_numeric_seg(t) && digits_val(t) <= u64::MAX {
            Some(digits_val(t) as u64)
        } else {
            None
        },
        None => None,
    }
}

/// The content length in a PROPFIND response body, scanning for either of
/// the two known tag spellings, namespaced first.
pub open spec fn propfind_content_length(body: Seq<char>) -> Option<u64> {
    match tag_number(body, "<D:getcontentlength>"@, "</D:getcontentlength>"@) {
        Some(v) => Some(v),
        None => tag_number(body, "<getcontentlength>"@, "</getcontentlength>"@),
    }
}

/// Scan a PROPFIND response body for the content length.
pub fn parse_propfind_content_length(body: &str) -> (r: Option<u64>)
    ensures
        r == propfind_content_length(body@),
{
    let first = match tag_text(body, "<D:getcontentlength>", "</D:getcontentlength>") {
        Some(t) => parse_u64(t.as_str()),
        None => None,
    };
    match first {
        Some(v) => Some(v),
        None => match tag_text(body, "<getcontentlength>", "</getcontentlength>") {
            Some(t) => parse_u64(t.as_str()),
            None => None,
        },
    }
}

} // verus!
