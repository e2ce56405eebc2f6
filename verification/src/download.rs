//! Bookkeeping for a streamed download: per-chunk progress accounting and
//! the terminal result of one download attempt.
//!
//! The caller drives the transfer (network reads and file writes are its
//! business) and reports each received chunk here; this module owns every
//! number and string in the progress snapshots it hands back.

use vstd::prelude::*;

use crate::format::format_speed;
use crate::format::format_time;
use crate::format::spec_format_speed;
use crate::format::spec_format_time;

verus! {

/// The state of one download attempt.
#[derive(Clone, Copy, PartialEq, Eq, Structural, Debug)]
pub enum DownloadStatus {
    Idle,
    Downloading,
    Completed,
    Failed,
    Cancelled,
}

/// Terminal value of one download attempt: the path is set exactly on
/// completion and the error exactly on failure.
pub struct DownloadResult {
    pub status: DownloadStatus,
    pub file_path: Option<String>,
    pub error: Option<String>,
}

/// A progress snapshot, recomputed on every received chunk.
pub struct DownloadProgress {
    pub downloaded: u64,
    pub total: u64,
    pub percent: u64,
    pub speed: String,
    pub remaining_time: String,
}

/// Running state of one transfer: the expected total and the bytes written
/// so far.
pub struct DownloadSession {
    pub total: u64,
    pub downloaded: u64,
}

/// Whole percentage of the transfer that is done; zero while the total is
/// unknown.
pub open spec fn spec_percent(downloaded: u64, total: u64) -> nat {
    if total == 0 {
        0
    } else {
        downloaded as nat * 100 / total as nat
    }
}

/// The percentage clamped into the range a 64-bit field can carry.
pub open spec fn percent_sat(downloaded: u64, total: u64) -> nat {
    if spec_percent(downloaded, total) > u64::MAX {
        u64::MAX as nat
    } else {
        spec_percent(downloaded, total)
    }
}

/// Transfer speed in bytes per second from the elapsed milliseconds; zero
/// while no time has passed.
pub open spec fn spec_speed_bps(downloaded: u64, elapsed_ms: u64) -> nat {
    if elapsed_ms == 0 {
        0
    } else {
        downloaded as nat * 1000 / elapsed_ms as nat
    }
}

/// The speed clamped into the range a 64-bit field can carry.
pub open spec fn speed_sat(downloaded: u64, elapsed_ms: u64) -> nat {
    if spec_speed_bps(downloaded, elapsed_ms) > u64::MAX {
        u64::MAX as nat
    } else {
        spec_speed_bps(downloaded, elapsed_ms)
    }
}

/// Whole seconds the rest of the transfer will take at the given speed;
/// zero at speed zero.
pub open spec fn spec_remaining_secs(downloaded: u64, total: u64, bps: nat) -> nat {
    if bps == 0 {
        0
    } else {
        (if total >= downloaded {
            (total - downloaded) as nat
        } else {
            0
        }) / bps
    }
}

/// The sum of a sequence of chunk lengths.
pub open spec fn sum_chunks(chunks: Seq<u64>) -> int
    decreases chunks.len(),
{
    if chunks.len() == 0 {
        0
    } else {
        sum_chunks(chunks.drop_last()) + chunks.last()
    }
}

/// The byte count a session reaches after starting at `start` and taking
/// one chunk after another.
pub open spec fn downloaded_after(start: int, chunks: Seq<u64>) -> int
    decreases chunks.len(),
{
    if chunks.len() == 0 {
        start
    } else {
        downloaded_after(start, chunks.drop_last()) + chunks.last()
    }
}

/// However a completed download was split into chunks, the bytes counted
/// equal the sum of the chunk lengths: each chunk adds exactly its own
/// length and nothing else.
pub proof fn lemma_chunk_accounting(chunks: Seq<u64>)
    ensures
        downloaded_after(0, chunks) == sum_chunks(chunks),
    decreases chunks.len(),
{
    if chunks.len() > 0 {
        lemma_chunk_accounting(chunks.drop_last());
    }
}

/// With a known total not yet exceeded, the percentage reaches one hundred
/// exactly when every byte is downloaded.
pub proof fn lemma_percent_complete(downloaded: u64, total: u64)
    requires
        total > 0,
        downloaded <= total,
    ensures
        spec_percent(downloaded, total) == 100 <==> downloaded == total,
        spec_percent(downloaded, total) <= 100,
{
    let d = downloaded as nat;
    let t = total as nat;
    if downloaded == total {
        assert(t * 100 / t == 100) by (nonlinear_arith)
            requires
                t > 0,
        ;
    } else {
        assert(d * 100 / t < 100) by (nonlinear_arith)
            requires
                t > 0,
                d < t,
        ;
    }
    assert(d * 100 / t <= 100) by (nonlinear_arith)
        requires
            t > 0,
            d <= t,
    ;
}

impl DownloadSession {
    /// Open a session: the total comes from the response's content length
    /// when the server sent one, and from the caller's expectation
    /// otherwise.
    pub fn start(content_length: Option<u64>, expected_size: u64) -> (s: Self)
        ensures
            s.total == (match content_length {
                Some(n) => n,
                None => expected_size,
            }),
            s.downloaded == 0,
    {
        let total = match content_length {
            Some(n) => n,
            None => expected_size,
        };
        DownloadSession { total, downloaded: 0 }
    }

    /// Account one received chunk and produce the progress snapshot to
    /// emit: the count grows by exactly the chunk's length, and every
    /// derived field is computed from the new count.
    pub fn on_chunk(&mut self, chunk_len: u64, elapsed_ms: u64) -> (p: DownloadProgress)
        requires
            old(self).downloaded + chunk_len <= u64::MAX,
        ensures
            final(self).total == old(self).total,
            final(self).downloaded == old(self).downloaded + chunk_len,
            p.downloaded == final(self).downloaded,
            p.total == final(self).total,
            p.percent as nat == percent_sat(final(self).downloaded, final(self).total),
            p.speed@ == spec_format_speed(
                speed_sat(final(self).downloaded, elapsed_ms) as u64,
            ),
            p.remaining_time@ == spec_format_time(
                spec_remaining_secs(
                    final(self).downloaded,
                    final(self).total,
                    speed_sat(final(self).downloaded, elapsed_ms),
                ) as u64,
            ),
    {
        self.downloaded = self.downloaded + chunk_len;
        let d = self.downloaded;
        let t = self.total;
        let percent: u64 = if t == 0 {
            0
        } else {
            let wide = (d as u128) * 100 / (t as u128);
            proof {
                assert((d as u128) * 100 == d as nat * 100);
            }
            if wide > u64::MAX as u128 {
                u64::MAX
            } else {
                wide as u64
            }
        };
        let bps: u64 = if elapsed_ms == 0 {
            0
        } else {
            let wide = (d as u128) * 1000 / (elapsed_ms as u128);
            proof {
                assert((d as u128) * 1000 == d as nat * 1000);
            }
            if wide > u64::MAX as u128 {
                u64::MAX
            } else {
                wide as u64
            }
        };
        let remaining: u64 = if bps == 0 {
            0
        } else {
            let left = if t >= d {
                t - d
            } else {
                0
            };
            proof {
                assert(left as nat / bps as nat <= left as nat) by (nonlinear_arith)
                    requires
                        bps >= 1,
                        left >= 0,
                ;
            }
            left / bps
        };
        proof {
            if elapsed_ms != 0 && spec_speed_bps(d, elapsed_ms) <= u64::MAX {
                assert(bps as nat == spec_speed_bps(d, elapsed_ms));
            }
            assert(bps as nat == speed_sat(d, elapsed_ms));
            assert(remaining as nat == spec_remaining_secs(d, t, speed_sat(d, elapsed_ms)));
        }
        DownloadProgress {
            downloaded: d,
            total: t,
            percent,
            speed: format_speed(bps),
            remaining_time: format_time(remaining),
        }
    }
}

/// Whether the fields of a result agree with its status: a path exactly on
/// completion, an error exactly on failure.
pub open spec fn result_well_formed(r: DownloadResult) -> bool {
    &&& (r.status == DownloadStatus::Completed <==> r.file_path is Some)
    &&& (r.status == DownloadStatus::Failed <==> r.error is Some)
}

/// The result of a download that wrote every byte to the given path.
pub fn completed_result(file_path: String) -> (r: DownloadResult)
    ensures
        r.status == DownloadStatus::Completed,
        r.file_path == Some(file_path),
        r.error is None,
        result_well_formed(r),
{
    DownloadResult { status: DownloadStatus::Completed, file_path: Some(file_path), error: None }
}

/// The result of a download that stopped with the given error.
pub fn failed_result(message: String) -> (r: DownloadResult)
    ensures
        r.status == DownloadStatus::Failed,
        r.file_path is None,
        r.error == Some(message),
        result_well_formed(r),
{
    DownloadResult { status: DownloadStatus::Failed, file_path: None, error: Some(message) }
}

/// The result of a download that was called off before completion.
pub fn cancelled_result() -> (r: DownloadResult)
    ensures
        r.status == DownloadStatus::Cancelled,
        r.file_path is None,
        r.error is None,
        result_well_formed(r),
{
    DownloadResult { status: DownloadStatus::Cancelled, file_path: None, error: None }
}

} // verus!
