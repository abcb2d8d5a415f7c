//! Fetching a model archive: what to resume, what a server's answer means,
//! how far a transfer has come and whether it is complete.

use vstd::prelude::*;
use vstd::string::*;

use crate::rounding::{
    double_share, law_share_grows_to_its_factor, law_share_is_nearly_exact, share,
};
use crate::text::{decimal, decimal_of};

verus! {

/// Percentage the download itself accounts for; checksum and extraction fill
/// the rest so the UI keeps moving through all three phases.
pub const DOWNLOAD_PROGRESS_SHARE: u8 = 45;

/// How many bytes pass between two progress reports.
pub const REPORT_STEP: u64 = 5_242_880;

/// The percentage to report when `written` of `size` bytes are on disk: the
/// share of the download as double precision computes it, never above what a
/// byte can hold.
pub open spec fn download_percent(written: int, size: int) -> int {
    let share = double_share(written as nat, size as nat, DOWNLOAD_PROGRESS_SHARE as nat);
    if size == 0 {
        if written == 0 {
            0
        } else {
            255
        }
    } else if share > 255 {
        255
    } else {
        share as int
    }
}

/// The percentage to report when `written` of `size` bytes are on disk.
pub fn download_progress(written: u64, size: u64) -> (percent: u8)
    ensures
        percent == download_percent(written as int, size as int),
{
    if size == 0 {
        if written == 0 {
            0
        } else {
            255
        }
    } else {
        share(written, size, DOWNLOAD_PROGRESS_SHARE)
    }
}

/// Progress never goes back while bytes arrive, stays within the share of the
/// download until the archive is complete, and is exactly that share then.
pub proof fn law_download_progress_grows_to_its_share(earlier: int, later: int, size: int)
    requires
        0 <= earlier <= later <= size,
        0 < size,
    ensures
        0 <= download_percent(earlier, size) <= download_percent(later, size)
            <= DOWNLOAD_PROGRESS_SHARE,
        download_percent(size, size) == DOWNLOAD_PROGRESS_SHARE,
{
    law_share_grows_to_its_factor(
        earlier as nat,
        later as nat,
        size as nat,
        DOWNLOAD_PROGRESS_SHARE as nat,
    );
}

/// What to do about an archive of which some bytes may already be on disk.
#[derive(Debug, Clone, Copy, PartialEq, Eq, Structural)]
pub struct FetchPlan {
    /// The partial file is longer than the real archive: not a prefix of it,
    /// so it has to go.
    pub discard_partial: bool,
    /// All bytes are there; nothing to download.
    pub complete: bool,
    /// How many bytes of the archive are kept.
    pub resume_from: u64,
}

/// The plan for an archive of `size` bytes when `have` bytes are on disk.
pub open spec fn plan_for(have: u64, size: u64) -> FetchPlan {
    let kept = if have > size {
        0
    } else {
        have
    };
    FetchPlan { discard_partial: have > size, complete: kept == size, resume_from: kept }
}

/// Plans the download of an archive of `size` bytes when `have` bytes are on
/// disk.
pub fn plan_fetch(have: u64, size: u64) -> (plan: FetchPlan)
    ensures
        plan == plan_for(have, size),
{
    let kept: u64 = if have > size {
        0
    } else {
        have
    };
    FetchPlan { discard_partial: have > size, complete: kept == size, resume_from: kept }
}

/// The value of the `Range` header to send: everything from the first missing
/// byte on, and no header at all when nothing is kept.
pub fn range_header(resume_from: u64) -> (value: Option<String>)
    ensures
        match value {
            Some(v) => resume_from > 0 && v@ == "bytes="@ + decimal(resume_from as nat) + "-"@,
            None => resume_from == 0,
        },
{
    if resume_from > 0 {
        let mut v = String::from_str("bytes=");
        v.append(decimal_of(resume_from).as_str());
        v.append("-");
        Some(v)
    } else {
        None
    }
}

/// What a server's status line means for the download.
#[derive(Debug, Clone, Copy, PartialEq, Eq, Structural)]
pub enum ResponseAction {
    /// The server did not answer with success: report and give up.
    Refused,
    /// The server sends the missing rest: append it to the kept bytes.
    Append,
    /// The server sends the whole archive: start the file from zero, or two
    /// copies would be spliced together.
    Restart,
}

/// What the status code means when `resume_from` bytes were kept: only 206
/// continues a kept prefix, and only the codes from 200 to 299 are success.
pub open spec fn action_for(resume_from: u64, status: u16) -> ResponseAction {
    if !(200 <= status && status <= 299) {
        ResponseAction::Refused
    } else if resume_from > 0 && status == 206 {
        ResponseAction::Append
    } else {
        ResponseAction::Restart
    }
}

/// Reads the status code of the server's answer.
pub fn response_action(resume_from: u64, status: u16) -> (action: ResponseAction)
    ensures
        action == action_for(resume_from, status),
{
    if !(200 <= status && status <= 299) {
        ResponseAction::Refused
    } else if resume_from > 0 && status == 206 {
        ResponseAction::Append
    } else {
        ResponseAction::Restart
    }
}

/// What to report when the server refused, from its status line and body.
pub fn refused_message(status: &str, body: &str) -> (message: String)
    ensures
        message@ == "Failed to download model: HTTP "@ + status@ + " - "@ + body@,
{
    let mut message = String::from_str("Failed to download model: HTTP ");
    message.append(status);
    message.append(" - ");
    message.append(body);
    message
}

/// A transfer under way.
#[derive(Debug, Clone, Copy)]
pub struct Transfer {
    size: u64,
    written: u64,
    reported: u64,
}

impl Transfer {
    /// The size of the whole archive.
    pub closed spec fn expected(self) -> u64 {
        self.size
    }

    /// How many bytes of the archive are on disk.
    pub closed spec fn on_disk(self) -> u64 {
        self.written
    }

    /// How many report steps were passed when progress was last reported, or
    /// when the transfer began.
    pub closed spec fn steps_reported(self) -> int {
        self.reported as int
    }

    /// A transfer that continues after `resume_from` kept bytes, or starts
    /// from zero, as the server's answer demands.
    pub fn new(size: u64, resume_from: u64, action: ResponseAction) -> (transfer: Transfer)
        ensures
            transfer.expected() == size,
            transfer.on_disk() == (if action == ResponseAction::Append {
                resume_from
            } else {
                0
            }),
            transfer.steps_reported() == transfer.on_disk() as int / REPORT_STEP as int,
    {
        let written: u64 = match action {
            ResponseAction::Append => resume_from,
            _ => 0,
        };
        Transfer { size, written, reported: written / REPORT_STEP }
    }

    /// Counts a chunk of `n` bytes that was written. Returns the percentage to
    /// report when the chunk passed another report step.
    pub fn chunk_written(&mut self, n: usize) -> (report: Option<u8>)
        requires
            old(self).on_disk() + n <= u64::MAX,
        ensures
            final(self).expected() == old(self).expected(),
            final(self).on_disk() == old(self).on_disk() + n,
            ({
                let steps = final(self).on_disk() as int / REPORT_STEP as int;
                if steps > old(self).steps_reported() {
                    &&& final(self).steps_reported() == steps
                    &&& report matches Some(percent) && percent == download_percent(
                        final(self).on_disk() as int,
                        final(self).expected() as int,
                    )
                } else {
                    &&& final(self).steps_reported() == old(self).steps_reported()
                    &&& report is None
                }
            }),
    {
        self.written = self.written + n as u64;
        let steps: u64 = self.written / REPORT_STEP;
        if steps > self.reported {
            self.reported = steps;
            Some(download_progress(self.written, self.size))
        } else {
            None
        }
    }

    /// Whether the archive arrived in full once the server sends no more. A
    /// short file stays on disk: the next attempt resumes where this one
    /// stopped.
    pub fn finish(&self) -> (outcome: Result<(), String>)
        ensures
            match outcome {
                Ok(_) => self.on_disk() == self.expected(),
                Err(message) => self.on_disk() != self.expected() && message@
                    == "Download stopped short: got "@ + decimal(self.on_disk() as nat) + " of "@
                    + decimal(self.expected() as nat) + " bytes — retry to resume"@,
            },
    {
        if self.written == self.size {
            Ok(())
        } else {
            let mut message = String::from_str("Download stopped short: got ");
            message.append(decimal_of(self.written).as_str());
            message.append(" of ");
            message.append(decimal_of(self.size).as_str());
            message.append(" bytes — retry to resume");
            Err(message)
        }
    }
}

/// A download that stopped short is resumed exactly where it stopped; one that
/// brought too much is thrown away and started over; one that is complete is
/// not fetched again.
pub proof fn law_next_attempt_continues(written: u64, size: u64)
    requires
        0 < size,
    ensures
        written < size ==> plan_for(written, size) == (FetchPlan {
            discard_partial: false,
            complete: false,
            resume_from: written,
        }),
        written > size ==> plan_for(written, size) == (FetchPlan {
            discard_partial: true,
            complete: false,
            resume_from: 0,
        }),
        written == size ==> plan_for(written, size) == (FetchPlan {
            discard_partial: false,
            complete: true,
            resume_from: size,
        }),
{
}

/// What the server's status means: without success the download is refused;
/// only partial content continues kept bytes; any other success starts over.
pub proof fn law_what_a_status_means(resume_from: u64, status: u16)
    ensures
        status < 200 || status >= 300 ==> action_for(resume_from, status)
            == ResponseAction::Refused,
        status == 206 && resume_from > 0 ==> action_for(resume_from, status)
            == ResponseAction::Append,
        200 <= status < 300 && (status != 206 || resume_from == 0) ==> action_for(
            resume_from,
            status,
        ) == ResponseAction::Restart,
{
}

/// The percentage of a download is the part of 45 that is on disk, rounded
/// down, as far as double precision can tell; and 255 where a byte cannot hold
/// it.
pub proof fn law_download_percent_is_its_part(written: int, size: int)
    requires
        0 < written,
        0 < size <= u64::MAX,
    ensures
        0 <= download_percent(written, size) <= 255,
        download_percent(written, size) * size * 9_007_199_254_740_992 <= 9_007_199_254_740_998 * (
        45 * written),
        download_percent(written, size) < 255 ==> 9_007_199_254_740_986 * (45 * written) < (
        download_percent(written, size) + 1) * size * 9_007_199_254_740_992,
        download_percent(0, size) == 0,
{
    law_share_is_nearly_exact(written as nat, size as nat, 45);
    law_share_grows_to_its_factor(0, 0, size as nat, 45);
    let share = double_share(written as nat, size as nat, 45);
    if share > 255 {
        assert(255 * size <= share * size) by (nonlinear_arith)
            requires
                255 < share,
                size > 0,
        ;
    }
}

} // verus!
