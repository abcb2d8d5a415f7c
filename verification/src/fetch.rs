//! The download of one archive as a sequence of steps: resuming a partial
//! file, reading the server's answer, and counting what arrives.
//!
//! An [`ArchiveFetch`] says which step comes next; whoever drives it performs
//! that step on the network or the file system and hands back the
//! [`FetchOutcome`].

use vstd::prelude::*;
use vstd::string::*;

use crate::catalog::{ModelInfo, ModelSpec};
use crate::download::{
    action_for, download_percent, download_progress, plan_fetch, plan_for, range_header,
    refused_message, response_action, ResponseAction, Transfer, REPORT_STEP,
};
use crate::models::{opt_text, DownloadProgress, DownloadProgressView};
use crate::text::decimal;

verus! {

/// A step of a download.
#[derive(Debug, Clone, PartialEq, Eq)]
pub enum FetchStep {
    /// Find out how many bytes of the archive are on disk.
    Measure,
    /// Remove the partial file.
    DiscardPartial,
    /// Ask the server for the archive, with this `Range` header if any.
    SendRequest(Option<String>),
    /// The server refused with this status: read the body of its answer.
    ReadRefusal(String),
    /// Open the partial file to append to it.
    OpenPartial,
    /// Create the file anew.
    CreateFile,
    /// Read the next chunk of the server's answer.
    ReadChunk,
    /// Write the chunk of this many bytes.
    WriteChunk(usize),
    /// Reading broke, for this reason: flush what was written.
    FlushBroken(String),
    /// The server sends no more: flush what was written.
    Flush,
    /// The archive is complete on disk.
    Complete,
    /// The download failed, for this reason.
    Failed(String),
}

/// A [`FetchStep`] with its texts as sequences of characters.
pub enum FetchStepView {
    Measure,
    DiscardPartial,
    SendRequest(Option<Seq<char>>),
    ReadRefusal(Seq<char>),
    OpenPartial,
    CreateFile,
    ReadChunk,
    WriteChunk(usize),
    FlushBroken(Seq<char>),
    Flush,
    Complete,
    Failed(Seq<char>),
}

impl View for FetchStep {
    type V = FetchStepView;

    open spec fn view(&self) -> FetchStepView {
        match self {
            FetchStep::Measure => FetchStepView::Measure,
            FetchStep::DiscardPartial => FetchStepView::DiscardPartial,
            FetchStep::SendRequest(range) => FetchStepView::SendRequest(opt_text(*range)),
            FetchStep::ReadRefusal(status) => FetchStepView::ReadRefusal(status@),
            FetchStep::OpenPartial => FetchStepView::OpenPartial,
            FetchStep::CreateFile => FetchStepView::CreateFile,
            FetchStep::ReadChunk => FetchStepView::ReadChunk,
            FetchStep::WriteChunk(n) => FetchStepView::WriteChunk(*n),
            FetchStep::FlushBroken(reason) => FetchStepView::FlushBroken(reason@),
            FetchStep::Flush => FetchStepView::Flush,
            FetchStep::Complete => FetchStepView::Complete,
            FetchStep::Failed(reason) => FetchStepView::Failed(reason@),
        }
    }
}

/// What came of a step.
#[derive(Debug, Clone, PartialEq, Eq)]
pub enum FetchOutcome {
    /// How many bytes are on disk.
    Size(u64),
    /// It was done.
    Done,
    /// It failed, for this reason.
    Broken(String),
    /// The HTTP client could not be created, for this reason.
    NoClient(String),
    /// The server answered with this status code, which reads so.
    Status(u16, String),
    /// The body of the answer, where it could be read.
    Body(Option<String>),
    /// A chunk of this many bytes arrived; none at the end.
    Chunk(usize),
}

/// A [`FetchOutcome`] with its texts as sequences of characters.
pub enum FetchOutcomeView {
    Size(u64),
    Done,
    Broken(Seq<char>),
    NoClient(Seq<char>),
    Status(u16, Seq<char>),
    Body(Option<Seq<char>>),
    Chunk(usize),
}

impl View for FetchOutcome {
    type V = FetchOutcomeView;

    open spec fn view(&self) -> FetchOutcomeView {
        match self {
            FetchOutcome::Size(n) => FetchOutcomeView::Size(*n),
            FetchOutcome::Done => FetchOutcomeView::Done,
            FetchOutcome::Broken(reason) => FetchOutcomeView::Broken(reason@),
            FetchOutcome::NoClient(reason) => FetchOutcomeView::NoClient(reason@),
            FetchOutcome::Status(code, status) => FetchOutcomeView::Status(*code, status@),
            FetchOutcome::Body(body) => FetchOutcomeView::Body(opt_text(*body)),
            FetchOutcome::Chunk(n) => FetchOutcomeView::Chunk(*n),
        }
    }
}

/// The state of a download.
pub struct FetchModel {
    /// The model whose archive is downloaded.
    pub info: ModelInfo,
    /// The step to perform.
    pub step: FetchStepView,
    /// How many bytes were kept from before.
    pub kept: u64,
    /// How many bytes of the archive are in the file.
    pub written: u64,
    /// How many report steps had passed at the last report.
    pub reported: int,
}

impl FetchModel {
    /// A chunk to be written can be counted.
    pub open spec fn wf(self) -> bool {
        self.step matches FetchStepView::WriteChunk(n) ==> self.written + n <= u64::MAX
    }

    /// This state at another step.
    pub open spec fn at(self, step: FetchStepView) -> FetchModel {
        FetchModel { step, ..self }
    }

    /// This state, failed.
    pub open spec fn failed(self, what: Seq<char>, reason: Seq<char>) -> FetchModel {
        self.at(FetchStepView::Failed(what + reason))
    }
}

/// The state of a download before its first step.
pub open spec fn fetch_start(info: ModelInfo) -> FetchModel {
    FetchModel { info, step: FetchStepView::Measure, kept: 0, written: 0, reported: 0 }
}

/// Whether an outcome is one that the step can have. The last steps have none.
pub open spec fn fetch_answers(s: FetchModel, outcome: FetchOutcomeView) -> bool {
    match s.step {
        FetchStepView::Measure => outcome is Size,
        FetchStepView::SendRequest(_) => outcome is Status || outcome is Broken || outcome
            is NoClient,
        FetchStepView::ReadRefusal(_) => outcome is Body,
        FetchStepView::ReadChunk => outcome is Broken || (outcome matches FetchOutcomeView::Chunk(n)
            && s.written + n <= u64::MAX),
        FetchStepView::Complete => false,
        FetchStepView::Failed(_) => false,
        _ => outcome is Done || outcome is Broken,
    }
}

/// The value of the `Range` header for `kept` bytes.
pub open spec fn range_for(kept: u64) -> Option<Seq<char>> {
    if kept > 0 {
        Some("bytes="@ + decimal(kept as nat) + "-"@)
    } else {
        None
    }
}

/// What to report of an archive that stopped short.
pub open spec fn short_message(written: u64, size: u64) -> Seq<char> {
    "Download stopped short: got "@ + decimal(written as nat) + " of "@ + decimal(size as nat)
        + " bytes — retry to resume"@
}

/// The state that follows `s` when its step had `outcome`.
pub open spec fn fetch_next(s: FetchModel, outcome: FetchOutcomeView) -> FetchModel {
    match (s.step, outcome) {
        (FetchStepView::Measure, FetchOutcomeView::Size(have)) => {
            let plan = plan_for(have, s.info.size);
            let measured = FetchModel { kept: plan.resume_from, ..s };
            if plan.discard_partial {
                measured.at(FetchStepView::DiscardPartial)
            } else if plan.complete {
                measured.at(FetchStepView::Complete)
            } else {
                measured.at(FetchStepView::SendRequest(range_for(plan.resume_from)))
            }
        },
        (FetchStepView::DiscardPartial, _) => if s.kept == s.info.size {
            s.at(FetchStepView::Complete)
        } else {
            s.at(FetchStepView::SendRequest(range_for(s.kept)))
        },
        (FetchStepView::SendRequest(_), FetchOutcomeView::Status(code, status)) => match action_for(
            s.kept,
            code,
        ) {
            ResponseAction::Refused => s.at(FetchStepView::ReadRefusal(status)),
            ResponseAction::Append => FetchModel {
                step: FetchStepView::OpenPartial,
                written: s.kept,
                reported: s.kept as int / REPORT_STEP as int,
                ..s
            },
            ResponseAction::Restart => FetchModel {
                step: FetchStepView::CreateFile,
                written: 0,
                reported: 0,
                ..s
            },
        },
        (FetchStepView::SendRequest(_), FetchOutcomeView::NoClient(reason)) => s.failed(
            "Failed to create HTTP client: "@,
            reason,
        ),
        (FetchStepView::SendRequest(_), FetchOutcomeView::Broken(reason)) => s.failed(
            "Failed to download model from "@ + s.info.url + ": "@,
            reason,
        ),
        (FetchStepView::ReadRefusal(status), FetchOutcomeView::Body(body)) => s.at(
            FetchStepView::Failed(
                "Failed to download model: HTTP "@ + status + " - "@ + (match body {
                    Some(text) => text,
                    None => "Failed to get error details"@,
                }),
            ),
        ),
        (FetchStepView::OpenPartial, FetchOutcomeView::Broken(reason)) => s.failed(
            "Failed to open partial download: "@,
            reason,
        ),
        (FetchStepView::OpenPartial, _) => s.at(FetchStepView::ReadChunk),
        (FetchStepView::CreateFile, FetchOutcomeView::Broken(reason)) => s.failed(
            "Failed to create download file: "@,
            reason,
        ),
        (FetchStepView::CreateFile, _) => s.at(FetchStepView::ReadChunk),
        (FetchStepView::ReadChunk, FetchOutcomeView::Chunk(n)) => if n == 0 {
            s.at(FetchStepView::Flush)
        } else {
            s.at(FetchStepView::WriteChunk(n))
        },
        (FetchStepView::ReadChunk, FetchOutcomeView::Broken(reason)) => s.at(
            FetchStepView::FlushBroken(reason),
        ),
        (FetchStepView::WriteChunk(_), FetchOutcomeView::Broken(reason)) => s.failed(
            "Failed to write download: "@,
            reason,
        ),
        (FetchStepView::WriteChunk(n), _) => {
            let written = (s.written + n) as u64;
            let steps = written as int / REPORT_STEP as int;
            FetchModel {
                step: FetchStepView::ReadChunk,
                written,
                reported: if steps > s.reported {
                    steps
                } else {
                    s.reported
                },
                ..s
            }
        },
        (FetchStepView::FlushBroken(reason), _) => s.failed("Failed to read chunk: "@, reason),
        (FetchStepView::Flush, FetchOutcomeView::Broken(reason)) => s.failed(
            "Failed to flush download: "@,
            reason,
        ),
        (FetchStepView::Flush, _) => if s.written == s.info.size {
            s.at(FetchStepView::Complete)
        } else {
            s.at(FetchStepView::Failed(short_message(s.written, s.info.size)))
        },
        _ => s,
    }
}

/// What to report after a step: where a request is about to be sent, how much
/// is kept; and whenever another report step was passed, how much is there.
pub open spec fn fetch_report(before: FetchModel, after: FetchModel) -> Option<
    DownloadProgressView,
> {
    if after.step is SendRequest && !(before.step is SendRequest) {
        Some(downloading(after.info, after.kept))
    } else if before.step is WriteChunk && after.reported > before.reported {
        Some(downloading(after.info, after.written))
    } else {
        None
    }
}

/// The progress when `bytes` of the archive are there.
pub open spec fn downloading(info: ModelInfo, bytes: u64) -> DownloadProgressView {
    DownloadProgressView {
        status: "downloading"@,
        model: info.name,
        progress: download_percent(bytes as int, info.size as int) as u8,
    }
}

/// The download of one archive: a [`FetchModel`] in memory.
#[derive(Debug, Clone)]
pub struct ArchiveFetch {
    spec: ModelSpec,
    step: FetchStep,
    kept: u64,
    transfer: Transfer,
}

impl View for ArchiveFetch {
    type V = FetchModel;

    closed spec fn view(&self) -> FetchModel {
        FetchModel {
            info: self.spec@,
            step: self.step@,
            kept: self.kept,
            written: self.transfer.on_disk(),
            reported: self.transfer.steps_reported(),
        }
    }
}

/// A failure: what could not be done, and why.
fn failed(what: &str, reason: String) -> (step: FetchStep)
    ensures
        step@ == FetchStepView::Failed(what@ + reason@),
{
    let mut message = String::from_str(what);
    message.append(reason.as_str());
    FetchStep::Failed(message)
}

impl ArchiveFetch {
    /// The transfer counts towards the size of the archive.
    pub closed spec fn consistent(&self) -> bool {
        self.transfer.expected() == self.spec@.size
    }

    /// The download of the archive of `spec`, before its first step.
    pub fn new(spec: ModelSpec) -> (fetch: ArchiveFetch)
        ensures
            fetch.consistent(),
            fetch@ == fetch_start(spec@),
            fetch@.wf(),
    {
        ArchiveFetch {
            spec,
            step: FetchStep::Measure,
            kept: 0,
            transfer: Transfer::new(spec.size, 0, ResponseAction::Restart),
        }
    }

    /// The step to perform now.
    pub fn step(&self) -> (step: &FetchStep)
        ensures
            step@ == self@.step,
    {
        &self.step
    }

    /// The step that asks the server for what is missing.
    fn request(&self) -> (step: FetchStep)
        ensures
            step@ == FetchStepView::SendRequest(range_for(self@.kept)),
    {
        FetchStep::SendRequest(range_header(self.kept))
    }

    /// The progress when `bytes` of the archive are there.
    fn progress(&self, bytes: u64) -> (progress: DownloadProgress)
        ensures
            progress@ == downloading(self@.info, bytes),
    {
        DownloadProgress {
            status: "downloading",
            model: self.spec.name,
            progress: download_progress(bytes, self.spec.size),
        }
    }

    /// Takes the outcome of the step and moves on to the next. Returns the
    /// progress to report, if any.
    pub fn advance(&mut self, outcome: FetchOutcome) -> (report: Option<DownloadProgress>)
        requires
            old(self).consistent(),
            old(self)@.wf(),
            fetch_answers(old(self)@, outcome@),
        ensures
            final(self).consistent(),
            final(self)@.wf(),
            final(self)@ == fetch_next(old(self)@, outcome@),
            match report {
                Some(progress) => fetch_report(old(self)@, final(self)@) == Some(progress@),
                None => fetch_report(old(self)@, final(self)@) is None,
            },
    {
        match (&self.step, outcome) {
            (FetchStep::Measure, FetchOutcome::Size(have)) => {
                let plan = plan_fetch(have, self.spec.size);
                self.kept = plan.resume_from;
                if plan.discard_partial {
                    self.step = FetchStep::DiscardPartial;
                    None
                } else if plan.complete {
                    self.step = FetchStep::Complete;
                    None
                } else {
                    self.step = self.request();
                    Some(self.progress(self.kept))
                }
            },
            (FetchStep::DiscardPartial, _) => {
                if self.kept == self.spec.size {
                    self.step = FetchStep::Complete;
                    None
                } else {
                    self.step = self.request();
                    Some(self.progress(self.kept))
                }
            },
            (FetchStep::SendRequest(_), FetchOutcome::Status(code, status)) => {
                let action = response_action(self.kept, code);
                match action {
                    ResponseAction::Refused => {
                        self.step = FetchStep::ReadRefusal(status);
                    },
                    ResponseAction::Append => {
                        self.transfer = Transfer::new(self.spec.size, self.kept, action);
                        self.step = FetchStep::OpenPartial;
                    },
                    ResponseAction::Restart => {
                        self.transfer = Transfer::new(self.spec.size, self.kept, action);
                        self.step = FetchStep::CreateFile;
                    },
                }
                None
            },
            (FetchStep::SendRequest(_), FetchOutcome::NoClient(reason)) => {
                self.step = failed("Failed to create HTTP client: ", reason);
                None
            },
            (FetchStep::SendRequest(_), FetchOutcome::Broken(reason)) => {
                let mut what = String::from_str("Failed to download model from ");
                what.append(self.spec.url);
                what.append(": ");
                self.step = failed(what.as_str(), reason);
                None
            },
            (FetchStep::ReadRefusal(status), FetchOutcome::Body(body)) => {
                let message = match body {
                    Some(text) => refused_message(status.as_str(), text.as_str()),
                    None => refused_message(status.as_str(), "Failed to get error details"),
                };
                self.step = FetchStep::Failed(message);
                None
            },
            (FetchStep::OpenPartial, FetchOutcome::Broken(reason)) => {
                self.step = failed("Failed to open partial download: ", reason);
                None
            },
            (FetchStep::OpenPartial, _) => {
                self.step = FetchStep::ReadChunk;
                None
            },
            (FetchStep::CreateFile, FetchOutcome::Broken(reason)) => {
                self.step = failed("Failed to create download file: ", reason);
                None
            },
            (FetchStep::CreateFile, _) => {
                self.step = FetchStep::ReadChunk;
                None
            },
            (FetchStep::ReadChunk, FetchOutcome::Chunk(n)) => {
                self.step = if n == 0 {
                    FetchStep::Flush
                } else {
                    FetchStep::WriteChunk(n)
                };
                None
            },
            (FetchStep::ReadChunk, FetchOutcome::Broken(reason)) => {
                self.step = FetchStep::FlushBroken(reason);
                None
            },
            (FetchStep::WriteChunk(_), FetchOutcome::Broken(reason)) => {
                self.step = failed("Failed to write download: ", reason);
                None
            },
            (FetchStep::WriteChunk(n), _) => {
                let report = self.transfer.chunk_written(*n);
                self.step = FetchStep::ReadChunk;
                match report {
                    Some(percent) => Some(
                        DownloadProgress {
                            status: "downloading",
                            model: self.spec.name,
                            progress: percent,
                        },
                    ),
                    None => None,
                }
            },
            (FetchStep::FlushBroken(reason), _) => {
                self.step = failed("Failed to read chunk: ", reason.clone());
                None
            },
            (FetchStep::Flush, FetchOutcome::Broken(reason)) => {
                self.step = failed("Failed to flush download: ", reason);
                None
            },
            (FetchStep::Flush, _) => {
                self.step = match self.transfer.finish() {
                    Ok(_) => FetchStep::Complete,
                    Err(message) => FetchStep::Failed(message),
                };
                None
            },
            _ => None,
        }
    }
}

/// The bytes in the file after a step with this outcome, when they were `file`
/// before. Only a chunk that was written adds bytes: those of `chunk`.
pub open spec fn file_after_step(
    s: FetchModel,
    file: Seq<u8>,
    outcome: FetchOutcomeView,
    chunk: Seq<u8>,
) -> Seq<u8> {
    match (s.step, outcome) {
        (FetchStepView::DiscardPartial, FetchOutcomeView::Done) => Seq::empty(),
        (FetchStepView::CreateFile, FetchOutcomeView::Done) => Seq::empty(),
        (FetchStepView::WriteChunk(_), FetchOutcomeView::Done) => file + chunk,
        _ => file,
    }
}

/// Whether what was reported of a step is true of the file: its size when it
/// is measured, and the length of a chunk.
pub open spec fn true_to_file(
    s: FetchModel,
    file: Seq<u8>,
    outcome: FetchOutcomeView,
    chunk: Seq<u8>,
) -> bool {
    match (s.step, outcome) {
        (FetchStepView::Measure, FetchOutcomeView::Size(have)) => have == file.len(),
        (FetchStepView::WriteChunk(n), _) => chunk.len() == n,
        _ => true,
    }
}

/// What holds of the file at each step: a kept prefix is there until the
/// server's answer, and from then on the file has as many bytes as were
/// counted; a complete archive has its size.
pub open spec fn counts_file(s: FetchModel, file: Seq<u8>) -> bool {
    match s.step {
        FetchStepView::DiscardPartial => s.kept == 0,
        FetchStepView::SendRequest(_) => s.kept > 0 ==> file.len() == s.kept,
        FetchStepView::OpenPartial => file.len() == s.written,
        FetchStepView::CreateFile => s.written == 0,
        FetchStepView::ReadChunk => file.len() == s.written,
        FetchStepView::WriteChunk(_) => file.len() == s.written,
        FetchStepView::Flush => file.len() == s.written,
        FetchStepView::Complete => file.len() == s.info.size,
        _ => true,
    }
}

/// One step of a download as the file sees it.
pub struct FetchMove {
    /// What came of the step.
    pub outcome: FetchOutcomeView,
    /// The bytes that were written, where a chunk was.
    pub chunk: Seq<u8>,
}

/// The state of a download after its first steps.
pub open spec fn fetch_after(info: ModelInfo, moves: Seq<FetchMove>) -> FetchModel
    decreases moves.len(),
{
    if moves.len() == 0 {
        fetch_start(info)
    } else {
        fetch_next(fetch_after(info, moves.drop_last()), moves.last().outcome)
    }
}

/// The bytes in the file after the first steps, when they were `file` before.
pub open spec fn file_after(info: ModelInfo, file: Seq<u8>, moves: Seq<FetchMove>) -> Seq<u8>
    decreases moves.len(),
{
    if moves.len() == 0 {
        file
    } else {
        file_after_step(
            fetch_after(info, moves.drop_last()),
            file_after(info, file, moves.drop_last()),
            moves.last().outcome,
            moves.last().chunk,
        )
    }
}

/// Whether a download on `file` can go through these steps.
pub open spec fn is_fetch(info: ModelInfo, file: Seq<u8>, moves: Seq<FetchMove>) -> bool
    decreases moves.len(),
{
    moves.len() > 0 ==> {
        let s = fetch_after(info, moves.drop_last());
        &&& is_fetch(info, file, moves.drop_last())
        &&& fetch_answers(s, moves.last().outcome)
        &&& true_to_file(
            s,
            file_after(info, file, moves.drop_last()),
            moves.last().outcome,
            moves.last().chunk,
        )
    }
}

/// A download is complete only when the file has exactly the published size:
/// the steps keep count of the file, whatever happens, so that the last one
/// can tell.
pub proof fn law_complete_download_has_published_size(
    info: ModelInfo,
    file: Seq<u8>,
    moves: Seq<FetchMove>,
)
    requires
        info.size > 0,
        is_fetch(info, file, moves),
    ensures
        counts_file(fetch_after(info, moves), file_after(info, file, moves)),
        fetch_after(info, moves).info == info,
        fetch_after(info, moves).wf(),
        fetch_after(info, moves).step == FetchStepView::Complete ==> file_after(
            info,
            file,
            moves,
        ).len() == info.size,
    decreases moves.len(),
{
    if moves.len() > 0 {
        law_complete_download_has_published_size(info, file, moves.drop_last());
    }
}

/// What holds of the file at each step when the server is honest: it is the
/// beginning of the archive, as far as it was counted.
pub open spec fn holds_prefix(s: FetchModel, file: Seq<u8>, archive: Seq<u8>) -> bool {
    match s.step {
        FetchStepView::Measure => file.len() <= archive.len() ==> file == archive.take(
            file.len() as int,
        ),
        FetchStepView::SendRequest(_) => s.kept > 0 ==> file == archive.take(file.len() as int),
        FetchStepView::OpenPartial => file == archive.take(file.len() as int),
        FetchStepView::ReadChunk => file == archive.take(file.len() as int),
        FetchStepView::WriteChunk(_) => file == archive.take(file.len() as int),
        FetchStepView::Flush => file == archive.take(file.len() as int),
        FetchStepView::Complete => file == archive,
        _ => true,
    }
}

/// Whether every chunk of the server's answer is the part of the archive that
/// follows what was counted before it.
pub open spec fn sends_archive(info: ModelInfo, moves: Seq<FetchMove>, archive: Seq<u8>) -> bool
    decreases moves.len(),
{
    moves.len() > 0 ==> {
        let s = fetch_after(info, moves.drop_last());
        &&& sends_archive(info, moves.drop_last(), archive)
        &&& s.step matches FetchStepView::WriteChunk(n) ==> s.written + n <= archive.len()
            && moves.last().chunk == archive.subrange(s.written as int, s.written + n)
    }
}

/// A step keeps the file the beginning of the archive when the server is
/// honest.
proof fn lemma_step_keeps_prefix(
    s: FetchModel,
    file: Seq<u8>,
    m: FetchMove,
    archive: Seq<u8>,
)
    requires
        s.info.size > 0,
        archive.len() == s.info.size,
        s.wf(),
        counts_file(s, file),
        holds_prefix(s, file, archive),
        fetch_answers(s, m.outcome),
        true_to_file(s, file, m.outcome, m.chunk),
        s.step matches FetchStepView::WriteChunk(n) ==> s.written + n <= archive.len() && m.chunk
            == archive.subrange(s.written as int, s.written + n),
    ensures
        holds_prefix(
            fetch_next(s, m.outcome),
            file_after_step(s, file, m.outcome, m.chunk),
            archive,
        ),
{
    let after = file_after_step(s, file, m.outcome, m.chunk);
    assert(archive.take(archive.len() as int) =~= archive);
    assert(archive.take(0) =~= Seq::<u8>::empty());
    if s.step is WriteChunk && m.outcome == FetchOutcomeView::Done {
        assert(after =~= archive.take(after.len() as int));
    }
}

/// Resuming puts the archive together and never splices two copies: where the
/// bytes found on disk are the beginning of the archive and each chunk of the
/// server's answer continues what was counted, a complete download is the
/// archive, byte for byte.
pub proof fn law_complete_download_is_the_archive(
    info: ModelInfo,
    file: Seq<u8>,
    moves: Seq<FetchMove>,
    archive: Seq<u8>,
)
    requires
        info.size > 0,
        archive.len() == info.size,
        file.len() <= archive.len() ==> file == archive.take(file.len() as int),
        is_fetch(info, file, moves),
        sends_archive(info, moves, archive),
    ensures
        holds_prefix(fetch_after(info, moves), file_after(info, file, moves), archive),
        fetch_after(info, moves).step == FetchStepView::Complete ==> file_after(info, file, moves)
            == archive,
    decreases moves.len(),
{
    if moves.len() > 0 {
        let earlier = moves.drop_last();
        law_complete_download_is_the_archive(info, file, earlier, archive);
        law_complete_download_has_published_size(info, file, earlier);
        lemma_step_keeps_prefix(
            fetch_after(info, earlier),
            file_after(info, file, earlier),
            moves.last(),
            archive,
        );
    }
}

/// Whether the file was created anew in the course of a download, because the
/// server sends the whole archive.
pub open spec fn restarts(info: ModelInfo, moves: Seq<FetchMove>) -> bool
    decreases moves.len(),
{
    moves.len() > 0 && (restarts(info, moves.drop_last()) || (fetch_after(
        info,
        moves.drop_last(),
    ).step == FetchStepView::CreateFile && moves.last().outcome == FetchOutcomeView::Done))
}

/// A download that starts from zero owes nothing to what was on disk: where
/// the file was created anew and each chunk of the server's answer continues
/// what was counted, a complete download is the archive, byte for byte,
/// whatever bytes were kept from before.
pub proof fn law_restarted_download_is_the_archive(
    info: ModelInfo,
    file: Seq<u8>,
    moves: Seq<FetchMove>,
    archive: Seq<u8>,
)
    requires
        info.size > 0,
        archive.len() == info.size,
        is_fetch(info, file, moves),
        sends_archive(info, moves, archive),
        restarts(info, moves),
    ensures
        holds_prefix(fetch_after(info, moves), file_after(info, file, moves), archive),
        fetch_after(info, moves).step == FetchStepView::Complete ==> file_after(info, file, moves)
            == archive,
    decreases moves.len(),
{
    let earlier = moves.drop_last();
    law_complete_download_has_published_size(info, file, earlier);
    if restarts(info, earlier) {
        law_restarted_download_is_the_archive(info, file, earlier, archive);
        lemma_step_keeps_prefix(
            fetch_after(info, earlier),
            file_after(info, file, earlier),
            moves.last(),
            archive,
        );
    } else {
        assert(archive.take(0) =~= Seq::<u8>::empty());
    }
}

/// A partial file is resumed where it stops: its bytes are kept, and the
/// request asks for the rest of the archive from the first missing byte on.
pub proof fn law_partial_file_is_resumed(info: ModelInfo, have: u64)
    requires
        0 < have < info.size,
    ensures
        ({
            let s = fetch_next(fetch_start(info), FetchOutcomeView::Size(have));
            &&& s.kept == have
            &&& s.step == FetchStepView::SendRequest(
                Some("bytes="@ + decimal(have as nat) + "-"@),
            )
            &&& fetch_report(fetch_start(info), s) == Some(
                DownloadProgressView {
                    status: "downloading"@,
                    model: info.name,
                    progress: download_percent(have as int, info.size as int) as u8,
                },
            )
        }),
{
}

/// Without a usable partial file the whole archive is asked for: where nothing
/// is on disk at once, where too much is on disk after that was removed. What
/// is complete is not asked for at all.
pub proof fn law_whole_archive_is_asked_for(
    info: ModelInfo,
    have: u64,
    removing: FetchOutcomeView,
)
    requires
        info.size > 0,
    ensures
        ({
            let s = fetch_next(fetch_start(info), FetchOutcomeView::Size(have));
            &&& have == 0 ==> s.step == FetchStepView::SendRequest(None) && s.kept == 0
            &&& have == info.size ==> s.step == FetchStepView::Complete
            &&& have > info.size ==> {
                &&& s.step == FetchStepView::DiscardPartial
                &&& fetch_next(s, removing).step == FetchStepView::SendRequest(None)
                &&& fetch_next(s, removing).kept == 0
            }
        }),
{
}

/// How many bytes were written in the course of a download.
pub open spec fn bytes_fetched(info: ModelInfo, moves: Seq<FetchMove>) -> int
    decreases moves.len(),
{
    if moves.len() == 0 {
        0
    } else {
        let before = bytes_fetched(info, moves.drop_last());
        match fetch_after(info, moves.drop_last()).step {
            FetchStepView::WriteChunk(n) => if moves.last().outcome == FetchOutcomeView::Done {
                before + n
            } else {
                before
            },
            _ => before,
        }
    }
}

/// Whether the server answers with partial content whenever it answers.
pub open spec fn honours_ranges(moves: Seq<FetchMove>) -> bool {
    forall|k: int|
        0 <= k < moves.len() ==> ((#[trigger] moves[k]).outcome matches FetchOutcomeView::Status(
            code,
            _,
        ) ==> code == 206)
}

/// Where a download that is being resumed can be, and how far it has come.
proof fn lemma_resumed_count(info: ModelInfo, file: Seq<u8>, moves: Seq<FetchMove>)
    requires
        0 < file.len() < info.size,
        is_fetch(info, file, moves),
        honours_ranges(moves),
    ensures
        ({
            let s = fetch_after(info, moves);
            let fetched = bytes_fetched(info, moves);
            &&& s.info == info
            &&& s.wf()
            &&& s.step !is Measure ==> s.kept == file.len()
            &&& match s.step {
                FetchStepView::Measure => moves.len() == 0 && fetched == 0,
                FetchStepView::SendRequest(_) => fetched == 0,
                FetchStepView::ReadRefusal(_) => true,
                FetchStepView::OpenPartial => s.written == file.len() && fetched == 0,
                FetchStepView::ReadChunk => s.written == file.len() + fetched,
                FetchStepView::WriteChunk(_) => s.written == file.len() + fetched,
                FetchStepView::FlushBroken(_) => true,
                FetchStepView::Flush => s.written == file.len() + fetched,
                FetchStepView::Complete => info.size == file.len() + fetched,
                FetchStepView::Failed(_) => true,
                FetchStepView::DiscardPartial => false,
                FetchStepView::CreateFile => false,
            }
        }),
        !restarts(info, moves),
    decreases moves.len(),
{
    if moves.len() > 0 {
        let earlier = moves.drop_last();
        assert forall|k: int| 0 <= k < earlier.len() implies (
        (#[trigger] earlier[k]).outcome matches FetchOutcomeView::Status(code, _) ==> code
            == 206) by {
            assert(earlier[k] == moves[k]);
        }
        lemma_resumed_count(info, file, earlier);
        assert(moves[moves.len() - 1] == moves.last());
    }
}

/// Resuming fetches only what is missing: where part of the archive is on disk
/// and the server answers with partial content, the file is never started
/// over, and a complete download has fetched just the bytes that were not
/// there.
pub proof fn law_resuming_fetches_only_what_is_missing(
    info: ModelInfo,
    file: Seq<u8>,
    moves: Seq<FetchMove>,
)
    requires
        0 < file.len() < info.size,
        is_fetch(info, file, moves),
        honours_ranges(moves),
    ensures
        !restarts(info, moves),
        fetch_after(info, moves).step == FetchStepView::Complete ==> bytes_fetched(info, moves)
            == info.size - file.len(),
{
    lemma_resumed_count(info, file, moves);
}

/// How many bytes a sequence of chunks has.
pub open spec fn bytes_in(chunks: Seq<usize>) -> int
    decreases chunks.len(),
{
    if chunks.len() == 0 {
        0
    } else {
        bytes_in(chunks.drop_last()) + chunks.last()
    }
}

/// The state of a download after chunks were read and written.
pub open spec fn after_chunks(s: FetchModel, chunks: Seq<usize>) -> FetchModel
    decreases chunks.len(),
{
    if chunks.len() == 0 {
        s
    } else {
        fetch_next(
            fetch_next(
                after_chunks(s, chunks.drop_last()),
                FetchOutcomeView::Chunk(chunks.last()),
            ),
            FetchOutcomeView::Done,
        )
    }
}

/// Reading and writing chunks counts their bytes.
proof fn lemma_chunks_are_counted(s: FetchModel, chunks: Seq<usize>)
    requires
        s.step == FetchStepView::ReadChunk,
        s.written + bytes_in(chunks) <= u64::MAX,
        forall|i: int| 0 <= i < chunks.len() ==> #[trigger] chunks[i] > 0,
    ensures
        bytes_in(chunks) >= 0,
        after_chunks(s, chunks).step == FetchStepView::ReadChunk,
        after_chunks(s, chunks).written == s.written + bytes_in(chunks),
        after_chunks(s, chunks).info == s.info,
        after_chunks(s, chunks).kept == s.kept,
    decreases chunks.len(),
{
    if chunks.len() > 0 {
        assert(chunks[chunks.len() - 1] > 0);
        lemma_bytes_in(chunks.drop_last());
        lemma_chunks_are_counted(s, chunks.drop_last());
    }
}

/// Chunks have no negative size.
proof fn lemma_bytes_in(chunks: Seq<usize>)
    ensures
        bytes_in(chunks) >= 0,
    decreases chunks.len(),
{
    if chunks.len() > 0 {
        lemma_bytes_in(chunks.drop_last());
    }
}

/// A download whose steps all succeed comes to its end: it is complete exactly
/// when what was kept and what arrived make up the published size, whatever
/// the chunks; else it tells how many bytes there are. Kept bytes count where
/// the server answers with partial content, and not where it sends all.
pub proof fn law_download_comes_to_its_end(
    info: ModelInfo,
    have: u64,
    code: u16,
    status: Seq<char>,
    chunks: Seq<usize>,
)
    requires
        have < info.size,
        200 <= code < 300,
        have + bytes_in(chunks) <= u64::MAX,
        forall|i: int| 0 <= i < chunks.len() ==> #[trigger] chunks[i] > 0,
    ensures
        ({
            let measured = fetch_next(fetch_start(info), FetchOutcomeView::Size(have));
            let answered = fetch_next(measured, FetchOutcomeView::Status(code, status));
            let opened = fetch_next(answered, FetchOutcomeView::Done);
            let read = fetch_next(after_chunks(opened, chunks), FetchOutcomeView::Chunk(0));
            let flushed = fetch_next(read, FetchOutcomeView::Done);
            let count = if code == 206 {
                have + bytes_in(chunks)
            } else {
                bytes_in(chunks)
            };
            &&& answered.step == (if code == 206 && have > 0 {
                FetchStepView::OpenPartial
            } else {
                FetchStepView::CreateFile
            })
            &&& opened.step == FetchStepView::ReadChunk
            &&& flushed.step == (if count == info.size {
                FetchStepView::Complete
            } else {
                FetchStepView::Failed(
                    "Download stopped short: got "@ + decimal(count as nat) + " of "@ + decimal(
                        info.size as nat,
                    ) + " bytes — retry to resume"@,
                )
            })
        }),
{
    lemma_bytes_in(chunks);
    let measured = fetch_next(fetch_start(info), FetchOutcomeView::Size(have));
    let answered = fetch_next(measured, FetchOutcomeView::Status(code, status));
    let opened = fetch_next(answered, FetchOutcomeView::Done);
    lemma_chunks_are_counted(opened, chunks);
}

/// Whatever breaks a download is told, with what was being done.
pub proof fn law_broken_download_tells_why(
    s: FetchModel,
    range: Option<Seq<char>>,
    n: usize,
    reason: Seq<char>,
    flushing: FetchOutcomeView,
)
    ensures
        fetch_next(
            s.at(FetchStepView::SendRequest(range)),
            FetchOutcomeView::NoClient(reason),
        ).step == FetchStepView::Failed("Failed to create HTTP client: "@ + reason),
        fetch_next(
            s.at(FetchStepView::SendRequest(range)),
            FetchOutcomeView::Broken(reason),
        ).step == FetchStepView::Failed(
            "Failed to download model from "@ + s.info.url + ": "@ + reason,
        ),
        fetch_next(s.at(FetchStepView::OpenPartial), FetchOutcomeView::Broken(reason)).step
            == FetchStepView::Failed("Failed to open partial download: "@ + reason),
        fetch_next(s.at(FetchStepView::CreateFile), FetchOutcomeView::Broken(reason)).step
            == FetchStepView::Failed("Failed to create download file: "@ + reason),
        fetch_next(s.at(FetchStepView::WriteChunk(n)), FetchOutcomeView::Broken(reason)).step
            == FetchStepView::Failed("Failed to write download: "@ + reason),
        fetch_next(s.at(FetchStepView::Flush), FetchOutcomeView::Broken(reason)).step
            == FetchStepView::Failed("Failed to flush download: "@ + reason),
        fetch_next(
            fetch_next(s.at(FetchStepView::ReadChunk), FetchOutcomeView::Broken(reason)),
            flushing,
        ).step == FetchStepView::Failed("Failed to read chunk: "@ + reason),
{
}

/// A server that refuses is quoted: its status, and what it says, if that can
/// be read.
pub proof fn law_refusal_is_quoted(
    s: FetchModel,
    range: Option<Seq<char>>,
    code: u16,
    status: Seq<char>,
    body: Seq<char>,
)
    requires
        code < 200 || code >= 300,
    ensures
        ({
            let refused = fetch_next(
                s.at(FetchStepView::SendRequest(range)),
                FetchOutcomeView::Status(code, status),
            );
            &&& fetch_next(refused, FetchOutcomeView::Body(Some(body))).step
                == FetchStepView::Failed(
                "Failed to download model: HTTP "@ + status + " - "@ + body,
            )
            &&& fetch_next(refused, FetchOutcomeView::Body(None)).step == FetchStepView::Failed(
                "Failed to download model: HTTP "@ + status + " - "@
                    + "Failed to get error details"@,
            )
        }),
{
}

/// While bytes arrive, progress is reported whenever another five mebibytes are
/// there, and then with all that is there; and never twice for the same.
pub proof fn law_progress_every_five_mebibytes(s: FetchModel, n: usize)
    requires
        s.step == FetchStepView::WriteChunk(n),
        s.wf(),
        s.reported == s.written as int / 5_242_880,
    ensures
        ({
            let next = fetch_next(s, FetchOutcomeView::Done);
            &&& next.written == s.written + n
            &&& next.step == FetchStepView::ReadChunk
            &&& next.reported == (s.written + n) / 5_242_880
            &&& fetch_report(s, next) == (if (s.written + n) / 5_242_880 > s.written as int
                / 5_242_880 {
                Some(
                    DownloadProgressView {
                        status: "downloading"@,
                        model: s.info.name,
                        progress: download_percent(s.written + n, s.info.size as int) as u8,
                    },
                )
            } else {
                None
            })
        }),
{
}

/// The count of reports starts with what was kept.
pub proof fn law_reports_start_with_what_was_kept(
    s: FetchModel,
    range: Option<Seq<char>>,
    code: u16,
    status: Seq<char>,
)
    requires
        200 <= code < 300,
        s.step == FetchStepView::SendRequest(range),
    ensures
        ({
            let next = fetch_next(s, FetchOutcomeView::Status(code, status));
            &&& next.written == (if code == 206 {
                s.kept
            } else {
                0
            })
            &&& next.reported == next.written as int / 5_242_880
            &&& fetch_report(s, next) is None
        }),
{
}

/// The views of a download's steps and of what came of them tell what they
/// hold, as it is.
pub proof fn law_fetch_steps_are_told_as_they_are(text: String, n: usize, size: u64, code: u16)
    ensures
        FetchStep::Measure@ == FetchStepView::Measure,
        FetchStep::DiscardPartial@ == FetchStepView::DiscardPartial,
        FetchStep::SendRequest(None)@ == FetchStepView::SendRequest(None),
        FetchStep::SendRequest(Some(text))@ == FetchStepView::SendRequest(Some(text@)),
        FetchStep::ReadRefusal(text)@ == FetchStepView::ReadRefusal(text@),
        FetchStep::OpenPartial@ == FetchStepView::OpenPartial,
        FetchStep::CreateFile@ == FetchStepView::CreateFile,
        FetchStep::ReadChunk@ == FetchStepView::ReadChunk,
        FetchStep::WriteChunk(n)@ == FetchStepView::WriteChunk(n),
        FetchStep::FlushBroken(text)@ == FetchStepView::FlushBroken(text@),
        FetchStep::Flush@ == FetchStepView::Flush,
        FetchStep::Complete@ == FetchStepView::Complete,
        FetchStep::Failed(text)@ == FetchStepView::Failed(text@),
        FetchOutcome::Size(size)@ == FetchOutcomeView::Size(size),
        FetchOutcome::Done@ == FetchOutcomeView::Done,
        FetchOutcome::Broken(text)@ == FetchOutcomeView::Broken(text@),
        FetchOutcome::NoClient(text)@ == FetchOutcomeView::NoClient(text@),
        FetchOutcome::Status(code, text)@ == FetchOutcomeView::Status(code, text@),
        FetchOutcome::Body(None)@ == FetchOutcomeView::Body(None),
        FetchOutcome::Body(Some(text))@ == FetchOutcomeView::Body(Some(text@)),
        FetchOutcome::Chunk(n)@ == FetchOutcomeView::Chunk(n),
{
}

/// Every chunk that arrives is written in full, however small, and only an
/// empty one is the end.
pub proof fn law_every_chunk_is_written(s: FetchModel, n: usize)
    requires
        s.step is ReadChunk,
        s.written + n <= u64::MAX,
    ensures
        ({
            let received = fetch_next(s, FetchOutcomeView::Chunk(n));
            let after = fetch_next(received, FetchOutcomeView::Done);
            &&& n == 0 ==> received.step is Flush && received.written == s.written
            &&& n > 0 ==> received.step == FetchStepView::WriteChunk(n) && received.written
                == s.written && after.step is ReadChunk && after.written == s.written + n
            &&& received.kept == s.kept
            &&& received.info == s.info
        }),
{
}

} // verus!
