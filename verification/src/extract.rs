//! Unpacking an archive as a sequence of steps: which entries are written, and
//! how far the work has come.
//!
//! An [`ArchiveExtraction`] says which step comes next; whoever drives it
//! performs that step on the archive and the file system and hands back the
//! [`ExtractOutcome`].

use vstd::prelude::*;
use vstd::string::*;

use crate::catalog::{ModelInfo, ModelSpec};
use crate::models::{DownloadProgress, DownloadProgressView};
use crate::rounding::{
    double_share, law_share_grows_to_its_factor, law_share_is_nearly_exact, share,
};
use crate::text::chars_of;

verus! {

/// The percentage at which extraction begins.
pub const EXTRACT_PROGRESS_START: u8 = 50;

/// How many percent extraction accounts for.
pub const EXTRACT_PROGRESS_SPAN: u8 = 49;

/// What to do with an entry of the archive.
#[derive(Debug, Clone, Copy, PartialEq, Eq, Structural)]
pub enum EntryAction {
    /// Leave it out: its path would escape the target directory.
    Skip,
    /// Create it as a directory.
    CreateDir,
    /// Write it as a file.
    WriteFile,
}

/// What to do with the entry `name`, given whether its path stays within the
/// target directory. Directories are the entries whose name ends in `/`.
pub open spec fn entry_action_for(enclosed: bool, name: Seq<char>) -> EntryAction {
    if !enclosed {
        EntryAction::Skip
    } else if name.len() > 0 && name.last() == '/' {
        EntryAction::CreateDir
    } else {
        EntryAction::WriteFile
    }
}

/// Decides what to do with an entry of the archive.
pub fn entry_action(enclosed: bool, name: &str) -> (action: EntryAction)
    ensures
        action == entry_action_for(enclosed, name@),
{
    if !enclosed {
        return EntryAction::Skip;
    }
    let chars = chars_of(name);
    if chars.len() > 0 && chars[chars.len() - 1] == '/' {
        EntryAction::CreateDir
    } else {
        EntryAction::WriteFile
    }
}

/// The percentage when `done` of `total` entries are unpacked: the start, and
/// the part of the span that double precision computes.
pub open spec fn extract_percent(done: int, total: int) -> int {
    EXTRACT_PROGRESS_START + double_share(
        done as nat,
        total as nat,
        EXTRACT_PROGRESS_SPAN as nat,
    )
}

/// Extraction moves from its start towards, but never to, the end: it leaves
/// the last percent to the completed installation.
pub proof fn law_extract_progress_stays_in_its_span(earlier: int, later: int, total: int)
    requires
        0 <= earlier <= later <= total,
        0 < total,
    ensures
        EXTRACT_PROGRESS_START <= extract_percent(earlier, total) <= extract_percent(later, total)
            <= 99,
        extract_percent(total, total) == 99,
{
    law_share_grows_to_its_factor(
        earlier as nat,
        later as nat,
        total as nat,
        EXTRACT_PROGRESS_SPAN as nat,
    );
}

/// The percentage when `done` of `total` entries are unpacked.
pub fn extract_progress(done: usize, total: usize) -> (percent: u8)
    requires
        0 < total,
        done <= total,
    ensures
        percent == extract_percent(done as int, total as int),
{
    proof {
        law_extract_progress_stays_in_its_span(done as int, done as int, total as int);
    }
    EXTRACT_PROGRESS_START + share(done as u64, total as u64, EXTRACT_PROGRESS_SPAN)
}

/// A step of an extraction.
#[derive(Debug, Clone, PartialEq, Eq)]
pub enum ExtractStep {
    /// Open the archive file.
    OpenArchive,
    /// Read the directory of the archive.
    ReadDirectory,
    /// Read the name of the entry at this index, and whether its path stays
    /// within the target directory.
    InspectEntry(usize),
    /// Create the directory of the entry at this index.
    CreateDir(usize),
    /// Create the file of the entry at this index, and the directory it is in
    /// where that is missing.
    CreateFile(usize),
    /// Write the content of the entry at this index to its file.
    CopyContent(usize),
    /// All entries are unpacked.
    Finished,
    /// The extraction failed, for this reason.
    Failed(String),
}

/// An [`ExtractStep`] with its text as a sequence of characters.
pub enum ExtractStepView {
    OpenArchive,
    ReadDirectory,
    InspectEntry(usize),
    CreateDir(usize),
    CreateFile(usize),
    CopyContent(usize),
    Finished,
    Failed(Seq<char>),
}

impl View for ExtractStep {
    type V = ExtractStepView;

    open spec fn view(&self) -> ExtractStepView {
        match self {
            ExtractStep::OpenArchive => ExtractStepView::OpenArchive,
            ExtractStep::ReadDirectory => ExtractStepView::ReadDirectory,
            ExtractStep::InspectEntry(i) => ExtractStepView::InspectEntry(*i),
            ExtractStep::CreateDir(i) => ExtractStepView::CreateDir(*i),
            ExtractStep::CreateFile(i) => ExtractStepView::CreateFile(*i),
            ExtractStep::CopyContent(i) => ExtractStepView::CopyContent(*i),
            ExtractStep::Finished => ExtractStepView::Finished,
            ExtractStep::Failed(reason) => ExtractStepView::Failed(reason@),
        }
    }
}

/// What came of a step.
#[derive(Debug, Clone, PartialEq, Eq)]
pub enum ExtractOutcome {
    /// It was done.
    Done,
    /// It failed, for this reason.
    Broken(String),
    /// How many entries the archive has.
    Entries(usize),
    /// Whether the path of the entry stays within the target directory, and
    /// its name.
    Entry(bool, String),
}

/// An [`ExtractOutcome`] with its texts as sequences of characters.
pub enum ExtractOutcomeView {
    Done,
    Broken(Seq<char>),
    Entries(usize),
    Entry(bool, Seq<char>),
}

impl View for ExtractOutcome {
    type V = ExtractOutcomeView;

    open spec fn view(&self) -> ExtractOutcomeView {
        match self {
            ExtractOutcome::Done => ExtractOutcomeView::Done,
            ExtractOutcome::Broken(reason) => ExtractOutcomeView::Broken(reason@),
            ExtractOutcome::Entries(n) => ExtractOutcomeView::Entries(*n),
            ExtractOutcome::Entry(enclosed, name) => ExtractOutcomeView::Entry(*enclosed, name@),
        }
    }
}

/// The state of an extraction.
pub struct ExtractModel {
    /// The model whose archive is unpacked.
    pub info: ModelInfo,
    /// The step to perform.
    pub step: ExtractStepView,
    /// How many entries the archive has.
    pub entries: usize,
    /// The percentage that was last reported.
    pub reported: u8,
}

impl ExtractModel {
    /// The step speaks of an entry that is there, and the percentage lies in
    /// the span of the extraction.
    pub open spec fn wf(self) -> bool {
        &&& EXTRACT_PROGRESS_START <= self.reported <= 99
        &&& match self.step {
            ExtractStepView::InspectEntry(i) => i < self.entries,
            ExtractStepView::CreateDir(i) => i < self.entries,
            ExtractStepView::CreateFile(i) => i < self.entries,
            ExtractStepView::CopyContent(i) => i < self.entries,
            _ => true,
        }
    }

    /// This state at another step.
    pub open spec fn at(self, step: ExtractStepView) -> ExtractModel {
        ExtractModel { step, ..self }
    }

    /// This state, failed.
    pub open spec fn failed(self, what: Seq<char>, reason: Seq<char>) -> ExtractModel {
        self.at(ExtractStepView::Failed(what + reason))
    }

    /// This state at the entry `i`, or at the end where there is none.
    pub open spec fn at_entry(self, i: int) -> ExtractModel {
        if i < self.entries {
            self.at(ExtractStepView::InspectEntry(i as usize))
        } else {
            self.at(ExtractStepView::Finished)
        }
    }

    /// This state after the entry `i` was unpacked: the percentage grows with
    /// it.
    pub open spec fn unpacked(self, i: usize) -> ExtractModel {
        let percent = extract_percent(i + 1, self.entries as int);
        ExtractModel {
            reported: if percent > self.reported {
                percent as u8
            } else {
                self.reported
            },
            ..self
        }.at_entry(i + 1)
    }
}

/// The state of an extraction before its first step. Its start is already
/// reported.
pub open spec fn extract_start(info: ModelInfo) -> ExtractModel {
    ExtractModel {
        info,
        step: ExtractStepView::OpenArchive,
        entries: 0,
        reported: EXTRACT_PROGRESS_START,
    }
}

/// Whether an outcome is one that the step can have. The last steps have none.
pub open spec fn extract_answers(step: ExtractStepView, outcome: ExtractOutcomeView) -> bool {
    match step {
        ExtractStepView::ReadDirectory => outcome is Entries || outcome is Broken,
        ExtractStepView::InspectEntry(_) => outcome is Entry || outcome is Broken,
        ExtractStepView::Finished => false,
        ExtractStepView::Failed(_) => false,
        _ => outcome is Done || outcome is Broken,
    }
}

/// The state that follows `s` when its step had `outcome`.
pub open spec fn extract_next(s: ExtractModel, outcome: ExtractOutcomeView) -> ExtractModel {
    match (s.step, outcome) {
        (ExtractStepView::OpenArchive, ExtractOutcomeView::Broken(reason)) => s.failed(
            "Failed to open archive: "@,
            reason,
        ),
        (ExtractStepView::OpenArchive, _) => s.at(ExtractStepView::ReadDirectory),
        (ExtractStepView::ReadDirectory, ExtractOutcomeView::Entries(n)) => ExtractModel {
            entries: n,
            ..s
        }.at_entry(0),
        (ExtractStepView::ReadDirectory, ExtractOutcomeView::Broken(reason)) => s.failed(
            "Failed to open zip: "@,
            reason,
        ),
        (
            ExtractStepView::InspectEntry(i),
            ExtractOutcomeView::Entry(enclosed, name),
        ) => match entry_action_for(enclosed, name) {
            EntryAction::Skip => s.at_entry(i + 1),
            EntryAction::CreateDir => s.at(ExtractStepView::CreateDir(i)),
            EntryAction::WriteFile => s.at(ExtractStepView::CreateFile(i)),
        },
        (ExtractStepView::InspectEntry(_), ExtractOutcomeView::Broken(reason)) => s.failed(
            "Failed to read zip entry: "@,
            reason,
        ),
        (ExtractStepView::CreateDir(i), _) => s.unpacked(i),
        (ExtractStepView::CreateFile(_), ExtractOutcomeView::Broken(reason)) => s.failed(
            "Failed to create file: "@,
            reason,
        ),
        (ExtractStepView::CreateFile(i), _) => s.at(ExtractStepView::CopyContent(i)),
        (ExtractStepView::CopyContent(_), ExtractOutcomeView::Broken(reason)) => s.failed(
            "Failed to extract file: "@,
            reason,
        ),
        (ExtractStepView::CopyContent(i), _) => s.unpacked(i),
        _ => s,
    }
}

/// What to report after a step: the percentage, whenever it has grown.
pub open spec fn extract_report(before: ExtractModel, after: ExtractModel) -> Option<
    DownloadProgressView,
> {
    if after.reported > before.reported {
        Some(
            DownloadProgressView {
                status: "extracting"@,
                model: after.info.name,
                progress: after.reported,
            },
        )
    } else {
        None
    }
}

/// The extraction of one archive: an [`ExtractModel`] in memory.
#[derive(Debug, Clone)]
pub struct ArchiveExtraction {
    spec: ModelSpec,
    step: ExtractStep,
    entries: usize,
    reported: u8,
}

impl View for ArchiveExtraction {
    type V = ExtractModel;

    closed spec fn view(&self) -> ExtractModel {
        ExtractModel {
            info: self.spec@,
            step: self.step@,
            entries: self.entries,
            reported: self.reported,
        }
    }
}

/// A failure: what could not be done, and why.
fn failed(what: &str, reason: String) -> (step: ExtractStep)
    ensures
        step@ == ExtractStepView::Failed(what@ + reason@),
{
    let mut message = String::from_str(what);
    message.append(reason.as_str());
    ExtractStep::Failed(message)
}

impl ArchiveExtraction {
    /// The extraction of the archive of `spec`, before its first step. Its
    /// start is already reported.
    pub fn new(spec: ModelSpec) -> (extraction: ArchiveExtraction)
        ensures
            extraction@ == extract_start(spec@),
            extraction@.wf(),
    {
        ArchiveExtraction {
            spec,
            step: ExtractStep::OpenArchive,
            entries: 0,
            reported: EXTRACT_PROGRESS_START,
        }
    }

    /// The step to perform now.
    pub fn step(&self) -> (step: &ExtractStep)
        ensures
            step@ == self@.step,
    {
        &self.step
    }

    /// The step at the entry `i`, or at the end where there is none.
    fn step_at(&self, i: usize) -> (step: ExtractStep)
        ensures
            step@ == self@.at_entry(i as int).step,
    {
        if i < self.entries {
            ExtractStep::InspectEntry(i)
        } else {
            ExtractStep::Finished
        }
    }

    /// Counts the entry `i` as unpacked and goes on to the next.
    fn entry_unpacked(&mut self, i: usize) -> (report: Option<DownloadProgress>)
        requires
            old(self)@.wf(),
            i < old(self)@.entries,
        ensures
            final(self)@ == old(self)@.unpacked(i),
            final(self)@.wf(),
            match report {
                Some(progress) => extract_report(old(self)@, final(self)@) == Some(progress@),
                None => extract_report(old(self)@, final(self)@) is None,
            },
    {
        proof {
            law_extract_progress_stays_in_its_span(i + 1, i + 1, self.entries as int);
        }
        let percent: u8 = extract_progress(i + 1, self.entries);
        self.step = self.step_at(i + 1);
        if percent > self.reported {
            self.reported = percent;
            Some(
                DownloadProgress { status: "extracting", model: self.spec.name, progress: percent },
            )
        } else {
            None
        }
    }

    /// Takes the outcome of the step and moves on to the next. Returns the
    /// progress to report, if any.
    pub fn advance(&mut self, outcome: ExtractOutcome) -> (report: Option<DownloadProgress>)
        requires
            old(self)@.wf(),
            extract_answers(old(self)@.step, outcome@),
        ensures
            final(self)@.wf(),
            final(self)@ == extract_next(old(self)@, outcome@),
            match report {
                Some(progress) => extract_report(old(self)@, final(self)@) == Some(progress@),
                None => extract_report(old(self)@, final(self)@) is None,
            },
    {
        match (&self.step, outcome) {
            (ExtractStep::OpenArchive, ExtractOutcome::Broken(reason)) => {
                self.step = failed("Failed to open archive: ", reason);
                None
            },
            (ExtractStep::OpenArchive, _) => {
                self.step = ExtractStep::ReadDirectory;
                None
            },
            (ExtractStep::ReadDirectory, ExtractOutcome::Entries(n)) => {
                self.entries = n;
                self.step = self.step_at(0);
                None
            },
            (ExtractStep::ReadDirectory, ExtractOutcome::Broken(reason)) => {
                self.step = failed("Failed to open zip: ", reason);
                None
            },
            (ExtractStep::InspectEntry(i), ExtractOutcome::Entry(enclosed, name)) => {
                let i: usize = *i;
                self.step = match entry_action(enclosed, name.as_str()) {
                    EntryAction::Skip => self.step_at(i + 1),
                    EntryAction::CreateDir => ExtractStep::CreateDir(i),
                    EntryAction::WriteFile => ExtractStep::CreateFile(i),
                };
                None
            },
            (ExtractStep::InspectEntry(_), ExtractOutcome::Broken(reason)) => {
                self.step = failed("Failed to read zip entry: ", reason);
                None
            },
            (ExtractStep::CreateDir(i), _) => {
                let i: usize = *i;
                self.entry_unpacked(i)
            },
            (ExtractStep::CreateFile(_), ExtractOutcome::Broken(reason)) => {
                self.step = failed("Failed to create file: ", reason);
                None
            },
            (ExtractStep::CreateFile(i), _) => {
                let i: usize = *i;
                self.step = ExtractStep::CopyContent(i);
                None
            },
            (ExtractStep::CopyContent(_), ExtractOutcome::Broken(reason)) => {
                self.step = failed("Failed to extract file: ", reason);
                None
            },
            (ExtractStep::CopyContent(i), _) => {
                let i: usize = *i;
                self.entry_unpacked(i)
            },
            _ => None,
        }
    }
}

/// A sequence of states with the outcomes of their steps, from the first step
/// on, that an extraction can go through.
pub open spec fn is_extraction(
    info: ModelInfo,
    run: Seq<(ExtractModel, ExtractOutcomeView)>,
) -> bool {
    &&& run.len() > 0 ==> run[0].0 == extract_start(info)
    &&& forall|k: int| 0 <= k < run.len() ==> extract_answers(#[trigger] run[k].0.step, run[k].1)
    &&& forall|k: int|
        0 < k < run.len() ==> #[trigger] run[k].0 == extract_next(run[k - 1].0, run[k - 1].1)
}

/// Nothing is ever written outside the target directory: whenever an
/// extraction creates a directory or a file for an entry, or fills one, the
/// path of that entry was found to stay within the target directory.
pub proof fn law_escaping_entry_is_never_written(
    info: ModelInfo,
    run: Seq<(ExtractModel, ExtractOutcomeView)>,
    k: int,
    i: usize,
)
    requires
        is_extraction(info, run),
        0 <= k < run.len(),
        run[k].0.step == ExtractStepView::CreateDir(i) || run[k].0.step
            == ExtractStepView::CreateFile(i) || run[k].0.step == ExtractStepView::CopyContent(i),
    ensures
        exists|j: int|
            0 <= j < k && (#[trigger] run[j]).0.step == ExtractStepView::InspectEntry(i) && (
            run[j].1 matches ExtractOutcomeView::Entry(enclosed, _) && enclosed),
{
    assert(extract_answers(run[k - 1].0.step, run[k - 1].1));
    assert(run[k].0 == extract_next(run[k - 1].0, run[k - 1].1));
    if run[k].0.step == ExtractStepView::CopyContent(i) {
        assert(run[k - 1].0.step == ExtractStepView::CreateFile(i));
        assert(extract_answers(run[k - 2].0.step, run[k - 2].1));
        assert(run[k - 1].0 == extract_next(run[k - 2].0, run[k - 2].1));
        assert(run[k - 2].0.step == ExtractStepView::InspectEntry(i));
    } else {
        assert(run[k - 1].0.step == ExtractStepView::InspectEntry(i));
    }
}

/// The state of an extraction after a run.
pub open spec fn extract_after(
    info: ModelInfo,
    run: Seq<(ExtractModel, ExtractOutcomeView)>,
) -> ExtractModel {
    if run.len() == 0 {
        extract_start(info)
    } else {
        extract_next(run.last().0, run.last().1)
    }
}

/// Whether the entry `i` was inspected in a run and found to ask for `action`.
pub open spec fn was_inspected(
    run: Seq<(ExtractModel, ExtractOutcomeView)>,
    i: usize,
    action: EntryAction,
) -> bool {
    exists|k: int|
        0 <= k < run.len() && (#[trigger] run[k]).0.step == ExtractStepView::InspectEntry(i) && (
        run[k].1 matches ExtractOutcomeView::Entry(enclosed, name) && entry_action_for(
            enclosed,
            name,
        ) == action)
}

/// Whether a run performed this step with success.
pub open spec fn was_done(
    run: Seq<(ExtractModel, ExtractOutcomeView)>,
    step: ExtractStepView,
) -> bool {
    exists|k: int|
        0 <= k < run.len() && (#[trigger] run[k]).0.step == step && run[k].1
            == ExtractOutcomeView::Done
}

/// Whether a run came to this step, whatever came of it.
pub open spec fn was_tried(
    run: Seq<(ExtractModel, ExtractOutcomeView)>,
    step: ExtractStepView,
) -> bool {
    exists|k: int| 0 <= k < run.len() && (#[trigger] run[k]).0.step == step
}

/// Whether a run dealt with the entry `i`: its path was found to escape the
/// target directory, or it is a directory that was to be created, or it is a
/// file that was created and filled.
pub open spec fn was_handled(run: Seq<(ExtractModel, ExtractOutcomeView)>, i: usize) -> bool {
    ||| was_inspected(run, i, EntryAction::Skip)
    ||| was_inspected(run, i, EntryAction::CreateDir) && was_tried(
        run,
        ExtractStepView::CreateDir(i),
    )
    ||| was_inspected(run, i, EntryAction::WriteFile) && was_done(
        run,
        ExtractStepView::CreateFile(i),
    ) && was_done(run, ExtractStepView::CopyContent(i))
}

/// Whether a run dealt with all entries before `n`.
pub open spec fn handled_before(run: Seq<(ExtractModel, ExtractOutcomeView)>, n: int) -> bool {
    forall|i: usize| i < n ==> #[trigger] was_handled(run, i)
}

/// What holds at each step of an extraction: every entry before the one at
/// hand was dealt with.
pub open spec fn up_to_date(s: ExtractModel, run: Seq<(ExtractModel, ExtractOutcomeView)>) -> bool {
    match s.step {
        ExtractStepView::InspectEntry(i) => i < s.entries && handled_before(run, i as int),
        ExtractStepView::CreateDir(i) => i < s.entries && handled_before(run, i as int)
            && was_inspected(run, i, EntryAction::CreateDir),
        ExtractStepView::CreateFile(i) => i < s.entries && handled_before(run, i as int)
            && was_inspected(run, i, EntryAction::WriteFile),
        ExtractStepView::CopyContent(i) => i < s.entries && handled_before(run, i as int)
            && was_inspected(run, i, EntryAction::WriteFile) && was_done(
            run,
            ExtractStepView::CreateFile(i),
        ),
        ExtractStepView::Finished => handled_before(run, s.entries as int),
        _ => true,
    }
}

/// What was inspected in a run was inspected in a longer one.
proof fn lemma_still_inspected(
    run: Seq<(ExtractModel, ExtractOutcomeView)>,
    i: usize,
    action: EntryAction,
)
    requires
        run.len() > 0,
        was_inspected(run.drop_last(), i, action),
    ensures
        was_inspected(run, i, action),
{
    let before = run.drop_last();
    let k = choose|k: int|
        0 <= k < before.len() && (#[trigger] before[k]).0.step == ExtractStepView::InspectEntry(i)
            && (before[k].1 matches ExtractOutcomeView::Entry(enclosed, name) && entry_action_for(
            enclosed,
            name,
        ) == action);
    assert(run[k] == before[k]);
}

/// What was done in a run was done in a longer one.
proof fn lemma_still_done(run: Seq<(ExtractModel, ExtractOutcomeView)>, step: ExtractStepView)
    requires
        run.len() > 0,
        was_done(run.drop_last(), step),
    ensures
        was_done(run, step),
{
    let before = run.drop_last();
    let k = choose|k: int|
        0 <= k < before.len() && (#[trigger] before[k]).0.step == step && before[k].1
            == ExtractOutcomeView::Done;
    assert(run[k] == before[k]);
}

/// What was tried in a run was tried in a longer one.
proof fn lemma_still_tried(run: Seq<(ExtractModel, ExtractOutcomeView)>, step: ExtractStepView)
    requires
        run.len() > 0,
        was_tried(run.drop_last(), step),
    ensures
        was_tried(run, step),
{
    let before = run.drop_last();
    let k = choose|k: int| 0 <= k < before.len() && (#[trigger] before[k]).0.step == step;
    assert(run[k] == before[k]);
}

/// The entries that a run dealt with, a longer one dealt with.
proof fn lemma_still_handled(run: Seq<(ExtractModel, ExtractOutcomeView)>, n: int)
    requires
        run.len() > 0,
        handled_before(run.drop_last(), n),
    ensures
        handled_before(run, n),
{
    let before = run.drop_last();
    assert forall|i: usize| i < n implies #[trigger] was_handled(run, i) by {
        assert(was_handled(before, i));
        if was_inspected(before, i, EntryAction::Skip) {
            lemma_still_inspected(run, i, EntryAction::Skip);
        } else if was_inspected(before, i, EntryAction::CreateDir) && was_tried(
            before,
            ExtractStepView::CreateDir(i),
        ) {
            lemma_still_inspected(run, i, EntryAction::CreateDir);
            lemma_still_tried(run, ExtractStepView::CreateDir(i));
        } else {
            lemma_still_inspected(run, i, EntryAction::WriteFile);
            lemma_still_done(run, ExtractStepView::CreateFile(i));
            lemma_still_done(run, ExtractStepView::CopyContent(i));
        }
    }
}

/// One more entry dealt with.
proof fn lemma_one_more_handled(run: Seq<(ExtractModel, ExtractOutcomeView)>, i: usize)
    requires
        handled_before(run, i as int),
        was_handled(run, i),
    ensures
        handled_before(run, i + 1),
{
    assert forall|j: usize| j < i + 1 implies #[trigger] was_handled(run, j) by {
        if j < i {
            assert(was_handled(run, j));
        }
    }
}

/// A run without its last step is a run, and the last step is where it leads.
proof fn lemma_extraction_prefix(info: ModelInfo, run: Seq<(ExtractModel, ExtractOutcomeView)>)
    requires
        is_extraction(info, run),
        run.len() > 0,
    ensures
        is_extraction(info, run.drop_last()),
        extract_after(info, run.drop_last()) == run.last().0,
        extract_answers(run.last().0.step, run.last().1),
{
    let before = run.drop_last();
    assert forall|k: int| 0 <= k < before.len() implies extract_answers(
        #[trigger] before[k].0.step,
        before[k].1,
    ) by {
        assert(before[k] == run[k]);
    }
    assert forall|k: int| 0 < k < before.len() implies #[trigger] before[k].0 == extract_next(
        before[k - 1].0,
        before[k - 1].1,
    ) by {
        assert(before[k] == run[k] && before[k - 1] == run[k - 1]);
    }
    assert(extract_answers(run[run.len() - 1].0.step, run[run.len() - 1].1));
    if before.len() > 0 {
        assert(run[run.len() - 1].0 == extract_next(run[run.len() - 2].0, run[run.len() - 2].1));
    }
}

/// At each step of an extraction, every entry before the one at hand was dealt
/// with.
proof fn lemma_up_to_date(info: ModelInfo, run: Seq<(ExtractModel, ExtractOutcomeView)>)
    requires
        is_extraction(info, run),
    ensures
        up_to_date(extract_after(info, run), run),
    decreases run.len(),
{
    if run.len() > 0 {
        let before = run.drop_last();
        lemma_extraction_prefix(info, run);
        lemma_up_to_date(info, before);
        let s = run.last().0;
        let outcome = run.last().1;
        assert(run[run.len() - 1] == run.last());
        match s.step {
            ExtractStepView::InspectEntry(i) => {
                lemma_still_handled(run, i as int);
                if outcome is Entry {
                    let action = entry_action_for(outcome->Entry_0, outcome->Entry_1);
                    assert(was_inspected(run, i, action));
                    if action == EntryAction::Skip {
                        lemma_one_more_handled(run, i);
                    }
                }
            },
            ExtractStepView::CreateDir(i) => {
                lemma_still_handled(run, i as int);
                lemma_still_inspected(run, i, EntryAction::CreateDir);
                assert(was_tried(run, s.step));
                lemma_one_more_handled(run, i);
            },
            ExtractStepView::CreateFile(i) => {
                lemma_still_handled(run, i as int);
                lemma_still_inspected(run, i, EntryAction::WriteFile);
                if outcome == ExtractOutcomeView::Done {
                    assert(was_done(run, s.step));
                }
            },
            ExtractStepView::CopyContent(i) => {
                lemma_still_handled(run, i as int);
                lemma_still_inspected(run, i, EntryAction::WriteFile);
                lemma_still_done(run, ExtractStepView::CreateFile(i));
                if outcome == ExtractOutcomeView::Done {
                    assert(was_done(run, s.step));
                    lemma_one_more_handled(run, i);
                }
            },
            _ => {},
        }
    }
}

/// No entry is left out: an extraction that finished has inspected every entry
/// of the archive, and created and filled the file of each one that is a file
/// with a path within the target directory, and seen to the directory of each
/// one that is a directory. Only entries whose path escapes are skipped.
pub proof fn law_no_entry_is_left_out(
    info: ModelInfo,
    run: Seq<(ExtractModel, ExtractOutcomeView)>,
    i: usize,
)
    requires
        is_extraction(info, run),
        extract_after(info, run).step == ExtractStepView::Finished,
        i < extract_after(info, run).entries,
    ensures
        was_handled(run, i),
{
    lemma_up_to_date(info, run);
}

/// The number of entries is the one that was read from the archive: it does not
/// change once an extraction has come to its entries.
pub proof fn law_entries_are_those_of_the_archive(
    info: ModelInfo,
    run: Seq<(ExtractModel, ExtractOutcomeView)>,
)
    requires
        is_extraction(info, run),
        extract_after(info, run).step == ExtractStepView::Finished,
    ensures
        run.len() >= 2,
        run[1].0.step == ExtractStepView::ReadDirectory,
        run[1].1 == ExtractOutcomeView::Entries(extract_after(info, run).entries),
{
    lemma_entries_as_read(info, run);
}

/// From its entries on, an extraction knows as many as the archive has.
proof fn lemma_entries_as_read(info: ModelInfo, run: Seq<(ExtractModel, ExtractOutcomeView)>)
    requires
        is_extraction(info, run),
    ensures
        match extract_after(info, run).step {
            ExtractStepView::OpenArchive => run.len() == 0,
            ExtractStepView::ReadDirectory => run.len() == 1,
            ExtractStepView::Failed(_) => true,
            _ => run.len() >= 2 && run[1].0.step == ExtractStepView::ReadDirectory && run[1].1
                == ExtractOutcomeView::Entries(extract_after(info, run).entries),
        },
    decreases run.len(),
{
    if run.len() > 0 {
        lemma_extraction_prefix(info, run);
        lemma_entries_as_read(info, run.drop_last());
        assert(run[run.len() - 1] == run.last());
        if run.len() > 2 {
            assert(run.drop_last()[1] == run[1]);
        }
    }
}

/// An entry is left out only where its path escapes; where it does not, a name
/// that ends in `/` is a directory, and any other is a file.
pub proof fn law_entry_is_left_out_only_where_it_escapes(enclosed: bool, name: Seq<char>)
    ensures
        entry_action_for(enclosed, name) == EntryAction::Skip <==> !enclosed,
        entry_action_for(enclosed, name) == EntryAction::CreateDir <==> enclosed && name.len() > 0
            && name[name.len() - 1] == '/',
        entry_action_for(enclosed, name) == EntryAction::WriteFile <==> enclosed && (name.len() == 0
            || name[name.len() - 1] != '/'),
{
}

/// Every file of the archive is unpacked: in an extraction that finished,
/// wherever an entry was found to stay within the target directory and to be
/// no directory, its file was created and filled right away; and wherever it
/// was found to be a directory, that was created.
pub proof fn law_every_enclosed_file_is_unpacked(
    info: ModelInfo,
    run: Seq<(ExtractModel, ExtractOutcomeView)>,
    k: int,
    i: usize,
    name: Seq<char>,
)
    requires
        is_extraction(info, run),
        extract_after(info, run).step == ExtractStepView::Finished,
        0 <= k < run.len(),
        run[k].0.step == ExtractStepView::InspectEntry(i),
        run[k].1 == ExtractOutcomeView::Entry(true, name),
    ensures
        name.len() == 0 || name[name.len() - 1] != '/' ==> {
            &&& k + 2 < run.len()
            &&& run[k + 1].0.step == ExtractStepView::CreateFile(i)
            &&& run[k + 1].1 == ExtractOutcomeView::Done
            &&& run[k + 2].0.step == ExtractStepView::CopyContent(i)
            &&& run[k + 2].1 == ExtractOutcomeView::Done
        },
        name.len() > 0 && name[name.len() - 1] == '/' ==> {
            &&& k + 1 < run.len()
            &&& run[k + 1].0.step == ExtractStepView::CreateDir(i)
        },
{
    let file = name.len() == 0 || name[name.len() - 1] != '/';
    lemma_extraction_step(info, run, k);
    let first = extract_next(run[k].0, run[k].1);
    assert(first.step == (if file {
        ExtractStepView::CreateFile(i)
    } else {
        ExtractStepView::CreateDir(i)
    }));
    if file {
        lemma_extraction_step(info, run, k + 1);
        let second = extract_next(run[k + 1].0, run[k + 1].1);
        assert(second.step == ExtractStepView::CopyContent(i) || second.step is Failed);
        if second.step is Failed {
            lemma_failed_extraction_stays(info, run, k + 1);
        }
        lemma_extraction_step(info, run, k + 2);
        if run[k + 2].1 != ExtractOutcomeView::Done {
            lemma_failed_extraction_stays(info, run, k + 2);
        }
    }
}

/// What a step of a run leads to, and that its outcome is one it can have.
proof fn lemma_extraction_step(
    info: ModelInfo,
    run: Seq<(ExtractModel, ExtractOutcomeView)>,
    k: int,
)
    requires
        is_extraction(info, run),
        0 <= k < run.len(),
    ensures
        extract_answers(run[k].0.step, run[k].1),
        k + 1 < run.len() ==> run[k + 1].0 == extract_next(run[k].0, run[k].1),
        k + 1 == run.len() ==> extract_after(info, run) == extract_next(run[k].0, run[k].1),
{
    if k + 1 < run.len() {
        assert(run[k + 1].0 == extract_next(run[k + 1 - 1].0, run[k + 1 - 1].1));
    }
}

/// Once an extraction failed, the run is over.
proof fn lemma_failed_extraction_stays(
    info: ModelInfo,
    run: Seq<(ExtractModel, ExtractOutcomeView)>,
    k: int,
)
    requires
        is_extraction(info, run),
        0 <= k < run.len(),
        extract_next(run[k].0, run[k].1).step is Failed,
    ensures
        extract_after(info, run).step is Failed,
{
    lemma_extraction_step(info, run, k);
    if k + 1 < run.len() {
        lemma_extraction_step(info, run, k + 1);
    }
}

/// Every entry is looked at: an extraction that finished has inspected each of
/// the entries that the archive was read to have, and read its name.
pub proof fn law_every_entry_is_inspected(
    info: ModelInfo,
    run: Seq<(ExtractModel, ExtractOutcomeView)>,
    n: usize,
    i: usize,
)
    requires
        is_extraction(info, run),
        extract_after(info, run).step == ExtractStepView::Finished,
        run.len() >= 2,
        run[1].1 == ExtractOutcomeView::Entries(n),
        i < n,
    ensures
        exists|k: int|
            0 <= k < run.len() && (#[trigger] run[k]).0.step == ExtractStepView::InspectEntry(i)
                && run[k].1 is Entry,
{
    law_entries_are_those_of_the_archive(info, run);
    law_no_entry_is_left_out(info, run, i);
    let action = if was_inspected(run, i, EntryAction::Skip) {
        EntryAction::Skip
    } else if was_inspected(run, i, EntryAction::CreateDir) {
        EntryAction::CreateDir
    } else {
        EntryAction::WriteFile
    };
    assert(was_inspected(run, i, action));
}

/// An extraction goes from entry to entry and to its end: past the last entry
/// it is finished, and an archive without entries is finished at once.
pub proof fn law_extraction_goes_on(s: ExtractModel, i: usize, n: usize, name: Seq<char>)
    requires
        i < s.entries,
    ensures
        ({
            let next = if i + 1 < s.entries {
                ExtractStepView::InspectEntry((i + 1) as usize)
            } else {
                ExtractStepView::Finished
            };
            &&& extract_next(
                s.at(ExtractStepView::InspectEntry(i)),
                ExtractOutcomeView::Entry(false, name),
            ).step == next
            &&& extract_next(s.at(ExtractStepView::CreateDir(i)), ExtractOutcomeView::Done).step
                == next
            &&& extract_next(s.at(ExtractStepView::CreateFile(i)), ExtractOutcomeView::Done).step
                == ExtractStepView::CopyContent(i)
            &&& extract_next(s.at(ExtractStepView::CopyContent(i)), ExtractOutcomeView::Done).step
                == next
            &&& extract_next(s.at(ExtractStepView::OpenArchive), ExtractOutcomeView::Done).step
                == ExtractStepView::ReadDirectory
            &&& extract_next(
                s.at(ExtractStepView::ReadDirectory),
                ExtractOutcomeView::Entries(n),
            ).step == (if n == 0 {
                ExtractStepView::Finished
            } else {
                ExtractStepView::InspectEntry(0)
            })
            &&& extract_next(
                s.at(ExtractStepView::ReadDirectory),
                ExtractOutcomeView::Entries(n),
            ).entries == n
        }),
{
}

/// Whatever breaks an extraction is told, with what was being done. A directory
/// that cannot be created does not break it.
pub proof fn law_broken_extraction_tells_why(s: ExtractModel, i: usize, reason: Seq<char>)
    ensures
        extract_next(s.at(ExtractStepView::OpenArchive), ExtractOutcomeView::Broken(reason)).step
            == ExtractStepView::Failed("Failed to open archive: "@ + reason),
        extract_next(s.at(ExtractStepView::ReadDirectory), ExtractOutcomeView::Broken(reason)).step
            == ExtractStepView::Failed("Failed to open zip: "@ + reason),
        extract_next(
            s.at(ExtractStepView::InspectEntry(i)),
            ExtractOutcomeView::Broken(reason),
        ).step == ExtractStepView::Failed("Failed to read zip entry: "@ + reason),
        extract_next(s.at(ExtractStepView::CreateFile(i)), ExtractOutcomeView::Broken(reason)).step
            == ExtractStepView::Failed("Failed to create file: "@ + reason),
        extract_next(s.at(ExtractStepView::CopyContent(i)), ExtractOutcomeView::Broken(reason)).step
            == ExtractStepView::Failed("Failed to extract file: "@ + reason),
        extract_next(s.at(ExtractStepView::CreateDir(i)), ExtractOutcomeView::Broken(reason))
            == extract_next(s.at(ExtractStepView::CreateDir(i)), ExtractOutcomeView::Done),
{
}

/// An entry that is unpacked is counted: progress is reported exactly when the
/// percentage of the entries up to this one is above what was reported.
pub proof fn law_unpacked_entry_is_reported(s: ExtractModel, i: usize)
    requires
        s.wf(),
        i < s.entries,
        s.step == ExtractStepView::CopyContent(i) || s.step == ExtractStepView::CreateDir(i),
    ensures
        ({
            let next = extract_next(s, ExtractOutcomeView::Done);
            let percent = extract_percent(i + 1, s.entries as int);
            &&& next.reported == (if percent > s.reported {
                percent
            } else {
                s.reported as int
            })
            &&& extract_report(s, next) == (if percent > s.reported {
                Some(
                    DownloadProgressView {
                        status: "extracting"@,
                        model: s.info.name,
                        progress: percent as u8,
                    },
                )
            } else {
                None
            })
        }),
{
    law_extract_progress_stays_in_its_span(i + 1, i + 1, s.entries as int);
}

/// The percentage of an extraction is 50, and the part of 49 that is unpacked,
/// rounded down, as far as double precision can tell.
pub proof fn law_extract_percent_is_its_part(done: int, total: int)
    requires
        0 < done,
        0 < total <= u64::MAX,
    ensures
        (extract_percent(done, total) - 50) * total * 9_007_199_254_740_992
            <= 9_007_199_254_740_998 * (49 * done),
        9_007_199_254_740_986 * (49 * done) < (extract_percent(done, total) - 49) * total
            * 9_007_199_254_740_992,
        extract_percent(0, total) == 50,
{
    law_share_is_nearly_exact(done as nat, total as nat, 49);
    law_share_grows_to_its_factor(0, 0, total as nat, 49);
}

/// The views of an extraction's steps and of what came of them tell what they
/// hold, as it is.
pub proof fn law_extract_steps_are_told_as_they_are(text: String, n: usize, enclosed: bool)
    ensures
        ExtractStep::OpenArchive@ == ExtractStepView::OpenArchive,
        ExtractStep::ReadDirectory@ == ExtractStepView::ReadDirectory,
        ExtractStep::InspectEntry(n)@ == ExtractStepView::InspectEntry(n),
        ExtractStep::CreateDir(n)@ == ExtractStepView::CreateDir(n),
        ExtractStep::CreateFile(n)@ == ExtractStepView::CreateFile(n),
        ExtractStep::CopyContent(n)@ == ExtractStepView::CopyContent(n),
        ExtractStep::Finished@ == ExtractStepView::Finished,
        ExtractStep::Failed(text)@ == ExtractStepView::Failed(text@),
        ExtractOutcome::Done@ == ExtractOutcomeView::Done,
        ExtractOutcome::Broken(text)@ == ExtractOutcomeView::Broken(text@),
        ExtractOutcome::Entries(n)@ == ExtractOutcomeView::Entries(n),
        ExtractOutcome::Entry(enclosed, text)@ == ExtractOutcomeView::Entry(enclosed, text@),
{
}

} // verus!
