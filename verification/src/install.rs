//! Installing a model: download, checksum, extraction and the marker that
//! makes it count as installed, as a sequence of steps.
//!
//! An [`Installer`] says which step comes next; whoever drives it performs
//! that step on the file system or the network and hands back the
//! [`Outcome`].

use vstd::prelude::*;
use vstd::string::*;

use crate::catalog::{
    catalog, is_hex_digit, law_archives_are_pinned, marker_complete, model_is_complete, ModelInfo,
    ModelSpec,
};
use crate::download::{
    download_percent, law_download_progress_grows_to_its_share, DOWNLOAD_PROGRESS_SHARE,
};
use crate::error::{Error, ErrorView};
use crate::extract::{
    extract_percent, law_extract_progress_stays_in_its_span, EXTRACT_PROGRESS_START,
};
use crate::models::{opt_text, DownloadProgress, DownloadProgressView};
use crate::text::{
    are_cases_of_a_letter, decimal, decimal_of, eq_ignore_ascii_case, is_white_space,
    law_agreement_up_to_case, same_ignoring_case, text_views, trimmed,
};

verus! {

/// Where a freshly extracted archive keeps the model.
#[derive(Debug, Clone, PartialEq, Eq)]
pub enum ModelRoot {
    /// In the top-level directory named after the model.
    Named,
    /// In its only top-level directory, under another name.
    Only(String),
    /// At the root of the archive.
    ArchiveRoot,
}

/// A [`ModelRoot`] with its name as a sequence of characters.
pub enum ModelRootView {
    Named,
    Only(Seq<char>),
    ArchiveRoot,
}

impl View for ModelRoot {
    type V = ModelRootView;

    open spec fn view(&self) -> ModelRootView {
        match self {
            ModelRoot::Named => ModelRootView::Named,
            ModelRoot::Only(dir) => ModelRootView::Only(dir@),
            ModelRoot::ArchiveRoot => ModelRootView::ArchiveRoot,
        }
    }
}

/// Where the model is, given whether the directory named after it exists and
/// which top-level directories there are: the named one, else the only one,
/// else the root where there is none.
pub open spec fn root_for(
    named: bool,
    dirs: Seq<Seq<char>>,
    model_name: Seq<char>,
) -> Result<ModelRootView, ErrorView> {
    if named {
        Ok(ModelRootView::Named)
    } else if dirs.len() == 1 {
        Ok(ModelRootView::Only(dirs[0]))
    } else if dirs.len() == 0 {
        Ok(ModelRootView::ArchiveRoot)
    } else {
        Err(
            ErrorView::Recording(
                "Archive for '"@ + model_name + "' has an unexpected layout ("@ + decimal(
                    dirs.len(),
                ) + " top-level directories)"@,
            ),
        )
    }
}

/// Finds the model directory inside a freshly extracted archive. Vosk archives
/// carry a single top-level directory named after the model.
pub fn locate_model_root(named: bool, dirs: &Vec<String>, model_name: &str) -> (root: Result<
    ModelRoot,
    Error,
>)
    ensures
        match root {
            Ok(r) => root_for(named, text_views(dirs@), model_name@) == Ok::<
                ModelRootView,
                ErrorView,
            >(r@),
            Err(e) => root_for(named, text_views(dirs@), model_name@) == Err::<
                ModelRootView,
                ErrorView,
            >(e@),
        },
{
    if named {
        Ok(ModelRoot::Named)
    } else if dirs.len() == 1 {
        Ok(ModelRoot::Only(dirs[0].clone()))
    } else if dirs.len() == 0 {
        Ok(ModelRoot::ArchiveRoot)
    } else {
        let mut message = String::from_str("Archive for '");
        message.append(model_name);
        message.append("' has an unexpected layout (");
        message.append(decimal_of(dirs.len() as u64).as_str());
        message.append(" top-level directories)");
        Err(Error::Recording(message))
    }
}

/// A step of an installation.
#[derive(Debug, Clone, PartialEq, Eq)]
pub enum InstallStep {
    /// Create the directory that holds the models.
    CreateModelsDir,
    /// Read the marker in the model's directory, if there is one.
    ReadMarker,
    /// See whether the model's directory exists.
    ProbeModelDir,
    /// Remove the model's directory: it is left over from an interrupted
    /// install and may be missing files.
    RemoveModelDir,
    /// Create the staging directory.
    CreateStagingDir,
    /// Download the archive into the staging directory.
    FetchArchive,
    /// Take the MD5 of the archive.
    HashArchive,
    /// Remove the archive, whose MD5 is not the published one.
    DiscardArchive(String),
    /// Remove what an earlier extraction left behind.
    ClearExtractDir,
    /// Create the extraction directory.
    CreateExtractDir,
    /// Unpack the archive into the extraction directory.
    ExtractArchive,
    /// List the top level of what was unpacked.
    LocateRoot,
    /// Move the unpacked model to its own name.
    MoveIntoPlace(ModelRoot),
    /// Write the marker with the model's MD5 into its directory.
    WriteMarker,
    /// Remove the archive.
    RemoveArchive,
    /// Remove the extraction directory.
    RemoveExtractDir,
    /// The model was installed just now.
    Installed,
    /// The model was installed before.
    AlreadyInstalled,
    /// The installation failed.
    Failed(Error),
}

/// An [`InstallStep`] over the views of its contents.
pub enum InstallStepView {
    CreateModelsDir,
    ReadMarker,
    ProbeModelDir,
    RemoveModelDir,
    CreateStagingDir,
    FetchArchive,
    HashArchive,
    DiscardArchive(Seq<char>),
    ClearExtractDir,
    CreateExtractDir,
    ExtractArchive,
    LocateRoot,
    MoveIntoPlace(ModelRootView),
    WriteMarker,
    RemoveArchive,
    RemoveExtractDir,
    Installed,
    AlreadyInstalled,
    Failed(ErrorView),
}

impl View for InstallStep {
    type V = InstallStepView;

    open spec fn view(&self) -> InstallStepView {
        match self {
            InstallStep::CreateModelsDir => InstallStepView::CreateModelsDir,
            InstallStep::ReadMarker => InstallStepView::ReadMarker,
            InstallStep::ProbeModelDir => InstallStepView::ProbeModelDir,
            InstallStep::RemoveModelDir => InstallStepView::RemoveModelDir,
            InstallStep::CreateStagingDir => InstallStepView::CreateStagingDir,
            InstallStep::FetchArchive => InstallStepView::FetchArchive,
            InstallStep::HashArchive => InstallStepView::HashArchive,
            InstallStep::DiscardArchive(actual) => InstallStepView::DiscardArchive(actual@),
            InstallStep::ClearExtractDir => InstallStepView::ClearExtractDir,
            InstallStep::CreateExtractDir => InstallStepView::CreateExtractDir,
            InstallStep::ExtractArchive => InstallStepView::ExtractArchive,
            InstallStep::LocateRoot => InstallStepView::LocateRoot,
            InstallStep::MoveIntoPlace(root) => InstallStepView::MoveIntoPlace(root@),
            InstallStep::WriteMarker => InstallStepView::WriteMarker,
            InstallStep::RemoveArchive => InstallStepView::RemoveArchive,
            InstallStep::RemoveExtractDir => InstallStepView::RemoveExtractDir,
            InstallStep::Installed => InstallStepView::Installed,
            InstallStep::AlreadyInstalled => InstallStepView::AlreadyInstalled,
            InstallStep::Failed(e) => InstallStepView::Failed(e@),
        }
    }
}

/// What came of a step.
#[derive(Debug, Clone, PartialEq, Eq)]
pub enum Outcome {
    /// It was done.
    Done,
    /// It failed, for this reason.
    Broken(String),
    /// The content of the marker, if there is one.
    Marker(Option<String>),
    /// Whether the directory exists.
    Exists(bool),
    /// The MD5 of the archive, in hexadecimal.
    Digest(String),
    /// Whether the directory named after the model exists at the top level,
    /// and if not, which directories do.
    Layout(bool, Vec<String>),
}

/// An [`Outcome`] over the views of its contents.
pub enum OutcomeView {
    Done,
    Broken(Seq<char>),
    Marker(Option<Seq<char>>),
    Exists(bool),
    Digest(Seq<char>),
    Layout(bool, Seq<Seq<char>>),
}

impl View for Outcome {
    type V = OutcomeView;

    open spec fn view(&self) -> OutcomeView {
        match self {
            Outcome::Done => OutcomeView::Done,
            Outcome::Broken(reason) => OutcomeView::Broken(reason@),
            Outcome::Marker(recorded) => OutcomeView::Marker(opt_text(*recorded)),
            Outcome::Exists(exists) => OutcomeView::Exists(*exists),
            Outcome::Digest(actual) => OutcomeView::Digest(actual@),
            Outcome::Layout(named, dirs) => OutcomeView::Layout(*named, text_views(dirs@)),
        }
    }
}

/// Whether an outcome is one that the step can have. The last steps have none.
pub open spec fn answers(step: InstallStepView, outcome: OutcomeView) -> bool {
    match step {
        InstallStepView::ReadMarker => outcome is Marker,
        InstallStepView::ProbeModelDir => outcome is Exists,
        InstallStepView::HashArchive => outcome is Digest || outcome is Broken,
        InstallStepView::LocateRoot => outcome is Layout || outcome is Broken,
        InstallStepView::Installed => false,
        InstallStepView::AlreadyInstalled => false,
        InstallStepView::Failed(_) => false,
        _ => outcome is Done || outcome is Broken,
    }
}

/// The step after a step that can fail: `next` when it was done, else the
/// failure, described by `what`.
pub open spec fn unless_broken(
    outcome: OutcomeView,
    what: Seq<char>,
    next: InstallStepView,
) -> InstallStepView {
    match outcome {
        OutcomeView::Broken(reason) => InstallStepView::Failed(ErrorView::Recording(what + reason)),
        _ => next,
    }
}

/// The message for an archive whose MD5 is not the published one.
pub open spec fn mismatch_message(info: ModelInfo, actual: Seq<char>) -> Seq<char> {
    "Checksum mismatch for '"@ + info.name + "': expected "@ + info.md5 + ", got "@ + actual
        + ". Archive discarded, please retry."@
}

/// The step that follows `step` when it had `outcome`.
pub open spec fn next_step(
    info: ModelInfo,
    step: InstallStepView,
    outcome: OutcomeView,
) -> InstallStepView {
    match step {
        InstallStepView::CreateModelsDir => unless_broken(
            outcome,
            "Failed to create models directory: "@,
            InstallStepView::ReadMarker,
        ),
        InstallStepView::ReadMarker => if outcome matches OutcomeView::Marker(recorded)
            && marker_complete(recorded, info.md5) {
            InstallStepView::AlreadyInstalled
        } else {
            InstallStepView::ProbeModelDir
        },
        InstallStepView::ProbeModelDir => if outcome == OutcomeView::Exists(true) {
            InstallStepView::RemoveModelDir
        } else {
            InstallStepView::CreateStagingDir
        },
        InstallStepView::RemoveModelDir => unless_broken(
            outcome,
            "Failed to remove incomplete model: "@,
            InstallStepView::CreateStagingDir,
        ),
        InstallStepView::CreateStagingDir => unless_broken(
            outcome,
            "Failed to create staging directory: "@,
            InstallStepView::FetchArchive,
        ),
        InstallStepView::FetchArchive => unless_broken(outcome, ""@, InstallStepView::HashArchive),
        InstallStepView::HashArchive => match outcome {
            OutcomeView::Digest(actual) => if same_ignoring_case(actual, info.md5) {
                InstallStepView::ClearExtractDir
            } else {
                InstallStepView::DiscardArchive(actual)
            },
            _ => unless_broken(
                outcome,
                "Failed to read downloaded archive: "@,
                InstallStepView::ClearExtractDir,
            ),
        },
        InstallStepView::DiscardArchive(actual) => InstallStepView::Failed(
            ErrorView::Recording(mismatch_message(info, actual)),
        ),
        InstallStepView::ClearExtractDir => InstallStepView::CreateExtractDir,
        InstallStepView::CreateExtractDir => unless_broken(
            outcome,
            "Failed to create extraction directory: "@,
            InstallStepView::ExtractArchive,
        ),
        InstallStepView::ExtractArchive => unless_broken(
            outcome,
            ""@,
            InstallStepView::LocateRoot,
        ),
        InstallStepView::LocateRoot => match outcome {
            OutcomeView::Layout(named, dirs) => match root_for(named, dirs, info.name) {
                Ok(root) => InstallStepView::MoveIntoPlace(root),
                Err(e) => InstallStepView::Failed(e),
            },
            _ => unless_broken(
                outcome,
                "Failed to read extracted archive: "@,
                InstallStepView::LocateRoot,
            ),
        },
        InstallStepView::MoveIntoPlace(_) => unless_broken(
            outcome,
            "Failed to move model into place: "@,
            InstallStepView::WriteMarker,
        ),
        InstallStepView::WriteMarker => unless_broken(
            outcome,
            "Failed to write model marker: "@,
            InstallStepView::RemoveArchive,
        ),
        InstallStepView::RemoveArchive => InstallStepView::RemoveExtractDir,
        InstallStepView::RemoveExtractDir => InstallStepView::Installed,
        InstallStepView::Installed => step,
        InstallStepView::AlreadyInstalled => step,
        InstallStepView::Failed(_) => step,
    }
}

/// What to report when a step is reached, before it is performed.
pub open spec fn progress_at(info: ModelInfo, step: InstallStepView) -> Option<
    DownloadProgressView,
> {
    match step {
        InstallStepView::HashArchive => Some(
            DownloadProgressView {
                status: "verifying"@,
                model: info.name,
                progress: DOWNLOAD_PROGRESS_SHARE,
            },
        ),
        InstallStepView::ClearExtractDir => Some(
            DownloadProgressView {
                status: "extracting"@,
                model: info.name,
                progress: EXTRACT_PROGRESS_START,
            },
        ),
        InstallStepView::Installed => Some(
            DownloadProgressView { status: "complete"@, model: info.name, progress: 100 },
        ),
        _ => None,
    }
}

/// The step after a step that can fail.
fn step_unless_broken(outcome: Outcome, what: &str, next: InstallStep) -> (step: InstallStep)
    ensures
        step@ == unless_broken(outcome@, what@, next@),
{
    match outcome {
        Outcome::Broken(reason) => {
            let mut message = String::from_str(what);
            message.append(reason.as_str());
            InstallStep::Failed(Error::Recording(message))
        },
        _ => next,
    }
}

/// The installation of one model.
#[derive(Debug, Clone)]
pub struct Installer {
    spec: ModelSpec,
    step: InstallStep,
}

impl Installer {
    /// The model being installed.
    pub closed spec fn model(&self) -> ModelInfo {
        self.spec@
    }

    /// The step to perform.
    pub closed spec fn at(&self) -> InstallStepView {
        self.step@
    }

    /// The installation of `spec`, before its first step.
    pub fn new(spec: ModelSpec) -> (installer: Installer)
        ensures
            installer.model() == spec@,
            installer.at() == InstallStepView::CreateModelsDir,
    {
        Installer { spec, step: InstallStep::CreateModelsDir }
    }

    /// The step to perform now.
    pub fn step(&self) -> (step: &InstallStep)
        ensures
            step@ == self.at(),
    {
        &self.step
    }

    /// Takes the outcome of the step and moves on to the next. Returns the
    /// progress to report, if any, before that one is performed.
    pub fn advance(&mut self, outcome: Outcome) -> (report: Option<DownloadProgress>)
        requires
            answers(old(self).at(), outcome@),
        ensures
            final(self).model() == old(self).model(),
            final(self).at() == next_step(old(self).model(), old(self).at(), outcome@),
            match report {
                Some(progress) => progress_at(old(self).model(), final(self).at()) == Some(
                    progress@,
                ),
                None => progress_at(old(self).model(), final(self).at()) is None,
            },
    {
        let next = match &self.step {
            InstallStep::CreateModelsDir => step_unless_broken(
                outcome,
                "Failed to create models directory: ",
                InstallStep::ReadMarker,
            ),
            InstallStep::ReadMarker => match outcome {
                Outcome::Marker(recorded) => if model_is_complete(&recorded, self.spec.md5) {
                    InstallStep::AlreadyInstalled
                } else {
                    InstallStep::ProbeModelDir
                },
                _ => InstallStep::ProbeModelDir,
            },
            InstallStep::ProbeModelDir => match outcome {
                Outcome::Exists(true) => InstallStep::RemoveModelDir,
                _ => InstallStep::CreateStagingDir,
            },
            InstallStep::RemoveModelDir => step_unless_broken(
                outcome,
                "Failed to remove incomplete model: ",
                InstallStep::CreateStagingDir,
            ),
            InstallStep::CreateStagingDir => step_unless_broken(
                outcome,
                "Failed to create staging directory: ",
                InstallStep::FetchArchive,
            ),
            InstallStep::FetchArchive => step_unless_broken(outcome, "", InstallStep::HashArchive),
            InstallStep::HashArchive => match outcome {
                Outcome::Digest(actual) => if eq_ignore_ascii_case(
                    actual.as_str(),
                    self.spec.md5,
                ) {
                    InstallStep::ClearExtractDir
                } else {
                    InstallStep::DiscardArchive(actual)
                },
                _ => step_unless_broken(
                    outcome,
                    "Failed to read downloaded archive: ",
                    InstallStep::ClearExtractDir,
                ),
            },
            InstallStep::DiscardArchive(actual) => {
                let mut message = String::from_str("Checksum mismatch for '");
                message.append(self.spec.name);
                message.append("': expected ");
                message.append(self.spec.md5);
                message.append(", got ");
                message.append(actual.as_str());
                message.append(". Archive discarded, please retry.");
                InstallStep::Failed(Error::Recording(message))
            },
            InstallStep::ClearExtractDir => InstallStep::CreateExtractDir,
            InstallStep::CreateExtractDir => step_unless_broken(
                outcome,
                "Failed to create extraction directory: ",
                InstallStep::ExtractArchive,
            ),
            InstallStep::ExtractArchive => step_unless_broken(
                outcome,
                "",
                InstallStep::LocateRoot,
            ),
            InstallStep::LocateRoot => match outcome {
                Outcome::Layout(named, dirs) => match locate_model_root(
                    named,
                    &dirs,
                    self.spec.name,
                ) {
                    Ok(root) => InstallStep::MoveIntoPlace(root),
                    Err(e) => InstallStep::Failed(e),
                },
                _ => step_unless_broken(
                    outcome,
                    "Failed to read extracted archive: ",
                    InstallStep::LocateRoot,
                ),
            },
            InstallStep::MoveIntoPlace(_) => step_unless_broken(
                outcome,
                "Failed to move model into place: ",
                InstallStep::WriteMarker,
            ),
            InstallStep::WriteMarker => step_unless_broken(
                outcome,
                "Failed to write model marker: ",
                InstallStep::RemoveArchive,
            ),
            InstallStep::RemoveArchive => InstallStep::RemoveExtractDir,
            InstallStep::RemoveExtractDir => InstallStep::Installed,
            InstallStep::Installed => InstallStep::Installed,
            InstallStep::AlreadyInstalled => InstallStep::AlreadyInstalled,
            InstallStep::Failed(_) => return None,
        };
        self.step = next;
        match &self.step {
            InstallStep::HashArchive => Some(
                DownloadProgress {
                    status: "verifying",
                    model: self.spec.name,
                    progress: DOWNLOAD_PROGRESS_SHARE,
                },
            ),
            InstallStep::ClearExtractDir => Some(
                DownloadProgress {
                    status: "extracting",
                    model: self.spec.name,
                    progress: EXTRACT_PROGRESS_START,
                },
            ),
            InstallStep::Installed => Some(
                DownloadProgress { status: "complete", model: self.spec.name, progress: 100 },
            ),
            _ => None,
        }
    }
}

/// The percentages of the phases follow each other: what is reported while
/// downloading never exceeds what is reported when verifying begins, which
/// lies below everything reported while extracting, which lies below the end.
pub proof fn law_progress_never_falls_back(
    info: ModelInfo,
    written: int,
    size: int,
    done: int,
    total: int,
)
    requires
        0 <= written <= size,
        0 < size,
        0 <= done <= total,
        0 < total,
    ensures
        progress_at(info, InstallStepView::HashArchive) matches Some(verifying) && progress_at(
            info,
            InstallStepView::ClearExtractDir,
        ) matches Some(extracting) && progress_at(info, InstallStepView::Installed) matches Some(
            complete,
        ) && {
            &&& download_percent(written, size) <= verifying.progress
            &&& verifying.progress < extracting.progress
            &&& extracting.progress <= extract_percent(done, total) < complete.progress
        },
{
    law_download_progress_grows_to_its_share(written, written, size);
    law_extract_progress_stays_in_its_span(done, done, total);
}

/// A sequence of steps with their outcomes, from the first step on, that an
/// installation can go through.
pub open spec fn is_run(info: ModelInfo, run: Seq<(InstallStepView, OutcomeView)>) -> bool {
    &&& run.len() > 0 ==> run[0].0 == InstallStepView::CreateModelsDir
    &&& forall|i: int| 0 <= i < run.len() ==> answers(#[trigger] run[i].0, run[i].1)
    &&& forall|i: int|
        0 < i < run.len() ==> #[trigger] run[i].0 == next_step(info, run[i - 1].0, run[i - 1].1)
}

/// The step an installation is at after a run.
pub open spec fn step_after(
    info: ModelInfo,
    run: Seq<(InstallStepView, OutcomeView)>,
) -> InstallStepView {
    if run.len() == 0 {
        InstallStepView::CreateModelsDir
    } else {
        next_step(info, run.last().0, run.last().1)
    }
}

/// Whether the archive was found to have the published MD5, then unpacked in
/// full, within the first `n` steps of a run.
pub open spec fn verified_and_unpacked(
    info: ModelInfo,
    run: Seq<(InstallStepView, OutcomeView)>,
    n: int,
) -> bool {
    exists|h: int, x: int|
        #![trigger run[h], run[x]]
        {
            &&& 0 <= h < x < n
            &&& run[h].0 == InstallStepView::HashArchive
            &&& run[h].1 matches OutcomeView::Digest(actual) && same_ignoring_case(actual, info.md5)
            &&& run[x].0 == InstallStepView::ExtractArchive
            &&& run[x].1 == OutcomeView::Done
        }
}

/// Nothing lands under the model's own name until the archive matched its
/// published MD5 and was fully unpacked: whenever a run is about to move the
/// model into place or to write its marker, both have happened before; and
/// the marker is written only once the model was moved.
pub proof fn law_nothing_is_placed_unverified(
    info: ModelInfo,
    run: Seq<(InstallStepView, OutcomeView)>,
)
    requires
        is_run(info, run),
    ensures
        step_after(info, run) is MoveIntoPlace ==> verified_and_unpacked(
            info,
            run,
            run.len() as int,
        ),
        step_after(info, run) == InstallStepView::WriteMarker ==> {
            &&& verified_and_unpacked(info, run, run.len() as int)
            &&& run.last().0 is MoveIntoPlace
            &&& run.last().1 == OutcomeView::Done
        },
    decreases run.len(),
{
    let n = run.len() as int;
    if step_after(info, run) == InstallStepView::WriteMarker {
        assert(answers(run[n - 1].0, run[n - 1].1));
        let before = run.drop_last();
        lemma_run_prefix(info, run);
        law_nothing_is_placed_unverified(info, before);
        lemma_verified_in_longer_run(info, run, n - 1, n);
    } else if step_after(info, run) is MoveIntoPlace {
        // Hash, clear, create, extract and locate are the last five steps.
        assert(answers(run[n - 1].0, run[n - 1].1));
        assert(run[n - 1].0 == InstallStepView::LocateRoot);
        assert(answers(run[n - 2].0, run[n - 2].1));
        assert(run[n - 2].0 == InstallStepView::ExtractArchive);
        assert(answers(run[n - 3].0, run[n - 3].1));
        assert(run[n - 3].0 == InstallStepView::CreateExtractDir);
        assert(answers(run[n - 4].0, run[n - 4].1));
        assert(run[n - 4].0 == InstallStepView::ClearExtractDir);
        assert(answers(run[n - 5].0, run[n - 5].1));
        assert(run[n - 5].0 == InstallStepView::HashArchive);
    }
}

/// What a run verified, a longer run verified too.
proof fn lemma_verified_in_longer_run(
    info: ModelInfo,
    run: Seq<(InstallStepView, OutcomeView)>,
    n: int,
    m: int,
)
    requires
        n < run.len(),
        n <= m,
        verified_and_unpacked(info, run.drop_last(), n),
    ensures
        verified_and_unpacked(info, run, m),
{
    let before = run.drop_last();
    let (h, x) = choose|h: int, x: int|
        #![trigger before[h], before[x]]
        {
            &&& 0 <= h < x < n
            &&& before[h].0 == InstallStepView::HashArchive
            &&& before[h].1 matches OutcomeView::Digest(actual) && same_ignoring_case(
                actual,
                info.md5,
            )
            &&& before[x].0 == InstallStepView::ExtractArchive
            &&& before[x].1 == OutcomeView::Done
        };
    assert(run[h] == before[h] && run[x] == before[x]);
}

/// A run without its last step is a run, and the last step is where it leads.
proof fn lemma_run_prefix(info: ModelInfo, run: Seq<(InstallStepView, OutcomeView)>)
    requires
        is_run(info, run),
        run.len() > 0,
    ensures
        is_run(info, run.drop_last()),
        step_after(info, run.drop_last()) == run.last().0,
{
    let before = run.drop_last();
    assert forall|i: int| 0 <= i < before.len() implies answers(#[trigger] before[i].0, before[i].1)
    by {
        assert(before[i] == run[i]);
    }
    assert forall|i: int| 0 < i < before.len() implies #[trigger] before[i].0 == next_step(
        info,
        before[i - 1].0,
        before[i - 1].1,
    ) by {
        assert(before[i] == run[i] && before[i - 1] == run[i - 1]);
        assert(run[i].0 == next_step(info, run[i - 1].0, run[i - 1].1));
    }
    if before.len() > 0 {
        assert(run[run.len() - 1].0 == next_step(
            info,
            run[run.len() - 2].0,
            run[run.len() - 2].1,
        ));
    }
}

/// A bad archive is thrown away and never installed: when the MD5 differs, the
/// next step discards the archive and the one after reports the mismatch.
pub proof fn law_bad_archive_is_discarded(
    info: ModelInfo,
    actual: Seq<char>,
    discarding: OutcomeView,
)
    requires
        !same_ignoring_case(actual, info.md5),
    ensures
        next_step(info, InstallStepView::HashArchive, OutcomeView::Digest(actual))
            == InstallStepView::DiscardArchive(actual),
        next_step(info, InstallStepView::DiscardArchive(actual), discarding)
            == InstallStepView::Failed(ErrorView::Recording(mismatch_message(info, actual))),
{
}

/// The content of the model's marker after a run, when it was `marker` before:
/// removing the directory removes it, what is moved into place has none, and
/// only the step that writes it puts the model's MD5 there.
pub open spec fn marker_after(
    info: ModelInfo,
    marker: Option<Seq<char>>,
    run: Seq<(InstallStepView, OutcomeView)>,
) -> Option<Seq<char>>
    decreases run.len(),
{
    if run.len() == 0 {
        marker
    } else {
        let before = marker_after(info, marker, run.drop_last());
        match run.last() {
            (InstallStepView::RemoveModelDir, OutcomeView::Done) => None,
            (InstallStepView::MoveIntoPlace(_), OutcomeView::Done) => None,
            (InstallStepView::WriteMarker, OutcomeView::Done) => Some(info.md5),
            _ => before,
        }
    }
}

/// Whether a run read the marker that was there.
pub open spec fn reads_marker(
    marker: Option<Seq<char>>,
    run: Seq<(InstallStepView, OutcomeView)>,
) -> bool {
    forall|i: int|
        0 <= i < run.len() && (#[trigger] run[i]).0 == InstallStepView::ReadMarker ==> run[i].1
            == OutcomeView::Marker(marker)
}

/// An interrupted install is never mistaken for a usable model: wherever a run
/// stops, the model counts as installed only if it did before or if the run
/// verified, unpacked and placed it and then wrote the marker.
pub proof fn law_interrupted_install_does_not_count(
    info: ModelInfo,
    marker: Option<Seq<char>>,
    run: Seq<(InstallStepView, OutcomeView)>,
)
    requires
        is_run(info, run),
        marker_complete(marker_after(info, marker, run), info.md5),
    ensures
        marker_complete(marker, info.md5) || exists|w: int|
            0 <= w < run.len() && (#[trigger] run[w]) == (
                InstallStepView::WriteMarker,
                OutcomeView::Done,
            ) && verified_and_unpacked(info, run, w),
    decreases run.len(),
{
    if run.len() > 0 {
        let before = run.drop_last();
        let n = run.len() as int;
        lemma_run_prefix(info, run);
        if run.last() == (InstallStepView::WriteMarker, OutcomeView::Done) {
            law_nothing_is_placed_unverified(info, before);
            assert(run[n - 1] == run.last());
            lemma_verified_in_longer_run(info, run, n - 1, n - 1);
        } else {
            law_interrupted_install_does_not_count(info, marker, before);
            if !marker_complete(marker, info.md5) {
                let w = choose|w: int|
                    0 <= w < before.len() && (#[trigger] before[w]) == (
                        InstallStepView::WriteMarker,
                        OutcomeView::Done,
                    ) && verified_and_unpacked(info, before, w);
                assert(run[w] == before[w]);
                lemma_verified_in_longer_run(info, run, w, w);
            }
        }
    }
}

/// Every run ends in success only with a complete marker: where the last step
/// says that the model is installed, its marker makes it count as such. The
/// marker that was read is the one that was there.
pub proof fn law_success_leaves_complete_marker(
    info: ModelInfo,
    marker: Option<Seq<char>>,
    run: Seq<(InstallStepView, OutcomeView)>,
)
    requires
        is_run(info, run),
        reads_marker(marker, run),
        marker_complete(Some(info.md5), info.md5),
        step_after(info, run) == InstallStepView::Installed || step_after(info, run)
            == InstallStepView::AlreadyInstalled,
    ensures
        marker_complete(marker_after(info, marker, run), info.md5),
{
    let n = run.len() as int;
    assert(answers(run[n - 1].0, run[n - 1].1));
    let r1 = run.drop_last();
    lemma_run_prefix(info, run);
    if step_after(info, run) == InstallStepView::AlreadyInstalled {
        assert(run[n - 1].0 == InstallStepView::ReadMarker);
        assert(answers(run[n - 2].0, run[n - 2].1));
        assert(run[n - 2].0 == InstallStepView::CreateModelsDir);
        lemma_first_step_comes_once(info, run, n - 2);
        reveal_with_fuel(marker_after, 3);
        assert(r1.drop_last().len() == 0);
        assert(r1.last() == run[n - 2]);
    } else {
        assert(run[n - 1].0 == InstallStepView::RemoveExtractDir);
        assert(answers(run[n - 2].0, run[n - 2].1));
        assert(run[n - 2].0 == InstallStepView::RemoveArchive);
        assert(answers(run[n - 3].0, run[n - 3].1));
        assert(run[n - 3] == (InstallStepView::WriteMarker, OutcomeView::Done));
        reveal_with_fuel(marker_after, 4);
        let r2 = r1.drop_last();
        assert(r1.last() == run[n - 2]);
        assert(r2.last() == run[n - 3]);
    }
}

/// The first step of an installation is never come back to.
proof fn lemma_first_step_comes_once(
    info: ModelInfo,
    run: Seq<(InstallStepView, OutcomeView)>,
    i: int,
)
    requires
        is_run(info, run),
        0 <= i < run.len(),
        run[i].0 == InstallStepView::CreateModelsDir,
    ensures
        i == 0,
{
    if i > 0 {
        assert(answers(run[i - 1].0, run[i - 1].1));
        assert(run[i].0 == next_step(info, run[i - 1].0, run[i - 1].1));
    }
}

/// A model that is installed is left alone: a run that finds its marker goes no
/// further. It fetches nothing, reports no progress and changes no marker.
pub proof fn law_installed_model_is_left_alone(
    info: ModelInfo,
    marker: Option<Seq<char>>,
    run: Seq<(InstallStepView, OutcomeView)>,
)
    requires
        is_run(info, run),
        reads_marker(marker, run),
        marker_complete(marker, info.md5),
    ensures
        forall|i: int|
            0 <= i < run.len() ==> (#[trigger] run[i]).0 == InstallStepView::CreateModelsDir
                || run[i].0 == InstallStepView::ReadMarker,
        forall|i: int| 0 <= i < run.len() ==> progress_at(info, (#[trigger] run[i]).0) is None,
        progress_at(info, step_after(info, run)) is None,
        step_after(info, run) != InstallStepView::Installed,
        marker_after(info, marker, run) == marker,
{
    lemma_run_on_installed(info, marker, run);
}

/// Where a run on an installed model can be, and that the marker stays.
proof fn lemma_run_on_installed(
    info: ModelInfo,
    marker: Option<Seq<char>>,
    run: Seq<(InstallStepView, OutcomeView)>,
)
    requires
        is_run(info, run),
        reads_marker(marker, run),
        marker_complete(marker, info.md5),
    ensures
        forall|i: int|
            0 <= i < run.len() ==> (#[trigger] run[i]).0 == InstallStepView::CreateModelsDir
                || run[i].0 == InstallStepView::ReadMarker,
        match step_after(info, run) {
            InstallStepView::CreateModelsDir => true,
            InstallStepView::ReadMarker => true,
            InstallStepView::AlreadyInstalled => true,
            InstallStepView::Failed(_) => true,
            _ => false,
        },
        marker_after(info, marker, run) == marker,
    decreases run.len(),
{
    if run.len() > 0 {
        let before = run.drop_last();
        lemma_run_prefix(info, run);
        assert forall|i: int|
            0 <= i < before.len() && (#[trigger] before[i]).0
                == InstallStepView::ReadMarker implies before[i].1 == OutcomeView::Marker(marker) by {
            assert(before[i] == run[i]);
        }
        lemma_run_on_installed(info, marker, before);
        let n = run.len() as int;
        assert(run[n - 1] == run.last());
        assert(answers(run[n - 1].0, run[n - 1].1));
        assert forall|i: int| 0 <= i < run.len() implies (#[trigger] run[i]).0
            == InstallStepView::CreateModelsDir || run[i].0 == InstallStepView::ReadMarker by {
            if i < n - 1 {
                assert(run[i] == before[i]);
            }
        }
    }
}

/// The marker that an installation writes for a model of the catalog is one
/// that makes the model count as installed.
pub proof fn law_written_marker_is_complete(i: int)
    requires
        0 <= i < catalog().len(),
    ensures
        marker_complete(Some(catalog()[i].md5), catalog()[i].md5),
{
    law_archives_are_pinned(i);
    let md5 = catalog()[i].md5;
    assert(is_hex_digit(md5[0]) && is_hex_digit(md5[31]));
    assert(!is_white_space(md5.first()) && !is_white_space(md5.last()));
    assert(trimmed(md5) == md5);
}

/// Where the model is in an unpacked archive: in the directory that has its
/// name, else in the only one there is, else at the root where there is none.
/// Several directories under other names are an error that counts them.
pub proof fn law_where_the_model_is(dirs: Seq<Seq<char>>, name: Seq<char>)
    ensures
        root_for(true, dirs, name) == Ok::<ModelRootView, ErrorView>(ModelRootView::Named),
        dirs.len() == 1 ==> root_for(false, dirs, name) == Ok::<ModelRootView, ErrorView>(
            ModelRootView::Only(dirs[0]),
        ),
        dirs.len() == 0 ==> root_for(false, dirs, name) == Ok::<ModelRootView, ErrorView>(
            ModelRootView::ArchiveRoot,
        ),
        dirs.len() > 1 ==> root_for(false, dirs, name) == Err::<ModelRootView, ErrorView>(
            ErrorView::Recording(
                "Archive for '"@ + name + "' has an unexpected layout ("@ + decimal(dirs.len())
                    + " top-level directories)"@,
            ),
        ),
{
}

/// An installation whose steps all succeed comes to its end: it fetches the
/// archive, verifies it, unpacks it, moves it into place, writes the marker,
/// cleans up, and the model is installed. What is left of an earlier one is
/// removed first.
pub proof fn law_installation_comes_to_its_end(
    info: ModelInfo,
    exists_already: bool,
    marker: Option<Seq<char>>,
    actual: Seq<char>,
    root: ModelRootView,
    cleaning: OutcomeView,
)
    requires
        !marker_complete(marker, info.md5),
        same_ignoring_case(actual, info.md5),
    ensures
        ({
            let done = OutcomeView::Done;
            &&& next_step(info, InstallStepView::CreateModelsDir, done)
                == InstallStepView::ReadMarker
            &&& next_step(info, InstallStepView::ReadMarker, OutcomeView::Marker(marker))
                == InstallStepView::ProbeModelDir
            &&& next_step(info, InstallStepView::ProbeModelDir, OutcomeView::Exists(exists_already))
                == (if exists_already {
                InstallStepView::RemoveModelDir
            } else {
                InstallStepView::CreateStagingDir
            })
            &&& next_step(info, InstallStepView::RemoveModelDir, done)
                == InstallStepView::CreateStagingDir
            &&& next_step(info, InstallStepView::CreateStagingDir, done)
                == InstallStepView::FetchArchive
            &&& next_step(info, InstallStepView::FetchArchive, done) == InstallStepView::HashArchive
            &&& next_step(info, InstallStepView::HashArchive, OutcomeView::Digest(actual))
                == InstallStepView::ClearExtractDir
            &&& next_step(info, InstallStepView::ClearExtractDir, cleaning)
                == InstallStepView::CreateExtractDir
            &&& next_step(info, InstallStepView::CreateExtractDir, done)
                == InstallStepView::ExtractArchive
            &&& next_step(info, InstallStepView::ExtractArchive, done)
                == InstallStepView::LocateRoot
            &&& next_step(info, InstallStepView::MoveIntoPlace(root), done)
                == InstallStepView::WriteMarker
            &&& next_step(info, InstallStepView::WriteMarker, done)
                == InstallStepView::RemoveArchive
            &&& next_step(info, InstallStepView::RemoveArchive, cleaning)
                == InstallStepView::RemoveExtractDir
            &&& next_step(info, InstallStepView::RemoveExtractDir, cleaning)
                == InstallStepView::Installed
        }),
{
}

/// What was unpacked is moved from where the model is: the directory of its
/// name, the only one, or the root.
pub proof fn law_model_is_moved_from_where_it_is(info: ModelInfo, dirs: Seq<Seq<char>>)
    ensures
        next_step(info, InstallStepView::LocateRoot, OutcomeView::Layout(true, dirs))
            == InstallStepView::MoveIntoPlace(ModelRootView::Named),
        dirs.len() == 1 ==> next_step(
            info,
            InstallStepView::LocateRoot,
            OutcomeView::Layout(false, dirs),
        ) == InstallStepView::MoveIntoPlace(ModelRootView::Only(dirs[0])),
        dirs.len() == 0 ==> next_step(
            info,
            InstallStepView::LocateRoot,
            OutcomeView::Layout(false, dirs),
        ) == InstallStepView::MoveIntoPlace(ModelRootView::ArchiveRoot),
        dirs.len() > 1 ==> next_step(
            info,
            InstallStepView::LocateRoot,
            OutcomeView::Layout(false, dirs),
        ) is Failed,
{
}

/// An installed model needs no installation: exactly where the marker counts,
/// an installation ends before it has done anything.
pub proof fn law_marker_ends_an_installation(info: ModelInfo, marker: Option<Seq<char>>)
    ensures
        next_step(info, InstallStepView::ReadMarker, OutcomeView::Marker(marker))
            == InstallStepView::AlreadyInstalled <==> marker_complete(marker, info.md5),
{
}

/// The archive passes exactly where its MD5 is the published one, up to case.
pub proof fn law_archive_passes_by_its_checksum(info: ModelInfo, actual: Seq<char>)
    ensures
        next_step(info, InstallStepView::HashArchive, OutcomeView::Digest(actual))
            == InstallStepView::ClearExtractDir <==> actual.len() == info.md5.len() && forall|i: int|
            0 <= i < actual.len() ==> #[trigger] actual[i] == info.md5[i] || are_cases_of_a_letter(
                actual[i],
                info.md5[i],
            ),
{
    law_agreement_up_to_case(actual, info.md5);
}

/// A bad archive is reported with the checksums, the published one and its own.
pub proof fn law_bad_archive_is_reported(
    info: ModelInfo,
    actual: Seq<char>,
    discarding: OutcomeView,
)
    ensures
        next_step(info, InstallStepView::DiscardArchive(actual), discarding)
            == InstallStepView::Failed(
            ErrorView::Recording(
                "Checksum mismatch for '"@ + info.name + "': expected "@ + info.md5 + ", got "@
                    + actual + ". Archive discarded, please retry."@,
            ),
        ),
{
}

/// Whatever breaks an installation is told, with what was being done; what the
/// download and the extraction tell is passed on.
pub proof fn law_broken_installation_tells_why(
    info: ModelInfo,
    root: ModelRootView,
    reason: Seq<char>,
)
    ensures
        ({
            let broken = OutcomeView::Broken(reason);
            let failed = |message: Seq<char>|
                InstallStepView::Failed(ErrorView::Recording(message));
            &&& next_step(info, InstallStepView::CreateModelsDir, broken) == failed(
                "Failed to create models directory: "@ + reason,
            )
            &&& next_step(info, InstallStepView::RemoveModelDir, broken) == failed(
                "Failed to remove incomplete model: "@ + reason,
            )
            &&& next_step(info, InstallStepView::CreateStagingDir, broken) == failed(
                "Failed to create staging directory: "@ + reason,
            )
            &&& next_step(info, InstallStepView::FetchArchive, broken) == failed(reason)
            &&& next_step(info, InstallStepView::HashArchive, broken) == failed(
                "Failed to read downloaded archive: "@ + reason,
            )
            &&& next_step(info, InstallStepView::CreateExtractDir, broken) == failed(
                "Failed to create extraction directory: "@ + reason,
            )
            &&& next_step(info, InstallStepView::ExtractArchive, broken) == failed(reason)
            &&& next_step(info, InstallStepView::LocateRoot, broken) == failed(
                "Failed to read extracted archive: "@ + reason,
            )
            &&& next_step(info, InstallStepView::MoveIntoPlace(root), broken) == failed(
                "Failed to move model into place: "@ + reason,
            )
            &&& next_step(info, InstallStepView::WriteMarker, broken) == failed(
                "Failed to write model marker: "@ + reason,
            )
        }),
{
    reveal_strlit("");
    assert(""@ + reason =~= reason);
}

/// An installation reports when it begins to verify, when it begins to extract
/// and when it is complete, and at no other step.
pub proof fn law_installation_reports_its_phases(info: ModelInfo, step: InstallStepView)
    ensures
        progress_at(info, InstallStepView::HashArchive) == Some(
            DownloadProgressView { status: "verifying"@, model: info.name, progress: 45 },
        ),
        progress_at(info, InstallStepView::ClearExtractDir) == Some(
            DownloadProgressView { status: "extracting"@, model: info.name, progress: 50 },
        ),
        progress_at(info, InstallStepView::Installed) == Some(
            DownloadProgressView { status: "complete"@, model: info.name, progress: 100 },
        ),
        progress_at(info, step) is Some ==> step == InstallStepView::HashArchive || step
            == InstallStepView::ClearExtractDir || step == InstallStepView::Installed,
{
}

/// The views of an installation's steps tell what they hold, as it is.
pub proof fn law_install_steps_are_told_as_they_are(text: String, root: ModelRoot, error: Error)
    ensures
        InstallStep::CreateModelsDir@ == InstallStepView::CreateModelsDir,
        InstallStep::ReadMarker@ == InstallStepView::ReadMarker,
        InstallStep::ProbeModelDir@ == InstallStepView::ProbeModelDir,
        InstallStep::RemoveModelDir@ == InstallStepView::RemoveModelDir,
        InstallStep::CreateStagingDir@ == InstallStepView::CreateStagingDir,
        InstallStep::FetchArchive@ == InstallStepView::FetchArchive,
        InstallStep::HashArchive@ == InstallStepView::HashArchive,
        InstallStep::DiscardArchive(text)@ == InstallStepView::DiscardArchive(text@),
        InstallStep::ClearExtractDir@ == InstallStepView::ClearExtractDir,
        InstallStep::CreateExtractDir@ == InstallStepView::CreateExtractDir,
        InstallStep::ExtractArchive@ == InstallStepView::ExtractArchive,
        InstallStep::LocateRoot@ == InstallStepView::LocateRoot,
        InstallStep::MoveIntoPlace(root)@ == InstallStepView::MoveIntoPlace(root@),
        InstallStep::WriteMarker@ == InstallStepView::WriteMarker,
        InstallStep::RemoveArchive@ == InstallStepView::RemoveArchive,
        InstallStep::RemoveExtractDir@ == InstallStepView::RemoveExtractDir,
        InstallStep::Installed@ == InstallStepView::Installed,
        InstallStep::AlreadyInstalled@ == InstallStepView::AlreadyInstalled,
        InstallStep::Failed(error)@ == InstallStepView::Failed(error@),
        ModelRoot::Named@ == ModelRootView::Named,
        ModelRoot::Only(text)@ == ModelRootView::Only(text@),
        ModelRoot::ArchiveRoot@ == ModelRootView::ArchiveRoot,
{
}

/// The views of what came of an installation's steps tell what they hold, as
/// it is.
pub proof fn law_install_outcomes_are_told_as_they_are(
    text: String,
    found: bool,
    dirs: Vec<String>,
    i: int,
)
    requires
        0 <= i < dirs@.len(),
    ensures
        Outcome::Done@ == OutcomeView::Done,
        Outcome::Broken(text)@ == OutcomeView::Broken(text@),
        Outcome::Marker(None)@ == OutcomeView::Marker(None),
        Outcome::Marker(Some(text))@ == OutcomeView::Marker(Some(text@)),
        Outcome::Exists(found)@ == OutcomeView::Exists(found),
        Outcome::Digest(text)@ == OutcomeView::Digest(text@),
        Outcome::Layout(found, dirs)@ matches OutcomeView::Layout(named, names) && named == found
            && names.len() == dirs@.len() && names[i] == dirs@[i]@,
{
}

} // verus!
