//! The request for a language's model as a sequence of steps: the model that is
//! loaded already, or one that is installed where it is missing and then
//! loaded.
//!
//! A [`ModelRequest`] says which step comes next; whoever drives it performs
//! that step and hands back the [`RequestOutcome`].

use vstd::prelude::*;

use crate::catalog::{
    catalog, law_models_have_their_own_names, marker_complete, opt_str, requested_language,
    select_model, selected_model, ModelInfo, ModelSpec,
};
use crate::error::{Error, ErrorView};
use crate::install::{
    is_run, law_installed_model_is_left_alone, law_success_leaves_complete_marker,
    law_written_marker_is_complete, marker_after, progress_at, reads_marker, step_after,
    InstallStepView, OutcomeView,
};

verus! {

/// A step of a request.
#[derive(Debug, PartialEq, Eq)]
pub enum RequestStep {
    /// Look for the model among what is loaded.
    FindLoaded,
    /// Install the model where it is missing.
    Install,
    /// Load the model from its directory.
    Load,
    /// Let the plugin take the loaded model over.
    Adopt,
    /// The model is loaded.
    Ready,
    /// The request failed.
    Failed(Error),
}

/// A [`RequestStep`] over the view of its error.
pub enum RequestStepView {
    FindLoaded,
    Install,
    Load,
    Adopt,
    Ready,
    Failed(ErrorView),
}

impl View for RequestStep {
    type V = RequestStepView;

    open spec fn view(&self) -> RequestStepView {
        match self {
            RequestStep::FindLoaded => RequestStepView::FindLoaded,
            RequestStep::Install => RequestStepView::Install,
            RequestStep::Load => RequestStepView::Load,
            RequestStep::Adopt => RequestStepView::Adopt,
            RequestStep::Ready => RequestStepView::Ready,
            RequestStep::Failed(e) => RequestStepView::Failed(e@),
        }
    }
}

/// What came of a step.
#[derive(Debug, PartialEq, Eq)]
pub enum RequestOutcome {
    /// Whether the model is among what is loaded.
    Loaded(bool),
    /// It was done.
    Done,
    /// It failed with this error.
    Refused(Error),
}

/// A [`RequestOutcome`] over the view of its error.
pub enum RequestOutcomeView {
    Loaded(bool),
    Done,
    Refused(ErrorView),
}

impl View for RequestOutcome {
    type V = RequestOutcomeView;

    open spec fn view(&self) -> RequestOutcomeView {
        match self {
            RequestOutcome::Loaded(found) => RequestOutcomeView::Loaded(*found),
            RequestOutcome::Done => RequestOutcomeView::Done,
            RequestOutcome::Refused(e) => RequestOutcomeView::Refused(e@),
        }
    }
}

/// Whether an outcome is one that the step can have. The last steps have none.
pub open spec fn request_answers(step: RequestStepView, outcome: RequestOutcomeView) -> bool {
    match step {
        RequestStepView::FindLoaded => outcome is Loaded,
        RequestStepView::Install => outcome is Done || outcome is Refused,
        RequestStepView::Load => outcome is Done || outcome is Refused,
        RequestStepView::Adopt => outcome is Done,
        RequestStepView::Ready => false,
        RequestStepView::Failed(_) => false,
    }
}

/// The step that follows `step` when it had `outcome`. An error is passed on
/// as it is.
pub open spec fn request_next(step: RequestStepView, outcome: RequestOutcomeView) -> RequestStepView {
    match (step, outcome) {
        (RequestStepView::FindLoaded, RequestOutcomeView::Loaded(found)) => if found {
            RequestStepView::Ready
        } else {
            RequestStepView::Install
        },
        (RequestStepView::Install, RequestOutcomeView::Refused(e)) => RequestStepView::Failed(e),
        (RequestStepView::Install, _) => RequestStepView::Load,
        (RequestStepView::Load, RequestOutcomeView::Refused(e)) => RequestStepView::Failed(e),
        (RequestStepView::Load, _) => RequestStepView::Adopt,
        (RequestStepView::Adopt, _) => RequestStepView::Ready,
        _ => step,
    }
}

/// The request for one model.
#[derive(Debug)]
pub struct ModelRequest {
    spec: ModelSpec,
    step: RequestStep,
}

impl ModelRequest {
    /// The model that is asked for.
    pub closed spec fn wanted(&self) -> ModelInfo {
        self.spec@
    }

    /// The step to perform.
    pub closed spec fn at(&self) -> RequestStepView {
        self.step@
    }

    /// The request for the model that serves a language, or that of the device
    /// where none is given, before its first step.
    pub fn new(language: Option<&str>, device_language: Option<&str>) -> (request: ModelRequest)
        ensures
            request.wanted() == selected_model(
                requested_language(opt_str(language), opt_str(device_language)),
            ),
            request.at() == RequestStepView::FindLoaded,
    {
        ModelRequest { spec: select_model(language, device_language), step: RequestStep::FindLoaded }
    }

    /// The model that is asked for.
    pub fn spec(&self) -> (spec: ModelSpec)
        ensures
            spec@ == self.wanted(),
    {
        self.spec
    }

    /// The step to perform now.
    pub fn step(&self) -> (step: &RequestStep)
        ensures
            step@ == self.at(),
    {
        &self.step
    }

    /// Takes the outcome of the step and moves on to the next.
    pub fn advance(&mut self, outcome: RequestOutcome)
        requires
            request_answers(old(self).at(), outcome@),
        ensures
            final(self).wanted() == old(self).wanted(),
            final(self).at() == request_next(old(self).at(), outcome@),
    {
        let next = match (&self.step, outcome) {
            (RequestStep::FindLoaded, RequestOutcome::Loaded(found)) => if found {
                RequestStep::Ready
            } else {
                RequestStep::Install
            },
            (RequestStep::Install, RequestOutcome::Refused(e)) => RequestStep::Failed(e),
            (RequestStep::Install, _) => RequestStep::Load,
            (RequestStep::Load, RequestOutcome::Refused(e)) => RequestStep::Failed(e),
            (RequestStep::Load, _) => RequestStep::Adopt,
            (RequestStep::Adopt, _) => RequestStep::Ready,
            _ => return ,
        };
        self.step = next;
    }
}

/// The models as the plugin has them: which one is loaded, and the markers in
/// the model directories, by the name of the model.
#[verifier::ext_equal]
pub struct StoreModel {
    /// The name of the loaded model.
    pub loaded: Option<Seq<char>>,
    /// The content of each marker that there is.
    pub markers: Map<Seq<char>, Seq<char>>,
}

impl StoreModel {
    /// The marker of the model `name`, if there is one.
    pub open spec fn marker(self, name: Seq<char>) -> Option<Seq<char>> {
        if self.markers.contains_key(name) {
            Some(self.markers[name])
        } else {
            None
        }
    }

    /// Whether the model `info` is installed.
    pub open spec fn has(self, info: ModelInfo) -> bool {
        marker_complete(self.marker(info.name), info.md5)
    }

    /// Whether a loaded model of the catalog is installed.
    pub open spec fn wf(self) -> bool {
        forall|i: int|
            0 <= i < catalog().len() && self.loaded == Some((#[trigger] catalog()[i]).name)
                ==> self.has(catalog()[i])
    }
}

/// A request that ran to its end: the model that was asked for, the steps of
/// its installation, and what came of loading it.
pub struct RequestRun {
    pub info: ModelInfo,
    pub installing: Seq<(InstallStepView, OutcomeView)>,
    pub loading: RequestOutcomeView,
}

/// What an installation that ended at `step` means for the request.
pub open spec fn install_outcome(step: InstallStepView) -> RequestOutcomeView {
    match step {
        InstallStepView::Failed(e) => RequestOutcomeView::Refused(e),
        _ => RequestOutcomeView::Done,
    }
}

/// The step that a request ends at.
pub open spec fn request_end(w: StoreModel, r: RequestRun) -> RequestStepView {
    let found = request_next(
        RequestStepView::FindLoaded,
        RequestOutcomeView::Loaded(w.loaded == Some(r.info.name)),
    );
    if found != RequestStepView::Install {
        found
    } else {
        let installed = request_next(found, install_outcome(step_after(r.info, r.installing)));
        if installed != RequestStepView::Load {
            installed
        } else {
            let loaded = request_next(installed, r.loading);
            if loaded != RequestStepView::Adopt {
                loaded
            } else {
                request_next(loaded, RequestOutcomeView::Done)
            }
        }
    }
}

/// Whether a request for a model of the catalog can run like this: nothing is
/// installed where the model is loaded; else the installation runs to its end
/// on the marker that is there.
pub open spec fn is_request(w: StoreModel, r: RequestRun) -> bool {
    &&& exists|i: int| 0 <= i < catalog().len() && #[trigger] catalog()[i] == r.info
    &&& if w.loaded == Some(r.info.name) {
        r.installing.len() == 0
    } else {
        &&& is_run(r.info, r.installing)
        &&& reads_marker(w.marker(r.info.name), r.installing)
        &&& step_after(r.info, r.installing) is Installed || step_after(r.info, r.installing)
            is AlreadyInstalled || step_after(r.info, r.installing) is Failed
        &&& request_answers(RequestStepView::Load, r.loading)
    }
}

/// The models after a request: the one that was asked for is loaded where the
/// request succeeded, else none; and only its marker can have changed.
pub open spec fn store_after_request(w: StoreModel, r: RequestRun) -> StoreModel {
    let marker = marker_after(r.info, w.marker(r.info.name), r.installing);
    StoreModel {
        loaded: if request_end(w, r) == RequestStepView::Ready {
            Some(r.info.name)
        } else {
            None
        },
        markers: match marker {
            Some(text) => w.markers.insert(r.info.name, text),
            None => w.markers.remove(r.info.name),
        },
    }
}

/// The models after a sequence of requests.
pub open spec fn store_after(w: StoreModel, requests: Seq<RequestRun>) -> StoreModel
    decreases requests.len(),
{
    if requests.len() == 0 {
        w
    } else {
        store_after_request(store_after(w, requests.drop_last()), requests.last())
    }
}

/// Whether a sequence of requests can run one after the other.
pub open spec fn are_requests(w: StoreModel, requests: Seq<RequestRun>) -> bool
    decreases requests.len(),
{
    requests.len() > 0 ==> {
        &&& are_requests(w, requests.drop_last())
        &&& is_request(store_after(w, requests.drop_last()), requests.last())
    }
}

/// A request that succeeds leaves its model installed, whether it found it
/// loaded, found it installed or installed it; and whatever comes of a
/// request, a model that is loaded is installed.
pub proof fn law_ready_model_is_installed(w: StoreModel, r: RequestRun)
    requires
        w.wf(),
        is_request(w, r),
    ensures
        request_end(w, r) == RequestStepView::Ready ==> store_after_request(w, r).has(r.info),
        store_after_request(w, r).wf(),
{
    let c = choose|c: int| 0 <= c < catalog().len() && #[trigger] catalog()[c] == r.info;
    let marker = w.marker(r.info.name);
    let after = store_after_request(w, r);
    assert(after.marker(r.info.name) == marker_after(r.info, marker, r.installing));
    if request_end(w, r) == RequestStepView::Ready {
        if w.loaded != Some(r.info.name) {
            law_written_marker_is_complete(c);
            law_success_leaves_complete_marker(r.info, marker, r.installing);
        } else {
            assert(w.has(catalog()[c]));
        }
        assert forall|i: int|
            0 <= i < catalog().len() && after.loaded == Some(
                (#[trigger] catalog()[i]).name,
            ) implies after.has(catalog()[i]) by {
            law_models_have_their_own_names(i, c);
        }
    }
}

/// A model that is installed stays installed, whatever models are asked for
/// and whatever comes of it.
pub proof fn law_installed_model_stays(w: StoreModel, requests: Seq<RequestRun>, i: int)
    requires
        0 <= i < catalog().len(),
        w.has(catalog()[i]),
        are_requests(w, requests),
    ensures
        store_after(w, requests).has(catalog()[i]),
        store_after(w, requests).marker(catalog()[i].name) == w.marker(catalog()[i].name),
    decreases requests.len(),
{
    if requests.len() > 0 {
        law_installed_model_stays(w, requests.drop_last(), i);
        let before = store_after(w, requests.drop_last());
        let r = requests.last();
        let c = choose|c: int| 0 <= c < catalog().len() && #[trigger] catalog()[c] == r.info;
        if r.info.name == catalog()[i].name {
            law_models_have_their_own_names(i, c);
            if before.loaded != Some(r.info.name) {
                law_installed_model_is_left_alone(
                    r.info,
                    before.marker(r.info.name),
                    r.installing,
                );
            }
        }
    }
}

/// Once a request for a model succeeded, a later one sends nothing over the
/// network and reports no progress, whatever models were asked for in between:
/// where it installs at all, it goes no further than the marker.
pub proof fn law_model_is_fetched_once(
    w: StoreModel,
    first: RequestRun,
    between: Seq<RequestRun>,
    again: RequestRun,
    k: int,
)
    requires
        w.wf(),
        is_request(w, first),
        request_end(w, first) == RequestStepView::Ready,
        are_requests(store_after_request(w, first), between),
        is_request(store_after(store_after_request(w, first), between), again),
        again.info == first.info,
    ensures
        0 <= k < again.installing.len() ==> again.installing[k].0 != InstallStepView::FetchArchive
            && progress_at(again.info, again.installing[k].0) is None,
        again.installing.len() > 0 ==> progress_at(
            again.info,
            step_after(again.info, again.installing),
        ) is None,
{
    let c = choose|c: int| 0 <= c < catalog().len() && #[trigger] catalog()[c] == first.info;
    let installed = store_after_request(w, first);
    law_ready_model_is_installed(w, first);
    law_installed_model_stays(installed, between, c);
    let now = store_after(installed, between);
    if now.loaded != Some(again.info.name) {
        law_installed_model_is_left_alone(
            again.info,
            now.marker(again.info.name),
            again.installing,
        );
        if 0 <= k < again.installing.len() {
            assert(progress_at(again.info, again.installing[k].0) is None);
        }
    }
}

/// A request takes the loaded model where it is loaded, and installs, loads and
/// adopts it otherwise; whatever error comes on the way is its own, unchanged.
pub proof fn law_request_goes_step_by_step(e: ErrorView)
    ensures
        request_next(RequestStepView::FindLoaded, RequestOutcomeView::Loaded(true))
            == RequestStepView::Ready,
        request_next(RequestStepView::FindLoaded, RequestOutcomeView::Loaded(false))
            == RequestStepView::Install,
        request_next(RequestStepView::Install, RequestOutcomeView::Done) == RequestStepView::Load,
        request_next(RequestStepView::Load, RequestOutcomeView::Done) == RequestStepView::Adopt,
        request_next(RequestStepView::Adopt, RequestOutcomeView::Done) == RequestStepView::Ready,
        request_next(RequestStepView::Install, RequestOutcomeView::Refused(e))
            == RequestStepView::Failed(e),
        request_next(RequestStepView::Load, RequestOutcomeView::Refused(e))
            == RequestStepView::Failed(e),
{
}

/// The views of a request's steps and of what came of them tell what they
/// hold, as it is.
pub proof fn law_request_steps_are_told_as_they_are(error: Error, found: bool)
    ensures
        RequestStep::FindLoaded@ == RequestStepView::FindLoaded,
        RequestStep::Install@ == RequestStepView::Install,
        RequestStep::Load@ == RequestStepView::Load,
        RequestStep::Adopt@ == RequestStepView::Adopt,
        RequestStep::Ready@ == RequestStepView::Ready,
        RequestStep::Failed(error)@ == RequestStepView::Failed(error@),
        RequestOutcome::Loaded(found)@ == RequestOutcomeView::Loaded(found),
        RequestOutcome::Done@ == RequestOutcomeView::Done,
        RequestOutcome::Refused(error)@ == RequestOutcomeView::Refused(error@),
{
}

} // verus!
