use stt::catalog::{select_model, ModelSpec};
use stt::desktop::Stt;
use stt::error::Error;
use stt::install::{InstallStep, Installer, Outcome};
use stt::request::{ModelRequest, RequestOutcome, RequestStep};

fn why() -> Error {
    Error::Recording("why".to_string())
}

#[test]
fn loaded_model_is_ready_at_once() {
    let mut request = ModelRequest::new(Some("de"), None);
    assert_eq!(request.spec().lang, "de-DE");
    assert_eq!(request.step(), &RequestStep::FindLoaded);
    request.advance(RequestOutcome::Loaded(true));
    assert_eq!(request.step(), &RequestStep::Ready);
}

#[test]
fn missing_model_is_installed_loaded_and_adopted() {
    let mut request = ModelRequest::new(None, Some("fr-CA"));
    assert_eq!(request.spec().lang, "fr-FR");
    request.advance(RequestOutcome::Loaded(false));
    assert_eq!(request.step(), &RequestStep::Install);
    request.advance(RequestOutcome::Done);
    assert_eq!(request.step(), &RequestStep::Load);
    request.advance(RequestOutcome::Done);
    assert_eq!(request.step(), &RequestStep::Adopt);
    request.advance(RequestOutcome::Done);
    assert_eq!(request.step(), &RequestStep::Ready);
}

#[test]
fn errors_are_passed_on_unchanged() {
    let mut request = ModelRequest::new(None, None);
    assert_eq!(request.spec().lang, "en-US");
    request.advance(RequestOutcome::Loaded(false));
    request.advance(RequestOutcome::Refused(why()));
    assert_eq!(request.step(), &RequestStep::Failed(why()));

    let mut request = ModelRequest::new(None, None);
    request.advance(RequestOutcome::Loaded(false));
    request.advance(RequestOutcome::Done);
    request.advance(RequestOutcome::Refused(why()));
    assert_eq!(request.step(), &RequestStep::Failed(why()));
}

#[test]
fn install_model_asks_for_the_model_of_the_language() {
    let plugin: Stt<u8, u8> = Stt::new();
    let request = plugin.install_model("ja");
    assert_eq!(request.spec().lang, "ja-JP");
    assert_eq!(request.step(), &RequestStep::FindLoaded);
    assert_eq!(plugin.install_model("nl").spec().lang, "en-US");
}

/// Installs `spec` where the marker reads `marker`. Returns the marker that is
/// left, whether anything was fetched, and how many reports there were.
fn install(spec: ModelSpec, marker: &mut Option<String>) -> (bool, usize) {
    let mut installer = Installer::new(spec);
    let mut fetched = false;
    let mut reports = 0usize;
    loop {
        let outcome = match installer.step() {
            InstallStep::ReadMarker => Outcome::Marker(marker.clone()),
            InstallStep::ProbeModelDir => Outcome::Exists(marker.is_some()),
            InstallStep::RemoveModelDir => {
                *marker = None;
                Outcome::Done
            }
            InstallStep::FetchArchive => {
                fetched = true;
                Outcome::Done
            }
            InstallStep::HashArchive => Outcome::Digest(spec.md5.to_string()),
            InstallStep::LocateRoot => Outcome::Layout(true, Vec::new()),
            InstallStep::WriteMarker => {
                *marker = Some(spec.md5.to_string());
                Outcome::Done
            }
            InstallStep::Installed | InstallStep::AlreadyInstalled => return (fetched, reports),
            InstallStep::Failed(e) => panic!("{e:?}"),
            _ => Outcome::Done,
        };
        reports += installer.advance(outcome).is_some() as usize;
    }
}

#[test]
fn model_is_fetched_once() {
    let spec = select_model(Some("it"), None);
    let mut marker = Some("interrupted".to_string());
    assert_eq!(install(spec, &mut marker), (true, 3));
    assert!(spec.is_installed_in(&marker));
    assert_eq!(install(spec, &mut marker), (false, 0));
    assert!(spec.is_installed_in(&marker));
}
