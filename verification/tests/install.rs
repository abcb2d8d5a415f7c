use stt::catalog::{available_models, select_model};
use stt::error::Error;
use stt::install::{locate_model_root, Installer, InstallStep, ModelRoot, Outcome};
use stt::models::DownloadProgress;

const GERMAN: &str = "vosk-model-de-0.21";

fn german_md5() -> String {
    select_model(Some("de"), None).md5.to_string()
}

fn report(status: &'static str, progress: u8) -> Option<DownloadProgress> {
    Some(DownloadProgress { status, model: GERMAN, progress })
}

fn broken() -> Outcome {
    Outcome::Broken("why".to_string())
}

/// An installer that has gone through these outcomes.
fn after(outcomes: Vec<Outcome>) -> Installer {
    let mut installer = Installer::new(select_model(Some("de"), None));
    for outcome in outcomes {
        installer.advance(outcome);
    }
    installer
}

/// The outcomes of the first steps of an installation from scratch.
fn clean(n: usize) -> Vec<Outcome> {
    let mut all = vec![
        Outcome::Done,
        Outcome::Marker(None),
        Outcome::Exists(false),
        Outcome::Done,
        Outcome::Done,
        Outcome::Digest(german_md5()),
        Outcome::Done,
        Outcome::Done,
        Outcome::Done,
        Outcome::Layout(true, Vec::new()),
        Outcome::Done,
        Outcome::Done,
        Outcome::Done,
        Outcome::Done,
    ];
    all.truncate(n);
    all
}

#[test]
fn model_root_is_named_only_or_the_archive() {
    let none: Vec<String> = Vec::new();
    let one = vec!["other".to_string()];
    let two = vec!["a".to_string(), "b".to_string()];
    assert_eq!(locate_model_root(true, &two, "m"), Ok(ModelRoot::Named));
    assert_eq!(locate_model_root(false, &one, "m"), Ok(ModelRoot::Only("other".to_string())));
    assert_eq!(locate_model_root(false, &none, "m"), Ok(ModelRoot::ArchiveRoot));
    assert_eq!(
        locate_model_root(false, &two, "m"),
        Err(Error::Recording(
            "Archive for 'm' has an unexpected layout (2 top-level directories)".to_string()
        ))
    );
}

#[test]
fn installation_from_scratch_takes_every_step() {
    let steps = [
        InstallStep::CreateModelsDir,
        InstallStep::ReadMarker,
        InstallStep::ProbeModelDir,
        InstallStep::CreateStagingDir,
        InstallStep::FetchArchive,
        InstallStep::HashArchive,
        InstallStep::ClearExtractDir,
        InstallStep::CreateExtractDir,
        InstallStep::ExtractArchive,
        InstallStep::LocateRoot,
        InstallStep::MoveIntoPlace(ModelRoot::Named),
        InstallStep::WriteMarker,
        InstallStep::RemoveArchive,
        InstallStep::RemoveExtractDir,
        InstallStep::Installed,
    ];
    let mut installer = Installer::new(select_model(Some("de"), None));
    let mut reports = Vec::new();
    for (i, outcome) in clean(14).into_iter().enumerate() {
        assert_eq!(installer.step(), &steps[i]);
        reports.extend(installer.advance(outcome));
    }
    assert_eq!(installer.step(), &steps[14]);
    let expected: Vec<DownloadProgress> =
        [report("verifying", 45), report("extracting", 50), report("complete", 100)]
            .into_iter()
            .flatten()
            .collect();
    assert_eq!(reports, expected);
}

#[test]
fn installed_model_is_left_alone() {
    let installer = after(vec![Outcome::Done, Outcome::Marker(Some(german_md5() + "\n"))]);
    assert_eq!(installer.step(), &InstallStep::AlreadyInstalled);
}

#[test]
fn leftovers_of_an_interrupted_install_are_removed() {
    let other = select_model(Some("fr"), None).md5.to_string();
    for marker in [None, Some(other), Some(String::new())] {
        let mut installer =
            after(vec![Outcome::Done, Outcome::Marker(marker), Outcome::Exists(true)]);
        assert_eq!(installer.step(), &InstallStep::RemoveModelDir);
        installer.advance(Outcome::Done);
        assert_eq!(installer.step(), &InstallStep::CreateStagingDir);
    }
}

#[test]
fn checksums_compare_without_case() {
    let mut outcomes = clean(5);
    outcomes.push(Outcome::Digest(german_md5().to_uppercase()));
    assert_eq!(after(outcomes).step(), &InstallStep::ClearExtractDir);
}

#[test]
fn bad_archive_is_discarded() {
    let mut outcomes = clean(5);
    outcomes.push(Outcome::Digest("00".to_string()));
    let mut installer = after(outcomes);
    assert_eq!(installer.step(), &InstallStep::DiscardArchive("00".to_string()));
    installer.advance(Outcome::Done);
    assert_eq!(
        installer.step(),
        &InstallStep::Failed(Error::Recording(
            "Checksum mismatch for 'vosk-model-de-0.21': expected \
             23298ddeb602739016956144ac4c74de, got 00. Archive discarded, please retry."
                .to_string()
        ))
    );
}

#[test]
fn each_broken_install_step_has_its_message() {
    let cases = [
        (0, "Failed to create models directory: why"),
        (3, "Failed to create staging directory: why"),
        (4, "why"),
        (5, "Failed to read downloaded archive: why"),
        (7, "Failed to create extraction directory: why"),
        (8, "why"),
        (9, "Failed to read extracted archive: why"),
        (10, "Failed to move model into place: why"),
        (11, "Failed to write model marker: why"),
    ];
    for (n, message) in cases {
        let mut outcomes = clean(n);
        outcomes.push(broken());
        assert_eq!(
            after(outcomes).step(),
            &InstallStep::Failed(Error::Recording(message.to_string()))
        );
    }
    assert_eq!(
        after(vec![Outcome::Done, Outcome::Marker(None), Outcome::Exists(true), broken()]).step(),
        &InstallStep::Failed(Error::Recording(
            "Failed to remove incomplete model: why".to_string()
        ))
    );
}

#[test]
fn cleaning_up_cannot_fail() {
    for n in [6, 12, 13] {
        let mut outcomes = clean(n);
        outcomes.push(broken());
        let mut whole = clean(n);
        whole.push(Outcome::Done);
        assert_eq!(after(outcomes).step(), after(whole).step());
    }
}

#[test]
fn unexpected_layout_fails() {
    let mut outcomes = clean(9);
    outcomes.push(Outcome::Layout(
        false,
        vec!["a".to_string(), "b".to_string(), "c".to_string()],
    ));
    assert_eq!(
        after(outcomes).step(),
        &InstallStep::Failed(Error::Recording(
            "Archive for 'vosk-model-de-0.21' has an unexpected layout (3 top-level directories)"
                .to_string()
        ))
    );
}

#[test]
fn nothing_is_placed_before_it_is_verified() {
    for n in 0..=14 {
        let installer = after(clean(n));
        let placed = matches!(
            installer.step(),
            InstallStep::MoveIntoPlace(_) | InstallStep::WriteMarker
        );
        assert_eq!(placed, n == 10 || n == 11);
    }
}

#[test]
fn written_markers_count_as_installed() {
    for model in available_models() {
        assert!(model.is_installed_in(&Some(model.md5.to_string())));
        let mut installer = Installer::new(model);
        installer.advance(Outcome::Done);
        installer.advance(Outcome::Marker(Some(model.md5.to_string())));
        assert_eq!(installer.step(), &InstallStep::AlreadyInstalled);
    }
}
