use desktopmate_installer::console::up_to_date_message;
use desktopmate_installer::installer::{
    any_folder_present, begin, is_affirmative, payload_root, Action, ErrorKind, Event, Outcome,
    Phase, TopEntry,
};
use desktopmate_installer::release::ReleaseInfo;

fn resolved(tag: &str, url: &str) -> Event {
    Event::Resolved(Some(ReleaseInfo { tag_name: tag.to_string(), download_url: url.to_string() }))
}

fn entry(name: &str, is_dir: bool) -> TopEntry {
    TopEntry { name: name.to_string(), is_dir }
}

fn is_finish(a: &Action, o: Outcome) -> bool {
    matches!(a, Action::Finish { outcome } if *outcome == o)
}

#[test]
fn fresh_install_with_wrapped_payload() {
    let p = begin(None);
    let (p, a) = p.step(resolved("v2.0", "https://x/pkg.zip"), true);
    assert!(matches!(&a, Action::Download { url } if url == "https://x/pkg.zip"));
    let (p, a) = p.step(Event::Succeeded, true);
    assert!(matches!(a, Action::Extract));
    let (p, a) = p.step(Event::Succeeded, true);
    assert!(matches!(a, Action::ListStaging));
    let (p, a) = p.step(Event::Listed(vec![entry("pkg", true)]), true);
    assert!(matches!(&a, Action::Probe { root: Some(r) } if r == "pkg"));
    let (p, a) = p.step(Event::Probed(vec![true, false]), true);
    match &a {
        Action::Copy { root, present } => {
            assert_eq!(root.as_deref(), Some("pkg"));
            assert_eq!(present, &vec![true, false]);
        },
        other => panic!("unexpected action {:?}", other),
    }
    let (p, a) = p.step(Event::Succeeded, true);
    assert!(matches!(a, Action::RemoveStaging));
    let (p, a) = p.step(Event::Succeeded, true);
    assert!(matches!(&a, Action::WriteMarker { tag } if tag == "v2.0"));
    let (p, a) = p.step(Event::Succeeded, true);
    assert!(is_finish(&a, Outcome::Installed));
    assert!(matches!(p, Phase::Done { outcome: Outcome::Installed }));
}

#[test]
fn matching_marker_is_up_to_date() {
    let p = begin(Some("v1.0\r\n".to_string()));
    assert!(matches!(&p, Phase::Resolving { installed } if installed == "v1.0"));
    let (p, a) = p.step(resolved("v1.0", "https://x/a.zip"), true);
    assert!(is_finish(&a, Outcome::UpToDate));
    let (_, a) = p.step(Event::Succeeded, true);
    assert!(is_finish(&a, Outcome::UpToDate));
    assert_eq!(
        up_to_date_message("Custom Avatar Loader mod", "v1.0"),
        "Custom Avatar Loader mod is up-to-date (version v1.0)."
    );
}

#[test]
fn second_run_after_install_changes_nothing() {
    let (_, a) = begin(Some("v2.0".to_string())).step(resolved("v2.0", "https://x/pkg.zip"), false);
    assert!(is_finish(&a, Outcome::UpToDate));
}

#[test]
fn missing_payload_fails_without_marker() {
    let p = Phase::Probing { tag: "v3".to_string(), root: None };
    let (p, a) = p.step(Event::Probed(vec![false, false]), true);
    assert!(matches!(a, Action::RemoveStaging));
    let (p, a) = p.step(Event::Succeeded, true);
    assert!(is_finish(&a, Outcome::Failed(ErrorKind::PayloadMissing)));
    let (_, a) = p.step(Event::Succeeded, true);
    assert!(is_finish(&a, Outcome::Failed(ErrorKind::PayloadMissing)));
}

#[test]
fn unresolved_release_is_skipped() {
    let (_, a) = begin(None).step(Event::Resolved(None), true);
    assert!(is_finish(&a, Outcome::Skipped));
}

#[test]
fn gated_update_asks_first() {
    let p = begin(Some("v1".to_string()));
    let (p, a) = p.step(resolved("v2", "https://x/v2.zip"), true);
    assert!(matches!(&a, Action::AskConfirmation { installed, latest } if installed == "v1" && latest == "v2"));
    let (_, a) = p.step(Event::Answered(" y \n".to_string()), true);
    assert!(matches!(&a, Action::Download { url } if url == "https://x/v2.zip"));
}

#[test]
fn declined_update_ends_the_run() {
    let p = begin(Some("v1".to_string()));
    let (p, _) = p.step(resolved("v2", "https://x/v2.zip"), true);
    let (_, a) = p.step(Event::Answered("n".to_string()), true);
    assert!(is_finish(&a, Outcome::Declined));
}

#[test]
fn ungated_update_downloads_at_once() {
    let (_, a) = begin(Some("v1".to_string())).step(resolved("v2", "https://x/v2.zip"), false);
    assert!(matches!(a, Action::Download { .. }));
}

#[test]
fn failures_end_the_run_with_their_kind() {
    let p = Phase::Fetching { tag: "v2".to_string() };
    let (_, a) = p.step(Event::Failed(ErrorKind::Transport), true);
    assert!(is_finish(&a, Outcome::Failed(ErrorKind::Transport)));
    let p = Phase::Extracting { tag: "v2".to_string() };
    let (_, a) = p.step(Event::Failed(ErrorKind::Decode), true);
    assert!(is_finish(&a, Outcome::Failed(ErrorKind::Decode)));
    let p = Phase::Copying { tag: "v2".to_string() };
    let (_, a) = p.step(Event::Failed(ErrorKind::Filesystem), true);
    assert!(is_finish(&a, Outcome::Failed(ErrorKind::Filesystem)));
}

#[test]
fn event_out_of_turn_is_ignored() {
    let p = Phase::Fetching { tag: "v2".to_string() };
    let (p, a) = p.step(Event::Probed(vec![true]), true);
    assert!(matches!(a, Action::Wait));
    assert!(matches!(&p, Phase::Fetching { tag } if tag == "v2"));
}

#[test]
fn payload_root_needs_exactly_one_directory() {
    assert_eq!(payload_root(&vec![entry("readme.txt", false), entry("pkg", true)]), Some("pkg".to_string()));
    assert_eq!(payload_root(&vec![entry("Mods", true), entry("UserLibs", true)]), None);
    assert_eq!(payload_root(&vec![entry("a.dll", false)]), None);
    assert_eq!(payload_root(&vec![]), None);
}

#[test]
fn answers_to_the_update_prompt() {
    assert!(is_affirmative("Y"));
    assert!(is_affirmative("  y\r\n"));
    assert!(!is_affirmative("yes"));
    assert!(!is_affirmative(""));
    assert!(!is_affirmative("N"));
}

#[test]
fn folder_presence() {
    assert!(any_folder_present(&vec![false, true]));
    assert!(!any_folder_present(&vec![false, false]));
    assert!(!any_folder_present(&vec![]));
}

#[test]
fn expected_payload_folders() {
    assert_eq!(desktopmate_installer::installer::payload_folders(), vec!["Mods", "UserLibs"]);
}
