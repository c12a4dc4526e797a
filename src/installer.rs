use vstd::prelude::*;
use crate::release::ReleaseInfo;
use vstd::string::*;
use crate::text::{trim, trimmed, upper_of, uppercase};

verus! {

/// Folder of mod assemblies that an avatar-loader archive carries.
pub const MODS_FOLDER: &'static str = "Mods";
/// Folder of support libraries that an avatar-loader archive carries.
pub const USERLIBS_FOLDER: &'static str = "UserLibs";

/// The folders looked for under the payload root and merged into the
/// installation root, in the order of the flags of `Event::Probed` and
/// `Action::Copy`.
pub fn payload_folders() -> (r: Vec<&'static str>)
    ensures
        r@ == seq![MODS_FOLDER, USERLIBS_FOLDER],
{
    let mut v: Vec<&'static str> = Vec::new();
    v.push(MODS_FOLDER);
    v.push(USERLIBS_FOLDER);
    assert(v@ =~= seq![MODS_FOLDER, USERLIBS_FOLDER]);
    v
}

/// Why a run of the installer stopped short.
#[derive(PartialEq, Eq, Structural, Clone, Copy, Debug)]
pub enum ErrorKind {
    /// The archive could not be fetched.
    Transport,
    /// The archive could not be read.
    Decode,
    /// A file or directory could not be created, copied or removed.
    Filesystem,
    /// The archive held none of the expected folders.
    PayloadMissing,
    /// An archive entry's path could leave the destination directory.
    UnsafePath,
}

/// How a run of the installer ended.
#[derive(PartialEq, Eq, Structural, Clone, Copy, Debug)]
pub enum Outcome {
    /// The latest release could not be resolved; nothing was done.
    Skipped,
    /// The installed marker already names the latest release.
    UpToDate,
    /// The user turned the update down.
    Declined,
    /// The new release was put in place and its tag recorded.
    Installed,
    Failed(ErrorKind),
}

/// One entry at the top of the staging directory.
#[derive(Debug)]
pub struct TopEntry {
    pub name: String,
    pub is_dir: bool,
}

/// Where a run of the installer stands, and what it has to remember.
#[derive(Debug)]
pub enum Phase {
    /// Waiting for the latest release; `installed` is the marker read from disk.
    Resolving { installed: String },
    /// Waiting for the user to confirm an update.
    Confirming { installed: String, tag: String, url: String },
    /// Waiting for the archive to be downloaded to the staging file.
    Fetching { tag: String },
    /// Waiting for the archive to be expanded into the staging directory.
    Extracting { tag: String },
    /// Waiting for the list of top-level entries of the staging directory.
    Listing { tag: String },
    /// Waiting to learn which expected folders the payload root holds.
    Probing { tag: String, root: Option<String> },
    /// Waiting for the present folders to be merged into the installation root.
    Copying { tag: String },
    /// Waiting for the staging directory to be removed.
    Cleaning { tag: String, copied: bool },
    /// Waiting for the marker to be written.
    Recording { tag: String },
    Done { outcome: Outcome },
}

/// What the surrounding program reports after carrying out an action.
#[derive(Debug)]
pub enum Event {
    Resolved(Option<ReleaseInfo>),
    Answered(String),
    Succeeded,
    Failed(ErrorKind),
    Listed(Vec<TopEntry>),
    /// For each expected folder, in order, whether the payload root holds it.
    Probed(Vec<bool>),
}

/// What the surrounding program is asked to do next.
#[derive(Debug)]
pub enum Action {
    AskConfirmation { installed: String, latest: String },
    /// Fetch `url` into a fresh staging file.
    Download { url: String },
    /// Wipe the staging directory, expand the staging file into it, remove the file.
    Extract,
    ListStaging,
    /// Look for each expected folder under the payload root: the named top-level
    /// directory, or the staging directory itself for `None`.
    Probe { root: Option<String> },
    /// Merge each expected folder marked present into the installation root.
    Copy { root: Option<String>, present: Vec<bool> },
    RemoveStaging,
    WriteMarker { tag: String },
    Finish { outcome: Outcome },
    /// The event did not fit the phase; nothing to do.
    Wait,
}

/// A phase with its texts as character sequences.
pub enum PhaseModel {
    Resolving { installed: Seq<char> },
    Confirming { installed: Seq<char>, tag: Seq<char>, url: Seq<char> },
    Fetching { tag: Seq<char> },
    Extracting { tag: Seq<char> },
    Listing { tag: Seq<char> },
    Probing { tag: Seq<char>, root: Option<Seq<char>> },
    Copying { tag: Seq<char> },
    Cleaning { tag: Seq<char>, copied: bool },
    Recording { tag: Seq<char> },
    Done { outcome: Outcome },
}

/// An event with its texts as character sequences.
pub enum EventModel {
    /// Tag and download link of the latest release, if it was resolved.
    Resolved(Option<(Seq<char>, Seq<char>)>),
    Answered(Seq<char>),
    Succeeded,
    Failed(ErrorKind),
    Listed(Seq<(Seq<char>, bool)>),
    Probed(Seq<bool>),
}

/// An action with its texts as character sequences.
pub enum ActionModel {
    AskConfirmation { installed: Seq<char>, latest: Seq<char> },
    Download { url: Seq<char> },
    Extract,
    ListStaging,
    Probe { root: Option<Seq<char>> },
    Copy { root: Option<Seq<char>>, present: Seq<bool> },
    RemoveStaging,
    WriteMarker { tag: Seq<char> },
    Finish { outcome: Outcome },
    Wait,
}

/// An optional text as an optional character sequence.
pub open spec fn opt_string_view(o: Option<String>) -> Option<Seq<char>> {
    match o {
        Some(s) => Some(s@),
        None => None,
    }
}

/// A listing as (name, is a directory) pairs.
pub open spec fn listing_view(v: Seq<TopEntry>) -> Seq<(Seq<char>, bool)> {
    v.map_values(|e: TopEntry| (e.name@, e.is_dir))
}

impl View for Phase {
    type V = PhaseModel;

    open spec fn view(&self) -> PhaseModel {
        match self {
            Phase::Resolving { installed } => PhaseModel::Resolving { installed: installed@ },
            Phase::Confirming { installed, tag, url } => PhaseModel::Confirming {
                installed: installed@,
                tag: tag@,
                url: url@,
            },
            Phase::Fetching { tag } => PhaseModel::Fetching { tag: tag@ },
            Phase::Extracting { tag } => PhaseModel::Extracting { tag: tag@ },
            Phase::Listing { tag } => PhaseModel::Listing { tag: tag@ },
            Phase::Probing { tag, root } => PhaseModel::Probing {
                tag: tag@,
                root: opt_string_view(*root),
            },
            Phase::Copying { tag } => PhaseModel::Copying { tag: tag@ },
            Phase::Cleaning { tag, copied } => PhaseModel::Cleaning { tag: tag@, copied: *copied },
            Phase::Recording { tag } => PhaseModel::Recording { tag: tag@ },
            Phase::Done { outcome } => PhaseModel::Done { outcome: *outcome },
        }
    }
}

impl View for Event {
    type V = EventModel;

    open spec fn view(&self) -> EventModel {
        match self {
            Event::Resolved(None) => EventModel::Resolved(None),
            Event::Resolved(Some(info)) => EventModel::Resolved(
                Some((info.tag_name@, info.download_url@)),
            ),
            Event::Answered(s) => EventModel::Answered(s@),
            Event::Succeeded => EventModel::Succeeded,
            Event::Failed(k) => EventModel::Failed(*k),
            Event::Listed(v) => EventModel::Listed(listing_view(v@)),
            Event::Probed(v) => EventModel::Probed(v@),
        }
    }
}

impl View for Action {
    type V = ActionModel;

    open spec fn view(&self) -> ActionModel {
        match self {
            Action::AskConfirmation { installed, latest } => ActionModel::AskConfirmation {
                installed: installed@,
                latest: latest@,
            },
            Action::Download { url } => ActionModel::Download { url: url@ },
            Action::Extract => ActionModel::Extract,
            Action::ListStaging => ActionModel::ListStaging,
            Action::Probe { root } => ActionModel::Probe { root: opt_string_view(*root) },
            Action::Copy { root, present } => ActionModel::Copy {
                root: opt_string_view(*root),
                present: present@,
            },
            Action::RemoveStaging => ActionModel::RemoveStaging,
            Action::WriteMarker { tag } => ActionModel::WriteMarker { tag: tag@ },
            Action::Finish { outcome } => ActionModel::Finish { outcome: *outcome },
            Action::Wait => ActionModel::Wait,
        }
    }
}

/// The installed marker: the trimmed contents of the marker file, or empty
/// where there is no such file.
pub open spec fn installed_marker(contents: Option<Seq<char>>) -> Seq<char> {
    match contents {
        Some(c) => trimmed(c),
        None => Seq::empty(),
    }
}

/// An answer that confirms an update: `Y` or `y`, with white space around it.
pub open spec fn affirmative(answer: Seq<char>) -> bool {
    upper_of(trimmed(answer)) == seq!['Y']
}

/// Names of the directories of a listing, in order.
pub open spec fn dir_names(listing: Seq<(Seq<char>, bool)>) -> Seq<Seq<char>>
    decreases listing.len(),
{
    if listing.len() == 0 {
        Seq::empty()
    } else {
        let rest = dir_names(listing.drop_last());
        if listing.last().1 {
            rest.push(listing.last().0)
        } else {
            rest
        }
    }
}

/// The payload root: the single top-level directory if there is exactly one,
/// else the staging directory itself (`None`).
pub open spec fn payload_root_of(listing: Seq<(Seq<char>, bool)>) -> Option<Seq<char>> {
    if dir_names(listing).len() == 1 {
        Some(dir_names(listing)[0])
    } else {
        None
    }
}

/// At least one expected folder was found.
pub open spec fn any_present(present: Seq<bool>) -> bool {
    exists|i: int| 0 <= i < present.len() && present[i]
}

/// The run ends with `o`, and says so.
pub open spec fn finish(o: Outcome) -> (PhaseModel, ActionModel) {
    (PhaseModel::Done { outcome: o }, ActionModel::Finish { outcome: o })
}

/// One transition of the installer. `gated` asks the user before an update
/// replaces an installed release (not before a first install).
pub open spec fn next(p: PhaseModel, e: EventModel, gated: bool) -> (PhaseModel, ActionModel) {
    match (p, e) {
        (PhaseModel::Done { outcome }, _) => finish(outcome),
        (_, EventModel::Failed(k)) => finish(Outcome::Failed(k)),
        (PhaseModel::Resolving { installed }, EventModel::Resolved(None)) => finish(Outcome::Skipped),
        (PhaseModel::Resolving { installed }, EventModel::Resolved(Some((tag, url)))) => {
            if installed == tag {
                finish(Outcome::UpToDate)
            } else if gated && installed.len() > 0 {
                (
                    PhaseModel::Confirming { installed, tag, url },
                    ActionModel::AskConfirmation { installed, latest: tag },
                )
            } else {
                (PhaseModel::Fetching { tag }, ActionModel::Download { url })
            }
        },
        (PhaseModel::Confirming { installed, tag, url }, EventModel::Answered(answer)) => {
            if affirmative(answer) {
                (PhaseModel::Fetching { tag }, ActionModel::Download { url })
            } else {
                finish(Outcome::Declined)
            }
        },
        (PhaseModel::Fetching { tag }, EventModel::Succeeded) => (
            PhaseModel::Extracting { tag },
            ActionModel::Extract,
        ),
        (PhaseModel::Extracting { tag }, EventModel::Succeeded) => (
            PhaseModel::Listing { tag },
            ActionModel::ListStaging,
        ),
        (PhaseModel::Listing { tag }, EventModel::Listed(listing)) => {
            let root = payload_root_of(listing);
            (PhaseModel::Probing { tag, root }, ActionModel::Probe { root })
        },
        (PhaseModel::Probing { tag, root }, EventModel::Probed(present)) => {
            if any_present(present) {
                (PhaseModel::Copying { tag }, ActionModel::Copy { root, present })
            } else {
                (PhaseModel::Cleaning { tag, copied: false }, ActionModel::RemoveStaging)
            }
        },
        (PhaseModel::Copying { tag }, EventModel::Succeeded) => (
            PhaseModel::Cleaning { tag, copied: true },
            ActionModel::RemoveStaging,
        ),
        (PhaseModel::Cleaning { tag, copied }, EventModel::Succeeded) => {
            if copied {
                (PhaseModel::Recording { tag }, ActionModel::WriteMarker { tag })
            } else {
                finish(Outcome::Failed(ErrorKind::PayloadMissing))
            }
        },
        (PhaseModel::Recording { tag }, EventModel::Succeeded) => finish(Outcome::Installed),
        (p, _) => (p, ActionModel::Wait),
    }
}

/// The actions of a run that starts in `p` and is handed `events` in turn.
pub open spec fn run(p: PhaseModel, events: Seq<EventModel>, gated: bool) -> Seq<ActionModel>
    decreases events.len(),
{
    if events.len() == 0 {
        Seq::empty()
    } else {
        let (q, a) = next(p, events[0], gated);
        seq![a] + run(q, events.drop_first(), gated)
    }
}

/// Actions that change the disk or fetch an archive.
pub open spec fn mutates(a: ActionModel) -> bool {
    match a {
        ActionModel::Download { .. } => true,
        ActionModel::Extract => true,
        ActionModel::Copy { .. } => true,
        ActionModel::RemoveStaging => true,
        ActionModel::WriteMarker { .. } => true,
        _ => false,
    }
}

/// The phase a run starts in, from the marker file's contents (`None` where
/// the component is not installed).
pub fn begin(marker: Option<String>) -> (r: Phase)
    ensures
        r@ == (PhaseModel::Resolving { installed: installed_marker(opt_string_view(marker)) }),
{
    match marker {
        Some(contents) => Phase::Resolving { installed: trim(contents.as_str()) },
        None => Phase::Resolving { installed: String::new() },
    }
}

/// Tells whether an answer to the update prompt confirms the update.
pub fn is_affirmative(answer: &str) -> (r: bool)
    ensures
        r == affirmative(answer@),
{
    let t = trim(answer);
    let u = uppercase(t.as_str());
    let y = String::from_str("Y");
    proof {
        reveal_strlit("Y");
    }
    let same = u == y;
    assert(same == (upper_of(trimmed(answer@)) == seq!['Y'])) by {
        assert(y@ =~= seq!['Y']);
    }
    same
}

/// The payload root of a staging directory: the name of its only top-level
/// directory, or `None` when it has none or several.
pub fn payload_root(listing: &Vec<TopEntry>) -> (r: Option<String>)
    ensures
        opt_string_view(r) == payload_root_of(listing_view(listing@)),
{
    let ghost l = listing_view(listing@);
    let n = listing.len();
    let mut count: usize = 0;
    let mut first: usize = 0;
    let mut i: usize = 0;
    while i < n
        invariant
            n == listing@.len(),
            l == listing_view(listing@),
            i <= n,
            count as int == dir_names(l.take(i as int)).len(),
            count <= i,
            count > 0 ==> first < n && listing@[first as int].is_dir
                && dir_names(l.take(i as int))[0] == listing@[first as int].name@,
        decreases n - i,
    {
        assert(l.take(i as int + 1).drop_last() =~= l.take(i as int));
        if listing[i].is_dir {
            if count == 0 {
                first = i;
            }
            count = count + 1;
        }
        i = i + 1;
    }
    assert(l.take(n as int) =~= l);
    if count == 1 {
        Some(listing[first].name.clone())
    } else {
        None
    }
}

/// Tells whether any expected folder was found.
pub fn any_folder_present(present: &Vec<bool>) -> (r: bool)
    ensures
        r == any_present(present@),
{
    let mut i: usize = 0;
    while i < present.len()
        invariant
            i <= present@.len(),
            forall|j: int| 0 <= j < i ==> !present@[j],
        decreases present@.len() - i,
    {
        if present[i] {
            return true;
        }
        i = i + 1;
    }
    false
}

fn finished(o: Outcome) -> (r: (Phase, Action))
    ensures
        (r.0@, r.1@) == finish(o),
{
    (Phase::Done { outcome: o }, Action::Finish { outcome: o })
}

impl Phase {
    /// Hands the installer one event; returns the next phase and the action
    /// that the surrounding program is to carry out.
    pub fn step(self, event: Event, gated: bool) -> (r: (Phase, Action))
        ensures
            (r.0@, r.1@) == next(self@, event@, gated),
    {
        match (self, event) {
            (Phase::Done { outcome }, _) => finished(outcome),
            (Phase::Resolving { installed }, Event::Failed(k)) => finished(Outcome::Failed(k)),
            (Phase::Confirming { installed, tag, url }, Event::Failed(k)) => finished(Outcome::Failed(k)),
            (Phase::Fetching { tag }, Event::Failed(k)) => finished(Outcome::Failed(k)),
            (Phase::Extracting { tag }, Event::Failed(k)) => finished(Outcome::Failed(k)),
            (Phase::Listing { tag }, Event::Failed(k)) => finished(Outcome::Failed(k)),
            (Phase::Probing { tag, root }, Event::Failed(k)) => finished(Outcome::Failed(k)),
            (Phase::Copying { tag }, Event::Failed(k)) => finished(Outcome::Failed(k)),
            (Phase::Cleaning { tag, copied }, Event::Failed(k)) => finished(Outcome::Failed(k)),
            (Phase::Recording { tag }, Event::Failed(k)) => finished(Outcome::Failed(k)),
            (Phase::Resolving { installed }, Event::Resolved(None)) => finished(Outcome::Skipped),
            (Phase::Resolving { installed }, Event::Resolved(Some(info))) => {
                let ReleaseInfo { tag_name, download_url } = info;
                if installed == tag_name {
                    finished(Outcome::UpToDate)
                } else if gated && installed.unicode_len() > 0 {
                    let ask = Action::AskConfirmation {
                        installed: installed.clone(),
                        latest: tag_name.clone(),
                    };
                    (Phase::Confirming { installed, tag: tag_name, url: download_url }, ask)
                } else {
                    (Phase::Fetching { tag: tag_name }, Action::Download { url: download_url })
                }
            },
            (Phase::Confirming { installed, tag, url }, Event::Answered(answer)) => {
                if is_affirmative(answer.as_str()) {
                    (Phase::Fetching { tag }, Action::Download { url })
                } else {
                    finished(Outcome::Declined)
                }
            },
            (Phase::Fetching { tag }, Event::Succeeded) => (Phase::Extracting { tag }, Action::Extract),
            (Phase::Extracting { tag }, Event::Succeeded) => (Phase::Listing { tag }, Action::ListStaging),
            (Phase::Listing { tag }, Event::Listed(listing)) => {
                let root = payload_root(&listing);
                let probe_root = match &root {
                    Some(name) => Some(name.clone()),
                    None => None,
                };
                (Phase::Probing { tag, root }, Action::Probe { root: probe_root })
            },
            (Phase::Probing { tag, root }, Event::Probed(present)) => {
                if any_folder_present(&present) {
                    (Phase::Copying { tag }, Action::Copy { root, present })
                } else {
                    (Phase::Cleaning { tag, copied: false }, Action::RemoveStaging)
                }
            },
            (Phase::Copying { tag }, Event::Succeeded) => (
                Phase::Cleaning { tag, copied: true },
                Action::RemoveStaging,
            ),
            (Phase::Cleaning { tag, copied }, Event::Succeeded) => {
                if copied {
                    let write = Action::WriteMarker { tag: tag.clone() };
                    (Phase::Recording { tag }, write)
                } else {
                    finished(Outcome::Failed(ErrorKind::PayloadMissing))
                }
            },
            (Phase::Recording { tag }, Event::Succeeded) => finished(Outcome::Installed),
            (p, _) => (p, Action::Wait),
        }
    }
}

} // verus!
