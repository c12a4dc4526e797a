use vstd::prelude::*;
use crate::installer::{
    any_present, dir_names, installed_marker, mutates, next, run, ActionModel, EventModel,
    Outcome, PhaseModel,
};
use crate::archive::{is_dir_name, normal_component, path_view, plan_matches, PlannedEntry};
use crate::installer::affirmative;
use crate::provision::MELONLOADER_VERSION;
use crate::text::{is_white_space, lemma_trim_keeps_inner_text};

verus! {

/// No action of the sequence fetches an archive or changes the disk.
pub open spec fn inert(actions: Seq<ActionModel>) -> bool {
    forall|k: int| 0 <= k < actions.len() ==> !mutates(#[trigger] actions[k])
}

/// No action of the sequence writes a marker.
pub open spec fn never_records(actions: Seq<ActionModel>) -> bool {
    forall|k: int| 0 <= k < actions.len() ==> !(#[trigger] actions[k] is WriteMarker)
}

proof fn lemma_run_unfold(p: PhaseModel, e: EventModel, events: Seq<EventModel>, gated: bool)
    ensures
        run(p, seq![e] + events, gated) == seq![next(p, e, gated).1] + run(
            next(p, e, gated).0,
            events,
            gated,
        ),
{
    let es = seq![e] + events;
    assert(es[0] == e);
    assert(es.drop_first() =~= events);
}

/// Once a run has ended, no further event makes it fetch or change anything.
pub proof fn lemma_finished_run_is_inert(o: Outcome, events: Seq<EventModel>, gated: bool)
    ensures
        inert(run(PhaseModel::Done { outcome: o }, events, gated)),
    decreases events.len(),
{
    if events.len() > 0 {
        lemma_finished_run_is_inert(o, events.drop_first(), gated);
        let rest = run(PhaseModel::Done { outcome: o }, events.drop_first(), gated);
        let all = run(PhaseModel::Done { outcome: o }, events, gated);
        assert(all == seq![ActionModel::Finish { outcome: o }] + rest);
        assert forall|k: int| 0 <= k < all.len() implies !mutates(#[trigger] all[k]) by {
            if k > 0 {
                assert(all[k] == rest[k - 1]);
            }
        }
    }
}

/// When the installed marker equals the latest resolved tag, the run reports
/// the component up to date and, whatever events follow, neither downloads
/// the archive nor changes the disk.
pub proof fn lemma_up_to_date_run_is_inert(
    installed: Seq<char>,
    url: Seq<char>,
    events: Seq<EventModel>,
    gated: bool,
)
    ensures
        next(
            PhaseModel::Resolving { installed },
            EventModel::Resolved(Some((installed, url))),
            gated,
        ).1 == (ActionModel::Finish { outcome: Outcome::UpToDate }),
        inert(
            run(
                PhaseModel::Resolving { installed },
                seq![EventModel::Resolved(Some((installed, url)))] + events,
                gated,
            ),
        ),
{
    let p = PhaseModel::Resolving { installed };
    let e = EventModel::Resolved(Some((installed, url)));
    lemma_run_unfold(p, e, events, gated);
    lemma_finished_run_is_inert(Outcome::UpToDate, events, gated);
    let rest = run(PhaseModel::Done { outcome: Outcome::UpToDate }, events, gated);
    let all = run(p, seq![e] + events, gated);
    assert forall|k: int| 0 <= k < all.len() implies !mutates(#[trigger] all[k]) by {
        if k > 0 {
            assert(all[k] == rest[k - 1]);
        }
    }
}

/// Running twice with the same latest tag changes nothing the second time: a
/// run that records the tag writes exactly that tag, and a run that reads it
/// back from the marker file and resolves the same tag neither downloads nor
/// changes the disk, whatever events follow.
pub proof fn lemma_second_run_is_inert(
    tag: Seq<char>,
    url: Seq<char>,
    events: Seq<EventModel>,
    gated: bool,
)
    requires
        tag.len() > 0 ==> !is_white_space(tag[0]) && !is_white_space(tag.last()),
    ensures
        next(PhaseModel::Cleaning { tag, copied: true }, EventModel::Succeeded, gated).1
            == (ActionModel::WriteMarker { tag }),
        inert(
            run(
                PhaseModel::Resolving { installed: installed_marker(Some(tag)) },
                seq![EventModel::Resolved(Some((tag, url)))] + events,
                gated,
            ),
        ),
{
    lemma_trim_keeps_inner_text(tag);
    lemma_up_to_date_run_is_inert(tag, url, events, gated);
}

/// The pinned mod-loader version reads back from its marker file unchanged,
/// so a second run after installing it neither downloads nor changes anything.
pub proof fn lemma_pinned_second_run_is_inert(url: Seq<char>, events: Seq<EventModel>)
    ensures
        inert(
            run(
                PhaseModel::Resolving { installed: installed_marker(Some(MELONLOADER_VERSION@)) },
                seq![EventModel::Resolved(Some((MELONLOADER_VERSION@, url)))] + events,
                false,
            ),
        ),
{
    reveal_strlit("v0.6.6");
    lemma_second_run_is_inert(MELONLOADER_VERSION@, url, events, false);
}

/// A run whose latest release cannot be resolved neither downloads nor changes
/// anything, so running it again leaves the disk as it was.
pub proof fn lemma_skipped_run_is_inert(installed: Seq<char>, events: Seq<EventModel>, gated: bool)
    ensures
        inert(
            run(
                PhaseModel::Resolving { installed },
                seq![EventModel::Resolved(None)] + events,
                gated,
            ),
        ),
{
    let p = PhaseModel::Resolving { installed };
    let e = EventModel::Resolved(None);
    lemma_run_unfold(p, e, events, gated);
    lemma_finished_run_is_inert(Outcome::Skipped, events, gated);
    let rest = run(PhaseModel::Done { outcome: Outcome::Skipped }, events, gated);
    let all = run(p, seq![e] + events, gated);
    assert forall|k: int| 0 <= k < all.len() implies !mutates(#[trigger] all[k]) by {
        if k > 0 {
            assert(all[k] == rest[k - 1]);
        }
    }
}

/// A gated update that the user turns down neither downloads nor changes
/// anything, so running it again with the same answer leaves the disk as it was.
pub proof fn lemma_declined_run_is_inert(
    installed: Seq<char>,
    tag: Seq<char>,
    url: Seq<char>,
    answer: Seq<char>,
    events: Seq<EventModel>,
)
    requires
        installed.len() > 0,
        installed != tag,
        !affirmative(answer),
    ensures
        inert(
            run(
                PhaseModel::Resolving { installed },
                seq![EventModel::Resolved(Some((tag, url))), EventModel::Answered(answer)] + events,
                true,
            ),
        ),
{
    let p = PhaseModel::Resolving { installed };
    let e1 = EventModel::Resolved(Some((tag, url)));
    let e2 = EventModel::Answered(answer);
    let q = PhaseModel::Confirming { installed, tag, url };
    assert(seq![e1, e2] + events =~= seq![e1] + (seq![e2] + events));
    lemma_run_unfold(p, e1, seq![e2] + events, true);
    lemma_run_unfold(q, e2, events, true);
    lemma_finished_run_is_inert(Outcome::Declined, events, true);
    let rest = run(PhaseModel::Done { outcome: Outcome::Declined }, events, true);
    let mid = run(q, seq![e2] + events, true);
    let all = run(p, seq![e1, e2] + events, true);
    assert forall|k: int| 0 <= k < all.len() implies !mutates(#[trigger] all[k]) by {
        if k > 1 {
            assert(all[k] == mid[k - 1]);
            assert(mid[k - 1] == rest[k - 2]);
        } else if k == 1 {
            assert(all[k] == mid[0]);
        }
    }
}

proof fn lemma_cleanup_without_payload_never_records(
    tag: Seq<char>,
    events: Seq<EventModel>,
    gated: bool,
)
    ensures
        never_records(run(PhaseModel::Cleaning { tag, copied: false }, events, gated)),
    decreases events.len(),
{
    if events.len() > 0 {
        let p = PhaseModel::Cleaning { tag, copied: false };
        let (q, a) = next(p, events[0], gated);
        let rest = run(q, events.drop_first(), gated);
        let all = run(p, events, gated);
        assert(all == seq![a] + rest);
        match q {
            PhaseModel::Done { outcome } => {
                lemma_finished_run_is_inert(outcome, events.drop_first(), gated);
            },
            _ => {
                assert(q == p);
                lemma_cleanup_without_payload_never_records(tag, events.drop_first(), gated);
            },
        }
        assert(!(a is WriteMarker));
        assert forall|k: int| 0 <= k < all.len() implies !(#[trigger] all[k] is WriteMarker) by {
            if k > 0 {
                assert(all[k] == rest[k - 1]);
            }
        }
    }
}

/// When the payload root holds none of the expected folders, the run never
/// writes the marker, whatever events follow; once the staging directory is
/// removed it fails with `PayloadMissing`.
pub proof fn lemma_missing_payload_keeps_marker(
    tag: Seq<char>,
    root: Option<Seq<char>>,
    present: Seq<bool>,
    events: Seq<EventModel>,
    gated: bool,
)
    requires
        !any_present(present),
    ensures
        never_records(
            run(
                PhaseModel::Probing { tag, root },
                seq![EventModel::Probed(present)] + events,
                gated,
            ),
        ),
        next(PhaseModel::Cleaning { tag, copied: false }, EventModel::Succeeded, gated).1
            == (ActionModel::Finish {
            outcome: Outcome::Failed(crate::installer::ErrorKind::PayloadMissing),
        }),
{
    let p = PhaseModel::Probing { tag, root };
    let e = EventModel::Probed(present);
    lemma_run_unfold(p, e, events, gated);
    lemma_cleanup_without_payload_never_records(tag, events, gated);
    let rest = run(PhaseModel::Cleaning { tag, copied: false }, events, gated);
    let all = run(p, seq![e] + events, gated);
    assert forall|k: int| 0 <= k < all.len() implies !(#[trigger] all[k] is WriteMarker) by {
        if k > 0 {
            assert(all[k] == rest[k - 1]);
        }
    }
}

proof fn lemma_no_dirs(listing: Seq<(Seq<char>, bool)>)
    requires
        forall|j: int| 0 <= j < listing.len() ==> !(#[trigger] listing[j]).1,
    ensures
        dir_names(listing) == Seq::<Seq<char>>::empty(),
    decreases listing.len(),
{
    if listing.len() > 0 {
        lemma_no_dirs(listing.drop_last());
    }
}

proof fn lemma_one_dir(listing: Seq<(Seq<char>, bool)>, i: int)
    requires
        0 <= i < listing.len(),
        listing[i].1,
        forall|j: int| 0 <= j < listing.len() && j != i ==> !(#[trigger] listing[j]).1,
    ensures
        dir_names(listing) == seq![listing[i].0],
    decreases listing.len(),
{
    let init = listing.drop_last();
    if i == listing.len() - 1 {
        lemma_no_dirs(init);
        assert(Seq::<Seq<char>>::empty().push(listing[i].0) =~= seq![listing[i].0]);
    } else {
        lemma_one_dir(init, i);
    }
}

/// When the staging directory holds exactly one top-level directory, that
/// directory, not the staging directory, is where the expected folders are
/// looked for.
pub proof fn lemma_single_directory_is_root(
    tag: Seq<char>,
    listing: Seq<(Seq<char>, bool)>,
    i: int,
    gated: bool,
)
    requires
        0 <= i < listing.len(),
        listing[i].1,
        forall|j: int| 0 <= j < listing.len() && j != i ==> !(#[trigger] listing[j]).1,
    ensures
        next(PhaseModel::Listing { tag }, EventModel::Listed(listing), gated) == (
        PhaseModel::Probing { tag, root: Some(listing[i].0) },
        ActionModel::Probe { root: Some(listing[i].0) },
        ),
{
    lemma_one_dir(listing, i);
}

/// Relative paths of the files that a plan writes.
pub open spec fn planned_files(plan: Seq<PlannedEntry>) -> Set<Seq<Seq<char>>> {
    Set::new(
        |p: Seq<Seq<char>>|
            exists|k: int| 0 <= k < plan.len() && !plan[k].is_dir && #[trigger] path_view(plan[k].path) == p,
    )
}

/// Rewritten paths of the entries of an archive that are not directories.
pub open spec fn entry_files(entries: Seq<(Seq<char>, Seq<Seq<char>>, bool, Option<Seq<u8>>)>) -> Set<Seq<Seq<char>>> {
    Set::new(
        |p: Seq<Seq<char>>|
            exists|k: int| 0 <= k < entries.len() && !is_dir_name(entries[k].0) && #[trigger] entries[k].1 == p,
    )
}

/// The directory reached from `base` by following `comps`: `..` goes up one
/// level (not above the top), `.` and empty components stay, any other
/// component goes down into it.
pub open spec fn walk(base: Seq<Seq<char>>, comps: Seq<Seq<char>>) -> Seq<Seq<char>>
    decreases comps.len(),
{
    if comps.len() == 0 {
        base
    } else {
        let c = comps[0];
        let next = if c == seq!['.', '.'] {
            if base.len() > 0 {
                base.drop_last()
            } else {
                base
            }
        } else if c.len() == 0 || c == seq!['.'] {
            base
        } else {
            base.push(c)
        };
        walk(next, comps.drop_first())
    }
}

/// `p` lies inside the directory `dest`.
pub open spec fn inside(dest: Seq<Seq<char>>, p: Seq<Seq<char>>) -> bool {
    dest.len() <= p.len() && p.subrange(0, dest.len() as int) == dest
}

proof fn lemma_walk_normal(base: Seq<Seq<char>>, comps: Seq<Seq<char>>)
    requires
        forall|j: int| 0 <= j < comps.len() ==> normal_component(#[trigger] comps[j]),
    ensures
        walk(base, comps) == base + comps,
    decreases comps.len(),
{
    if comps.len() > 0 {
        let c = comps[0];
        assert(normal_component(c));
        assert(c.len() > 0);
        let rest = comps.drop_first();
        assert forall|j: int| 0 <= j < rest.len() implies normal_component(#[trigger] rest[j]) by {
            assert(rest[j] == comps[j + 1]);
        }
        lemma_walk_normal(base.push(c), rest);
        assert(base.push(c) + rest =~= base + comps);
    }
}

/// Extracting an archive writes files at exactly the paths of its entries
/// that are not directories, and every path it creates, followed from the
/// destination directory, stays inside it.
pub proof fn lemma_extraction_is_confined(
    entries: Seq<(Seq<char>, Seq<Seq<char>>, bool, Option<Seq<u8>>)>,
    plan: Seq<PlannedEntry>,
    dest: Seq<Seq<char>>,
)
    requires
        plan_matches(entries, plan),
    ensures
        planned_files(plan) == entry_files(entries),
        forall|k: int|
            0 <= k < plan.len() ==> inside(dest, #[trigger] walk(dest, path_view(plan[k].path))),
{
    assert forall|p: Seq<Seq<char>>| planned_files(plan).contains(p) implies entry_files(entries).contains(p) by {
        let k = choose|k: int| 0 <= k < plan.len() && !plan[k].is_dir && #[trigger] path_view(plan[k].path) == p;
        assert(entries[k].1 == p);
    }
    assert forall|p: Seq<Seq<char>>| entry_files(entries).contains(p) implies planned_files(plan).contains(p) by {
        let k = choose|k: int| 0 <= k < entries.len() && !is_dir_name(entries[k].0) && #[trigger] entries[k].1 == p;
        assert(path_view(plan[k].path) == p);
    }
    assert(planned_files(plan) =~= entry_files(entries));
    assert forall|k: int| 0 <= k < plan.len() implies inside(dest, #[trigger] walk(dest, path_view(plan[k].path))) by {
        let comps = path_view(plan[k].path);
        assert forall|j: int| 0 <= j < comps.len() implies normal_component(#[trigger] comps[j]) by {
            assert(comps[j] == plan[k].path@[j]@);
        }
        lemma_walk_normal(dest, comps);
        assert((dest + comps).subrange(0, dest.len() as int) =~= dest);
    }
}

} // verus!
