use vstd::prelude::*;
use crate::walker::{EntryKind, FrameView, PhaseView, StepView, WalkError, WalkView, MAX_DEPTH};

verus! {

/// A directory tree as a walk sees it: the listing of each directory that
/// can be listed; a directory that is not a key cannot be listed.
pub type Listings = Map<Seq<char>, Seq<(Seq<char>, EntryKind)>>;

/// What remains of a walk: the rounds it takes, the files it visits, and
/// the directories it asks about.
pub struct Tally {
    pub steps: nat,
    pub files: nat,
    pub asks: nat,
}

pub open spec fn tally(steps: nat, files: nat, asks: nat) -> Tally {
    Tally { steps, files, asks }
}

pub open spec fn plus(a: Tally, b: Tally) -> Tally {
    Tally { steps: a.steps + b.steps, files: a.files + b.files, asks: a.asks + b.asks }
}

/// What the entries `es[i..]` of a directory at level `depth` bring to a
/// walk: one round each; a file is visited; a directory is asked about and,
/// where admitted, is reported as too deep below `MAX_DEPTH`, or is listed,
/// walked and closed, or is reported as unlistable.
pub open spec fn entries_tally(
    fs: Listings,
    adm: spec_fn(Seq<char>) -> bool,
    es: Seq<(Seq<char>, EntryKind)>,
    i: int,
    depth: int,
) -> Tally
    decreases MAX_DEPTH + 1 - depth, es.len() - i,
{
    if i < 0 || i >= es.len() || depth < 0 || depth > MAX_DEPTH {
        tally(0, 0, 0)
    } else {
        let e = es[i];
        let here = match e.1 {
            EntryKind::File => tally(1, 1, 0),
            EntryKind::Dir => plus(
                tally(1, 0, 1),
                if !adm(e.0) {
                    tally(0, 0, 0)
                } else if depth + 1 > MAX_DEPTH {
                    tally(1, 0, 0)
                } else if fs.contains_key(e.0) {
                    plus(tally(2, 0, 0), entries_tally(fs, adm, fs[e.0], 0, depth + 1))
                } else {
                    tally(2, 0, 0)
                },
            ),
            _ => tally(1, 0, 0),
        };
        plus(here, entries_tally(fs, adm, es, i + 1, depth))
    }
}

/// What the open directories bring: the rest of each one's entries, and a
/// round to close it.
pub open spec fn frames_tally(
    fs: Listings,
    adm: spec_fn(Seq<char>) -> bool,
    frames: Seq<FrameView>,
) -> Tally
    decreases frames.len(),
{
    if frames.len() == 0 {
        tally(0, 0, 0)
    } else {
        let top = frames.last();
        plus(
            frames_tally(fs, adm, frames.drop_last()),
            plus(entries_tally(fs, adm, top.entries, top.next, frames.len() - 1), tally(1, 0, 0)),
        )
    }
}

/// What remains once nothing is waited for.
pub open spec fn ready_tally(
    fs: Listings,
    adm: spec_fn(Seq<char>) -> bool,
    frames: Seq<FrameView>,
) -> Tally {
    if frames.len() == 0 {
        tally(1, 0, 0)
    } else {
        frames_tally(fs, adm, frames)
    }
}

/// What remains once the listing of `p` has been handed in.
pub open spec fn listed_tally(
    fs: Listings,
    adm: spec_fn(Seq<char>) -> bool,
    p: Seq<char>,
    frames: Seq<FrameView>,
) -> Tally {
    if fs.contains_key(p) {
        plus(
            plus(entries_tally(fs, adm, fs[p], 0, frames.len() as int), tally(1, 0, 0)),
            frames_tally(fs, adm, frames),
        )
    } else {
        plus(tally(1, 0, 0), ready_tally(fs, adm, frames))
    }
}

/// What remains of a walk in state `v`.
pub open spec fn state_tally(fs: Listings, adm: spec_fn(Seq<char>) -> bool, v: WalkView) -> Tally {
    match v.phase {
        PhaseView::Finished => tally(0, 0, 0),
        PhaseView::Ready => ready_tally(fs, adm, v.frames),
        PhaseView::Reporting(_, _) => plus(tally(1, 0, 0), ready_tally(fs, adm, v.frames)),
        PhaseView::Listing(p) => plus(tally(1, 0, 0), listed_tally(fs, adm, p, v.frames)),
        PhaseView::Admitting(p) => plus(
            tally(1, 0, 1),
            if !adm(p) {
                ready_tally(fs, adm, v.frames)
            } else if v.frames.len() > MAX_DEPTH {
                plus(tally(1, 0, 0), ready_tally(fs, adm, v.frames))
            } else {
                plus(tally(1, 0, 0), listed_tally(fs, adm, p, v.frames))
            },
        ),
    }
}

/// The state once a driver has answered what the walk waits for: the
/// listing from `fs`, the decision from `adm`.
pub open spec fn answer(v: WalkView, fs: Listings, adm: spec_fn(Seq<char>) -> bool) -> WalkView {
    match v.phase {
        PhaseView::Listing(p) => v.after_listing(
            if fs.contains_key(p) {
                Some(fs[p])
            } else {
                None
            },
        ),
        PhaseView::Admitting(p) => v.after_admission(adm(p)),
        _ => v,
    }
}

/// One round of a driver: take the next request, and answer it.
pub open spec fn round(v: WalkView, fs: Listings, adm: spec_fn(Seq<char>) -> bool) -> (
    WalkView,
    StepView,
) {
    let (w, s) = v.step();
    (answer(w, fs, adm), s)
}

/// At most `fuel` rounds from `v`: whether the walk is then over, and how
/// many files were visited and directories asked about on the way.
pub open spec fn run(
    v: WalkView,
    fs: Listings,
    adm: spec_fn(Seq<char>) -> bool,
    fuel: nat,
) -> (bool, nat, nat)
    decreases fuel,
{
    if v.phase is Finished {
        (true, 0, 0)
    } else if fuel == 0 {
        (false, 0, 0)
    } else {
        let (w, s) = round(v, fs, adm);
        let r = run(w, fs, adm, (fuel - 1) as nat);
        (
            r.0,
            r.1 + if s is VisitFile {
                1nat
            } else {
                0nat
            },
            r.2 + if s is EnterDir {
                1nat
            } else {
                0nat
            },
        )
    }
}

/// One round lowers what remains by exactly that round, and by what it
/// visited and asked.
pub open spec fn round_balanced(v: WalkView, fs: Listings, adm: spec_fn(Seq<char>) -> bool) -> bool {
    let (w, s) = round(v, fs, adm);
    let before = state_tally(fs, adm, v);
    let after = state_tally(fs, adm, w);
    &&& before.steps == after.steps + 1
    &&& before.files == after.files + if s is VisitFile {
        1nat
    } else {
        0nat
    }
    &&& before.asks == after.asks + if s is EnterDir {
        1nat
    } else {
        0nat
    }
}

proof fn lemma_round_listing(v: WalkView, fs: Listings, adm: spec_fn(Seq<char>) -> bool)
    requires
        v.wf(),
        v.phase is Listing,
    ensures
        round_balanced(v, fs, adm),
{
    let p = v.phase->Listing_0;
    let n = v.frames.len();
    if fs.contains_key(p) {
        let pushed = v.frames.push(FrameView { dir: p, entries: fs[p], next: 0 });
        assert(pushed.drop_last() =~= v.frames);
        assert(round(v, fs, adm).0 == WalkView { frames: pushed, phase: PhaseView::Ready });
        assert(frames_tally(fs, adm, pushed) == plus(
            frames_tally(fs, adm, v.frames),
            plus(entries_tally(fs, adm, fs[p], 0, n as int), tally(1, 0, 0)),
        ));
    } else {
        assert(round(v, fs, adm).0 == WalkView {
            phase: PhaseView::Reporting(p, WalkError::ListFailed),
            ..v
        });
    }
}

proof fn lemma_round_entry(v: WalkView, fs: Listings, adm: spec_fn(Seq<char>) -> bool)
    requires
        v.wf(),
        v.phase is Ready,
        v.frames.len() > 0,
        v.frames.last().next < v.frames.last().entries.len(),
    ensures
        round_balanced(v, fs, adm),
{
    let n = v.frames.len();
    let top = v.frames.last();
    let frames2 = v.frames.update(n - 1, FrameView { next: top.next + 1, ..top });
    assert(frames2.drop_last() =~= v.frames.drop_last());
    assert(frames2.last() == FrameView { next: top.next + 1, ..top });
    assert(frames_tally(fs, adm, v.frames) == plus(
        frames_tally(fs, adm, v.frames.drop_last()),
        plus(entries_tally(fs, adm, top.entries, top.next, n - 1), tally(1, 0, 0)),
    ));
    assert(frames_tally(fs, adm, frames2) == plus(
        frames_tally(fs, adm, v.frames.drop_last()),
        plus(entries_tally(fs, adm, top.entries, top.next + 1, n - 1), tally(1, 0, 0)),
    ));
    let e = top.entries[top.next];
    if e.1 == EntryKind::Dir && adm(e.0) && n <= MAX_DEPTH && fs.contains_key(e.0) {
        let pushed = frames2.push(FrameView { dir: e.0, entries: fs[e.0], next: 0 });
        assert(pushed.drop_last() =~= frames2);
    }
}

proof fn lemma_round_close(v: WalkView, fs: Listings, adm: spec_fn(Seq<char>) -> bool)
    requires
        v.wf(),
        v.phase is Ready,
        v.frames.len() > 0,
        v.frames.last().next >= v.frames.last().entries.len(),
    ensures
        round_balanced(v, fs, adm),
{
    let top = v.frames.last();
    let rest = v.frames.drop_last();
    assert(entries_tally(fs, adm, top.entries, top.next, v.frames.len() - 1) == tally(0, 0, 0));
    assert(frames_tally(fs, adm, v.frames) == plus(
        frames_tally(fs, adm, rest),
        plus(tally(0, 0, 0), tally(1, 0, 0)),
    ));
    if rest.len() == 0 {
        assert(round(v, fs, adm).0 == WalkView { frames: rest, phase: PhaseView::Finished });
    } else {
        assert(round(v, fs, adm).0 == WalkView { frames: rest, phase: PhaseView::Ready });
    }
}

proof fn lemma_round_admitting(v: WalkView, fs: Listings, adm: spec_fn(Seq<char>) -> bool)
    requires
        v.wf(),
        v.phase is Admitting,
    ensures
        round_balanced(v, fs, adm),
{
    let p = v.phase->Admitting_0;
    assert(round(v, fs, adm).1 == StepView::EnterDir(p));
    if !adm(p) {
        assert(round(v, fs, adm).0 == WalkView { phase: PhaseView::Ready, ..v });
    } else if v.frames.len() > MAX_DEPTH {
        assert(round(v, fs, adm).0 == WalkView {
            phase: PhaseView::Reporting(p, WalkError::DepthExceeded),
            ..v
        });
    } else {
        assert(round(v, fs, adm).0 == WalkView { phase: PhaseView::Listing(p), ..v });
    }
}

proof fn lemma_round(v: WalkView, fs: Listings, adm: spec_fn(Seq<char>) -> bool)
    requires
        v.wf(),
        !(v.phase is Finished),
    ensures
        round(v, fs, adm).0.wf(),
        round_balanced(v, fs, adm),
{
    let (w, s) = v.step();
    crate::walker::lemma_depth_bound(v, true, None);
    match w.phase {
        PhaseView::Listing(p) => {
            crate::walker::lemma_depth_bound(
                w,
                true,
                if fs.contains_key(p) {
                    Some(fs[p])
                } else {
                    None
                },
            );
        },
        PhaseView::Admitting(p) => {
            crate::walker::lemma_depth_bound(w, adm(p), None);
        },
        _ => {},
    }
    if v.phase is Listing {
        lemma_round_listing(v, fs, adm);
    } else if v.phase is Admitting {
        lemma_round_admitting(v, fs, adm);
    } else if v.phase is Ready && v.frames.len() > 0 {
        if v.frames.last().next < v.frames.last().entries.len() {
            lemma_round_entry(v, fs, adm);
        } else {
            lemma_round_close(v, fs, adm);
        }
    }
}

proof fn lemma_run(v: WalkView, fs: Listings, adm: spec_fn(Seq<char>) -> bool)
    requires
        v.wf(),
    ensures
        run(v, fs, adm, state_tally(fs, adm, v).steps) == (
            true,
            state_tally(fs, adm, v).files,
            state_tally(fs, adm, v).asks,
        ),
    decreases state_tally(fs, adm, v).steps,
{
    if !(v.phase is Finished) {
        lemma_round(v, fs, adm);
        lemma_run(round(v, fs, adm).0, fs, adm);
    }
}

/// A walk is complete and visits nothing twice. Driven from its start by
/// answering each listing from `fs` and each decision from `adm`, the walk
/// of the tree under `root` comes to its end, having visited exactly as
/// many files, and asked about exactly as many directories, as the listed
/// directories hold, counting those below each admitted directory down to
/// `MAX_DEPTH`, and none below a refused one.
pub proof fn lemma_walk_complete(root: Seq<char>, fs: Listings, adm: spec_fn(Seq<char>) -> bool)
    ensures
        ({
            let start = WalkView { frames: seq![], phase: PhaseView::Listing(root) };
            let t = if fs.contains_key(root) {
                entries_tally(fs, adm, fs[root], 0, 0)
            } else {
                tally(0, 0, 0)
            };
            run(start, fs, adm, state_tally(fs, adm, start).steps) == (true, t.files, t.asks)
        }),
{
    let start = WalkView { frames: seq![], phase: PhaseView::Listing(root) };
    lemma_run(start, fs, adm);
}

} // verus!
