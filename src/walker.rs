use vstd::prelude::*;

verus! {

/// The deepest level that the walk lists; the root is level zero.
pub const MAX_DEPTH: usize = 100;

/// What a directory listing found at one of its entries.
#[derive(Clone, Copy, Debug, PartialEq, Eq, Structural)]
pub enum EntryKind {
    /// A regular file.
    File,
    /// A directory.
    Dir,
    /// Neither, such as a broken link or a special file.
    Other,
    /// An entry that the listing could not read.
    Unreadable,
}

/// A failure met during the walk. None of them stops the walk.
#[derive(Clone, Copy, Debug, PartialEq, Eq, Structural)]
pub enum WalkError {
    /// A directory could not be listed.
    ListFailed,
    /// An entry of a directory could not be read.
    EntryFailed,
    /// A directory lies deeper than [`MAX_DEPTH`].
    DepthExceeded,
}

/// One entry of a directory listing.
pub struct DirEntry {
    pub path: String,
    pub kind: EntryKind,
}

impl DirEntry {
    pub fn new(path: String, kind: EntryKind) -> (r: DirEntry)
        ensures
            r.path == path,
            r.kind == kind,
    {
        DirEntry { path, kind }
    }
}

/// What the walk asks of its driver next.
pub enum WalkStep {
    /// List this directory and hand the result to [`Walker::listed`].
    List(String),
    /// Visit this regular file.
    VisitFile(String),
    /// Decide whether to descend into this directory, and hand the answer
    /// to [`Walker::admitted`].
    EnterDir(String),
    /// Report this failure at this path.
    Report(String, WalkError),
    /// Nothing to do: an entry of another kind, or the end of a directory.
    Pass,
    /// The walk is over.
    Done,
}

/// A [`WalkStep`] with its paths as character sequences.
pub enum StepView {
    List(Seq<char>),
    VisitFile(Seq<char>),
    EnterDir(Seq<char>),
    Report(Seq<char>, WalkError),
    Pass,
    Done,
}

impl View for WalkStep {
    type V = StepView;

    open spec fn view(&self) -> StepView {
        match self {
            WalkStep::List(p) => StepView::List(p@),
            WalkStep::VisitFile(p) => StepView::VisitFile(p@),
            WalkStep::EnterDir(p) => StepView::EnterDir(p@),
            WalkStep::Report(p, e) => StepView::Report(p@, *e),
            WalkStep::Pass => StepView::Pass,
            WalkStep::Done => StepView::Done,
        }
    }
}

/// A directory being walked: its path, its listing, and how many entries
/// of the listing have been dealt with.
pub struct FrameView {
    pub dir: Seq<char>,
    pub entries: Seq<(Seq<char>, EntryKind)>,
    pub next: int,
}

/// What the walk waits for.
pub enum PhaseView {
    /// Nothing: the next entry can be taken.
    Ready,
    /// The listing of this directory.
    Listing(Seq<char>),
    /// The decision whether to descend into this directory.
    Admitting(Seq<char>),
    /// That this failure be reported.
    Reporting(Seq<char>, WalkError),
    /// Nothing more: the walk is over.
    Finished,
}

/// The state of a walk: the directories entered and not yet finished,
/// outermost first, and what the walk waits for.
pub struct WalkView {
    pub frames: Seq<FrameView>,
    pub phase: PhaseView,
}

impl WalkView {
    /// The depth is bounded: at most `MAX_DEPTH + 1` directories are open at
    /// once (levels `0..=MAX_DEPTH`), and a directory is listed only while
    /// fewer than that are open.
    pub open spec fn wf(self) -> bool {
        &&& self.frames.len() <= MAX_DEPTH + 1
        &&& (self.phase is Listing ==> self.frames.len() <= MAX_DEPTH)
        &&& forall|i: int|
            0 <= i < self.frames.len() ==> 0 <= #[trigger] self.frames[i].next
                <= self.frames[i].entries.len()
    }

    /// The state and the request that follow the next entry of the
    /// innermost open directory.
    pub open spec fn take_entry(self) -> (WalkView, StepView) {
        let top = self.frames.last();
        let e = top.entries[top.next];
        let frames = self.frames.update(
            self.frames.len() - 1,
            FrameView { next: top.next + 1, ..top },
        );
        match e.1 {
            EntryKind::File => (WalkView { frames, phase: PhaseView::Ready }, StepView::VisitFile(e.0)),
            EntryKind::Dir => (
                WalkView { frames, phase: PhaseView::Admitting(e.0) },
                StepView::EnterDir(e.0),
            ),
            EntryKind::Other => (WalkView { frames, phase: PhaseView::Ready }, StepView::Pass),
            EntryKind::Unreadable => (
                WalkView { frames, phase: PhaseView::Ready },
                StepView::Report(top.dir, WalkError::EntryFailed),
            ),
        }
    }

    /// The state and the request that follow this state: a pending request
    /// is asked again, a pending failure is reported, and otherwise the
    /// innermost open directory gives its next entry, or is closed when it
    /// has none left.
    pub open spec fn step(self) -> (WalkView, StepView) {
        match self.phase {
            PhaseView::Listing(p) => (self, StepView::List(p)),
            PhaseView::Admitting(p) => (self, StepView::EnterDir(p)),
            PhaseView::Reporting(p, e) => (
                WalkView { phase: PhaseView::Ready, ..self },
                StepView::Report(p, e),
            ),
            PhaseView::Finished => (self, StepView::Done),
            PhaseView::Ready => if self.frames.len() == 0 {
                (WalkView { phase: PhaseView::Finished, ..self }, StepView::Done)
            } else if self.frames.last().next >= self.frames.last().entries.len() {
                let rest = self.frames.drop_last();
                if rest.len() == 0 {
                    (WalkView { frames: rest, phase: PhaseView::Finished }, StepView::Done)
                } else {
                    (WalkView { frames: rest, phase: PhaseView::Ready }, StepView::Pass)
                }
            } else {
                self.take_entry()
            },
        }
    }

    /// The state after the decision on the directory waited for: refused,
    /// the walk goes on with the next entry; admitted, the directory is
    /// listed, unless it lies deeper than `MAX_DEPTH`, which is reported.
    pub open spec fn after_admission(self, descend: bool) -> WalkView {
        match self.phase {
            PhaseView::Admitting(p) => if !descend {
                WalkView { phase: PhaseView::Ready, ..self }
            } else if self.frames.len() > MAX_DEPTH {
                WalkView { phase: PhaseView::Reporting(p, WalkError::DepthExceeded), ..self }
            } else {
                WalkView { phase: PhaseView::Listing(p), ..self }
            },
            _ => self,
        }
    }

    /// The state after the listing waited for: a failed listing is
    /// reported; otherwise the directory is opened with its entries.
    pub open spec fn after_listing(self, listing: Option<Seq<(Seq<char>, EntryKind)>>) -> WalkView {
        match self.phase {
            PhaseView::Listing(p) => match listing {
                None => WalkView { phase: PhaseView::Reporting(p, WalkError::ListFailed), ..self },
                Some(entries) => WalkView {
                    frames: self.frames.push(FrameView { dir: p, entries, next: 0 }),
                    phase: PhaseView::Ready,
                },
            },
            _ => self,
        }
    }
}

/// The path and kind of each entry of a listing.
pub open spec fn entry_views(v: Seq<DirEntry>) -> Seq<(Seq<char>, EntryKind)> {
    v.map_values(|e: DirEntry| (e.path@, e.kind))
}

struct Frame {
    dir: String,
    entries: Vec<DirEntry>,
    next: usize,
}

impl Frame {
    spec fn view(&self) -> FrameView {
        FrameView { dir: self.dir@, entries: entry_views(self.entries@), next: self.next as int }
    }
}

enum Phase {
    Ready,
    Listing(String),
    Admitting(String),
    Reporting(String, WalkError),
    Finished,
}

impl Phase {
    spec fn view(&self) -> PhaseView {
        match self {
            Phase::Ready => PhaseView::Ready,
            Phase::Listing(p) => PhaseView::Listing(p@),
            Phase::Admitting(p) => PhaseView::Admitting(p@),
            Phase::Reporting(p, e) => PhaseView::Reporting(p@, *e),
            Phase::Finished => PhaseView::Finished,
        }
    }
}

/// A depth-first, pre-order walk of a directory tree, driven from outside.
///
/// The walker makes every decision of the walk and asks its driver, one
/// [`WalkStep`] at a time, for what it cannot do itself: list a directory,
/// visit a file, decide whether to descend into a directory, report a
/// failure. Failures never stop the walk, and no directory deeper than
/// [`MAX_DEPTH`] is listed, whatever the shape of the tree.
pub struct Walker {
    frames: Vec<Frame>,
    phase: Phase,
}

impl View for Walker {
    type V = WalkView;

    closed spec fn view(&self) -> WalkView {
        WalkView { frames: self.frames@.map_values(|f: Frame| f.view()), phase: self.phase.view() }
    }
}

impl Walker {
    /// A walk of the tree under `root`, which first asks for its listing.
    pub fn new(root: String) -> (r: Walker)
        ensures
            r@.wf(),
            r@.frames.len() == 0,
            r@.phase == PhaseView::Listing(root@),
    {
        let r = Walker { frames: Vec::new(), phase: Phase::Listing(root) };
        assert(r@.frames =~= Seq::<FrameView>::empty());
        r
    }

    /// The next request of the walk, as [`WalkView::step`] describes it.
    pub fn next_step(&mut self) -> (r: WalkStep)
        requires
            old(self)@.wf(),
        ensures
            final(self)@.wf(),
            (final(self)@, r@) == old(self)@.step(),
    {
        match &self.phase {
            Phase::Listing(p) => WalkStep::List(p.clone()),
            Phase::Admitting(p) => WalkStep::EnterDir(p.clone()),
            Phase::Reporting(p, e) => {
                let r = WalkStep::Report(p.clone(), *e);
                self.phase = Phase::Ready;
                r
            },
            Phase::Finished => WalkStep::Done,
            Phase::Ready => self.advance(),
        }
    }

    fn advance(&mut self) -> (r: WalkStep)
        requires
            old(self)@.wf(),
            old(self)@.phase == PhaseView::Ready,
        ensures
            final(self)@.wf(),
            (final(self)@, r@) == old(self)@.step(),
    {
        let ghost v = self@;
        if self.frames.len() == 0 {
            self.phase = Phase::Finished;
            assert(self@ =~= WalkView { phase: PhaseView::Finished, ..v });
            return WalkStep::Done;
        }
        let mut top = self.frames.pop().unwrap();
        assert(self.frames@.map_values(|f: Frame| f.view()) =~= v.frames.drop_last());
        if top.next >= top.entries.len() {
            if self.frames.len() == 0 {
                self.phase = Phase::Finished;
                WalkStep::Done
            } else {
                WalkStep::Pass
            }
        } else {
            let i = top.next;
            let path = top.entries[i].path.clone();
            let kind = top.entries[i].kind;
            let dir = top.dir.clone();
            top.next = i + 1;
            self.frames.push(top);
            assert(self.frames@.map_values(|f: Frame| f.view()) =~= v.frames.update(
                v.frames.len() - 1,
                FrameView { next: v.frames.last().next + 1, ..v.frames.last() },
            ));
            match kind {
                EntryKind::File => WalkStep::VisitFile(path),
                EntryKind::Dir => {
                    self.phase = Phase::Admitting(path.clone());
                    WalkStep::EnterDir(path)
                },
                EntryKind::Other => WalkStep::Pass,
                EntryKind::Unreadable => WalkStep::Report(dir, WalkError::EntryFailed),
            }
        }
    }

    /// Hands the walk the decision on the directory that it asked about, as
    /// [`WalkView::after_admission`] describes it.
    pub fn admitted(&mut self, descend: bool)
        requires
            old(self)@.wf(),
        ensures
            final(self)@.wf(),
            final(self)@ == old(self)@.after_admission(descend),
    {
        let ghost v = self@;
        if let Phase::Admitting(p) = &self.phase {
            let p = p.clone();
            if !descend {
                self.phase = Phase::Ready;
            } else if self.frames.len() > MAX_DEPTH {
                self.phase = Phase::Reporting(p, WalkError::DepthExceeded);
            } else {
                self.phase = Phase::Listing(p);
            }
            assert(self@.frames =~= v.frames);
        }
    }

    /// Hands the walk the listing that it asked for, or `None` where the
    /// directory could not be listed, as [`WalkView::after_listing`]
    /// describes it.
    pub fn listed(&mut self, listing: Option<Vec<DirEntry>>)
        requires
            old(self)@.wf(),
        ensures
            final(self)@.wf(),
            final(self)@ == old(self)@.after_listing(
                match listing {
                    Some(v) => Some(entry_views(v@)),
                    None => None,
                },
            ),
    {
        let ghost v = self@;
        if let Phase::Listing(p) = &self.phase {
            let p = p.clone();
            match listing {
                None => {
                    self.phase = Phase::Reporting(p, WalkError::ListFailed);
                    assert(self@.frames =~= v.frames);
                },
                Some(entries) => {
                    self.frames.push(Frame { dir: p, entries, next: 0 });
                    self.phase = Phase::Ready;
                    assert(self@.frames =~= v.frames.push(
                        FrameView { dir: self.frames@.last().dir@, entries: entry_views(self.frames@.last().entries@), next: 0 },
                    ));
                },
            }
        }
    }
}

/// The walk is bounded in depth, whatever the tree and whatever its driver
/// hands in: every move keeps at most `MAX_DEPTH + 1` directories open. A
/// directory admitted below the deepest level is not listed: the walk
/// reports it as too deep, and then goes on with the next entry of its
/// parent, which stays open, so that its siblings are still walked.
pub proof fn lemma_depth_bound(
    v: WalkView,
    descend: bool,
    listing: Option<Seq<(Seq<char>, EntryKind)>>,
)
    requires
        v.wf(),
    ensures
        v.step().0.wf(),
        v.after_admission(descend).wf(),
        v.after_listing(listing).wf(),
        v.phase is Admitting && v.frames.len() > MAX_DEPTH ==> {
            let w = v.after_admission(true);
            &&& w == WalkView {
                phase: PhaseView::Reporting(v.phase->Admitting_0, WalkError::DepthExceeded),
                ..v
            }
            &&& w.step() == (
                WalkView { phase: PhaseView::Ready, ..v },
                StepView::Report(v.phase->Admitting_0, WalkError::DepthExceeded),
            )
        },
{
    if v.phase is Ready && v.frames.len() > 0 && v.frames.last().next
        < v.frames.last().entries.len() {
        let w = v.take_entry().0;
        assert forall|i: int| 0 <= i < w.frames.len() implies 0 <= #[trigger] w.frames[i].next
            <= w.frames[i].entries.len() by {
            if i < v.frames.len() - 1 {
                assert(w.frames[i] == v.frames[i]);
            }
        }
    }
}

} // verus!
