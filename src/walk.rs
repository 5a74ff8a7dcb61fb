//! The walk over a directory tree, as a machine that decides and lets its
//! caller act.
//!
//! Each call of [`Walker::step`] takes what the caller saw (an [`Event`])
//! and returns what to do next (an [`Action`]) about the current directory,
//! the one that [`Walker::current`] names. Directories are entered depth
//! first, and a project directory is visited before its subdirectories. The
//! root gets the whole depth budget and a directory with budget `b` hands
//! `b - 1` to its subdirectories; a directory with budget zero is visited
//! but not listed, so directories nested down to the depth budget, and no
//! deeper, are visited.

use vstd::prelude::*;
use crate::command::{CommandSpec, RunError};

verus! {

/// One item of a directory listing.
pub enum Entry<P, E> {
    /// A subdirectory, by its path.
    Dir(P),
    /// Anything that is not a directory.
    Other,
    /// An item that could not be read.
    Failed(E),
}

/// What the caller saw, in answer to the last action.
pub enum Event<P, E> {
    /// Answer to [`Action::Probe`]: whether the manifest file is there.
    Probed(bool),
    /// Answer to [`Action::Visit`]: how the visit went.
    Visited(Result<(), E>),
    /// Answer to [`Action::List`]: the listing, or why there is none.
    Listed(Result<Vec<Entry<P, E>>, E>),
    /// Answer to [`Action::Warn`], [`Action::Proceed`], and to an
    /// [`Action::Visit`] that only announces.
    Ack,
}

/// What the caller is to do next.
#[derive(Debug, PartialEq, Eq)]
pub enum Action<E> {
    /// Tell whether the current directory holds the manifest file.
    Probe,
    /// The current directory is a project: name it when `announce`, run the
    /// command in it when `execute`. A run is answered with
    /// [`Event::Visited`], a visit without a run with [`Event::Ack`].
    Visit { announce: bool, execute: bool },
    /// List the current directory.
    List,
    /// A subdirectory failed with this error; report it, the walk goes on.
    Warn(E),
    /// Nothing to do outside; step again.
    Proceed,
    /// The walk is over, with this result.
    Finish(Result<(), E>),
}

/// What the walker waits for.
#[derive(Clone, Copy, Debug, PartialEq, Eq, Structural)]
pub enum Phase {
    /// An answer to [`Action::Probe`].
    Probing,
    /// The result of the run that [`Action::Visit`] asked for.
    Visiting,
    /// An acknowledgement of a visit that was only announced.
    Announced,
    /// An answer to [`Action::List`].
    Listing,
    /// An acknowledgement, to handle the next pending item.
    Walking,
    /// Nothing: the walk is over.
    Done,
}

/// A directory being walked: its path, its depth budget, and the items of
/// its listing that are not handled yet.
struct Frame<P, E> {
    dir: P,
    budget: usize,
    pending: Vec<Entry<P, E>>,
}

/// A directory being walked, with its listing as a sequence.
pub struct FrameView<P, E> {
    pub dir: P,
    pub budget: nat,
    pub pending: Seq<Entry<P, E>>,
}

impl<P, E> View for Frame<P, E> {
    type V = FrameView<P, E>;

    closed spec fn view(&self) -> FrameView<P, E> {
        FrameView { dir: self.dir, budget: self.budget as nat, pending: self.pending@ }
    }
}

/// The walker's state: the directories entered and not yet left, the
/// outermost first, and the policy of the walk.
pub struct Walker<P, E> {
    stack: Vec<Frame<P, E>>,
    phase: Phase,
    depth: usize,
    verbose: bool,
    dry_run: bool,
    exit_on_error: bool,
}

/// The walker's state, with each directory's listing as a sequence and the
/// depth budget as a number.
pub struct WalkView<P, E> {
    pub stack: Seq<FrameView<P, E>>,
    pub phase: Phase,
    pub depth: nat,
    pub verbose: bool,
    pub dry_run: bool,
    pub exit_on_error: bool,
}

impl<P, E> View for Walker<P, E> {
    type V = WalkView<P, E>;

    closed spec fn view(&self) -> WalkView<P, E> {
        WalkView {
            stack: self.stack@.map_values(|f: Frame<P, E>| f@),
            phase: self.phase,
            depth: self.depth as nat,
            verbose: self.verbose,
            dry_run: self.dry_run,
            exit_on_error: self.exit_on_error,
        }
    }
}

impl<E> Action<E> {
    /// The action makes the caller look into or run something in the
    /// current directory.
    pub open spec fn touches(self) -> bool {
        match self {
            Action::Probe | Action::Visit { .. } | Action::List => true,
            _ => false,
        }
    }

    /// The action launches the command.
    pub open spec fn executes(self) -> bool {
        match self {
            Action::Visit { execute, .. } => execute,
            _ => false,
        }
    }

    /// The same action in a dry run: a visit is announced, never executed.
    pub open spec fn dry(self) -> Action<E> {
        match self {
            Action::Visit { .. } => Action::Visit { announce: true, execute: false },
            _ => self,
        }
    }
}

impl<P, E> WalkView<P, E> {
    /// The nesting depth of the current directory below the root.
    pub open spec fn nesting(self) -> int {
        self.stack.len() - 1
    }

    /// Only the root and its entered descendants are on the stack, each
    /// with the budget that its nesting leaves, and a directory with budget
    /// zero is never listed; the walk is over exactly when the stack is
    /// empty; a run is awaited only in a real run, an announcement only in a
    /// dry one.
    pub open spec fn wf(self) -> bool {
        &&& self.stack.len() <= self.depth + 1
        &&& (self.phase == Phase::Done <==> self.stack.len() == 0)
        &&& forall|i: int|
            0 <= i < self.stack.len() ==> #[trigger] self.stack[i].budget == self.depth - i
        &&& forall|i: int|
            0 <= i < self.stack.len() && #[trigger] self.stack[i].budget == 0
                ==> self.stack[i].pending.len() == 0
        &&& self.phase == Phase::Listing ==> self.stack.last().budget > 0
        &&& self.phase == Phase::Announced ==> self.dry_run
        &&& self.phase == Phase::Visiting ==> !self.dry_run
    }

    /// The state that a dry run is in where a real run is in `self`: a run
    /// awaited is an announcement acknowledged instead.
    pub open spec fn dry_view(self) -> WalkView<P, E> {
        WalkView {
            dry_run: true,
            phase: if self.phase == Phase::Visiting {
                Phase::Announced
            } else {
                self.phase
            },
            ..self
        }
    }

    /// The event answers the action that the walker waits on.
    pub open spec fn accepts(self, ev: Event<P, E>) -> bool {
        match ev {
            Event::Probed(_) => self.phase == Phase::Probing,
            Event::Visited(_) => self.phase == Phase::Visiting,
            Event::Listed(_) => self.phase == Phase::Listing,
            Event::Ack => self.phase == Phase::Walking || self.phase == Phase::Announced,
        }
    }

    /// The error, if any, with which `ev` makes the current directory fail.
    pub open spec fn failure(self, ev: Event<P, E>) -> Option<E> {
        match ev {
            Event::Visited(Err(e)) => Some(e),
            Event::Listed(Err(e)) => Some(e),
            Event::Ack => if self.phase == Phase::Walking && self.stack.len() > 0
                && self.stack.last().pending.len() > 0 {
                match self.stack.last().pending[0] {
                    Entry::Failed(e) => Some(e),
                    _ => None,
                }
            } else {
                None
            },
            _ => None,
        }
    }

    /// The current directory fails with `e`: it is left, and the failure
    /// ends the walk at the root or under `exit_on_error`; otherwise the
    /// parent reports it and goes on.
    pub open spec fn fail(self, e: E) -> (WalkView<P, E>, Action<E>) {
        let rest = self.stack.drop_last();
        if rest.len() == 0 || self.exit_on_error {
            (WalkView { stack: Seq::empty(), phase: Phase::Done, ..self }, Action::Finish(Err(e)))
        } else {
            (WalkView { stack: rest, phase: Phase::Walking, ..self }, Action::Warn(e))
        }
    }

    /// Handles the next pending item of the current directory, or leaves it
    /// when none is left.
    pub open spec fn advance(self) -> (WalkView<P, E>, Action<E>) {
        let top = self.stack.last();
        if top.pending.len() == 0 {
            let rest = self.stack.drop_last();
            if rest.len() == 0 {
                (WalkView { stack: rest, phase: Phase::Done, ..self }, Action::Finish(Ok(())))
            } else {
                (WalkView { stack: rest, phase: Phase::Walking, ..self }, Action::Proceed)
            }
        } else {
            let stack1 = self.stack.update(
                self.stack.len() - 1,
                FrameView { pending: top.pending.drop_first(), ..top },
            );
            let w1 = WalkView { stack: stack1, ..self };
            match top.pending[0] {
                Entry::Dir(p) => (
                    WalkView {
                        stack: stack1.push(
                            FrameView { dir: p, budget: (top.budget - 1) as nat, pending: seq![] },
                        ),
                        phase: Phase::Probing,
                        ..self
                    },
                    Action::Probe,
                ),
                Entry::Other => (w1, Action::Proceed),
                Entry::Failed(e) => w1.fail(e),
            }
        }
    }

    /// Goes on after the current directory's visit, or after finding it is
    /// no project: lists it, or leaves it unlisted at budget zero.
    pub open spec fn list_or_leave(self) -> (WalkView<P, E>, Action<E>) {
        if self.stack.last().budget == 0 {
            (WalkView { phase: Phase::Walking, ..self }, Action::Proceed)
        } else {
            (WalkView { phase: Phase::Listing, ..self }, Action::List)
        }
    }

    /// The walker after `ev`, and the action it asks for.
    pub open spec fn next(self, ev: Event<P, E>) -> (WalkView<P, E>, Action<E>) {
        match ev {
            Event::Probed(m) => if !m {
                self.list_or_leave()
            } else if self.dry_run {
                (
                    WalkView { phase: Phase::Announced, ..self },
                    Action::Visit { announce: true, execute: false },
                )
            } else {
                (
                    WalkView { phase: Phase::Visiting, ..self },
                    Action::Visit { announce: self.verbose, execute: true },
                )
            },
            Event::Visited(r) => match r {
                Ok(_) => self.list_or_leave(),
                Err(e) => self.fail(e),
            },
            Event::Listed(r) => match r {
                Ok(v) => (
                    WalkView {
                        stack: self.stack.update(
                            self.stack.len() - 1,
                            FrameView { pending: v@, ..self.stack.last() },
                        ),
                        phase: Phase::Walking,
                        ..self
                    },
                    Action::Proceed,
                ),
                Err(e) => self.fail(e),
            },
            Event::Ack => if self.phase == Phase::Announced {
                self.list_or_leave()
            } else {
                self.advance()
            },
        }
    }
}

impl<P, E> Walker<P, E> {
    /// See [`WalkView::wf`].
    pub open spec fn wf(&self) -> bool {
        self@.wf()
    }

    /// Starts a walk at `root` with depth budget `depth`. A command with no
    /// tokens is refused before any directory is touched; otherwise the
    /// first action probes the root.
    pub fn start(root: P, depth: usize, cmd: &CommandSpec, verbose: bool, dry_run: bool) -> (r:
        Result<(Walker<P, E>, Action<E>), RunError>)
        ensures
            cmd.args@.len() == 0 <==> r is Err,
            r is Err ==> r == Err::<(Walker<P, E>, Action<E>), RunError>(RunError::EmptyCommand),
            r matches Ok((w, a)) ==> {
                &&& w.wf()
                &&& w@.depth == depth
                &&& w@.verbose == verbose
                &&& w@.dry_run == dry_run
                &&& w@.exit_on_error == cmd.exit_on_error
                &&& w@.phase == Phase::Probing
                &&& a == Action::<E>::Probe
                &&& w@.stack == seq![FrameView::<P, E> { dir: root, budget: depth as nat, pending: seq![] }]
            },
    {
        if cmd.args.len() == 0 {
            return Err(RunError::EmptyCommand);
        }
        let mut stack: Vec<Frame<P, E>> = Vec::new();
        stack.push(Frame { dir: root, budget: depth, pending: Vec::new() });
        let w = Walker {
            stack,
            phase: Phase::Probing,
            depth,
            verbose,
            dry_run,
            exit_on_error: cmd.exit_on_error,
        };
        assert(w@.stack =~= seq![
            FrameView::<P, E> { dir: w@.stack[0].dir, budget: depth as nat, pending: seq![] },
        ]);
        Ok((w, Action::Probe))
    }

    /// The directory that the last action is about.
    pub fn current(&self) -> (r: Option<&P>)
        requires
            self.wf(),
        ensures
            match r {
                Some(d) => self@.stack.len() > 0 && *d == self@.stack.last().dir,
                None => self@.stack.len() == 0,
            },
    {
        let n = self.stack.len();
        if n == 0 {
            None
        } else {
            Some(&self.stack[n - 1].dir)
        }
    }

    /// The walk is over.
    pub fn is_done(&self) -> (r: bool)
        ensures
            r == (self@.phase == Phase::Done),
    {
        match self.phase {
            Phase::Done => true,
            _ => false,
        }
    }

    /// The event answers the action that the walker waits on.
    pub fn accepts(&self, ev: &Event<P, E>) -> (r: bool)
        ensures
            r == self@.accepts(*ev),
    {
        match ev {
            Event::Probed(_) => self.phase == Phase::Probing,
            Event::Visited(_) => self.phase == Phase::Visiting,
            Event::Listed(_) => self.phase == Phase::Listing,
            Event::Ack => self.phase == Phase::Walking || self.phase == Phase::Announced,
        }
    }

    fn fail(&mut self, e: E) -> (a: Action<E>)
        requires
            old(self)@.stack.len() > 0,
        ensures
            (final(self)@, a) == old(self)@.fail(e),
    {
        let ghost old_stack = self@.stack;
        self.stack.pop();
        assert(self@.stack =~= old_stack.drop_last());
        if self.stack.len() == 0 || self.exit_on_error {
            self.stack.clear();
            self.phase = Phase::Done;
            assert(self@.stack =~= Seq::empty());
            Action::Finish(Err(e))
        } else {
            self.phase = Phase::Walking;
            Action::Warn(e)
        }
    }

    fn list_or_leave(&mut self) -> (a: Action<E>)
        requires
            old(self)@.stack.len() > 0,
        ensures
            (final(self)@, a) == old(self)@.list_or_leave(),
    {
        let n = self.stack.len();
        if self.stack[n - 1].budget == 0 {
            self.phase = Phase::Walking;
            Action::Proceed
        } else {
            self.phase = Phase::Listing;
            Action::List
        }
    }

    fn advance(&mut self) -> (a: Action<E>)
        requires
            old(self).wf(),
            old(self)@.stack.len() > 0,
        ensures
            (final(self)@, a) == old(self)@.advance(),
    {
        let ghost old_view = self@;
        let mut top = self.stack.pop().unwrap();
        assert(self@.stack =~= old_view.stack.drop_last());
        if top.pending.len() == 0 {
            if self.stack.len() == 0 {
                self.phase = Phase::Done;
                Action::Finish(Ok(()))
            } else {
                self.phase = Phase::Walking;
                Action::Proceed
            }
        } else {
            proof {
                let n = old_view.stack.len() - 1;
                assert(old_view.stack[n].budget > 0);
            }
            let x = top.pending.remove(0);
            let b = top.budget;
            self.stack.push(top);
            proof {
                let t = old_view.stack.last();
                assert(self@.stack =~= old_view.stack.update(
                    old_view.stack.len() - 1,
                    FrameView { pending: t.pending.drop_first(), ..t },
                ));
            }
            match x {
                Entry::Dir(p) => {
                    let ghost s1 = self@.stack;
                    self.stack.push(Frame { dir: p, budget: b - 1, pending: Vec::new() });
                    self.phase = Phase::Probing;
                    assert(self@.stack =~= s1.push(
                        FrameView { dir: p, budget: (b - 1) as nat, pending: seq![] },
                    ));
                    Action::Probe
                },
                Entry::Other => Action::Proceed,
                Entry::Failed(e) => self.fail(e),
            }
        }
    }

    /// Takes in what the caller saw and returns what to do next.
    pub fn step(&mut self, ev: Event<P, E>) -> (a: Action<E>)
        requires
            old(self).wf(),
            old(self)@.accepts(ev),
        ensures
            final(self).wf(),
            (final(self)@, a) == old(self)@.next(ev),
    {
        proof {
            lemma_step_keeps_wf(self@, ev);
        }
        match ev {
            Event::Probed(m) => {
                if !m {
                    self.list_or_leave()
                } else if self.dry_run {
                    self.phase = Phase::Announced;
                    Action::Visit { announce: true, execute: false }
                } else {
                    self.phase = Phase::Visiting;
                    Action::Visit { announce: self.verbose, execute: true }
                }
            },
            Event::Visited(r) => match r {
                Ok(()) => self.list_or_leave(),
                Err(e) => self.fail(e),
            },
            Event::Listed(r) => match r {
                Ok(v) => {
                    let ghost old_view = self@;
                    let ghost vv = v@;
                    let mut top = self.stack.pop().unwrap();
                    top.pending = v;
                    self.stack.push(top);
                    self.phase = Phase::Walking;
                    assert(self@.stack =~= old_view.stack.update(
                        old_view.stack.len() - 1,
                        FrameView { pending: vv, ..old_view.stack.last() },
                    ));
                    Action::Proceed
                },
                Err(e) => self.fail(e),
            },
            Event::Ack => {
                if self.phase == Phase::Announced {
                    self.list_or_leave()
                } else {
                    self.advance()
                }
            },
        }
    }
}

/// Every step keeps the walker well formed: no directory is ever entered
/// deeper than the depth budget allows, and none with budget zero is
/// listed.
pub proof fn lemma_step_keeps_wf<P, E>(w: WalkView<P, E>, ev: Event<P, E>)
    requires
        w.wf(),
        w.accepts(ev),
    ensures
        w.next(ev).0.wf(),
{
    let n = w.stack.len();
    assert forall|i: int| 0 <= i < n - 1 implies #[trigger] w.stack.drop_last()[i].budget == w.depth
        - i by {
        assert(w.stack[i].budget == w.depth - i);
    }
    if n > 0 {
        assert(w.stack[n - 1].budget == w.depth - (n - 1));
    }
    let w2 = w.next(ev).0;
    assert forall|i: int| 0 <= i < w2.stack.len() implies #[trigger] w2.stack[i].budget == w2.depth
        - i by {
        if i < n {
            assert(w.stack[i].budget == w.depth - i);
        }
    }
    assert forall|i: int|
        0 <= i < w2.stack.len() && #[trigger] w2.stack[i].budget == 0 implies w2.stack[i].pending.len()
        == 0 by {
        if i < n {
            assert(w.stack[i].budget == w.depth - i);
        }
        if i < n - 1 && w.stack[i].budget == 0 {
            assert(w.stack[i].pending.len() == 0);
        }
    }
}

/// Depth bound: whenever an action looks into or runs something in the
/// current directory, that directory lies at most as many levels below the
/// root as the depth budget, and its own budget is what is left of it; a
/// directory at that last level is never listed. A directory is only
/// entered as an item of its parent's listing.
pub proof fn lemma_depth_bound<P, E>(w: WalkView<P, E>, ev: Event<P, E>)
    requires
        w.wf(),
        w.accepts(ev),
    ensures
        ({
            let (w2, a) = w.next(ev);
            &&& a.touches() ==> {
                &&& 0 <= w2.nesting() <= w2.depth
                &&& w2.stack.last().budget == w2.depth - w2.nesting()
            }
            &&& a == Action::<E>::List ==> w2.nesting() < w2.depth
            &&& w2.stack.len() > w.stack.len() ==> {
                &&& w2.stack.len() == w.stack.len() + 1
                &&& w.stack.last().pending[0] == Entry::<P, E>::Dir(w2.stack.last().dir)
            }
        }),
{
    lemma_step_keeps_wf(w, ev);
    let w2 = w.next(ev).0;
    if w2.stack.len() > 0 {
        assert(w2.stack[w2.stack.len() - 1].budget == w2.depth - (w2.stack.len() - 1));
    }
}

/// A dry run asks for the same things as a real one in which every run
/// succeeds, step for step: where the real run launches the command and
/// hears that it succeeded, the dry run announces the directory and hears
/// an acknowledgement. Every other action is the same.
pub proof fn lemma_dry_run_mirrors<P, E>(w: WalkView<P, E>, ev: Event<P, E>)
    requires
        w.wf(),
        w.accepts(ev),
        !w.dry_run,
    ensures
        !(ev is Visited) ==> w.dry_view().next(ev) == (w.next(ev).0.dry_view(), w.next(ev).1.dry()),
        ev == Event::<P, E>::Visited(Ok(())) ==> w.dry_view().next(Event::Ack) == (
            w.next(ev).0.dry_view(),
            w.next(ev).1,
        ),
{
    let n = w.stack.len();
    if ev is Ack {
        let t = w.stack.last();
        let stack1 = w.stack.update(n - 1, FrameView { pending: t.pending.drop_first(), ..t });
        assert(stack1.drop_last() =~= w.stack.drop_last());
    }
}

/// A dry run never launches the command.
pub proof fn lemma_dry_run_never_executes<P, E>(w: WalkView<P, E>, ev: Event<P, E>)
    requires
        w.dry_run,
    ensures
        !w.next(ev).1.executes(),
        w.next(ev).0.dry_run,
{
}

/// In a dry run only the file system can make a directory fail: every
/// warning and every failed finish comes from a listing that could not be
/// read, or from an item of a listing that could not be read.
pub proof fn lemma_dry_run_fails_only_on_file_system<P, E>(w: WalkView<P, E>, ev: Event<P, E>)
    requires
        w.wf(),
        w.accepts(ev),
        w.dry_run,
    ensures
        ({
            let a = w.next(ev).1;
            (a is Warn || a matches Action::Finish(Err(_))) ==> {
                ||| ev matches Event::Listed(Err(_))
                ||| ev is Ack && w.failure(ev) is Some
            }
        }),
{
}

/// Without `exit_on_error`, a failing subdirectory is reported and left;
/// the directories above it keep every item they still have to visit, so
/// its siblings and cousins are still walked.
pub proof fn lemma_failure_spares_siblings<P, E>(w: WalkView<P, E>, ev: Event<P, E>, e: E)
    requires
        w.wf(),
        w.accepts(ev),
        !w.exit_on_error,
        w.stack.len() >= 2,
        w.failure(ev) == Some(e),
    ensures
        w.next(ev).1 == Action::<E>::Warn(e),
        w.next(ev).0.stack == w.stack.drop_last(),
        w.next(ev).0.phase == Phase::Walking,
{
    let n = w.stack.len();
    if ev is Ack {
        let t = w.stack.last();
        let stack1 = w.stack.update(n - 1, FrameView { pending: t.pending.drop_first(), ..t });
        assert(stack1.drop_last() =~= w.stack.drop_last());
    }
}

/// With `exit_on_error`, any failure ends the walk at once, and so does a
/// failure of the root: the walker is done and accepts no further event,
/// so nothing more is visited.
pub proof fn lemma_failure_halts<P, E>(w: WalkView<P, E>, ev: Event<P, E>, e: E)
    requires
        w.wf(),
        w.accepts(ev),
        w.exit_on_error || w.stack.len() == 1,
        w.failure(ev) == Some(e),
    ensures
        w.next(ev).1 == Action::<E>::Finish(Err(e)),
        w.next(ev).0.phase == Phase::Done,
        w.next(ev).0.stack.len() == 0,
        forall|ev2: Event<P, E>| !w.next(ev).0.accepts(ev2),
{
}

} // verus!
