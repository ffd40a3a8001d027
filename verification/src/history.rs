use vstd::prelude::*;
use crate::command::{CommandError, CommandV, ProjectCommand};
use crate::command_apply::apply_spec;
use crate::command_copy::same_entity;
use crate::command_reverse::reverse_spec;
use crate::project::{Project, ProjectV};

verus! {

/// How many undo steps the history keeps; the oldest goes first.
pub const MAX_STACK_DEPTH: usize = 100;

/// Identifies one continuous operator action, so the commands it produces
/// collapse into a single undo step.
pub type GestureId = u64;

/// One undo step: the command, the command that undoes it, and the gesture
/// it belongs to, when it belongs to one.
#[derive(Debug)]
pub struct CommandDelta {
    pub forward: ProjectCommand,
    pub reverse: ProjectCommand,
    pub gesture: Option<GestureId>,
}

pub struct DeltaV {
    pub forward: CommandV,
    pub reverse: CommandV,
    pub gesture: Option<GestureId>,
}

impl View for CommandDelta {
    type V = DeltaV;

    open spec fn view(&self) -> DeltaV {
        DeltaV { forward: self.forward@, reverse: self.reverse@, gesture: self.gesture }
    }
}

pub open spec fn deltas_view(v: Seq<CommandDelta>) -> Seq<DeltaV> {
    v.map_values(|d: CommandDelta| d@)
}

/// What a history is, for the contracts.
#[verifier::ext_equal]
pub struct StackV {
    pub undo: Seq<DeltaV>,
    pub redo: Seq<DeltaV>,
    pub mutation_count: u64,
}

/// The undo and redo history of a project, and a count of the changes made
/// through it (applies, merges, undos and redos) for telling whether the
/// project has unsaved edits.
#[derive(Debug)]
pub struct CommandStack {
    undo_history: Vec<CommandDelta>,
    redo_history: Vec<CommandDelta>,
    mutation_count: u64,
}

impl View for CommandStack {
    type V = StackV;

    closed spec fn view(&self) -> StackV {
        StackV {
            undo: deltas_view(self.undo_history@),
            redo: deltas_view(self.redo_history@),
            mutation_count: self.mutation_count,
        }
    }
}

/// The history never holds more than `MAX_STACK_DEPTH` steps, undo and
/// redo together.
pub open spec fn stack_wf(s: StackV) -> bool {
    s.undo.len() + s.redo.len() <= MAX_STACK_DEPTH
}

/// The undo steps after one more is pushed, the oldest dropped when there
/// are too many.
pub open spec fn push_bounded(undo: Seq<DeltaV>, d: DeltaV) -> Seq<DeltaV> {
    let pushed = undo.push(d);
    if pushed.len() > MAX_STACK_DEPTH { pushed.drop_first() } else { pushed }
}

/// The command merges into the last undo step: both belong to one gesture
/// (a command with no gesture never merges) and edit the same thing.
pub open spec fn merges(s: StackV, c: CommandV, gesture: Option<GestureId>) -> bool {
    &&& s.undo.len() > 0
    &&& gesture is Some
    &&& s.undo.last().gesture == gesture
    &&& same_entity(s.undo.last().forward, c)
}

/// Applying a command through the history. A refused command leaves the
/// history as it was. One that lands clears the redo steps and counts one
/// change; it either replaces the forward command of the last step (a
/// merge, keeping that step's reverse) or becomes a new step whose reverse
/// was read off the project before the command ran.
pub open spec fn stack_apply(s: StackV, c: CommandV, gesture: Option<GestureId>, p: ProjectV) -> (StackV, ProjectV, Result<(), CommandError>) {
    let (p2, r) = apply_spec(c, p);
    match r {
        Err(e) => (s, p2, Err(e)),
        Ok(_) => {
            let undo = if merges(s, c, gesture) {
                s.undo.update(s.undo.len() - 1, DeltaV { forward: c, ..s.undo.last() })
            } else {
                push_bounded(s.undo, DeltaV { forward: c, reverse: reverse_spec(c, p), gesture })
            };
            (StackV { undo, redo: Seq::empty(), mutation_count: (s.mutation_count + 1) as u64 }, p2, Ok(()))
        },
    }
}

/// Undo the last step: apply its reverse and move it to the redo steps. A
/// reverse that is refused keeps the step where it was.
pub open spec fn stack_undo(s: StackV, p: ProjectV) -> (StackV, ProjectV, bool) {
    if s.undo.len() == 0 {
        (s, p, false)
    } else {
        let d = s.undo.last();
        let (p2, r) = apply_spec(d.reverse, p);
        match r {
            Err(_) => (s, p2, false),
            Ok(_) => (StackV { undo: s.undo.drop_last(), redo: s.redo.push(d), mutation_count: (s.mutation_count + 1) as u64 }, p2, true),
        }
    }
}

/// Redo the last undone step: apply its command again and move it back to
/// the undo steps. A command that is refused keeps the step where it was.
pub open spec fn stack_redo(s: StackV, p: ProjectV) -> (StackV, ProjectV, bool) {
    if s.redo.len() == 0 {
        (s, p, false)
    } else {
        let d = s.redo.last();
        let (p2, r) = apply_spec(d.forward, p);
        match r {
            Err(_) => (s, p2, false),
            Ok(_) => (StackV { undo: s.undo.push(d), redo: s.redo.drop_last(), mutation_count: (s.mutation_count + 1) as u64 }, p2, true),
        }
    }
}

/// Undo up to `count` steps and forget them: the undo steps left, the
/// project, and how many were discarded. A reverse that is refused stops the
/// walk and its step stays.
pub open spec fn discard_steps(undo: Seq<DeltaV>, p: ProjectV, count: nat) -> (Seq<DeltaV>, ProjectV, nat)
    decreases count,
{
    if count == 0 || undo.len() == 0 {
        (undo, p, 0)
    } else {
        let (p2, r) = apply_spec(undo.last().reverse, p);
        match r {
            Err(_) => (undo, p2, 0),
            Ok(_) => {
                let (u, p3, n) = discard_steps(undo.drop_last(), p2, (count - 1) as nat);
                (u, p3, n + 1)
            },
        }
    }
}

/// Discarding: the steps are undone but not kept for redo, and their changes
/// come back off the count (never below zero).
pub open spec fn stack_discard(s: StackV, p: ProjectV, count: nat) -> (StackV, ProjectV, nat) {
    let (u, p2, n) = discard_steps(s.undo, p, count);
    (
        StackV {
            undo: u,
            redo: s.redo,
            mutation_count: if s.mutation_count >= n { (s.mutation_count - n) as u64 } else { 0 },
        },
        p2,
        n,
    )
}

pub proof fn lemma_discard_bounds(undo: Seq<DeltaV>, p: ProjectV, count: nat)
    ensures
        discard_steps(undo, p, count).2 <= count,
        discard_steps(undo, p, count).0.len() + discard_steps(undo, p, count).2 == undo.len(),
    decreases count,
{
    if count > 0 && undo.len() > 0 {
        lemma_discard_bounds(undo.drop_last(), apply_spec(undo.last().reverse, p).0, (count - 1) as nat);
    }
}

impl CommandStack {
    pub fn new() -> (s: Self)
        ensures
            s@ == (StackV { undo: Seq::empty(), redo: Seq::empty(), mutation_count: 0 }),
    {
        let s = CommandStack { undo_history: Vec::new(), redo_history: Vec::new(), mutation_count: 0 };
        proof {
            assert(s@.undo =~= Seq::<DeltaV>::empty());
            assert(s@.redo =~= Seq::<DeltaV>::empty());
        }
        s
    }

    /// Apply a command as its own undo step.
    pub fn apply(&mut self, project: &mut Project, command: &ProjectCommand) -> (r: Result<(), CommandError>)
        requires
            stack_wf(old(self)@),
            old(self)@.mutation_count < u64::MAX,
        ensures
            stack_wf(final(self)@),
            (final(self)@, final(project)@, r) == stack_apply(old(self)@, command@, None, old(project)@),
    {
        self.apply_or_merge(command.clone(), None, project)
    }

    /// Apply a command, merging it into the previous undo step when both
    /// belong to the same gesture and touch the same entity; see
    /// `stack_apply`.
    pub fn apply_or_merge(&mut self, command: ProjectCommand, gesture: Option<GestureId>, project: &mut Project) -> (r: Result<(), CommandError>)
        requires
            stack_wf(old(self)@),
            old(self)@.mutation_count < u64::MAX,
        ensures
            stack_wf(final(self)@),
            (final(self)@, final(project)@, r) == stack_apply(old(self)@, command@, gesture, old(project)@),
    {
        let ghost s0 = self@;
        let ghost p0 = project@;
        let n = self.undo_history.len();
        let mergeable = if n > 0 && gesture.is_some() {
            let last = &self.undo_history[n - 1];
            let same_gesture = match (last.gesture, gesture) {
                (Some(a), Some(b)) => a == b,
                _ => false,
            };
            same_gesture && last.forward.targets_same_entity(&command)
        } else {
            false
        };
        proof {
            if n > 0 {
                assert(s0.undo.last() == self.undo_history@[n - 1]@);
            }
            assert(mergeable == merges(s0, command@, gesture));
        }
        if mergeable {
            match command.apply(project) {
                Err(e) => return Err(e),
                Ok(()) => {},
            }
            self.redo_history.clear();
            let ghost cv = command@;
            let mut last = self.undo_history.pop().unwrap();
            last.forward = command;
            self.undo_history.push(last);
            self.mutation_count = self.mutation_count + 1;
            proof {
                assert(self@.redo =~= Seq::<DeltaV>::empty());
                assert(self@.undo =~= s0.undo.update(s0.undo.len() - 1, DeltaV { forward: cv, ..s0.undo.last() }));
            }
            return Ok(());
        }
        let reverse = command.reverse(project);
        match command.apply(project) {
            Err(e) => return Err(e),
            Ok(()) => {},
        }
        self.redo_history.clear();
        self.mutation_count = self.mutation_count + 1;
        let ghost cv = command@;
        let ghost rv = reverse@;
        self.undo_history.push(CommandDelta { forward: command, reverse, gesture });
        if self.undo_history.len() > MAX_STACK_DEPTH {
            let _oldest = self.undo_history.remove(0);
        }
        proof {
            assert(self@.redo =~= Seq::<DeltaV>::empty());
            assert(self@.undo =~= push_bounded(s0.undo, DeltaV { forward: cv, reverse: rv, gesture }));
        }
        Ok(())
    }

    pub fn can_undo(&self) -> (b: bool)
        ensures
            b == (self@.undo.len() > 0),
    {
        self.undo_history.len() > 0
    }

    /// How many undo steps there are.
    pub fn undo_depth(&self) -> (n: usize)
        ensures
            n == self@.undo.len(),
    {
        self.undo_history.len()
    }

    pub fn can_redo(&self) -> (b: bool)
        ensures
            b == (self@.redo.len() > 0),
    {
        self.redo_history.len() > 0
    }

    /// Undo the last step; see `stack_undo`.
    pub fn undo(&mut self, project: &mut Project) -> (done: bool)
        requires
            stack_wf(old(self)@),
            old(self)@.undo.len() > 0 ==> old(self)@.mutation_count < u64::MAX,
        ensures
            stack_wf(final(self)@),
            (final(self)@, final(project)@, done) == stack_undo(old(self)@, old(project)@),
    {
        let ghost s0 = self@;
        let delta = match self.undo_history.pop() {
            Some(d) => d,
            None => return false,
        };
        proof {
            assert(self@.undo =~= s0.undo.drop_last());
        }
        if delta.reverse.apply(project).is_err() {
            self.undo_history.push(delta);
            proof {
                assert(self@.undo =~= s0.undo);
                assert(self@ =~= s0);
            }
            return false;
        }
        self.mutation_count = self.mutation_count + 1;
        self.redo_history.push(delta);
        proof {
            assert(self@.redo =~= s0.redo.push(s0.undo.last()));
        }
        true
    }

    /// Redo the last undone step; see `stack_redo`.
    pub fn redo(&mut self, project: &mut Project) -> (done: bool)
        requires
            stack_wf(old(self)@),
            old(self)@.redo.len() > 0 ==> old(self)@.mutation_count < u64::MAX,
        ensures
            stack_wf(final(self)@),
            (final(self)@, final(project)@, done) == stack_redo(old(self)@, old(project)@),
    {
        let ghost s0 = self@;
        let delta = match self.redo_history.pop() {
            Some(d) => d,
            None => return false,
        };
        proof {
            assert(self@.redo =~= s0.redo.drop_last());
        }
        if delta.forward.apply(project).is_err() {
            self.redo_history.push(delta);
            proof {
                assert(self@.redo =~= s0.redo);
                assert(self@ =~= s0);
            }
            return false;
        }
        self.mutation_count = self.mutation_count + 1;
        self.undo_history.push(delta);
        proof {
            assert(self@.undo =~= s0.undo.push(s0.redo.last()));
        }
        true
    }

    /// Undo the last `count` steps and forget them; see `stack_discard`.
    /// Answers how many were discarded, which is less than `count` only when
    /// the history was shorter or a reverse was refused.
    pub fn discard_last(&mut self, count: usize, project: &mut Project) -> (discarded: usize)
        requires
            stack_wf(old(self)@),
        ensures
            stack_wf(final(self)@),
            (final(self)@, final(project)@, discarded as nat) == stack_discard(old(self)@, old(project)@, count as nat),
    {
        let ghost s0 = self@;
        let ghost p0 = project@;
        let mut discarded: usize = 0;
        let mut k: usize = 0;
        proof {
            lemma_discard_bounds(s0.undo, p0, count as nat);
        }
        while k < count
            invariant_except_break
                k <= count,
                discarded == k,
                self@.redo == s0.redo,
                self@.mutation_count == s0.mutation_count,
                ({
                    let (u, p, n) = discard_steps(s0.undo, p0, count as nat);
                    let (u2, p2, n2) = discard_steps(self@.undo, project@, (count - k) as nat);
                    u == u2 && p == p2 && n == n2 + k
                }),
            ensures
                self@.redo == s0.redo,
                self@.mutation_count == s0.mutation_count,
                ({
                    let (u, p, n) = discard_steps(s0.undo, p0, count as nat);
                    u == self@.undo && p == project@ && n == discarded
                }),
            decreases count - k,
        {
            let ghost before = self@.undo;
            let delta = match self.undo_history.pop() {
                Some(d) => d,
                None => {
                    break;
                },
            };
            proof {
                assert(self@.undo =~= before.drop_last());
            }
            if delta.reverse.apply(project).is_err() {
                self.undo_history.push(delta);
                proof {
                    assert(self@.undo =~= before);
                }
                break;
            }
            discarded = discarded + 1;
            k = k + 1;
        }
        proof {
            lemma_discard_bounds(s0.undo, p0, count as nat);
        }
        self.mutation_count = self.mutation_count.saturating_sub(discarded as u64);
        proof {
            assert(self@ =~= stack_discard(s0, p0, count as nat).0);
        }
        discarded
    }

    /// How many changes have been made through this history.
    pub fn mutation_count(&self) -> (n: u64)
        ensures
            n == self@.mutation_count,
    {
        self.mutation_count
    }
}

impl Default for CommandStack {
    fn default() -> (s: Self)
        ensures
            s@ == (StackV { undo: Seq::empty(), redo: Seq::empty(), mutation_count: 0 }),
    {
        CommandStack::new()
    }
}

} // verus!
