//! The editor's command history: commands queued for execution, commands
//! that can be undone and commands that can be redone.
//!
//! A command changes some resources and can fail; the history runs it and
//! records it. A command that fails is dropped: it is neither recorded nor
//! run again.
use vstd::prelude::*;

verus! {

/// A change to some resources `R` that may fail with an error `E`, and that
/// may be undone. Implemented by the users of the history.
pub trait Command<R, E>: Sized {
    /// Whether the command can be undone: what `is_undoable` returns.
    spec fn undoable(&self) -> bool;

    /// What running this command, from `before`, may leave in the resources
    /// (`after`) together with the result it returns.
    spec fn executes(&self, before: R, after: R, result: Result<(), E>) -> bool;

    /// What undoing this command, from `before`, may leave in the resources
    /// (`after`) together with the result it returns.
    spec fn undoes(&self, before: R, after: R, result: Result<(), E>) -> bool;

    /// Whether the command can be undone.
    fn is_undoable(&self) -> (b: bool)
        ensures
            b == self.undoable(),
    ;

    /// Makes the change. Running a command does not change whether it can
    /// be undone.
    fn execute(&mut self, resources: &mut R) -> (r: Result<(), E>)
        ensures
            final(self).undoable() == old(self).undoable(),
            old(self).executes(*old(resources), *final(resources), r),
    ;

    /// Takes the change back.
    fn undo(&mut self, resources: &mut R) -> (r: Result<(), E>)
        ensures
            final(self).undoable() == old(self).undoable(),
            old(self).undoes(*old(resources), *final(resources), r),
    ;
}

/// The state of a command history.
pub struct CommandHistory<C> {
    /// Commands waiting to run, oldest first.
    pub pending: Seq<C>,
    /// Commands that can be undone, the most recent last.
    pub undo: Seq<C>,
    /// Commands that can be redone, the most recently undone last.
    pub redo: Seq<C>,
}

/// The history once `command` is queued.
pub open spec fn after_queue<C>(h: CommandHistory<C>, command: C) -> CommandHistory<C> {
    CommandHistory { pending: h.pending.push(command), ..h }
}

/// The history once `command` has run: an undoable command can be undone
/// next, and nothing can be redone any more; any other command leaves no
/// trace.
pub open spec fn after_execute<C>(h: CommandHistory<C>, command: C, undoable: bool) -> CommandHistory<C> {
    if undoable {
        CommandHistory { undo: h.undo.push(command), redo: Seq::empty(), ..h }
    } else {
        h
    }
}

/// The history once each command of `runs` has run in turn, each paired
/// with whether it can be undone.
pub open spec fn after_runs<C>(h: CommandHistory<C>, runs: Seq<(C, bool)>) -> CommandHistory<C>
    decreases runs.len(),
{
    if runs.len() == 0 {
        h
    } else {
        after_execute(after_runs(h, runs.drop_last()), runs.last().0, runs.last().1)
    }
}

/// The history with its queue emptied.
pub open spec fn without_pending<C>(h: CommandHistory<C>) -> CommandHistory<C> {
    CommandHistory { pending: Seq::empty(), ..h }
}

/// The history once the most recent undoable command has been undone, as
/// `command`: it can be redone next.
pub open spec fn after_undone<C>(h: CommandHistory<C>, command: C) -> CommandHistory<C> {
    CommandHistory { undo: h.undo.drop_last(), redo: h.redo.push(command), ..h }
}

/// The history once undoing the most recent undoable command failed: the
/// command is gone.
pub open spec fn after_undo_failed<C>(h: CommandHistory<C>) -> CommandHistory<C> {
    CommandHistory { undo: h.undo.drop_last(), ..h }
}

/// The history once the most recently undone command has been redone, as
/// `command`: it can be undone next.
pub open spec fn after_redone<C>(h: CommandHistory<C>, command: C) -> CommandHistory<C> {
    CommandHistory { undo: h.undo.push(command), redo: h.redo.drop_last(), ..h }
}

/// The history once redoing the most recently undone command failed: the
/// command is gone.
pub open spec fn after_redo_failed<C>(h: CommandHistory<C>) -> CommandHistory<C> {
    CommandHistory { redo: h.redo.drop_last(), ..h }
}

/// Queued, undoable and redoable commands.
pub struct CommandList<C> {
    pending_commands: Vec<C>,
    undo_commands: Vec<C>,
    redo_commands: Vec<C>,
}

impl<C> View for CommandList<C> {
    type V = CommandHistory<C>;

    closed spec fn view(&self) -> CommandHistory<C> {
        CommandHistory {
            pending: self.pending_commands@,
            undo: self.undo_commands@,
            redo: self.redo_commands@,
        }
    }
}

impl<C> CommandList<C> {
    /// An empty history.
    pub fn new() -> (r: Self)
        ensures
            r@.pending == Seq::<C>::empty(),
            r@.undo == Seq::<C>::empty(),
            r@.redo == Seq::<C>::empty(),
    {
        CommandList {
            pending_commands: Vec::new(),
            undo_commands: Vec::new(),
            redo_commands: Vec::new(),
        }
    }

    /// Whether a command can be undone.
    pub fn has_undo_commands(&self) -> (b: bool)
        ensures
            b == (self@.undo.len() > 0),
    {
        self.undo_commands.len() != 0
    }

    /// Whether a command can be redone.
    pub fn has_redo_commands(&self) -> (b: bool)
        ensures
            b == (self@.redo.len() > 0),
    {
        self.redo_commands.len() != 0
    }

    /// Queues `command` to run after those already queued.
    pub fn queue_command(&mut self, command: C)
        ensures
            final(self)@ == after_queue(old(self)@, command),
    {
        self.pending_commands.push(command);
    }

    /// Runs `command` once. If it fails, its error is returned and the
    /// command dropped; otherwise, if it can be undone, it becomes the next
    /// command to undo and the redo list is cleared.
    pub fn execute<R, E>(&mut self, command: C, resources: &mut R) -> (r: Result<(), E>) where
        C: Command<R, E>,
        ensures
            command.executes(*old(resources), *final(resources), r),
            r is Err ==> final(self)@ == old(self)@,
            r is Ok ==> exists|done: C|
                #![trigger after_execute(old(self)@, done, command.undoable())]
                done.undoable() == command.undoable() && final(self)@ == after_execute(
                    old(self)@,
                    done,
                    command.undoable(),
                ),
    {
        let mut command = command;
        let ghost before = command;
        let result = command.execute(resources);
        if result.is_ok() {
            if command.is_undoable() {
                self.undo_commands.push(command);
                self.redo_commands.clear();
            }
            assert(self@ == after_execute(old(self)@, command, before.undoable()));
        }
        result
    }

    /// Runs the queued commands in the order they were queued, through
    /// `execute`, and stops at the first that fails: its error is returned
    /// and the commands after it are dropped without running. The queue is
    /// empty afterwards.
    pub fn execute_pending_commands<R, E>(&mut self, resources: &mut R) -> (r: Result<(), E>) where
        C: Command<R, E>,
        ensures
            final(self)@.pending == Seq::<C>::empty(),
            exists|states: Seq<R>|
                #![trigger states.len()]
                {
                    &&& states.len() <= old(self)@.pending.len() + 1
                    &&& states[0] == *old(resources)
                    &&& states.last() == *final(resources)
                    &&& forall|k: int|
                        0 <= k < states.len() - 1 ==> old(self)@.pending[k].executes(
                            #[trigger] states[k],
                            states[k + 1],
                            if k == states.len() - 2 { r } else { Ok(()) },
                        )
                    &&& r is Ok ==> states.len() == old(self)@.pending.len() + 1
                    &&& r is Err ==> states.len() >= 2
                },
            r is Ok ==> exists|runs: Seq<(C, bool)>|
                #![trigger after_runs(without_pending(old(self)@), runs)]
                {
                    &&& runs.len() == old(self)@.pending.len()
                    &&& forall|k: int|
                        0 <= k < runs.len() ==> #[trigger] runs[k].1 == old(self)@.pending[k].undoable()
                            && runs[k].0.undoable() == runs[k].1
                    &&& final(self)@ == after_runs(without_pending(old(self)@), runs)
                },
            r is Err ==> exists|runs: Seq<(C, bool)>|
                #![trigger after_runs(without_pending(old(self)@), runs)]
                {
                    &&& runs.len() < old(self)@.pending.len()
                    &&& forall|k: int|
                        0 <= k < runs.len() ==> #[trigger] runs[k].1 == old(self)@.pending[k].undoable()
                            && runs[k].0.undoable() == runs[k].1
                    &&& final(self)@ == after_runs(without_pending(old(self)@), runs)
                },
    {
        let mut commands: Vec<C> = Vec::new();
        std::mem::swap(&mut commands, &mut self.pending_commands);
        let ghost queued = commands@;
        let ghost start = self@;
        assert(start == without_pending(old(self)@));
        let queued_count = commands.len();
        let ghost mut runs: Seq<(C, bool)> = Seq::empty();
        let ghost mut states: Seq<R> = seq![*resources];
        let mut k: usize = 0;
        while k < queued_count
            invariant
                queued_count == queued.len(),
                states.len() == k + 1,
                states[0] == *old(resources),
                states.last() == *resources,
                forall|j: int| 0 <= j < k ==> queued[j].executes(#[trigger] states[j], states[j + 1], Ok(())),
                self@.pending == Seq::<C>::empty(),
                queued == old(self)@.pending,
                start == without_pending(old(self)@),
                k + commands@.len() == queued.len(),
                queued.len() <= usize::MAX,
                commands@ == queued.subrange(k as int, queued.len() as int),
                runs.len() == k,
                forall|j: int|
                    0 <= j < runs.len() ==> #[trigger] runs[j].1 == queued[j].undoable()
                        && runs[j].0.undoable() == runs[j].1,
                self@ == after_runs(start, runs),
            decreases queued_count - k,
        {
            let c = commands.remove(0);
            assert(c == queued[k as int]);
            let ghost h = self@;
            let ghost res_before = *resources;
            let result = self.execute(c, resources);
            proof {
                let states2 = states.push(*resources);
                assert(states2[k as int] == res_before);
                assert forall|j: int| 0 <= j < k implies queued[j].executes(#[trigger] states2[j], states2[j + 1], Ok(())) by {
                    assert(states2[j] == states[j]);
                    assert(states2[j + 1] == states[j + 1]);
                }
                states = states2;
            }
            match result {
                Ok(unit) => {
                    proof {
                        assert(unit == ());
                        let done = choose|done: C|
                            #![trigger after_execute(h, done, c.undoable())]
                            done.undoable() == c.undoable() && self@ == after_execute(h, done, c.undoable());
                        let runs2 = runs.push((done, c.undoable()));
                        assert(runs2.drop_last() =~= runs);
                        assert(after_runs(start, runs2) == after_execute(after_runs(start, runs), done, c.undoable()));
                        runs = runs2;
                        assert(result == Ok::<(), E>(unit));
                        assert(queued[k as int].executes(states[k as int], states[k + 1], Ok(())));
                    }
                    k = k + 1;
                },
                Err(e) => {
                    assert(self@ == after_runs(start, runs));
                    assert(states.len() >= 2);
                    return Err(e);
                },
            }
        }
        Ok(())
    }

    /// Undoes the most recent undoable command, if there is one. If that
    /// fails, its error is returned and the command dropped; otherwise the
    /// command becomes the next to redo.
    pub fn undo<R, E>(&mut self, resources: &mut R) -> (r: Result<(), E>) where
        C: Command<R, E>,
        ensures
            old(self)@.undo.len() == 0 ==> r is Ok && final(self)@ == old(self)@ && *final(resources)
                == *old(resources),
            old(self)@.undo.len() > 0 ==> old(self)@.undo.last().undoes(*old(resources), *final(resources), r),
            old(self)@.undo.len() > 0 && r is Ok ==> exists|done: C|
                #![trigger after_undone(old(self)@, done)]
                done.undoable() == old(self)@.undo.last().undoable() && final(self)@ == after_undone(
                    old(self)@,
                    done,
                ),
            old(self)@.undo.len() > 0 && r is Err ==> final(self)@ == after_undo_failed(old(self)@),
    {
        match self.undo_commands.pop() {
            Some(command) => {
                let mut command = command;
                let result = command.undo(resources);
                if result.is_ok() {
                    self.redo_commands.push(command);
                    assert(self@ == after_undone(old(self)@, command));
                } else {
                    assert(self@ == after_undo_failed(old(self)@));
                }
                result
            },
            None => Ok(()),
        }
    }

    /// Redoes the most recently undone command, if there is one. If that
    /// fails, its error is returned and the command dropped; otherwise the
    /// command becomes the next to undo.
    pub fn redo<R, E>(&mut self, resources: &mut R) -> (r: Result<(), E>) where
        C: Command<R, E>,
        ensures
            old(self)@.redo.len() == 0 ==> r is Ok && final(self)@ == old(self)@ && *final(resources)
                == *old(resources),
            old(self)@.redo.len() > 0 ==> old(self)@.redo.last().executes(*old(resources), *final(resources), r),
            old(self)@.redo.len() > 0 && r is Ok ==> exists|done: C|
                #![trigger after_redone(old(self)@, done)]
                done.undoable() == old(self)@.redo.last().undoable() && final(self)@ == after_redone(
                    old(self)@,
                    done,
                ),
            old(self)@.redo.len() > 0 && r is Err ==> final(self)@ == after_redo_failed(old(self)@),
    {
        match self.redo_commands.pop() {
            Some(command) => {
                let mut command = command;
                let result = command.execute(resources);
                if result.is_ok() {
                    self.undo_commands.push(command);
                    assert(self@ == after_redone(old(self)@, command));
                } else {
                    assert(self@ == after_redo_failed(old(self)@));
                }
                result
            },
            None => Ok(()),
        }
    }
}

impl<C> Default for CommandList<C> {
    fn default() -> (r: Self)
        ensures
            r@.pending == Seq::<C>::empty(),
            r@.undo == Seq::<C>::empty(),
            r@.redo == Seq::<C>::empty(),
    {
        Self::new()
    }
}

/// Law: undoing a command and then redoing it gives back the history as it
/// was, with the command in its place on the undo list.
pub proof fn law_undo_then_redo<C>(h: CommandHistory<C>, undone: C, redone: C)
    requires
        h.undo.len() > 0,
    ensures
        after_redone(after_undone(h, undone), redone) == (CommandHistory {
            undo: h.undo.update(h.undo.len() - 1, redone),
            ..h
        }),
        after_redone(after_undone(h, undone), h.undo.last()) == h,
{
    assert(h.redo.push(undone).drop_last() =~= h.redo);
    assert(h.undo.drop_last().push(redone) =~= h.undo.update(h.undo.len() - 1, redone));
    assert(h.undo.drop_last().push(h.undo.last()) =~= h.undo);
}

/// Law: redoing a command and then undoing it gives back the history as it
/// was, with the command in its place on the redo list.
pub proof fn law_redo_then_undo<C>(h: CommandHistory<C>, redone: C, undone: C)
    requires
        h.redo.len() > 0,
    ensures
        after_undone(after_redone(h, redone), undone) == (CommandHistory {
            redo: h.redo.update(h.redo.len() - 1, undone),
            ..h
        }),
        after_undone(after_redone(h, redone), h.redo.last()) == h,
{
    assert(h.undo.push(redone).drop_last() =~= h.undo);
    assert(h.redo.drop_last().push(undone) =~= h.redo.update(h.redo.len() - 1, undone));
    assert(h.redo.drop_last().push(h.redo.last()) =~= h.redo);
}

/// Law: once an undoable command has run, nothing can be redone and that
/// command is the next to be undone.
pub proof fn law_execute_clears_redo<C>(h: CommandHistory<C>, command: C)
    ensures
        after_execute(h, command, true).redo.len() == 0,
        after_execute(h, command, true).undo.last() == command,
        after_execute(h, command, false) == h,
{
}

/// Law: queued commands run in the order they were queued.
pub proof fn law_queue_order<C>(h: CommandHistory<C>, first: C, second: C)
    ensures
        after_queue(after_queue(h, first), second).pending == h.pending + seq![first, second],
{
    assert(h.pending.push(first).push(second) =~= h.pending + seq![first, second]);
}

/// What the editor's commands need from the resources they change: loading
/// a glTF asset into the world and closing the map. Implemented by the
/// owner of the resources.
pub trait MapResources<E>: Sized {
    /// Whether `after` is `before` with the asset at `path` loaded.
    spec fn asset_loaded(before: Self, after: Self, path: String) -> bool;

    /// Whether `after` is `before` with the map closed.
    spec fn map_closed(before: Self, after: Self) -> bool;

    /// Loads the asset at `path`.
    fn load_gltf_asset(&mut self, path: &String) -> (r: Result<(), E>)
        ensures
            r is Ok ==> Self::asset_loaded(*old(self), *final(self), *path),
    ;

    /// Closes the map.
    fn close_map(&mut self) -> (r: Result<(), E>)
        ensures
            r is Ok ==> Self::map_closed(*old(self), *final(self)),
    ;
}

/// A command that loads a glTF asset from a file into the world; closing
/// the map undoes it.
#[derive(Clone, Debug)]
pub struct LoadGltfAssetCommand(pub String);

impl LoadGltfAssetCommand {
    /// Loading an asset can be undone.
    pub fn is_undoable(&self) -> (b: bool)
        ensures
            b,
    {
        true
    }
}

impl<R: MapResources<E>, E> Command<R, E> for LoadGltfAssetCommand {
    open spec fn undoable(&self) -> bool {
        true
    }

    /// A successful run has loaded the asset at the command's path.
    open spec fn executes(&self, before: R, after: R, result: Result<(), E>) -> bool {
        result is Ok ==> R::asset_loaded(before, after, self.0)
    }

    /// A successful undo has closed the map.
    open spec fn undoes(&self, before: R, after: R, result: Result<(), E>) -> bool {
        result is Ok ==> R::map_closed(before, after)
    }

    fn is_undoable(&self) -> (b: bool) {
        true
    }

    /// Loads the asset.
    fn execute(&mut self, resources: &mut R) -> (r: Result<(), E>) {
        resources.load_gltf_asset(&self.0)
    }

    /// Closes the map.
    fn undo(&mut self, resources: &mut R) -> (r: Result<(), E>) {
        resources.close_map()
    }
}

} // verus!
