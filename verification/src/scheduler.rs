//! A round-robin scheduler of user processes. Each process is Ready,
//! Running or Sleeping until a deadline; at most one runs at a time, and
//! the next to run is the first ready process after the one scheduled last.
use crate::syscall::UserContext;
use crate::time::Duration;
use vstd::prelude::*;

verus! {

/// The most processes the scheduler holds.
pub const MAX_PROCESSES: usize = 32;

/// What a process is doing.
#[derive(Debug, Clone, Copy, PartialEq, Eq, Structural)]
pub enum ProcessState {
    Ready,
    Running,
    /// Asleep until the time since boot reaches the deadline.
    Sleeping(Duration),
}

/// Why a process could not be added.
#[derive(Debug, Clone, Copy, PartialEq, Eq, Structural)]
pub enum SchedulerError {
    ProcessLimitReached,
}

/// The states after waking every process whose deadline is not after `now`.
pub open spec fn woken(states: Seq<ProcessState>, now: Duration) -> Seq<ProcessState> {
    states.map_values(|s: ProcessState| wake(s, now))
}

/// A sleeping process whose deadline is not after `now` becomes ready.
pub open spec fn wake(s: ProcessState, now: Duration) -> ProcessState {
    match s {
        ProcessState::Sleeping(deadline) => if deadline.nanos() <= now.nanos() {
            ProcessState::Ready
        } else {
            s
        },
        _ => s,
    }
}

/// Where the search for the next process starts: after the one scheduled
/// last, wrapping around.
pub open spec fn search_start(len: nat, last: Option<usize>) -> int {
    match last {
        Some(i) => if i + 1 < len {
            i + 1
        } else {
            0
        },
        None => 0,
    }
}

/// The slot `offset` places after `start`, wrapping around.
pub open spec fn slot_at(start: int, offset: int, len: nat) -> int {
    if start + offset < len {
        start + offset
    } else {
        start + offset - len
    }
}

/// How many places after `start` slot `i` lies, wrapping around.
pub open spec fn offset_of(start: int, i: int, len: nat) -> int {
    if i >= start {
        i - start
    } else {
        i - start + len
    }
}

/// The first offset at or after `k` whose slot holds a ready process.
pub open spec fn first_ready_offset(states: Seq<ProcessState>, start: int, k: int) -> Option<int>
    decreases states.len() - k,
{
    if k < 0 || k >= states.len() {
        None
    } else if states[slot_at(start, k, states.len())] is Ready {
        Some(k)
    } else {
        first_ready_offset(states, start, k + 1)
    }
}

/// The first ready slot after the one scheduled last, wrapping around.
pub open spec fn next_ready(states: Seq<ProcessState>, last: Option<usize>) -> Option<usize> {
    let start = search_start(states.len(), last);
    match first_ready_offset(states, start, 0) {
        Some(off) => Some(slot_at(start, off, states.len()) as usize),
        None => None,
    }
}

/// The processes of the scheduler: their states and saved registers, the
/// one running, and the one scheduled last.
pub struct Scheduler {
    states: Vec<ProcessState>,
    contexts: Vec<UserContext>,
    running: Option<usize>,
    last_scheduled: Option<usize>,
}

impl Scheduler {
    /// The states of the processes, by slot.
    pub closed spec fn spec_states(&self) -> Seq<ProcessState> {
        self.states@
    }

    /// The saved registers of the processes, by slot.
    pub closed spec fn spec_contexts(&self) -> Seq<UserContext> {
        self.contexts@
    }

    pub closed spec fn spec_running(&self) -> Option<usize> {
        self.running
    }

    pub closed spec fn spec_last_scheduled(&self) -> Option<usize> {
        self.last_scheduled
    }

    /// At most [`MAX_PROCESSES`] processes; the running slot, if any, is
    /// the only one whose state is Running; the last scheduled slot exists.
    pub open spec fn well_formed(&self) -> bool {
        let states = self.spec_states();
        &&& states.len() == self.spec_contexts().len()
        &&& states.len() <= MAX_PROCESSES
        &&& forall|i: int|
            0 <= i < states.len() ==> (#[trigger] states[i] is Running <==> self.spec_running()
                == Some(i as usize))
        &&& self.spec_running() matches Some(i) ==> i < states.len()
        &&& self.spec_last_scheduled() matches Some(i) ==> i < states.len()
    }

    #[verifier::type_invariant]
    closed spec fn inv(&self) -> bool {
        self.well_formed()
    }

    /// No processes.
    pub fn new() -> (r: Self)
        ensures
            r.well_formed(),
            r.spec_states() == Seq::<ProcessState>::empty(),
            r.spec_running() is None,
            r.spec_last_scheduled() is None,
    {
        Self { states: Vec::new(), contexts: Vec::new(), running: None, last_scheduled: None }
    }

    /// The number of processes.
    pub fn process_count(&self) -> (r: usize)
        ensures
            r == self.spec_states().len(),
    {
        self.states.len()
    }

    /// The running process, if any.
    pub fn running(&self) -> (r: Option<usize>)
        ensures
            r == self.spec_running(),
    {
        self.running
    }

    /// The state of the process in `slot`.
    pub fn state(&self, slot: usize) -> (r: ProcessState)
        requires
            slot < self.spec_states().len(),
        ensures
            r == self.spec_states()[slot as int],
    {
        self.states[slot]
    }

    /// Adds a ready process with the registers it starts with, in the next
    /// slot; fails when [`MAX_PROCESSES`] are there.
    pub fn add(&mut self, context: UserContext) -> (r: Result<usize, SchedulerError>)
        ensures
            final(self).well_formed(),
            old(self).spec_states().len() == MAX_PROCESSES ==> r == Err::<usize, SchedulerError>(
                SchedulerError::ProcessLimitReached,
            ) && *final(self) == *old(self),
            old(self).spec_states().len() < MAX_PROCESSES ==> {
                &&& r == Ok::<usize, SchedulerError>(old(self).spec_states().len() as usize)
                &&& final(self).spec_states() == old(self).spec_states().push(ProcessState::Ready)
                &&& final(self).spec_contexts() == old(self).spec_contexts().push(context)
                &&& final(self).spec_running() == old(self).spec_running()
                &&& final(self).spec_last_scheduled() == old(self).spec_last_scheduled()
            },
    {
        proof {
            use_type_invariant(&*self);
        }
        if self.states.len() == MAX_PROCESSES {
            return Err(SchedulerError::ProcessLimitReached);
        }
        let slot = self.states.len();
        let mut states = self.states.clone();
        let mut contexts = self.contexts.clone();
        states.push(ProcessState::Ready);
        contexts.push(context);
        *self = Self {
            states,
            contexts,
            running: self.running,
            last_scheduled: self.last_scheduled,
        };
        Ok(slot)
    }

    fn woken_states(&self, now: Duration) -> (r: Vec<ProcessState>)
        ensures
            r@ == woken(self.spec_states(), now),
    {
        let mut r: Vec<ProcessState> = Vec::new();
        let mut i: usize = 0;
        while i < self.states.len()
            invariant
                i <= self.states@.len(),
                r@ == woken(self.states@.subrange(0, i as int), now),
            decreases self.states@.len() - i,
        {
            let state = self.states[i];
            let next = match state {
                ProcessState::Sleeping(deadline) => if deadline.le(now) {
                    ProcessState::Ready
                } else {
                    state
                },
                _ => state,
            };
            r.push(next);
            proof {
                assert(self.states@.subrange(0, i + 1) == self.states@.subrange(0, i as int).push(
                    state,
                ));
            }
            i = i + 1;
        }
        proof {
            assert(self.states@.subrange(0, self.states@.len() as int) == self.states@);
        }
        r
    }

    /// Wakes every sleeping process whose deadline is not after `now`.
    pub fn wake_sleeping_processes(&mut self, now: Duration)
        ensures
            final(self).well_formed(),
            final(self).spec_states() == woken(old(self).spec_states(), now),
            final(self).spec_contexts() == old(self).spec_contexts(),
            final(self).spec_running() == old(self).spec_running(),
            final(self).spec_last_scheduled() == old(self).spec_last_scheduled(),
    {
        proof {
            use_type_invariant(&*self);
        }
        let states = self.woken_states(now);
        *self = Self {
            states,
            contexts: self.contexts.clone(),
            running: self.running,
            last_scheduled: self.last_scheduled,
        };
    }

    /// The first ready process after the one scheduled last, wrapping
    /// around; the search starts at slot 0 when none was scheduled yet.
    pub fn next_ready_index(&self) -> (r: Option<usize>)
        ensures
            r == next_ready(self.spec_states(), self.spec_last_scheduled()),
            r matches Some(i) ==> i < self.spec_states().len() && self.spec_states()[i as int] is Ready,
    {
        proof {
            use_type_invariant(self);
        }
        let count = self.states.len();
        if count == 0 {
            return None;
        }
        let start = match self.last_scheduled {
            Some(index) => if index + 1 < count {
                index + 1
            } else {
                0
            },
            None => 0,
        };
        let ghost len = self.states@.len();
        assert(start == search_start(len, self.last_scheduled));
        let mut offset: usize = 0;
        while offset < count
            invariant
                count == len,
                len == self.states@.len(),
                0 < count <= MAX_PROCESSES,
                start < count,
                start == search_start(len, self.last_scheduled),
                offset <= count,
                first_ready_offset(self.states@, start as int, offset as int) == first_ready_offset(
                    self.states@,
                    start as int,
                    0,
                ),
            decreases count - offset,
        {
            let index = if start + offset < count {
                start + offset
            } else {
                start + offset - count
            };
            assert(index as int == slot_at(start as int, offset as int, len));
            if let ProcessState::Ready = self.states[index] {
                return Some(index);
            }
            offset = offset + 1;
        }
        None
    }

    /// Picks the next process to run: wakes the sleepers whose deadline has
    /// passed, then takes the first ready process after the one scheduled
    /// last, marks it Running, and hands back its slot and registers.
    pub fn prepare_next(&mut self, now: Duration) -> (r: Option<(usize, UserContext)>)
        requires
            old(self).spec_running() is None,
        ensures
            final(self).well_formed(),
            final(self).spec_contexts() == old(self).spec_contexts(),
            ({
                let states = woken(old(self).spec_states(), now);
                match next_ready(states, old(self).spec_last_scheduled()) {
                    None => {
                        &&& r is None
                        &&& final(self).spec_states() == states
                        &&& final(self).spec_running() is None
                        &&& final(self).spec_last_scheduled() == old(self).spec_last_scheduled()
                    },
                    Some(i) => {
                        &&& r == Some((i, old(self).spec_contexts()[i as int]))
                        &&& states[i as int] is Ready
                        &&& final(self).spec_states() == states.update(i as int, ProcessState::Running)
                        &&& final(self).spec_running() == Some(i)
                        &&& final(self).spec_last_scheduled() == Some(i)
                    },
                }
            }),
    {
        self.wake_sleeping_processes(now);
        proof {
            use_type_invariant(&*self);
        }
        let index = match self.next_ready_index() {
            Some(index) => index,
            None => return None,
        };
        let mut states = self.states.clone();
        states.set(index, ProcessState::Running);
        let context = self.contexts[index];
        *self = Self {
            states,
            contexts: self.contexts.clone(),
            running: Some(index),
            last_scheduled: Some(index),
        };
        Some((index, context))
    }

    /// Moves the running process to `state` (not Running); no process runs
    /// afterwards.
    pub fn transition_running(&mut self, state: ProcessState)
        requires
            state != ProcessState::Running,
            old(self).spec_running() is Some,
        ensures
            final(self).well_formed(),
            final(self).spec_states() == old(self).spec_states().update(
                old(self).spec_running().unwrap() as int,
                state,
            ),
            final(self).spec_contexts() == old(self).spec_contexts(),
            final(self).spec_running() is None,
            final(self).spec_last_scheduled() == old(self).spec_last_scheduled(),
    {
        proof {
            use_type_invariant(&*self);
        }
        let index = self.running.unwrap();
        let mut states = self.states.clone();
        states.set(index, state);
        *self = Self {
            states,
            contexts: self.contexts.clone(),
            running: None,
            last_scheduled: self.last_scheduled,
        };
    }

    /// The running process yields: it becomes ready again.
    pub fn yield_running(&mut self)
        requires
            old(self).spec_running() is Some,
        ensures
            final(self).well_formed(),
            final(self).spec_states() == old(self).spec_states().update(
                old(self).spec_running().unwrap() as int,
                ProcessState::Ready,
            ),
            final(self).spec_contexts() == old(self).spec_contexts(),
            final(self).spec_running() is None,
            final(self).spec_last_scheduled() == old(self).spec_last_scheduled(),
    {
        self.transition_running(ProcessState::Ready);
    }

    /// The running process sleeps until `deadline`.
    pub fn sleep_running(&mut self, deadline: Duration)
        requires
            old(self).spec_running() is Some,
        ensures
            final(self).well_formed(),
            final(self).spec_states() == old(self).spec_states().update(
                old(self).spec_running().unwrap() as int,
                ProcessState::Sleeping(deadline),
            ),
            final(self).spec_contexts() == old(self).spec_contexts(),
            final(self).spec_running() is None,
            final(self).spec_last_scheduled() == old(self).spec_last_scheduled(),
    {
        self.transition_running(ProcessState::Sleeping(deadline));
    }

    /// Saves the registers of the running process as it enters the kernel;
    /// hands back its slot.
    pub fn capture_running(&mut self, context: UserContext) -> (r: usize)
        requires
            old(self).spec_running() is Some,
        ensures
            final(self).well_formed(),
            r == old(self).spec_running().unwrap(),
            final(self).spec_contexts() == old(self).spec_contexts().update(r as int, context),
            final(self).spec_states() == old(self).spec_states(),
            final(self).spec_running() == old(self).spec_running(),
            final(self).spec_last_scheduled() == old(self).spec_last_scheduled(),
    {
        proof {
            use_type_invariant(&*self);
        }
        let index = self.running.unwrap();
        let mut contexts = self.contexts.clone();
        contexts.set(index, context);
        *self = Self {
            states: self.states.clone(),
            contexts,
            running: self.running,
            last_scheduled: self.last_scheduled,
        };
        index
    }
}

/// A well-formed scheduler runs at most one process: two slots in the
/// Running state are the same slot.
pub proof fn lemma_at_most_one_running(scheduler: &Scheduler, i: int, j: int)
    requires
        scheduler.well_formed(),
        0 <= i < scheduler.spec_states().len(),
        0 <= j < scheduler.spec_states().len(),
        scheduler.spec_states()[i] is Running,
        scheduler.spec_states()[j] is Running,
    ensures
        i == j,
{
    assert(scheduler.spec_states()[i] is Running);
    assert(scheduler.spec_states()[j] is Running);
}

/// Round robin: the process chosen is ready, and no slot from the one after
/// the process scheduled last up to the chosen one (wrapping around) holds a
/// ready process; when none is chosen, no process is ready.
pub proof fn lemma_round_robin(states: Seq<ProcessState>, last: Option<usize>)
    requires
        states.len() <= MAX_PROCESSES,
        last matches Some(l) ==> l < states.len(),
    ensures
        next_ready(states, last) matches Some(i) ==> {
            let start = search_start(states.len(), last);
            &&& i < states.len()
            &&& states[i as int] is Ready
            &&& forall|k: int|
                0 <= k < offset_of(start, i as int, states.len()) ==> !(#[trigger] states[slot_at(
                    start,
                    k,
                    states.len(),
                )] is Ready)
        },
        next_ready(states, last) is None ==> forall|i: int|
            0 <= i < states.len() ==> !(#[trigger] states[i] is Ready),
{
    let len = states.len();
    let start = search_start(len, last);
    lemma_first_ready_offset(states, start, 0);
    match first_ready_offset(states, start, 0) {
        Some(off) => {
            let i = slot_at(start, off, len);
            assert(offset_of(start, i, len) == off);
            assert((i as usize) as int == i);
            assert forall|k: int|
                0 <= k < offset_of(start, i, len) implies !(#[trigger] states[slot_at(start, k, len)] is Ready) by {
            }
        },
        None => {
            assert forall|i: int| 0 <= i < len implies !(#[trigger] states[i] is Ready) by {
                let off = offset_of(start, i, len);
                assert(slot_at(start, off, len) == i);
                assert(!(states[slot_at(start, off, len)] is Ready));
            }
        },
    }
}

/// What the first ready offset from `k` is: ready itself, with no ready
/// offset from `k` before it; or none, when no offset from `k` is ready.
proof fn lemma_first_ready_offset(states: Seq<ProcessState>, start: int, k: int)
    requires
        0 <= k <= states.len(),
        0 <= start < states.len() || states.len() == 0,
    ensures
        first_ready_offset(states, start, k) matches Some(off) ==> {
            &&& k <= off < states.len()
            &&& states[slot_at(start, off, states.len())] is Ready
            &&& forall|j: int|
                k <= j < off ==> !(#[trigger] states[slot_at(start, j, states.len())] is Ready)
        },
        first_ready_offset(states, start, k) is None ==> forall|j: int|
            k <= j < states.len() ==> !(#[trigger] states[slot_at(start, j, states.len())] is Ready),
    decreases states.len() - k,
{
    if k < states.len() {
        lemma_first_ready_offset(states, start, k + 1);
    }
}

} // verus!
