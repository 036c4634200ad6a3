//! The scheduling logic of a cooperative green-thread runtime.
//!
//! The runtime owns a fixed table of threads. Each thread is `Available`
//! (its slot is free), `Ready` (it waits to run) or `Running`. Yielding picks
//! the next ready thread in round-robin order, starting at the current one.
//! The machine-level context switch itself is performed by the caller.
use vstd::prelude::*;

verus! {

/// Number of machine words in each thread's stack.
pub const STACK_SIZE: usize = 8192;

/// Number of thread slots in a runtime, the base thread included.
pub const MAX_THREADS: usize = 16;

/// Life-cycle state of a thread slot.
#[derive(Debug, Clone, Copy, PartialEq, Eq, Structural)]
pub enum State {
    Available,
    Running,
    Ready,
}

/// The callee-saved registers of a suspended thread.
#[derive(Debug, Clone, Copy)]
pub struct ThreadContext {
    pub rsp: u64,
    pub r15: u64,
    pub r14: u64,
    pub r13: u64,
    pub r12: u64,
    pub rbx: u64,
    pub rbp: u64,
}

impl ThreadContext {
    /// A context whose registers are all zero.
    pub open spec fn zeroed() -> ThreadContext {
        ThreadContext { rsp: 0, r15: 0, r14: 0, r13: 0, r12: 0, rbx: 0, rbp: 0 }
    }
}

impl Default for ThreadContext {
    fn default() -> (ctx: ThreadContext)
        ensures
            ctx == ThreadContext::zeroed(),
    {
        ThreadContext { rsp: 0, r15: 0, r14: 0, r13: 0, r12: 0, rbx: 0, rbp: 0 }
    }
}

/// One thread slot: its number, its stack, its saved registers and its state.
#[derive(Debug)]
pub struct Thread {
    pub id: usize,
    pub stack: Vec<u64>,
    pub ctx: ThreadContext,
    pub state: State,
}

/// A stack of `STACK_SIZE` zero words.
pub open spec fn zero_stack(s: Seq<u64>) -> bool {
    &&& s.len() == STACK_SIZE
    &&& forall|k: int| 0 <= k < s.len() ==> s[k] == 0
}

impl Thread {
    /// A free thread slot numbered `id`, with a zeroed stack and context.
    pub fn new(id: usize) -> (t: Thread)
        ensures
            t.id == id,
            zero_stack(t.stack@),
            t.ctx == ThreadContext::zeroed(),
            t.state == State::Available,
    {
        Thread { id, stack: vec![0u64; STACK_SIZE], ctx: ThreadContext::default(), state: State::Available }
    }
}


/// The end of a stack of `STACK_SIZE` words starting at address `base`,
/// rounded down to a multiple of 16.
pub open spec fn frame_top(base: int) -> int {
    let end = base + 8 * STACK_SIZE;
    end - end % 16
}

/// The index of the stack word at `off` bytes below `frame_top(base)`.
pub open spec fn frame_slot(base: int, off: int) -> int {
    (frame_top(base) - off - base) / 8
}

/// The runtime: a table of `MAX_THREADS` slots and the number of the thread
/// that currently owns the processor.
#[derive(Debug)]
pub struct Runtime {
    pub threads: Vec<Thread>,
    pub current: usize,
}

/// The slot reached `k` steps after `c` when walking `n` slots round-robin.
pub open spec fn cyclic(c: int, k: int, n: int) -> int {
    if c + k < n {
        c + k
    } else {
        c + k - n
    }
}

/// The first slot holding a `Ready` thread among the slots reached `k`,
/// `k + 1`, ... steps after `c` (fewer than `states.len()` steps in all).
pub open spec fn next_ready_from(states: Seq<State>, c: int, k: int) -> Option<int>
    decreases states.len() - k,
{
    if k < 0 || k >= states.len() {
        None
    } else if states[cyclic(c, k, states.len() as int)] == State::Ready {
        Some(cyclic(c, k, states.len() as int))
    } else {
        next_ready_from(states, c, k + 1)
    }
}

/// The thread that a yield from `c` hands the processor to: the first ready
/// slot in round-robin order starting at `c` itself.
pub open spec fn next_ready(states: Seq<State>, c: int) -> Option<int> {
    next_ready_from(states, c, 0)
}

/// The states after the processor passes from `c` to `nx`: `c` waits again
/// unless its slot was freed, and `nx` runs.
pub open spec fn handed_over(states: Seq<State>, c: int, nx: int) -> Seq<State> {
    states.update(c, if states[c] == State::Available { State::Available } else { State::Ready }).update(
        nx,
        State::Running,
    )
}

/// The first free slot at position `k` or later.
pub open spec fn first_available_from(states: Seq<State>, k: int) -> Option<int>
    decreases states.len() - k,
{
    if k < 0 || k >= states.len() {
        None
    } else if states[k] == State::Available {
        Some(k)
    } else {
        first_available_from(states, k + 1)
    }
}

/// The first free slot.
pub open spec fn first_available(states: Seq<State>) -> Option<int> {
    first_available_from(states, 0)
}

/// What `first_available_from` returns: the least free slot at or after `k`.
pub proof fn lemma_first_available_from(states: Seq<State>, k: int)
    requires
        0 <= k,
    ensures
        match first_available_from(states, k) {
            Some(i) => {
                &&& k <= i < states.len()
                &&& states[i] == State::Available
                &&& forall|j: int| k <= j < i ==> states[j] != State::Available
            },
            None => forall|j: int| k <= j < states.len() ==> states[j] != State::Available,
        },
    decreases states.len() - k,
{
    if k < states.len() && states[k] != State::Available {
        lemma_first_available_from(states, k + 1);
    }
}

/// `threads` with the state of each slot taken from `states`.
pub open spec fn with_states(threads: Seq<Thread>, states: Seq<State>) -> Seq<Thread> {
    Seq::new(
        threads.len(),
        |i: int| Thread { id: threads[i].id, stack: threads[i].stack, ctx: threads[i].ctx, state: states[i] },
    )
}

impl Runtime {
    /// A runtime whose base thread (slot 0) is the caller, running, and whose
    /// other slots are free, each with a zeroed stack and context.
    pub fn new() -> (rt: Runtime)
        ensures
            rt.wf(),
            rt.current == 0,
            forall|i: int|
                #![trigger rt.threads@[i]]
                0 <= i < MAX_THREADS ==> {
                    &&& rt.threads@[i].state == (if i == 0 { State::Running } else { State::Available })
                    &&& zero_stack(rt.threads@[i].stack@)
                    &&& rt.threads@[i].ctx == ThreadContext::zeroed()
                },
            one_runner(rt.states(), 0),
            base_kept(rt.states()),
    {
        let base_thread = Thread {
            id: 0,
            stack: vec![0u64; STACK_SIZE],
            ctx: ThreadContext::default(),
            state: State::Running,
        };
        let mut threads: Vec<Thread> = Vec::new();
        threads.push(base_thread);
        let mut available_threads: Vec<Thread> = Vec::new();
        let mut id: usize = 1;
        while id < MAX_THREADS
            invariant
                1 <= id <= MAX_THREADS,
                available_threads.len() == id - 1,
                forall|i: int|
                    #![trigger available_threads@[i]]
                    0 <= i < available_threads.len() ==> {
                        &&& available_threads@[i].id == i + 1
                        &&& available_threads@[i].state == State::Available
                        &&& zero_stack(available_threads@[i].stack@)
                        &&& available_threads@[i].ctx == ThreadContext::zeroed()
                    },
            decreases MAX_THREADS - id,
        {
            available_threads.push(Thread::new(id));
            id += 1;
        }
        threads.append(&mut available_threads);
        let rt = Runtime { threads, current: 0 };
        assert(rt.threads@[0].state == State::Running);
        rt
    }

    /// The slot table has its fixed size, slots are numbered by position,
    /// every stack has its fixed size and the current thread is a slot.
    pub open spec fn wf(&self) -> bool {
        &&& self.threads.len() == MAX_THREADS
        &&& self.current < self.threads.len()
        &&& forall|i: int|
            #![trigger self.threads@[i]]
            0 <= i < self.threads.len() ==> self.threads@[i].id == i && self.threads@[i].stack@.len()
                == STACK_SIZE
    }

    /// The state of every slot, by position.
    pub open spec fn states(&self) -> Seq<State> {
        self.threads@.map_values(|t: Thread| t.state)
    }

    /// Hands the processor to the next ready thread in round-robin order,
    /// starting at the current thread itself.
    ///
    /// When no thread is ready, nothing changes and `false` is returned.
    /// Otherwise the current thread goes back to `Ready` (unless its slot was
    /// freed), the chosen thread becomes `Running` and current, and `true` is
    /// returned; the caller then switches from the saved context of the
    /// former current thread to that of the new one.
    pub fn yield_thread(&mut self) -> (switched: bool)
        requires
            old(self).wf(),
        ensures
            final(self).wf(),
            switched == next_ready(old(self).states(), old(self).current as int) is Some,
            match next_ready(old(self).states(), old(self).current as int) {
                Some(nx) => {
                    &&& final(self).current == nx
                    &&& final(self).threads@ == with_states(
                        old(self).threads@,
                        handed_over(old(self).states(), old(self).current as int, nx),
                    )
                },
                None => *final(self) == *old(self),
            },
            (final(self).states(), final(self).current as int) == after_yields(
                old(self).states(),
                old(self).current as int,
                1,
            ),
            switched ==> final(self).threads@[final(self).current as int].state == State::Running,
            forall|j: int|
                0 <= j < MAX_THREADS && j != old(self).current && j != final(self).current ==> (
                #[trigger] final(self).threads@[j]).state == old(self).threads@[j].state,
    {
        let n = self.threads.len();
        let current = self.current;
        let mut next = self.current;
        let ghost states = self.states();
        let ghost mut k: int = 0;
        while self.threads[next].state != State::Ready
            invariant
                self.wf(),
                *self == *old(self),
                states == self.states(),
                n == self.threads.len(),
                current == self.current,
                0 <= k < n,
                next == cyclic(current as int, k, n as int),
                next_ready(states, current as int) == next_ready_from(states, current as int, k),
            decreases n - k,
        {
            assert(states[next as int] == self.threads@[next as int].state);
            next += 1;
            if next == n {
                next = 0;
            }
            proof {
                k = k + 1;
            }
            if next == current {
                assert(next_ready_from(states, current as int, k) is None);
                return false;
            }
        }
        assert(states[next as int] == State::Ready);
        assert(next_ready(states, current as int) == Some(next as int));
        if self.threads[current].state != State::Available {
            self.threads[current].state = State::Ready;
        }
        self.threads[next].state = State::Running;
        self.current = next;
        assert(self.threads@ =~= with_states(
            old(self).threads@,
            handed_over(states, current as int, next as int),
        ));
        assert(self.states() =~= handed_over(states, current as int, next as int));
        assert(after_yields(handed_over(states, current as int, next as int), next as int, 0) == (
        handed_over(states, current as int, next as int), next as int));
        !self.threads.is_empty()
    }

    /// The first free slot, if any.
    pub fn first_available(&self) -> (slot: Option<usize>)
        requires
            self.wf(),
        ensures
            match first_available(self.states()) {
                Some(i) => slot == Some(i as usize),
                None => slot is None,
            },
    {
        let ghost states = self.states();
        let mut i: usize = 0;
        while i < self.threads.len()
            invariant
                self.wf(),
                states == self.states(),
                0 <= i <= self.threads.len(),
                first_available(states) == first_available_from(states, i as int),
            decreases self.threads.len() - i,
        {
            assert(states[i as int] == self.threads@[i as int].state);
            if self.threads[i].state == State::Available {
                return Some(i);
            }
            i += 1;
        }
        None
    }

    /// Prepares the first free slot to run the function whose entry address
    /// is `entry`, and marks it `Ready`; returns the slot.
    ///
    /// `stack_base` is the address of the first word of that slot's stack.
    /// The initial frame is laid out below the end of the stack rounded down
    /// to a multiple of 16: the address of `guard_entry` at 16 bytes below
    /// it, that of `skip_entry` at 24 bytes below and `entry` at 32 bytes
    /// below, where the saved stack pointer is made to point. Switching to
    /// the thread thus runs `entry`, then `skip_entry`, then `guard_entry`.
    pub fn spawn(&mut self, entry: u64, guard_entry: u64, skip_entry: u64, stack_base: u64) -> (slot: usize)
        requires
            old(self).wf(),
            first_available(old(self).states()) is Some,
            stack_base % 8 == 0,
            stack_base + 8 * STACK_SIZE <= u64::MAX,
        ensures
            final(self).wf(),
            Some(slot as int) == first_available(old(self).states()),
            final(self).current == old(self).current,
            final(self).threads@ == old(self).threads@.update(
                slot as int,
                Thread {
                    id: slot,
                    stack: final(self).threads@[slot as int].stack,
                    ctx: ThreadContext { rsp: (frame_top(stack_base as int) - 0x20) as u64, ..old(self).threads@[slot as int].ctx },
                    state: State::Ready,
                },
            ),
            final(self).threads@[slot as int].stack@ == old(self).threads@[slot as int].stack@.update(
                frame_slot(stack_base as int, 0x10),
                guard_entry,
            ).update(frame_slot(stack_base as int, 0x18), skip_entry).update(
                frame_slot(stack_base as int, 0x20),
                entry,
            ),
    {
        proof {
            lemma_first_available_from(old(self).states(), 0);
        }
        let slot = self.first_available().unwrap();
        let end: u64 = stack_base + 8 * (STACK_SIZE as u64);
        let top: u64 = end & !0xfu64;
        assert(end & !0xfu64 == end - end % 16) by (bit_vector);
        assert(frame_top(stack_base as int) == top);
        let guard_at: usize = ((top - 0x10 - stack_base) / 8) as usize;
        let skip_at: usize = ((top - 0x18 - stack_base) / 8) as usize;
        let entry_at: usize = ((top - 0x20 - stack_base) / 8) as usize;
        assert(guard_at == frame_slot(stack_base as int, 0x10));
        assert(skip_at == frame_slot(stack_base as int, 0x18));
        assert(entry_at == frame_slot(stack_base as int, 0x20));
        assert(self.threads@[slot as int].stack@.len() == STACK_SIZE);
        assert(entry_at < skip_at < guard_at < STACK_SIZE);
        self.threads[slot].stack[guard_at] = guard_entry;
        self.threads[slot].stack[skip_at] = skip_entry;
        self.threads[slot].stack[entry_at] = entry;
        self.threads[slot].ctx.rsp = top - 0x20;
        self.threads[slot].state = State::Ready;
        slot
    }

    /// The address at which this runtime is stored, for code that must reach
    /// it without a reference (the entry of a finished thread).
    ///
    /// Converts `self` with `std::ptr::from_ref` and casts the pointer to an
    /// integer. A reference is never null and is aligned for its type, as
    /// std documents, so the address is non-zero and a multiple of the
    /// runtime's alignment. Which address it is depends on where the runtime
    /// was placed in memory and is not stated.
    #[verifier::external_body]
    pub fn get_addr(&self) -> (addr: usize)
        ensures
            addr != 0,
            addr as nat % vstd::layout::align_of::<Runtime>() == 0,
    {
        std::ptr::from_ref(self) as usize
    }
} // impl Runtime

/// The states after the current thread `c` finishes: its slot is freed,
/// unless it is the base thread, which has no slot to give back.
pub open spec fn retired(states: Seq<State>, c: int) -> Seq<State> {
    if c != 0 {
        states.update(c, State::Available)
    } else {
        states
    }
}

/// Runs when a spawned thread's function returns: frees the slot of the
/// current thread (never that of the base thread) and yields, as
/// `Runtime::yield_thread` does, from the freed state.
pub fn guard(rt: &mut Runtime) -> (switched: bool)
    requires
        old(rt).wf(),
    ensures
        final(rt).wf(),
        old(rt).current != 0 && one_runner(old(rt).states(), old(rt).current as int) && base_kept(
            old(rt).states(),
        ) ==> switched,
        old(rt).current != 0 ==> final(rt).threads@[old(rt).current as int].state == State::Available,
        switched ==> final(rt).threads@[final(rt).current as int].state == State::Running,
        forall|j: int|
            0 <= j < MAX_THREADS && j != old(rt).current && j != final(rt).current ==> (
            #[trigger] final(rt).threads@[j]).state == old(rt).threads@[j].state,
        ({
            let c = old(rt).current as int;
            let freed = retired(old(rt).states(), c);
            &&& switched == next_ready(freed, c) is Some
            &&& match next_ready(freed, c) {
                Some(nx) => {
                    &&& final(rt).current == nx
                    &&& final(rt).threads@ == with_states(old(rt).threads@, handed_over(freed, c, nx))
                },
                None => {
                    &&& final(rt).current == c
                    &&& final(rt).threads@ == with_states(old(rt).threads@, freed)
                },
            }
        }),
{
    let ghost c = rt.current as int;
    let ghost freed = retired(rt.states(), c);
    proof {
        if c != 0 && one_runner(rt.states(), c) && base_kept(rt.states()) {
            law_finished_thread_has_successor(rt.states(), c);
        }
    }
    if rt.current != 0 {
        let cur = rt.current;
        rt.threads[cur].state = State::Available;
    }
    assert(rt.threads@ =~= with_states(old(rt).threads@, freed));
    assert(rt.states() =~= freed);
    let switched = rt.yield_thread();
    proof {
        law_guard_frees_only_finished_slot(old(rt).states(), c);
        if let Some(nx) = next_ready(freed, c) {
            assert(rt.threads@ =~= with_states(old(rt).threads@, handed_over(freed, c, nx)));
            law_yield_picks_first_ready(freed, c);
        }
    }
    switched
}

} // verus!

verus! {

/// Only the current thread `c` may be `Running`.
pub open spec fn one_runner(states: Seq<State>, c: int) -> bool {
    forall|i: int| 0 <= i < states.len() && states[i] == State::Running ==> i == c
}

/// The base thread's slot (slot 0) is never free.
pub open spec fn base_kept(states: Seq<State>) -> bool {
    states.len() > 0 && states[0] != State::Available
}

/// What `next_ready_from` returns: the first slot at or after step `k` in
/// round-robin order from `c` that holds a ready thread; the step at which it
/// is met is returned.
pub proof fn lemma_next_ready_from(states: Seq<State>, c: int, k: int) -> (m: int)
    requires
        0 <= c < states.len(),
        0 <= k,
    ensures
        next_ready_from(states, c, k) is Some ==> {
            &&& k <= m < states.len()
            &&& next_ready_from(states, c, k) == Some(cyclic(c, m, states.len() as int))
            &&& states[cyclic(c, m, states.len() as int)] == State::Ready
        },
        forall|j: int|
            k <= j < states.len() && (next_ready_from(states, c, k) is Some ==> j < m)
                ==> states[#[trigger] cyclic(c, j, states.len() as int)] != State::Ready,
    decreases states.len() - k,
{
    let n = states.len() as int;
    if k >= n {
        k
    } else if states[cyclic(c, k, n)] == State::Ready {
        k
    } else {
        lemma_next_ready_from(states, c, k + 1)
    }
}

/// Yielding is round-robin and never skips a ready thread: the thread chosen
/// is ready and is the first ready one met walking the slots from the
/// current one, and a yield fails only when no thread at all is ready.
pub proof fn law_yield_picks_first_ready(states: Seq<State>, c: int)
    requires
        0 <= c < states.len(),
    ensures
        match next_ready(states, c) {
            Some(nx) => {
                &&& 0 <= nx < states.len()
                &&& states[nx] == State::Ready
                &&& exists|m: int|
                    #![trigger cyclic(c, m, states.len() as int)]
                    0 <= m < states.len() && nx == cyclic(c, m, states.len() as int) && forall|j: int|
                        0 <= j < m ==> states[#[trigger] cyclic(c, j, states.len() as int)]
                            != State::Ready
            },
            None => forall|i: int| 0 <= i < states.len() ==> states[i] != State::Ready,
        },
{
    let n = states.len() as int;
    let m = lemma_next_ready_from(states, c, 0);
    if next_ready(states, c) is None {
        assert forall|i: int| 0 <= i < n implies states[i] != State::Ready by {
            let j = if i >= c { i - c } else { i - c + n };
            assert(cyclic(c, j, n) == i);
        }
    }
}

/// A yield keeps exactly the thread it hands the processor to running: if
/// only the current thread was running, only the new current one is.
pub proof fn law_yield_keeps_single_runner(states: Seq<State>, c: int)
    requires
        0 <= c < states.len(),
        one_runner(states, c),
    ensures
        match next_ready(states, c) {
            Some(nx) => one_runner(handed_over(states, c, nx), nx),
            None => one_runner(states, c),
        },
{
    law_yield_picks_first_ready(states, c);
}

/// The state and current thread after `t` consecutive yields from current
/// thread `c`, nothing else changing the states meanwhile; a yield that
/// finds no ready thread changes nothing, and so do those after it.
pub open spec fn after_yields(states: Seq<State>, c: int, t: nat) -> (Seq<State>, int)
    decreases t,
{
    if t == 0 {
        (states, c)
    } else {
        match next_ready(states, c) {
            Some(nx) => after_yields(handed_over(states, c, nx), nx, (t - 1) as nat),
            None => (states, c),
        }
    }
}

/// How many steps round-robin from slot `c` reach slot `j`, among `n` slots.
pub open spec fn distance(c: int, j: int, n: int) -> int {
    if j >= c {
        j - c
    } else {
        j - c + n
    }
}

/// From a current thread that is not itself waiting, a ready thread `j`
/// runs after at most as many consecutive yields as there are steps from the
/// current slot to `j`.
proof fn lemma_runs_within_distance(states: Seq<State>, c: int, j: int) -> (t: nat)
    requires
        0 <= c < states.len(),
        0 <= j < states.len(),
        states[j] == State::Ready,
        states[c] != State::Ready,
    ensures
        1 <= t <= distance(c, j, states.len() as int) <= states.len() - 1,
        after_yields(states, c, t).1 == j,
        after_yields(states, c, t).0[j] == State::Running,
    decreases distance(c, j, states.len() as int),
{
    let n = states.len() as int;
    let d = distance(c, j, n);
    assert(cyclic(c, d, n) == j);
    let m = lemma_next_ready_from(states, c, 0);
    assert(cyclic(c, 0, n) == c);
    let nx = cyclic(c, m, n);
    assert(next_ready(states, c) == Some(nx));
    assert(1 <= m <= d);
    let s2 = handed_over(states, c, nx);
    assert(after_yields(s2, nx, 0) == (s2, nx));
    if m == d {
        assert(after_yields(states, c, 1) == after_yields(s2, nx, 0));
        1
    } else {
        assert(nx != j);
        assert(s2[j] == State::Ready);
        assert(s2[nx] == State::Running);
        assert(distance(nx, j, n) == d - m);
        let t2 = lemma_runs_within_distance(s2, nx, j);
        assert(after_yields(states, c, t2 + 1) == after_yields(s2, nx, t2));
        t2 + 1
    }
}

/// No ready thread is passed over: a ready thread `j` runs, and is current,
/// within `n` consecutive yields for `n` slots. When the current thread is
/// not itself waiting (as in every runtime that `Runtime::new`, `spawn`,
/// `yield_thread` and `guard` build), it runs after at most as many yields
/// as there are steps from the current slot to `j`, so within `n - 1`.
pub proof fn law_ready_thread_runs_within_a_round(states: Seq<State>, c: int, j: int) -> (t: nat)
    requires
        0 <= c < states.len(),
        0 <= j < states.len(),
        states[j] == State::Ready,
    ensures
        1 <= t <= states.len(),
        states[c] != State::Ready ==> t <= distance(c, j, states.len() as int) <= states.len() - 1,
        after_yields(states, c, t).1 == j,
        after_yields(states, c, t).0[j] == State::Running,
{
    let n = states.len() as int;
    if states[c] != State::Ready {
        lemma_runs_within_distance(states, c, j)
    } else {
        let m = lemma_next_ready_from(states, c, 0);
        assert(cyclic(c, 0, n) == c);
        assert(next_ready(states, c) == Some(c));
        let s2 = handed_over(states, c, c);
        assert(after_yields(s2, c, 0) == (s2, c));
        if j == c {
            assert(after_yields(states, c, 1) == after_yields(s2, c, 0));
            1
        } else {
            assert(s2[j] == State::Ready);
            assert(s2[c] == State::Running);
            let t2 = lemma_runs_within_distance(s2, c, j);
            assert(after_yields(states, c, t2 + 1) == after_yields(s2, c, t2));
            t2 + 1
        }
    }
}

/// A spawned thread that finishes always has a thread to hand over to: in a
/// runtime where only the current thread runs and the base thread's slot is
/// kept, the base thread is waiting whenever another thread is current, so
/// the yield after freeing the finished slot finds a ready thread.
pub proof fn law_finished_thread_has_successor(states: Seq<State>, c: int)
    requires
        0 < c < states.len(),
        one_runner(states, c),
        base_kept(states),
    ensures
        retired(states, c)[0] == State::Ready,
        next_ready(retired(states, c), c) is Some,
{
    let freed = retired(states, c);
    assert(freed[0] == State::Ready);
    law_yield_picks_first_ready(freed, c);
}

/// Finishing thread `c` frees only its own slot (and none at all when it is
/// the base thread); every other slot keeps its state.
pub proof fn law_guard_frees_only_finished_slot(states: Seq<State>, c: int)
    requires
        0 <= c < states.len(),
    ensures
        retired(states, c).len() == states.len(),
        c != 0 ==> retired(states, c)[c] == State::Available,
        c == 0 ==> retired(states, c)[c] == states[c],
        forall|j: int| 0 <= j < states.len() && j != c ==> #[trigger] retired(states, c)[j] == states[j],
{
}

/// A hand-over from `c` to `nx` touches only those two slots: `nx` runs, `c`
/// waits again unless its slot was free, and every other slot is unchanged.
pub proof fn law_hand_over_touches_two_slots(states: Seq<State>, c: int, nx: int)
    requires
        0 <= c < states.len(),
        0 <= nx < states.len(),
    ensures
        handed_over(states, c, nx).len() == states.len(),
        handed_over(states, c, nx)[nx] == State::Running,
        c != nx && states[c] == State::Available ==> handed_over(states, c, nx)[c] == State::Available,
        c != nx && states[c] != State::Available ==> handed_over(states, c, nx)[c] == State::Ready,
        forall|j: int|
            0 <= j < states.len() && j != c && j != nx ==> #[trigger] handed_over(states, c, nx)[j]
                == states[j],
{
}

/// A finishing thread stops running: after its slot is freed no thread
/// runs, and the yield that follows keeps at most the chosen one running.
pub proof fn law_guard_keeps_single_runner(states: Seq<State>, c: int)
    requires
        0 <= c < states.len(),
        one_runner(states, c),
    ensures
        c != 0 ==> retired(states, c)[c] == State::Available,
        one_runner(retired(states, c), c),
        match next_ready(retired(states, c), c) {
            Some(nx) => one_runner(handed_over(retired(states, c), c, nx), nx),
            None => true,
        },
{
    law_yield_keeps_single_runner(retired(states, c), c);
}

/// Spawning only turns a free slot into a ready one, so it never adds a
/// running thread.
pub proof fn law_spawn_keeps_single_runner(states: Seq<State>, c: int)
    requires
        one_runner(states, c),
        first_available(states) is Some,
    ensures
        one_runner(states.update(first_available(states)->0, State::Ready), c),
{
    lemma_first_available_from(states, 0);
}

/// The base thread's slot is never handed out: it is never freed by a
/// finishing thread, by a yield or by a spawn.
pub proof fn law_base_thread_never_freed(states: Seq<State>, c: int)
    requires
        0 <= c < states.len(),
        base_kept(states),
    ensures
        base_kept(retired(states, c)),
        match next_ready(states, c) {
            Some(nx) => base_kept(handed_over(states, c, nx)),
            None => true,
        },
        first_available(states) is Some ==> first_available(states)->0 != 0 && base_kept(
            states.update(first_available(states)->0, State::Ready),
        ),
{
    law_yield_picks_first_ready(states, c);
    lemma_first_available_from(states, 0);
}

} // verus!
