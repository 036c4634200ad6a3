use mesh_runtime::green::{guard, Runtime, State, Thread, MAX_THREADS, STACK_SIZE};

fn states(rt: &Runtime) -> Vec<State> {
    rt.threads.iter().map(|t| t.state).collect()
}

#[test]
fn thread_new_is_a_free_zeroed_slot() {
    let t = Thread::new(7);
    assert_eq!(t.id, 7);
    assert_eq!(t.stack.len(), STACK_SIZE);
    assert!(t.stack.iter().all(|w| *w == 0));
    assert_eq!(t.ctx.rsp, 0);
    assert_eq!(t.ctx.rbp, 0);
    assert_eq!(t.state, State::Available);
}

#[test]
fn runtime_new_has_base_thread_running() {
    let rt = Runtime::new();
    assert_eq!(rt.threads.len(), MAX_THREADS);
    assert_eq!(rt.current, 0);
    for (i, t) in rt.threads.iter().enumerate() {
        assert_eq!(t.id, i);
        assert_eq!(t.stack.len(), STACK_SIZE);
        let expected = if i == 0 { State::Running } else { State::Available };
        assert_eq!(t.state, expected);
    }
}

#[test]
fn yield_without_ready_thread_changes_nothing() {
    let mut rt = Runtime::new();
    let before = states(&rt);
    assert!(!rt.yield_thread());
    assert_eq!(states(&rt), before);
    assert_eq!(rt.current, 0);
}

#[test]
fn first_available_is_lowest_free_slot() {
    let mut rt = Runtime::new();
    assert_eq!(rt.first_available(), Some(1));
    rt.spawn(1, 2, 3, 0x1000);
    assert_eq!(rt.first_available(), Some(2));
    for i in 2..MAX_THREADS {
        rt.spawn(1, 2, 3, 0x1000);
        assert_eq!(rt.threads[i].state, State::Ready);
    }
    assert_eq!(rt.first_available(), None);
}

#[test]
fn spawn_lays_out_frame_on_aligned_stack() {
    let mut rt = Runtime::new();
    let slot = rt.spawn(0xAAAA, 0x6666, 0x5555, 0x1000);
    assert_eq!(slot, 1);
    let t = &rt.threads[1];
    assert_eq!(t.state, State::Ready);
    assert_eq!(t.ctx.rsp, 0x1000 + 65536 - 0x20);
    assert_eq!(t.stack[8190], 0x6666);
    assert_eq!(t.stack[8189], 0x5555);
    assert_eq!(t.stack[8188], 0xAAAA);
    assert_eq!(t.stack[8191], 0);
    assert_eq!(t.stack.iter().filter(|w| **w != 0).count(), 3);
    assert_eq!(rt.current, 0);
}

#[test]
fn spawn_rounds_stack_end_down_to_sixteen() {
    let mut rt = Runtime::new();
    rt.spawn(0xAAAA, 0x6666, 0x5555, 0x1008);
    let t = &rt.threads[1];
    assert_eq!(t.ctx.rsp, 0x11000 - 0x20);
    assert_eq!(t.ctx.rsp % 16, 0);
    assert_eq!(t.stack[8189], 0x6666);
    assert_eq!(t.stack[8188], 0x5555);
    assert_eq!(t.stack[8187], 0xAAAA);
    assert_eq!(t.stack[8190], 0);
}

#[test]
fn yield_is_round_robin() {
    let mut rt = Runtime::new();
    rt.spawn(1, 2, 3, 0x1000);
    rt.spawn(1, 2, 3, 0x1000);
    assert!(rt.yield_thread());
    assert_eq!(rt.current, 1);
    assert_eq!(rt.threads[0].state, State::Ready);
    assert_eq!(rt.threads[1].state, State::Running);
    assert_eq!(rt.threads[2].state, State::Ready);
    assert!(rt.yield_thread());
    assert_eq!(rt.current, 2);
    assert_eq!(rt.threads[1].state, State::Ready);
    assert!(rt.yield_thread());
    assert_eq!(rt.current, 0);
    assert_eq!(rt.threads[0].state, State::Running);
    assert_eq!(rt.threads[2].state, State::Ready);
    let running = states(&rt).iter().filter(|s| **s == State::Running).count();
    assert_eq!(running, 1);
}

#[test]
fn guard_frees_finished_thread_and_switches() {
    let mut rt = Runtime::new();
    rt.spawn(1, 2, 3, 0x1000);
    assert!(rt.yield_thread());
    assert_eq!(rt.current, 1);
    assert!(guard(&mut rt));
    assert_eq!(rt.threads[1].state, State::Available);
    assert_eq!(rt.current, 0);
    assert_eq!(rt.threads[0].state, State::Running);
    assert_eq!(rt.first_available(), Some(1));
}

#[test]
fn guard_never_frees_base_thread() {
    let mut rt = Runtime::new();
    assert!(!guard(&mut rt));
    assert_eq!(rt.current, 0);
    assert_eq!(rt.threads[0].state, State::Running);
}

#[test]
fn get_addr_is_stable() {
    let rt = Runtime::new();
    let a = rt.get_addr();
    assert_ne!(a, 0);
    assert_eq!(a, rt.get_addr());
    let other = Runtime::new();
    assert_ne!(a, other.get_addr());
}

#[test]
fn get_addr_is_aligned() {
    let rt = Runtime::new();
    assert_eq!(rt.get_addr() % std::mem::align_of::<Runtime>(), 0);
}

#[test]
fn ready_thread_runs_within_a_round() {
    let mut rt = Runtime::new();
    for _ in 1..6 {
        rt.spawn(1, 2, 3, 0x1000);
    }
    let mut yields = 0;
    while rt.current != 5 {
        assert!(rt.yield_thread());
        yields += 1;
        assert!(yields <= MAX_THREADS - 1);
    }
    assert_eq!(yields, 5);
    assert_eq!(rt.threads[5].state, State::Running);
}

#[test]
fn waiting_current_thread_is_picked_first() {
    let mut rt = Runtime::new();
    rt.spawn(1, 2, 3, 0x1000);
    rt.threads[0].state = State::Ready;
    assert!(rt.yield_thread());
    assert_eq!(rt.current, 0);
    assert_eq!(rt.threads[0].state, State::Running);
    assert!(rt.yield_thread());
    assert_eq!(rt.current, 1);
}

#[test]
fn finished_thread_always_has_a_successor() {
    let mut rt = Runtime::new();
    rt.spawn(1, 2, 3, 0x1000);
    rt.spawn(1, 2, 3, 0x1000);
    assert!(rt.yield_thread());
    assert!(rt.yield_thread());
    assert_eq!(rt.current, 2);
    assert!(guard(&mut rt));
    assert_eq!(rt.current, 0);
    assert_eq!(rt.threads[2].state, State::Available);
    assert_eq!(rt.threads[0].state, State::Running);
    assert_eq!(rt.threads[1].state, State::Ready);
}
