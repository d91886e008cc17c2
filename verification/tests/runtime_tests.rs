use inko_core::runtime::Config;
use inko_core::runtime::MethodCounts;
use inko_core::runtime::RtAction;
use inko_core::runtime::Runtime;
use inko_core::runtime::install_tls_provider_once;
use inko_core::runtime::runtime_args;
use inko_core::runtime::total_stack_size;
use inko_core::thread::CallFrame;
use inko_core::thread::CompiledCode;
use inko_core::thread::Thread;

fn test_runtime(tls_installed_before: bool) -> (Runtime, Vec<RtAction>) {
    Runtime::new(
        Config { stack_size: 1 << 20, netpoll_workers: 2 },
        MethodCounts { values: vec![4, 8] },
        vec![String::from("a"), String::from("b")],
        tls_installed_before,
    )
}

#[test]
fn argv_drops_the_program_name() {
    let args = runtime_args(vec![
        Some(String::from("prog")),
        Some(String::from("a")),
        Some(String::from("b")),
    ]);
    assert_eq!(args, vec![String::from("a"), String::from("b")]);
}

#[test]
fn argv_stops_at_a_missing_element() {
    let args = runtime_args(vec![
        Some(String::from("prog")),
        Some(String::from("a")),
        None,
        Some(String::from("b")),
    ]);
    assert_eq!(args, vec![String::from("a")]);
    assert_eq!(runtime_args(vec![]), Vec::<String>::new());
    assert_eq!(runtime_args(vec![Some(String::from("prog"))]), Vec::<String>::new());
}

#[test]
fn runtime_state_keeps_the_arguments() {
    let (rt, _) = test_runtime(true);
    assert_eq!(rt.state().args, vec![String::from("a"), String::from("b")]);
    assert_eq!(rt.state().config.stack_size, 1 << 20);
    assert!(rt.state().tls_installed);
}

#[test]
fn first_construction_plans_one_tls_install() {
    let (_, actions) = test_runtime(false);
    assert_eq!(
        actions,
        vec![RtAction::ResetAffinity, RtAction::BlockSignals, RtAction::InstallTls]
    );
    let installs = actions.iter().filter(|a| **a == RtAction::InstallTls).count();
    assert_eq!(installs, 1);
}

#[test]
fn later_construction_does_not_reattempt_tls() {
    let (_, actions) = test_runtime(true);
    assert_eq!(actions, vec![RtAction::ResetAffinity, RtAction::BlockSignals]);
    assert!(install_tls_provider_once(true));
}

#[test]
fn signals_are_blocked_before_any_worker_spawns() {
    let (rt, new_actions) = test_runtime(false);
    let mut trace = new_actions;
    trace.extend(rt.start_actions());
    let block_at = trace
        .iter()
        .position(|a| *a == RtAction::BlockSignals)
        .expect("the plan must block signals");
    for (i, action) in trace.iter().enumerate() {
        let is_spawn = matches!(
            action,
            RtAction::SpawnTimeoutWorker
                | RtAction::SpawnNetpollWorker(_)
                | RtAction::SpawnSignalWorker
        );
        if is_spawn {
            assert!(block_at < i, "a worker spawns before signals are blocked");
        }
    }
}

#[test]
fn start_plan_spawns_workers_in_order_and_flushes_stdout() {
    let (rt, _) = test_runtime(true);
    let actions = rt.start_actions();
    assert_eq!(
        actions,
        vec![
            RtAction::SpawnTimeoutWorker,
            RtAction::SpawnNetpollWorker(0),
            RtAction::SpawnNetpollWorker(1),
            RtAction::SpawnSignalWorker,
            RtAction::AllocStack(1 << 20),
            RtAction::RunScheduler,
            RtAction::FlushStdout,
        ]
    );
}

#[test]
fn stack_sizes_round_up_to_the_page_size() {
    assert_eq!(total_stack_size(1 << 20, 4096), 1 << 20);
    assert_eq!(total_stack_size(1, 4096), 4096);
    assert_eq!(total_stack_size(4097, 4096), 8192);
    assert_eq!(total_stack_size(8192, 4096), 8192);
}

#[test]
fn stack_mask_keeps_every_aligned_stack_base() {
    let (rt, _) = test_runtime(true);
    let mask = rt.stack_mask();
    // With a 1 MiB stack rounded to the page size, every base that is a
    // multiple of the rounded size keeps all its bits under the mask.
    for base in [0u64, 1 << 20, 3 << 20, 7 << 30] {
        assert_eq!(mask & base, base);
    }
    // A pointer into the middle of a stack is taken back to its start.
    let base = 3u64 << 20;
    assert_eq!(mask & (base + 4096), base);
}

#[test]
fn call_frames_push_and_pop() {
    let root = CallFrame::new(String::from("main"), String::from("main.inko"), 1);
    let mut thread = Thread::new(root);
    let code = CompiledCode {
        name: String::from("helper"),
        file: String::from("helper.inko"),
        line: 7,
    };
    thread.add_call_frame_from_compiled_code(&code);
    assert_eq!(thread.call_frame.name, String::from("helper"));
    assert_eq!(thread.call_frame.file, String::from("helper.inko"));
    assert_eq!(thread.call_frame.line, 7);
    thread.pop_call_frame();
    assert_eq!(thread.call_frame.name, String::from("main"));
    assert!(thread.call_frame.parent.is_none());
}
