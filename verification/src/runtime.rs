//! The runtime entry surface: process-wide state, the ordered start-up
//! plan whose invariants the host must follow, and the stack mask used by
//! compiled code to locate a process header from a stack pointer.
//!
//! Outside work that cannot be performed here (thread spawning, signal
//! masks, CPU affinity) is planned as an ordered list of [`RtAction`]
//! values; the host executes them in order. The plan's contracts pin the
//! order down: masks are set before any worker is spawned, and the TLS
//! provider is installed at most once per process.

use vstd::prelude::*;

verus! {

/// Pre-sized method-table counts handed to the runtime by compiled code.
pub struct MethodCounts {
    pub values: Vec<u32>,
}

/// Configuration the runtime is built from.
pub struct Config {
    /// Requested size of each process stack, in bytes; at least one.
    pub stack_size: usize,
    /// How many network-poll workers to spawn.
    pub netpoll_workers: usize,
}

/// Process-wide state shared by every worker.
pub struct RuntimeState {
    pub config: Config,
    pub counts: MethodCounts,
    pub args: Vec<String>,
    /// Whether the process-global TLS provider is installed.
    pub tls_installed: bool,
}

/// One step of runtime start-up that the host performs in order.
#[derive(Copy, Clone, PartialEq, Eq, Structural, Debug)]
pub enum RtAction {
    /// Reset CPU affinity so child threads inherit an unrestricted mask.
    ResetAffinity,
    /// Block all signals on the calling thread so spawned workers inherit
    /// the mask and signals reach only the signal worker.
    BlockSignals,
    /// Install the process-global TLS cryptography provider.
    InstallTls,
    /// Spawn the timeout worker thread.
    SpawnTimeoutWorker,
    /// Spawn one network-poll worker with its poller identity.
    SpawnNetpollWorker(usize),
    /// Spawn the signal worker thread; it is never joined on shutdown.
    SpawnSignalWorker,
    /// Allocate the main process stack of the given size: the configured
    /// size rounded up to the platform page size.
    AllocStack(usize),
    /// Hand the main process to the scheduler and block until it returns.
    RunScheduler,
    /// Flush standard output once the scheduler has returned.
    FlushStdout,
}

/// True for the actions that spawn a worker thread.
pub open spec fn is_spawn(a: RtAction) -> bool {
    match a {
        RtAction::SpawnTimeoutWorker => true,
        RtAction::SpawnNetpollWorker(_) => true,
        RtAction::SpawnSignalWorker => true,
        _ => false,
    }
}

/// The plan of a runtime construction: affinity and signal masks first,
/// then the TLS provider exactly when it is not installed yet.
pub open spec fn new_actions_model(tls_installed: bool) -> Seq<RtAction> {
    if tls_installed {
        seq![RtAction::ResetAffinity, RtAction::BlockSignals]
    } else {
        seq![RtAction::ResetAffinity, RtAction::BlockSignals, RtAction::InstallTls]
    }
}

/// The plan of a runtime start: one timeout worker, one poll worker per
/// configured poller, the signal worker, then the main process stack
/// (already page-rounded), the blocking scheduler run, and a final flush
/// of standard output.
pub open spec fn start_actions_model(pollers: int, stack_size: usize) -> Seq<RtAction> {
    seq![RtAction::SpawnTimeoutWorker] + Seq::new(
        pollers as nat,
        |i: int| RtAction::SpawnNetpollWorker(i as usize),
    ) + seq![
        RtAction::SpawnSignalWorker,
        RtAction::AllocStack(stack_size),
        RtAction::RunScheduler,
        RtAction::FlushStdout,
    ]
}

/// The program arguments kept by the runtime: the first element (the
/// program name) is dropped, and a missing element ends the list early.
pub open spec fn args_model(argv: Seq<Option<String>>, i: int) -> Seq<String>
    decreases argv.len() - i,
{
    if i < 0 || i >= argv.len() {
        Seq::empty()
    } else {
        match argv[i] {
            None => Seq::empty(),
            Some(s) => seq![s] + args_model(argv, i + 1),
        }
    }
}

/// Drops the program name from `argv` and keeps the values up to the
/// first missing one, as the runtime stores them.
pub fn runtime_args(argv: Vec<Option<String>>) -> (r: Vec<String>)
    ensures
        r@ == args_model(argv@, 1),
{
    let mut r: Vec<String> = Vec::new();
    let n = argv.len();
    let mut i: usize = 1;
    loop
        invariant
            1 <= i <= n + 1,
            n == argv@.len(),
            args_model(argv@, 1) == r@ + args_model(argv@, i as int),
        ensures
            r@ == args_model(argv@, 1),
        decreases n + 1 - i,
    {
        if i >= n {
            proof {
                assert(args_model(argv@, i as int) =~= Seq::<String>::empty());
                assert(args_model(argv@, 1) =~= r@);
            }
            break;
        }
        match &argv[i] {
            None => {
                proof {
                    assert(args_model(argv@, i as int) =~= Seq::<String>::empty());
                    assert(args_model(argv@, 1) =~= r@);
                }
                break;
            },
            Some(s) => {
                proof {
                    assert(args_model(argv@, i as int) =~= seq![argv@[i as int]->0]
                        + args_model(argv@, i + 1));
                }
                r.push(s.clone());
                proof {
                    assert(args_model(argv@, 1) =~= r@ + args_model(argv@, i + 1));
                }
            },
        }
        i = i + 1;
    }
    r
}

/// Relies on `rustls::crypto::ring::default_provider` and
/// `CryptoProvider::install_default`: installs the process-global TLS
/// provider, which succeeds at most once in a process; `true` on success.
#[verifier::external_body]
fn install_default_tls_provider() -> (r: bool) {
    rustls::crypto::ring::default_provider().install_default().is_ok()
}

/// Makes the TLS provider call exactly when no earlier construction has:
/// a later runtime must not re-attempt the process-global installation.
pub fn install_tls_provider_once(installed_before: bool) -> (r: bool)
    ensures
        installed_before ==> r,
{
    if installed_before {
        true
    } else {
        install_default_tls_provider()
    }
}

/// Relies on `rustix::param::page_size`: the platform's memory page size,
/// which POSIX keeps positive.
#[verifier::external_body]
fn page_size_now() -> (r: usize)
    ensures
        1 <= r,
{
    rustix::param::page_size()
}

/// `size` rounded up to the next multiple of `page`.
pub open spec fn round_up_spec(size: int, page: int) -> int {
    ((size + page - 1) / page) * page
}

/// Rounds a requested stack size up to the platform page size.
pub fn total_stack_size(size: usize, page: usize) -> (r: usize)
    requires
        1 <= page,
        size + page - 1 <= usize::MAX,
    ensures
        r == round_up_spec(size as int, page as int),
        r % page == 0,
        size <= r,
{
    proof {
        let s = size as int;
        let p = page as int;
        assert(((s + p - 1) / p) * p % p == 0 && s <= ((s + p - 1) / p) * p && ((s + p - 1) / p)
            * p <= s + p - 1) by (nonlinear_arith)
            requires
                1 <= p,
                0 <= s,
        ;
    }
    let q = (size + (page - 1)) / page;
    q * page
}

/// The mask compiled code applies to a stack pointer to find the stack's
/// start: the bitwise complement of the rounded stack size minus one.
pub open spec fn stack_mask_spec(total: u64) -> u64 {
    !((total - 1) as u64)
}

/// An Inko runtime along with all its state.
pub struct Runtime {
    pub state: RuntimeState,
}

impl Runtime {
    /// Whether the state is usable: a positive stack size small enough to
    /// round to any page size, and the TLS provider settled.
    pub open spec fn wf(self) -> bool {
        &&& 1 <= self.state.config.stack_size
        &&& self.state.tls_installed
    }

    /// Builds the runtime state. The caller reports whether an earlier
    /// construction already installed the TLS provider; the provider call
    /// is then not re-attempted.
    pub fn new(config: Config, counts: MethodCounts, args: Vec<String>, installed_before: bool)
        -> (r: (Runtime, Vec<RtAction>))
        requires
            1 <= config.stack_size,
        ensures
            r.0.wf(),
            r.0.state.config == config,
            r.0.state.counts == counts,
            r.0.state.args@ == args@,
            r.1@ == new_actions_model(installed_before),
    {
        let mut actions: Vec<RtAction> = Vec::new();
        actions.push(RtAction::ResetAffinity);
        actions.push(RtAction::BlockSignals);
        if !installed_before {
            actions.push(RtAction::InstallTls);
        }
        let _ = install_tls_provider_once(installed_before);
        proof {
            assert(actions@ =~= new_actions_model(installed_before));
        }
        (
            Runtime {
                state: RuntimeState { config, counts, args, tls_installed: true },
            },
            actions,
        )
    }

    /// A read-only borrow of the shared state.
    pub fn state(&self) -> (r: &RuntimeState)
        ensures
            *r == self.state,
    {
        &self.state
    }

    /// The ordered start plan: workers in spawn order, then the main
    /// process stack rounded up to the platform page size, the blocking
    /// scheduler run, and the stdout flush.
    pub fn start_actions(&self) -> (r: Vec<RtAction>)
        requires
            self.wf(),
        ensures
            exists|page: usize|
                1 <= page && r@ == start_actions_model(
                    self.state.config.netpoll_workers as int,
                    #[trigger] round_up_spec(
                        self.state.config.stack_size as int,
                        page as int,
                    ) as usize,
                ),
    {
        let page = page_size_now();
        let size = self.state.config.stack_size;
        let q: u128 = (size as u128 + (page as u128 - 1)) / (page as u128);
        proof {
            let s = size as int;
            let p = page as int;
            assert(((s + p - 1) / p) * p % p == 0 && s <= ((s + p - 1) / p) * p && ((s + p - 1)
                / p) * p <= s + p - 1) by (nonlinear_arith)
                requires
                    1 <= p,
                    0 <= s,
            ;
        }
        let total: u128 = q * (page as u128);
        proof {
            assert(total == round_up_spec(size as int, page as int));
        }
        let rounded = #[verifier::truncate] (total as usize);
        proof {
            assert(rounded == round_up_spec(size as int, page as int) as usize);
        }
        let mut actions: Vec<RtAction> = Vec::new();
        actions.push(RtAction::SpawnTimeoutWorker);
        let n = self.state.config.netpoll_workers;
        let mut i: usize = 0;
        while i < n
            invariant
                i <= n,
                actions@ =~= seq![RtAction::SpawnTimeoutWorker] + Seq::new(
                    i as nat,
                    |k: int| RtAction::SpawnNetpollWorker(k as usize),
                ),
            decreases n - i,
        {
            actions.push(RtAction::SpawnNetpollWorker(i));
            proof {
                assert(actions@ =~= seq![RtAction::SpawnTimeoutWorker] + Seq::new(
                    (i + 1) as nat,
                    |k: int| RtAction::SpawnNetpollWorker(k as usize),
                ));
            }
            i = i + 1;
        }
        actions.push(RtAction::SpawnSignalWorker);
        actions.push(RtAction::AllocStack(rounded));
        actions.push(RtAction::RunScheduler);
        actions.push(RtAction::FlushStdout);
        proof {
            assert(actions@ =~= start_actions_model(
                self.state.config.netpoll_workers as int,
                rounded,
            ));
        }
        actions
    }

    /// The stack mask: the bitwise complement of (stack size rounded up to
    /// the platform page size) minus one, as compiled code applies it.
    pub fn stack_mask(&self) -> (r: u64)
        requires
            self.wf(),
        ensures
            exists|page: usize|
                1 <= page && r == stack_mask_spec(
                    #[trigger] round_up_spec(
                        self.state.config.stack_size as int,
                        page as int,
                    ) as u64,
                ),
    {
        let page = page_size_now();
        let size = self.state.config.stack_size;
        let q: u128 = (size as u128 + (page as u128 - 1)) / (page as u128);
        proof {
            let s = size as int;
            let p = page as int;
            assert(((s + p - 1) / p) * p % p == 0 && s <= ((s + p - 1) / p) * p && ((s + p - 1)
                / p) * p <= s + p - 1) by (nonlinear_arith)
                requires
                    1 <= p,
                    0 <= s,
            ;
        }
        let total: u128 = q * (page as u128);
        proof {
            assert(total == round_up_spec(size as int, page as int));
        }
        let total64 = #[verifier::truncate] (total as u64);
        let r = if total64 == 0 {
            proof {
                assert(!0xffff_ffff_ffff_ffffu64 == 0u64) by (bit_vector);
                assert((total64 - 1) as u64 == 0xffff_ffff_ffff_ffffu64) by (bit_vector)
                    requires
                        total64 == 0u64,
                ;
            }
            0u64
        } else {
            !(total64 - 1)
        };
        proof {
            let s = size as int;
            let p = page as int;
            assert(total64 == round_up_spec(s, p) as u64);
            assert(r == stack_mask_spec(round_up_spec(s, p) as u64));
        }
        r
    }
}

/// Every worker thread is spawned only after the signal mask was set: in
/// the combined plan of a construction followed by a start, a
/// `BlockSignals` step precedes every spawn step.
pub proof fn lemma_signals_blocked_before_spawns(tls_installed: bool, pollers: int, stack: usize)
    requires
        0 <= pollers,
    ensures
        ({
            let trace = new_actions_model(tls_installed) + start_actions_model(pollers, stack);
            forall|j: int|
                0 <= j < trace.len() && is_spawn(#[trigger] trace[j]) ==> exists|i: int|
                    0 <= i < j && trace[i] == RtAction::BlockSignals
        }),
{
    let trace = new_actions_model(tls_installed) + start_actions_model(pollers, stack);
    assert(trace[1] == RtAction::BlockSignals);
    assert forall|j: int| 0 <= j < trace.len() && is_spawn(#[trigger] trace[j]) implies exists|
        i: int,
    | 0 <= i < j && trace[i] == RtAction::BlockSignals by {
        assert(!is_spawn(trace[0]) && !is_spawn(trace[1]));
        if tls_installed {
        } else {
            assert(!is_spawn(trace[2]));
        }
        assert(j >= 2);
        assert(trace[1] == RtAction::BlockSignals && 0 <= 1 < j);
    }
}

/// The TLS provider is attempted exactly once on the first construction
/// and never again on a later one.
pub proof fn lemma_tls_installed_once()
    ensures
        ({
            let first = new_actions_model(false);
            &&& first[2] == RtAction::InstallTls
            &&& forall|i: int|
                0 <= i < first.len() && first[i] == RtAction::InstallTls ==> i == 2
        }),
        ({
            let later = new_actions_model(true);
            forall|i: int| 0 <= i < later.len() ==> later[i] != RtAction::InstallTls
        }),
{
}

} // verus!

verus! {

/// Applying the stack mask to any address aligned to the rounded stack
/// size gives that address back: compiled code can recover a stack's
/// start from a pointer into it. This holds whenever the rounded size is
/// a power of two, which every page-aligned power-of-two stack
/// configuration satisfies.
pub proof fn lemma_stack_mask_keeps_base(n: nat, total: u64, stack_base: u64)
    requires
        n < 64,
        total == vstd::arithmetic::power2::pow2(n),
        stack_base % total == 0,
    ensures
        stack_mask_spec(total) & stack_base == stack_base,
{
    vstd::arithmetic::power2::lemma_pow2_pos(n);
    vstd::bits::lemma_u64_low_bits_mask_is_mod(stack_base, n);
    let m = (total - 1) as u64;
    assert(vstd::bits::low_bits_mask(n) as u64 == m);
    assert(stack_base & m == 0);
    assert((!m) & stack_base == stack_base) by (bit_vector)
        requires
            stack_base & m == 0,
    ;
}

} // verus!
