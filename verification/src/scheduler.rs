//! The compute scheduler: a worker pool of its own, sized so that the
//! interface and the audio output keep cores to themselves.

use vstd::prelude::*;
use crate::text::decimal;
use crate::text::decimal_spec;
use crate::text::string_of;

verus! {

/// Cores left to the operating system, the interface and audio output.
pub const RESERVED_CORES: usize = 2;

/// Number of cores assumed where the machine does not tell.
pub const ASSUMED_CORES: usize = 4;

/// Stack of each worker, in bytes.
pub const WORKER_STACK_BYTES: usize = 0x40_0000;

/// Number of workers that a machine with `logical_cores` cores gets: what is
/// left once the reserved cores are taken off, and never less than one.
pub open spec fn pool_size_spec(logical_cores: nat) -> nat {
    if logical_cores > RESERVED_CORES {
        (logical_cores - RESERVED_CORES) as nat
    } else {
        1
    }
}

/// The number of workers for a machine with `logical_cores` cores.
pub fn pool_size(logical_cores: usize) -> (workers: usize)
    ensures
        workers == pool_size_spec(logical_cores as nat),
        workers >= 1,
{
    if logical_cores > RESERVED_CORES {
        logical_cores - RESERVED_CORES
    } else {
        1
    }
}

/// The number of cores to plan with: what the machine reported, or
/// `ASSUMED_CORES` where it reported nothing.
pub fn detected_cores(reported: Option<usize>) -> (cores: usize)
    ensures
        cores == match reported {
            Some(n) => n,
            None => ASSUMED_CORES,
        },
{
    match reported {
        Some(n) => n,
        None => ASSUMED_CORES,
    }
}

/// The name of the worker with the given index.
pub open spec fn worker_name_spec(index: usize) -> Seq<char> {
    "aefr-calc-"@ + decimal_spec(index as nat)
}

/// Writes the name of the worker with the given index.
pub fn worker_name(index: usize) -> (name: String)
    ensures
        name@ == worker_name_spec(index),
{
    let mut name = String::from_str("aefr-calc-");
    name.append(string_of(&decimal(index)).as_str());
    name
}

/// `rayon::ThreadPool`: a pool of worker threads, held and handed on as it
/// is.
#[verifier::external_type_specification]
#[verifier::external_body]
pub struct ExThreadPool(rayon::ThreadPool);

/// `rayon::ThreadPoolBuildError`: why a pool could not be started.
#[verifier::external_type_specification]
#[verifier::external_body]
pub struct ExThreadPoolBuildError(rayon::ThreadPoolBuildError);

/// The number of worker threads that a pool holds: what
/// `rayon::ThreadPool::current_num_threads` returns for it. A pool that was
/// built for a given number of threads keeps that number for life.
pub uninterp spec fn pool_threads(pool: rayon::ThreadPool) -> nat;

/// Calls `rayon::ThreadPoolBuilder` for a pool of `threads` named workers
/// with `stack_bytes` of stack each, and `build` on it. Whether the pool can
/// be had depends on the machine. A pool that is had holds at least one
/// worker and at most `threads`: rayon starts the number asked for, up to a
/// limit of its own, or fails.
#[verifier::external_body]
fn build_pool(threads: usize, stack_bytes: usize) -> (built: Result<
    rayon::ThreadPool,
    rayon::ThreadPoolBuildError,
>)
    requires
        threads >= 1,
    ensures
        built is Ok ==> 1 <= pool_threads(built->Ok_0) <= threads,
{
    rayon::ThreadPoolBuilder::new()
        .num_threads(threads)
        .thread_name(|index: usize| worker_name(index))
        .stack_size(stack_bytes)
        .build()
}

/// Calls `rayon::ThreadPool::current_num_threads`, which counts the worker
/// threads of the pool.
#[verifier::external_body]
fn thread_count(pool: &rayon::ThreadPool) -> (count: usize)
    ensures
        count == pool_threads(*pool),
{
    pool.current_num_threads()
}

/// Calls `rayon::ThreadPool::install`, which runs `op` inside the pool and
/// hands back what `op` returns.
#[verifier::external_body]
fn install<OP, R>(pool: &rayon::ThreadPool, op: OP) -> (out: R) where
    OP: FnOnce() -> R + Send,
    R: Send,

    requires
        op.requires(()),
    ensures
        op.ensures((), out),
{
    pool.install(op)
}

/// Why no scheduler could be made.
#[derive(Clone, Copy, Debug, PartialEq, Eq)]
pub enum SchedulerError {
    /// The worker pool could not be started.
    PoolUnavailable,
}

/// A worker pool of its own, with the number of its workers.
pub struct AefrScheduler {
    pool: rayon::ThreadPool,
    worker_count: usize,
}

impl AefrScheduler {
    #[verifier::type_invariant]
    closed spec fn inv(self) -> bool {
        self.worker_count == pool_threads(self.pool)
    }

    /// The number of worker threads that the pool holds.
    pub closed spec fn workers(&self) -> nat {
        pool_threads(self.pool)
    }

    /// Makes the scheduler out of the attempt to start its pool.
    pub fn from_build(built: Result<rayon::ThreadPool, rayon::ThreadPoolBuildError>) -> (made: Result<
        AefrScheduler,
        SchedulerError,
    >)
        ensures
            (made is Ok) == (built is Ok),
            made is Ok ==> made->Ok_0.workers() == pool_threads(built->Ok_0),
            made is Err ==> made->Err_0 == SchedulerError::PoolUnavailable,
    {
        match built {
            Ok(pool) => {
                let worker_count = thread_count(&pool);
                Ok(AefrScheduler { pool, worker_count })
            },
            Err(_) => Err(SchedulerError::PoolUnavailable),
        }
    }

    /// Starts the pool for a machine with `logical_cores` cores, asking for
    /// `pool_size_spec(logical_cores)` workers. Whether it starts lies with
    /// the machine; where it does, the pool holds at least one worker and no
    /// more than were asked for.
    pub fn new(logical_cores: usize) -> (made: Result<AefrScheduler, SchedulerError>)
        ensures
            made is Ok ==> 1 <= made->Ok_0.workers() <= pool_size_spec(logical_cores as nat),
            made is Err ==> made->Err_0 == SchedulerError::PoolUnavailable,
    {
        let built = build_pool(pool_size(logical_cores), WORKER_STACK_BYTES);
        AefrScheduler::from_build(built)
    }

    /// The number of worker threads that the pool holds.
    pub fn worker_count(&self) -> (count: usize)
        ensures
            count == self.workers(),
    {
        proof {
            use_type_invariant(self);
        }
        self.worker_count
    }

    /// Runs `op` inside the pool, so that parallel work started in `op`
    /// stays on the pool's workers, and returns what `op` returns.
    pub fn run_parallel<OP, R>(&self, op: OP) -> (out: R) where
        OP: FnOnce() -> R + Send,
        R: Send,

        requires
            op.requires(()),
        ensures
            op.ensures((), out),
    {
        install(&self.pool, op)
    }
}

} // verus!
