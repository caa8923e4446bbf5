//! How many workers hash in parallel.

use vstd::prelude::*;
use crate::options::Opt;

verus! {

/// Without a number from the user, no more workers than this are started,
/// so that the disk is not thrashed.
pub const DEFAULT_LIMIT: usize = 8;

/// `rayon::ThreadPoolBuildError`, the error of `rayon` when a pool of
/// workers cannot be built. Nothing is seen of what it holds.
#[verifier::external_type_specification]
#[verifier::external_body]
pub struct ExThreadPoolBuildError(rayon::ThreadPoolBuildError);

/// Why the pool of workers was not set up.
#[derive(Debug)]
pub struct PoolError {
    /// The number of workers that was asked for.
    pub threads: usize,
    /// What `rayon` said.
    pub message: String,
}

/// The number of workers for a machine with `cpus` processors: the number
/// that the user chose, or else one for each processor up to the limit.
pub open spec fn workers(jobs: Option<usize>, cpus: usize) -> usize {
    match jobs {
        Some(jobs) => jobs,
        None => if cpus < DEFAULT_LIMIT {
            cpus
        } else {
            DEFAULT_LIMIT
        },
    }
}

/// The number of workers for a machine with `cpus` processors.
pub fn thread_count(jobs: Option<usize>, cpus: usize) -> (threads: usize)
    ensures
        threads == workers(jobs, cpus),
{
    match jobs {
        Some(jobs) => jobs,
        None => if cpus < DEFAULT_LIMIT {
            cpus
        } else {
            DEFAULT_LIMIT
        },
    }
}

/// `num_cpus::get`: the number of processors that this process may use.
/// It differs from machine to machine and is never zero.
#[verifier::external_body]
fn available_cpus() -> (cpus: usize)
    ensures
        cpus >= 1,
{
    num_cpus::get()
}

/// `rayon::ThreadPoolBuilder::build_global`, on a builder that is new but
/// for the number of threads. Whether it succeeds depends on what the
/// process did before: the global pool is built once.
#[verifier::external_body]
fn build_global_pool(threads: usize) -> (built: Result<(), rayon::ThreadPoolBuildError>) {
    rayon::ThreadPoolBuilder::new().num_threads(threads).build_global()
}

/// The text of a `rayon::ThreadPoolBuildError`, as its `Display` gives it.
#[verifier::external_body]
fn build_error_text(error: &rayon::ThreadPoolBuildError) -> (text: String) {
    format!("{}", error)
}

/// What `configure_thread_pool` returns once `rayon` has answered a request
/// for `threads` workers.
pub fn pool_outcome(threads: usize, built: Result<(), rayon::ThreadPoolBuildError>) -> (outcome:
    Result<usize, PoolError>)
    ensures
        built is Ok ==> outcome == Ok::<usize, PoolError>(threads),
        built is Err ==> (outcome matches Err(error) && error.threads == threads),
{
    match built {
        Ok(_) => Ok(threads),
        Err(error) => Err(PoolError { threads, message: build_error_text(&error) }),
    }
}

/// Sets up the global pool of workers, with the number of workers that
/// `opt` and the machine call for. Either way the number that was asked
/// for comes back; where the user chose zero, `rayon` picks the number of
/// workers itself. The pool can be set up once in a process.
pub fn configure_thread_pool(opt: &Opt) -> (outcome: Result<usize, PoolError>)
    ensures
        exists|cpus: usize|
            cpus >= 1 && #[trigger] workers(opt.jobs_chosen(), cpus) == match outcome {
                Ok(threads) => threads,
                Err(error) => error.threads,
            },
{
    let cpus = available_cpus();
    let threads = thread_count(opt.jobs(), cpus);
    let outcome = pool_outcome(threads, build_global_pool(threads));
    assert(workers(opt.jobs_chosen(), cpus) == threads);
    outcome
}

} // verus!
