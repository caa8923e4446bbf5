//! What the user asked for.

use vstd::prelude::*;

verus! {

/// The options of one run. A directory is held as the bytes of its path,
/// as they were given.
#[derive(Debug)]
pub struct Opt {
    jobs: Option<usize>,
    dirs: Vec<Vec<u8>>,
}

impl Opt {
    /// Number of hashes to compute in parallel, where the user chose one.
    pub closed spec fn jobs_chosen(&self) -> Option<usize> {
        self.jobs
    }

    /// The directories to hash, in the order given.
    pub closed spec fn dirs_given(&self) -> Seq<Seq<u8>> {
        self.dirs.deep_view()
    }

    /// Options with `jobs` workers, if given, for the directories `dirs`.
    pub fn new(jobs: Option<usize>, dirs: Vec<Vec<u8>>) -> (opt: Opt)
        ensures
            opt.jobs_chosen() == jobs,
            opt.dirs_given() == dirs.deep_view(),
    {
        Opt { jobs, dirs }
    }

    /// Number of hashes to compute in parallel, where the user chose one.
    pub fn jobs(&self) -> (jobs: Option<usize>)
        ensures
            jobs == self.jobs_chosen(),
    {
        self.jobs
    }

    /// The directories to hash, in the order given.
    pub fn dirs(&self) -> (dirs: Vec<Vec<u8>>)
        ensures
            dirs.deep_view() == self.dirs_given(),
    {
        self.dirs.clone()
    }
}

} // verus!
