//! Configuration for a pool of worker threads.
//!
//! Only the configuration and its validation live here; the pool itself —
//! spawning workers, queueing jobs — is thread plumbing that runs outside
//! the verified core and is built from a validated configuration.

use vstd::prelude::*;

verus! {

/// Errors that can occur when using the thread pool.
#[derive(Debug)]
pub enum ThreadPoolError {
    /// The thread pool has been shut down and cannot accept new jobs.
    PoolShutdown,
    /// Failed to send a job to the worker threads.
    SendError,
    /// Invalid configuration (e.g., zero threads).
    InvalidConfiguration(String),
}

/// Configuration builder for a thread pool.
pub struct ThreadPoolBuilder {
    pub num_threads: usize,
    pub thread_name_prefix: String,
    pub stack_size: Option<usize>,
}

/// Worker count a builder starts from when the machine's parallelism is
/// not known.
pub const DEFAULT_NUM_THREADS: usize = 4;

impl Default for ThreadPoolBuilder {
    /// The default configuration: the fallback worker count, workers named
    /// after the customary prefix, and the platform's stack size.
    fn default() -> (d: Self)
        ensures
            d.num_threads == DEFAULT_NUM_THREADS,
            d.thread_name_prefix@ == "worker"@,
            d.stack_size is None,
    {
        Self {
            num_threads: DEFAULT_NUM_THREADS,
            thread_name_prefix: String::from_str("worker"),
            stack_size: None,
        }
    }
}

impl ThreadPoolBuilder {
    /// Create a new builder with default settings.
    pub fn new() -> (b: Self)
        ensures
            b.num_threads == DEFAULT_NUM_THREADS,
            b.thread_name_prefix@ == "worker"@,
            b.stack_size is None,
    {
        Self::default()
    }

    /// Set the number of worker threads.
    pub fn num_threads(self, num: usize) -> (b: Self)
        ensures
            b.num_threads == num,
            b.thread_name_prefix@ == self.thread_name_prefix@,
            b.stack_size == self.stack_size,
    {
        Self {
            num_threads: num,
            thread_name_prefix: self.thread_name_prefix,
            stack_size: self.stack_size,
        }
    }

    /// Set the prefix for worker thread names.
    pub fn thread_name_prefix(self, prefix: String) -> (b: Self)
        ensures
            b.num_threads == self.num_threads,
            b.thread_name_prefix@ == prefix@,
            b.stack_size == self.stack_size,
    {
        Self { num_threads: self.num_threads, thread_name_prefix: prefix, stack_size: self.stack_size }
    }

    /// Set the stack size for worker threads.
    pub fn stack_size(self, size: usize) -> (b: Self)
        ensures
            b.num_threads == self.num_threads,
            b.thread_name_prefix@ == self.thread_name_prefix@,
            b.stack_size == Some(size),
    {
        Self {
            num_threads: self.num_threads,
            thread_name_prefix: self.thread_name_prefix,
            stack_size: Some(size),
        }
    }

    /// Check the configuration a pool would be built from: it is rejected
    /// exactly when it asks for zero worker threads.
    pub fn validate(&self) -> (r: Result<(), ThreadPoolError>)
        ensures
            r is Ok <==> self.num_threads > 0,
            r is Err ==> (r matches Err(ThreadPoolError::InvalidConfiguration(m)) && m@
                == "Thread pool size must be greater than 0"@),
    {
        if self.num_threads == 0 {
            Err(
                ThreadPoolError::InvalidConfiguration(
                    String::from_str("Thread pool size must be greater than 0"),
                ),
            )
        } else {
            Ok(())
        }
    }
}

} // verus!
