//! What render workers report.
use vstd::prelude::*;

verus! {

/// Identifies the render and the thread a worker message comes from.
#[derive(Clone, Copy)]
pub struct WorkerInfo {
    pub render_id: usize,
    pub thread_id: usize,
}

/// A message from a render worker to the manager.
#[derive(Clone, Copy)]
pub enum Message<F> {
    TileDone { info: WorkerInfo, ray_count: usize, elapsed_s: F },
    Finished(WorkerInfo),
}

} // verus!
