//! The render manager's bookkeeping: the tiles, workers and rays of the
//! current render.
use std::collections::VecDeque;
use vstd::prelude::*;

use super::render_worker::{Message as RenderThreadMessage, WorkerInfo};

verus! {

/// A message from the render manager to the renderer. `F` is the type of the
/// timing estimates.
#[derive(Clone, Copy)]
pub enum Message<F> {
    Progress {
        render_id: usize,
        active_threads: usize,
        tiles_done: usize,
        tiles_total: usize,
        approx_remaining_s: F,
        current_rays_per_s: F,
    },
    Finished { render_id: usize, ray_count: usize },
}

/// The time a worker took for one tile, and the rays it traced. `F` is the
/// type of the time.
#[derive(Copy, Clone)]
pub struct TileInfo<F> {
    pub elapsed_s: F,
    pub rays: usize,
}

/// The manager's record of the current render: its tiles, its workers, the
/// rays traced so far, and the most recent finished tiles.
pub struct ManagerState<F> {
    pub active_tiles_total: usize,
    pub active_tiles_done: usize,
    pub active_render_id: usize,
    pub active_workers: usize,
    pub ray_count: usize,
    pub tile_infos: VecDeque<TileInfo<F>>,
}

/// The most recent tiles, `recent`, after `tile` finishes, when at most
/// `window` are kept: the oldest makes way once `window` are held.
pub open spec fn slide_window<F>(recent: Seq<TileInfo<F>>, tile: TileInfo<F>, window: usize) -> Seq<TileInfo<F>> {
    if recent.len() >= window && recent.len() > 0 {
        recent.drop_first().push(tile)
    } else {
        recent.push(tile)
    }
}

/// Whether a message finishes a worker of the render `render_id`.
pub open spec fn finishes_worker<F>(msg: RenderThreadMessage<F>, render_id: usize) -> bool {
    msg matches RenderThreadMessage::Finished(info) && info.render_id == render_id
}

/// What a run of worker messages reports about the render `render_id`: the
/// rays of its finished tiles, how many tiles finished, and how many workers
/// finished.
pub struct Reported {
    pub rays: int,
    pub tiles: int,
    pub finishes: int,
}

pub open spec fn reported<F>(msgs: Seq<RenderThreadMessage<F>>, render_id: usize) -> Reported
    decreases msgs.len(),
{
    if msgs.len() == 0 {
        Reported { rays: 0, tiles: 0, finishes: 0 }
    } else {
        let r = reported(msgs.drop_last(), render_id);
        match msgs.last() {
            RenderThreadMessage::TileDone { info, ray_count, .. } => if info.render_id == render_id {
                Reported { rays: r.rays + ray_count, tiles: r.tiles + 1, ..r }
            } else {
                r
            },
            RenderThreadMessage::Finished(info) => if info.render_id == render_id {
                Reported { finishes: r.finishes + 1, ..r }
            } else {
                r
            },
        }
    }
}

/// The most recent tiles, `recent`, after the tiles of the render
/// `render_id` that `msgs` report, when at most `window` are kept.
pub open spec fn window_after<F>(
    recent: Seq<TileInfo<F>>,
    msgs: Seq<RenderThreadMessage<F>>,
    render_id: usize,
    window: usize,
) -> Seq<TileInfo<F>>
    decreases msgs.len(),
{
    if msgs.len() == 0 {
        recent
    } else {
        let w = window_after(recent, msgs.drop_last(), render_id, window);
        match msgs.last() {
            RenderThreadMessage::TileDone { info, ray_count, elapsed_s } => if info.render_id
                == render_id {
                slide_window(w, TileInfo { elapsed_s, rays: ray_count }, window)
            } else {
                w
            },
            RenderThreadMessage::Finished(_) => w,
        }
    }
}

/// With room for at least one tile, the recent tiles never outnumber the
/// larger of how many there were and the room.
pub proof fn lemma_window_len<F>(
    recent: Seq<TileInfo<F>>,
    msgs: Seq<RenderThreadMessage<F>>,
    render_id: usize,
    window: usize,
)
    requires
        window >= 1,
    ensures
        window_after(recent, msgs, render_id, window).len() <= if recent.len() > window {
            recent.len() as int
        } else {
            window as int
        },
    decreases msgs.len(),
{
    if msgs.len() > 0 {
        lemma_window_len(recent, msgs.drop_last(), render_id, window);
    }
}

/// What a run of messages reports only grows as the run goes on.
pub proof fn lemma_reported_grows<F>(msgs: Seq<RenderThreadMessage<F>>, render_id: usize, i: int, j: int)
    requires
        0 <= i <= j <= msgs.len(),
    ensures
        0 <= reported(msgs.take(i), render_id).rays <= reported(msgs.take(j), render_id).rays,
        0 <= reported(msgs.take(i), render_id).tiles <= reported(msgs.take(j), render_id).tiles,
        0 <= reported(msgs.take(i), render_id).finishes <= reported(msgs.take(j), render_id).finishes,
    decreases j - i,
{
    if i < j {
        lemma_reported_grows(msgs, render_id, i, j - 1);
        assert(msgs.take(j).drop_last() =~= msgs.take(j - 1));
    } else {
        lemma_reported_nonneg(msgs.take(i), render_id);
    }
}

proof fn lemma_reported_nonneg<F>(msgs: Seq<RenderThreadMessage<F>>, render_id: usize)
    ensures
        reported(msgs, render_id).rays >= 0,
        reported(msgs, render_id).tiles >= 0,
        reported(msgs, render_id).finishes >= 0,
    decreases msgs.len(),
{
    if msgs.len() > 0 {
        lemma_reported_nonneg(msgs.drop_last(), render_id);
    }
}

/// Two runs of messages one after the other report the sum of what each
/// reports.
pub proof fn lemma_reported_concat<F>(a: Seq<RenderThreadMessage<F>>, b: Seq<RenderThreadMessage<F>>, render_id: usize)
    ensures
        reported(a + b, render_id) == (Reported {
            rays: reported(a, render_id).rays + reported(b, render_id).rays,
            tiles: reported(a, render_id).tiles + reported(b, render_id).tiles,
            finishes: reported(a, render_id).finishes + reported(b, render_id).finishes,
        }),
    decreases b.len(),
{
    if b.len() == 0 {
        assert(a + b =~= a);
    } else {
        lemma_reported_concat(a, b.drop_last(), render_id);
        assert((a + b).drop_last() =~= a + b.drop_last());
    }
}

/// Over a run of messages about a render handed to `workers` workers, in
/// which at most that many workers finish, the render is seen to finish
/// after at most one of the batches the run is read in: a batch that starts
/// with workers active and ends with none is the only one.
pub proof fn lemma_finish_seen_once<F>(
    msgs: Seq<RenderThreadMessage<F>>,
    render_id: usize,
    workers: int,
    a1: int,
    b1: int,
    a2: int,
    b2: int,
)
    requires
        reported(msgs, render_id).finishes <= workers,
        0 <= a1 <= b1 <= a2 <= b2 <= msgs.len(),
        workers - reported(msgs.take(a1), render_id).finishes > 0,
        workers - reported(msgs.take(b1), render_id).finishes == 0,
    ensures
        !(workers - reported(msgs.take(a2), render_id).finishes > 0),
{
    lemma_reported_grows(msgs, render_id, b1, a2);
    lemma_reported_grows(msgs, render_id, a2, msgs.len() as int);
    assert(msgs.take(msgs.len() as int) =~= msgs);
}

/// How many times each tile is handed out: once, or, where samples
/// accumulate, once for each sample of a pixel.
pub open spec fn tile_passes(samples_per_pixel: u32, accumulate: bool) -> int {
    if accumulate && samples_per_pixel > 1 {
        samples_per_pixel as int
    } else {
        1
    }
}

/// The `k`th pass over the tiles whose first samples are `first`: each tile,
/// by its index, with the sample `k` after its first.
pub open spec fn tile_pass(first: Seq<u32>, k: int) -> Seq<(usize, u32)> {
    Seq::new(first.len(), |i: int| (i as usize, (first[i] + k) as u32))
}

/// The first `passes` passes over the tiles, one after another.
pub open spec fn tile_queue_spec(first: Seq<u32>, passes: nat) -> Seq<(usize, u32)>
    decreases passes,
{
    if passes == 0 {
        Seq::empty()
    } else {
        tile_queue_spec(first, (passes - 1) as nat) + tile_pass(first, passes - 1)
    }
}

/// The tiles of a render in the order they are handed out, each as its index
/// among the tiles and the sample it is rendered for: every tile at its first
/// sample (`first_samples`), and, where samples accumulate, all of them again
/// for each further sample of a pixel.
pub fn tile_queue(first_samples: &Vec<u32>, samples_per_pixel: u32, accumulate: bool) -> (r: Vec<(usize, u32)>)
    requires
        forall|i: int|
            0 <= i < first_samples@.len() ==> #[trigger] first_samples@[i] + tile_passes(
                samples_per_pixel,
                accumulate,
            ) - 1 <= u32::MAX,
    ensures
        r@ == tile_queue_spec(first_samples@, tile_passes(samples_per_pixel, accumulate) as nat),
{
    let passes: u32 = if accumulate && samples_per_pixel > 1 {
        samples_per_pixel
    } else {
        1
    };
    let ghost first = first_samples@;
    let mut r: Vec<(usize, u32)> = Vec::new();
    let mut k: u32 = 0;
    proof {
        assert(r@ =~= tile_queue_spec(first, 0));
    }
    while k < passes
        invariant
            k <= passes,
            passes == tile_passes(samples_per_pixel, accumulate),
            first == first_samples@,
            forall|i: int| 0 <= i < first.len() ==> #[trigger] first[i] + passes - 1 <= u32::MAX,
            r@ == tile_queue_spec(first, k as nat),
        decreases passes - k,
    {
        let mut i: usize = 0;
        let ghost before = r@;
        while i < first_samples.len()
            invariant
                i <= first.len(),
                k < passes,
                first == first_samples@,
                forall|j: int| 0 <= j < first.len() ==> #[trigger] first[j] + passes - 1 <= u32::MAX,
                r@ == before + tile_pass(first, k as int).take(i as int),
            decreases first.len() - i,
        {
            assert(first[i as int] + passes - 1 <= u32::MAX);
            r.push((i, first_samples[i] + k));
            proof {
                assert(tile_pass(first, k as int).take(i + 1) =~= tile_pass(first, k as int).take(
                    i as int,
                ).push((i, (first[i as int] + k) as u32)));
            }
            i = i + 1;
        }
        proof {
            assert(tile_pass(first, k as int).take(first.len() as int) =~= tile_pass(first, k as int));
        }
        k = k + 1;
    }
    r
}

/// The number of workers a render is handed to, out of `worker_count`.
pub fn workers_started(worker_count: usize, use_single_render_thread: bool) -> (r: usize)
    ensures
        r == if use_single_render_thread && worker_count > 0 {
            1
        } else {
            worker_count
        },
{
    if use_single_render_thread && worker_count > 0 {
        1
    } else {
        worker_count
    }
}

impl<F: Copy> ManagerState<F> {
    /// The state before any render.
    pub fn new() -> (r: Self)
        ensures
            r.active_tiles_total == 0,
            r.active_tiles_done == 0,
            r.active_render_id == 0,
            r.active_workers == 0,
            r.ray_count == 0,
            r.tile_infos@.len() == 0,
    {
        Self {
            active_tiles_total: 0,
            active_tiles_done: 0,
            active_render_id: 0,
            active_workers: 0,
            ray_count: 0,
            tile_infos: VecDeque::new(),
        }
    }

    /// The state when render `render_id` of `tiles_total` tiles has been
    /// handed to `workers` workers.
    pub fn start(render_id: usize, tiles_total: usize, workers: usize) -> (r: Self)
        ensures
            r.active_tiles_total == tiles_total,
            r.active_tiles_done == 0,
            r.active_render_id == render_id,
            r.active_workers == workers,
            r.ray_count == 0,
            r.tile_infos@.len() == 0,
    {
        Self {
            active_tiles_total: tiles_total,
            active_tiles_done: 0,
            active_render_id: render_id,
            active_workers: workers,
            ray_count: 0,
            tile_infos: VecDeque::new(),
        }
    }

    /// Records one message from a worker. Messages about other renders are
    /// dropped. Returns whether a tile of the current render was finished, in
    /// which case the progress is to be reported.
    pub fn on_worker_message(&mut self, msg: RenderThreadMessage<F>, avg_tile_window: usize) -> (progressed: bool)
        requires
            finishes_worker(msg, old(self).active_render_id) ==> old(self).active_workers > 0,
            match msg {
                RenderThreadMessage::TileDone { info, ray_count, .. } => info.render_id == old(
                    self,
                ).active_render_id ==> old(self).ray_count + ray_count <= usize::MAX && old(
                    self,
                ).active_tiles_done < usize::MAX,
                RenderThreadMessage::Finished(_) => true,
            },
        ensures
            final(self).active_tiles_total == old(self).active_tiles_total,
            final(self).active_render_id == old(self).active_render_id,
            match msg {
                RenderThreadMessage::Finished(info) => {
                    &&& !progressed
                    &&& final(self).active_workers == if info.render_id == old(self).active_render_id {
                        old(self).active_workers - 1
                    } else {
                        old(self).active_workers as int
                    }
                    &&& final(self).active_tiles_done == old(self).active_tiles_done
                    &&& final(self).ray_count == old(self).ray_count
                    &&& final(self).tile_infos@ == old(self).tile_infos@
                },
                RenderThreadMessage::TileDone { info, ray_count, elapsed_s } => {
                    &&& progressed == (info.render_id == old(self).active_render_id)
                    &&& final(self).active_workers == old(self).active_workers
                    &&& if progressed {
                        &&& final(self).ray_count == old(self).ray_count + ray_count
                        &&& final(self).active_tiles_done == old(self).active_tiles_done + 1
                        &&& final(self).tile_infos@ == slide_window(
                            old(self).tile_infos@,
                            TileInfo { elapsed_s, rays: ray_count },
                            avg_tile_window,
                        )
                    } else {
                        &&& final(self).ray_count == old(self).ray_count
                        &&& final(self).active_tiles_done == old(self).active_tiles_done
                        &&& final(self).tile_infos@ == old(self).tile_infos@
                    }
                },
            },
    {
        match msg {
            RenderThreadMessage::Finished(info) => {
                if info.render_id == self.active_render_id {
                    self.active_workers = self.active_workers - 1;
                }
                false
            },
            RenderThreadMessage::TileDone { info, ray_count, elapsed_s } => {
                if info.render_id == self.active_render_id {
                    self.ray_count = self.ray_count + ray_count;
                    if self.tile_infos.len() >= avg_tile_window {
                        self.tile_infos.pop_front();
                    }
                    self.tile_infos.push_back(TileInfo { elapsed_s, rays: ray_count });
                    self.active_tiles_done = self.active_tiles_done + 1;
                    true
                } else {
                    false
                }
            },
        }
    }

    /// Records a run of messages from the workers, one after another as
    /// [`Self::on_worker_message`] does; returns how many progress reports
    /// they call for.
    pub fn on_worker_messages(&mut self, msgs: &Vec<RenderThreadMessage<F>>, avg_tile_window: usize) -> (progress: usize)
        requires
            old(self).ray_count + reported(msgs@, old(self).active_render_id).rays <= usize::MAX,
            old(self).active_tiles_done + reported(msgs@, old(self).active_render_id).tiles <= usize::MAX,
            reported(msgs@, old(self).active_render_id).finishes <= old(self).active_workers,
        ensures
            final(self).active_tiles_total == old(self).active_tiles_total,
            final(self).active_render_id == old(self).active_render_id,
            final(self).ray_count == old(self).ray_count + reported(msgs@, old(self).active_render_id).rays,
            final(self).active_tiles_done == old(self).active_tiles_done + reported(
                msgs@,
                old(self).active_render_id,
            ).tiles,
            final(self).active_workers == old(self).active_workers - reported(
                msgs@,
                old(self).active_render_id,
            ).finishes,
            progress == reported(msgs@, old(self).active_render_id).tiles,
            final(self).tile_infos@ == window_after(
                old(self).tile_infos@,
                msgs@,
                old(self).active_render_id,
                avg_tile_window,
            ),
    {
        let ghost id = self.active_render_id;
        let ghost total = reported(msgs@, id);
        let mut progress: usize = 0;
        let mut i: usize = 0;
        proof {
            assert(msgs@.take(0) =~= Seq::<RenderThreadMessage<F>>::empty());
        }
        while i < msgs.len()
            invariant
                i <= msgs@.len(),
                self.active_render_id == id,
                self.active_tiles_total == old(self).active_tiles_total,
                total == reported(msgs@, id),
                old(self).ray_count + total.rays <= usize::MAX,
                old(self).active_tiles_done + total.tiles <= usize::MAX,
                total.finishes <= old(self).active_workers,
                self.ray_count == old(self).ray_count + reported(msgs@.take(i as int), id).rays,
                self.active_tiles_done == old(self).active_tiles_done + reported(msgs@.take(i as int), id).tiles,
                self.active_workers == old(self).active_workers - reported(msgs@.take(i as int), id).finishes,
                progress == reported(msgs@.take(i as int), id).tiles,
                self.tile_infos@ == window_after(
                    old(self).tile_infos@,
                    msgs@.take(i as int),
                    id,
                    avg_tile_window,
                ),
            decreases msgs@.len() - i,
        {
            proof {
                lemma_reported_grows(msgs@, id, i + 1, msgs@.len() as int);
                assert(msgs@.take(msgs@.len() as int) =~= msgs@);
                assert(msgs@.take(i + 1).drop_last() =~= msgs@.take(i as int));
                assert(msgs@.take(i + 1).last() == msgs@[i as int]);
            }
            let msg = msgs[i];
            if self.on_worker_message(msg, avg_tile_window) {
                progress = progress + 1;
            }
            i = i + 1;
        }
        proof {
            assert(msgs@.take(msgs@.len() as int) =~= msgs@);
        }
        progress
    }

    /// Whether the render has just finished: some workers were active before
    /// the messages were read, and none are now.
    pub fn task_finished(&self, active_workers_before: usize) -> (r: bool)
        ensures
            r == (active_workers_before > 0 && self.active_workers == 0),
    {
        active_workers_before > 0 && self.active_workers == 0
    }
}

} // verus!
