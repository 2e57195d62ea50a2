//! Rendering: the user's settings, and the renderer's record of its renders.
use vstd::prelude::*;

pub mod render_manager;
pub mod render_worker;

use render_manager::Message as RenderManagerMessage;

verus! {

/// User-facing settings of a render.
#[derive(Debug, Copy, Clone)]
pub struct RenderSettings {
    /// Whether tiles are outlined while they render.
    pub mark_tiles: bool,
    /// Whether all tiles are rendered by one thread.
    pub use_single_render_thread: bool,
}

impl Default for RenderSettings {
    fn default() -> (r: Self)
        ensures
            !r.mark_tiles,
            !r.use_single_render_thread,
    {
        Self { mark_tiles: false, use_single_render_thread: false }
    }
}

/// The state of the current render, as reported to the user.
pub enum RenderStatus<F> {
    Progress {
        active_threads: usize,
        tiles_done: usize,
        tiles_total: usize,
        approx_remaining_s: F,
        current_rays_per_s: F,
    },
    Finished { ray_count: usize },
}

/// The renderer's record of its renders: which one is the latest, and whether
/// it is still running.
pub struct Renderer {
    pub render_in_progress: bool,
    pub render_id: usize,
}

impl Renderer {
    /// No render has been started.
    pub fn new() -> (r: Self)
        ensures
            !r.render_in_progress,
            r.render_id == 0,
    {
        Self { render_in_progress: false, render_id: 0 }
    }

    /// Whether the latest render is still running.
    pub fn is_active(&self) -> (r: bool)
        ensures
            r == self.render_in_progress,
    {
        self.render_in_progress
    }

    /// Takes a new render id; returns it, for the payload that starts the render.
    pub fn next_render(&mut self) -> (r: usize)
        requires
            old(self).render_id < usize::MAX,
        ensures
            r == old(self).render_id + 1,
            final(self).render_id == r,
            final(self).render_in_progress == old(self).render_in_progress,
    {
        self.render_id = self.render_id + 1;
        self.render_id
    }

    /// The render has been handed to the manager.
    pub fn started(&mut self)
        ensures
            final(self).render_in_progress,
            final(self).render_id == old(self).render_id,
    {
        self.render_in_progress = true;
    }

    /// Handles one message from the manager while checking the status of the
    /// latest render. `status` holds what the check reports so far; returns
    /// whether to read the next message. Messages about older renders are
    /// dropped; a finished render ends the check.
    pub fn on_message<F>(&mut self, status: &mut Option<RenderStatus<F>>, msg: RenderManagerMessage<F>) -> (keep_reading: bool)
        ensures
            final(self).render_id == old(self).render_id,
            match msg {
                RenderManagerMessage::Finished { render_id, ray_count } => {
                    &&& !keep_reading
                    &&& if render_id == old(self).render_id {
                        &&& !final(self).render_in_progress
                        &&& *final(status) == Some(RenderStatus::<F>::Finished { ray_count })
                    } else {
                        &&& final(self).render_in_progress == old(self).render_in_progress
                        &&& *final(status) == *old(status)
                    }
                },
                RenderManagerMessage::Progress {
                    render_id,
                    active_threads,
                    tiles_done,
                    tiles_total,
                    approx_remaining_s,
                    current_rays_per_s,
                } => {
                    &&& keep_reading
                    &&& final(self).render_in_progress == old(self).render_in_progress
                    &&& *final(status) == if render_id == old(self).render_id {
                        Some(
                            RenderStatus::Progress {
                                active_threads,
                                tiles_done,
                                tiles_total,
                                approx_remaining_s,
                                current_rays_per_s,
                            },
                        )
                    } else {
                        *old(status)
                    }
                },
            },
    {
        match msg {
            RenderManagerMessage::Finished { render_id, ray_count } => {
                if render_id == self.render_id {
                    self.render_in_progress = false;
                    *status = Some(RenderStatus::Finished { ray_count });
                }
                false
            },
            RenderManagerMessage::Progress {
                render_id,
                active_threads,
                tiles_done,
                tiles_total,
                approx_remaining_s,
                current_rays_per_s,
            } => {
                if render_id == self.render_id {
                    *status = Some(
                        RenderStatus::Progress {
                            active_threads,
                            tiles_done,
                            tiles_total,
                            approx_remaining_s,
                            current_rays_per_s,
                        },
                    );
                }
                true
            },
        }
    }

    /// Handles the messages `msgs` from the manager one after another, as
    /// [`Self::on_message`] does, up to and including the first that reports
    /// a finished render; returns how many it read.
    pub fn on_messages<F: Copy>(&mut self, status: &mut Option<RenderStatus<F>>, msgs: &Vec<RenderManagerMessage<F>>) -> (read: usize)
        ensures
            final(self).render_id == old(self).render_id,
            read == if first_finished(msgs@) < msgs@.len() {
                first_finished(msgs@) + 1
            } else {
                msgs@.len() as int
            },
            *final(status) == status_after(*old(status), msgs@.take(read as int), old(self).render_id),
            final(self).render_in_progress == if finishes_render(msgs@, old(self).render_id) {
                false
            } else {
                old(self).render_in_progress
            },
    {
        proof {
            lemma_first_finished(msgs@);
            assert(msgs@.take(0) =~= Seq::<RenderManagerMessage<F>>::empty());
        }
        let mut i: usize = 0;
        while i < msgs.len()
            invariant_except_break
                i <= first_finished(msgs@),
                self.render_in_progress == old(self).render_in_progress,
            invariant
                i <= msgs@.len(),
                self.render_id == old(self).render_id,
                first_finished(msgs@) <= msgs@.len(),
                forall|k: int| 0 <= k < first_finished(msgs@) ==> #[trigger] msgs@[k] is Progress,
                first_finished(msgs@) < msgs@.len() ==> msgs@[first_finished(msgs@)] is Finished,
                *status == status_after(*old(status), msgs@.take(i as int), old(self).render_id),
            ensures
                i == if first_finished(msgs@) < msgs@.len() {
                    first_finished(msgs@) + 1
                } else {
                    msgs@.len() as int
                },
                self.render_in_progress == if finishes_render(msgs@, old(self).render_id) {
                    false
                } else {
                    old(self).render_in_progress
                },
            decreases msgs@.len() - i,
        {
            proof {
                assert(msgs@.take(i + 1).drop_last() =~= msgs@.take(i as int));
                assert(msgs@.take(i + 1).last() == msgs@[i as int]);
            }
            let keep_reading = self.on_message(status, msgs[i]);
            i = i + 1;
            if !keep_reading {
                break;
            }
        }
        i
    }
}

/// Whether the first message that reports a finished render reports that
/// render `render_id` finished.
pub open spec fn finishes_render<F>(msgs: Seq<RenderManagerMessage<F>>, render_id: usize) -> bool {
    &&& first_finished(msgs) < msgs.len()
    &&& msgs[first_finished(msgs)] matches RenderManagerMessage::Finished { render_id: id, .. }
    &&& id == render_id
}

/// The index of the first message that reports a finished render, or the
/// number of messages if none does.
pub open spec fn first_finished<F>(msgs: Seq<RenderManagerMessage<F>>) -> int
    decreases msgs.len(),
{
    if msgs.len() == 0 {
        0
    } else if msgs[0] is Finished {
        0
    } else {
        1 + first_finished(msgs.drop_first())
    }
}

proof fn lemma_first_finished<F>(msgs: Seq<RenderManagerMessage<F>>)
    ensures
        0 <= first_finished(msgs) <= msgs.len(),
        forall|k: int| 0 <= k < first_finished(msgs) ==> #[trigger] msgs[k] is Progress,
        first_finished(msgs) < msgs.len() ==> msgs[first_finished(msgs)] is Finished,
    decreases msgs.len(),
{
    if msgs.len() > 0 && !(msgs[0] is Finished) {
        lemma_first_finished(msgs.drop_first());
        assert forall|k: int| 0 <= k < first_finished(msgs) implies #[trigger] msgs[k] is Progress by {
            if k > 0 {
                assert(msgs[k] == msgs.drop_first()[k - 1]);
            }
        }
        if first_finished(msgs) < msgs.len() {
            assert(msgs[first_finished(msgs)] == msgs.drop_first()[first_finished(msgs) - 1]);
        }
    }
}

/// What the status of render `render_id` is after the messages `msgs`, from
/// `status`: the last message about that render decides it.
pub open spec fn status_after<F>(status: Option<RenderStatus<F>>, msgs: Seq<RenderManagerMessage<F>>, render_id: usize) -> Option<RenderStatus<F>>
    decreases msgs.len(),
{
    if msgs.len() == 0 {
        status
    } else {
        let s = status_after(status, msgs.drop_last(), render_id);
        match msgs.last() {
            RenderManagerMessage::Finished { render_id: id, ray_count } => if id == render_id {
                Some(RenderStatus::Finished { ray_count })
            } else {
                s
            },
            RenderManagerMessage::Progress {
                render_id: id,
                active_threads,
                tiles_done,
                tiles_total,
                approx_remaining_s,
                current_rays_per_s,
            } => if id == render_id {
                Some(
                    RenderStatus::Progress {
                        active_threads,
                        tiles_done,
                        tiles_total,
                        approx_remaining_s,
                        current_rays_per_s,
                    },
                )
            } else {
                s
            },
        }
    }
}

} // verus!
