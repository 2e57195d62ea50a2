use yuki::renderer::render_manager::{tile_queue, workers_started, ManagerState, Message as ManagerMessage};
use yuki::renderer::render_worker::{Message as WorkerMessage, WorkerInfo};
use yuki::renderer::{RenderStatus, Renderer};

fn tile(render_id: usize, rays: usize, elapsed_s: f32) -> WorkerMessage<f32> {
    WorkerMessage::TileDone { info: WorkerInfo { render_id, thread_id: 0 }, ray_count: rays, elapsed_s }
}

#[test]
fn status_of_the_latest_render() {
    let mut jobs = Renderer::new();
    assert!(!jobs.is_active());
    let id = jobs.next_render();
    assert_eq!(id, 1);
    jobs.started();
    assert!(jobs.is_active());

    let mut status: Option<RenderStatus<f32>> = None;
    let keep = jobs.on_message(
        &mut status,
        ManagerMessage::Progress {
            render_id: 1,
            active_threads: 4,
            tiles_done: 2,
            tiles_total: 10,
            approx_remaining_s: 3.0,
            current_rays_per_s: 100.0,
        },
    );
    assert!(keep);
    assert!(matches!(status, Some(RenderStatus::Progress { tiles_done: 2, tiles_total: 10, .. })));

    let keep = jobs.on_message(&mut status, ManagerMessage::Finished { render_id: 1, ray_count: 77 });
    assert!(!keep);
    assert!(matches!(status, Some(RenderStatus::Finished { ray_count: 77 })));
    assert!(!jobs.is_active());
}

#[test]
fn stale_messages_are_dropped() {
    let mut jobs = Renderer::new();
    jobs.next_render();
    jobs.next_render();
    jobs.started();
    let mut status: Option<RenderStatus<f32>> = None;
    let keep = jobs.on_message(
        &mut status,
        ManagerMessage::Progress {
            render_id: 1,
            active_threads: 1,
            tiles_done: 1,
            tiles_total: 1,
            approx_remaining_s: 0.0,
            current_rays_per_s: 0.0,
        },
    );
    assert!(keep && status.is_none());
    let keep = jobs.on_message(&mut status, ManagerMessage::Finished { render_id: 1, ray_count: 5 });
    assert!(!keep && status.is_none());
    assert!(jobs.is_active());
}

#[test]
fn workers_for_a_render() {
    assert_eq!(workers_started(8, false), 8);
    assert_eq!(workers_started(8, true), 1);
    assert_eq!(workers_started(0, true), 0);
}

#[test]
fn manager_counts_tiles_and_workers() {
    let mut state: ManagerState<f32> = ManagerState::start(3, 4, 2);
    assert!(state.on_worker_message(tile(3, 10, 0.5), 2));
    assert!(state.on_worker_message(tile(3, 20, 0.25), 2));
    assert!(state.on_worker_message(tile(3, 30, 0.125), 2));
    assert!(!state.on_worker_message(tile(2, 1000, 1.0), 2));
    assert_eq!(state.ray_count, 60);
    assert_eq!(state.active_tiles_done, 3);
    let window: Vec<usize> = state.tile_infos.iter().map(|t| t.rays).collect();
    assert_eq!(window, vec![20, 30]);

    let before = state.active_workers;
    assert!(!state.on_worker_message(WorkerMessage::Finished(WorkerInfo { render_id: 2, thread_id: 1 }), 2));
    assert_eq!(state.active_workers, 2);
    state.on_worker_message(WorkerMessage::Finished(WorkerInfo { render_id: 3, thread_id: 0 }), 2);
    state.on_worker_message(WorkerMessage::Finished(WorkerInfo { render_id: 3, thread_id: 1 }), 2);
    assert_eq!(state.active_workers, 0);
    assert!(state.task_finished(before));
    assert!(!state.task_finished(0));
}

#[test]
fn manager_starts_empty() {
    let s: ManagerState<f32> = ManagerState::new();
    assert_eq!((s.active_tiles_total, s.active_tiles_done, s.active_workers, s.ray_count), (0, 0, 0, 0));
    assert!(s.tile_infos.is_empty());
}

fn finished(render_id: usize, thread_id: usize) -> WorkerMessage<f32> {
    WorkerMessage::Finished(WorkerInfo { render_id, thread_id })
}

#[test]
fn a_run_of_worker_messages_adds_up() {
    let mut state: ManagerState<f32> = ManagerState::start(7, 4, 2);
    let msgs = vec![tile(7, 100, 0.1), tile(6, 50, 0.1), tile(7, 30, 0.2), finished(7, 0)];
    let progress = state.on_worker_messages(&msgs, 8);
    assert_eq!(progress, 2);
    assert_eq!(state.ray_count, 130);
    assert_eq!(state.active_tiles_done, 2);
    assert_eq!(state.active_workers, 1);
    assert!(!state.task_finished(2));
    let before = state.active_workers;
    state.on_worker_messages(&vec![tile(7, 20, 0.1), tile(7, 5, 0.1), finished(6, 1), finished(7, 1)], 8);
    assert_eq!(state.ray_count, 155);
    assert_eq!(state.active_tiles_done, 4);
    assert!(state.task_finished(before));
    // Once finished, a later batch does not finish the render again
    let before = state.active_workers;
    state.on_worker_messages(&vec![tile(6, 1, 0.1)], 8);
    assert!(!state.task_finished(before));
}

#[test]
fn renderer_reads_up_to_the_first_finished_render() {
    let mut jobs = Renderer::new();
    let id = jobs.next_render();
    jobs.started();
    let progress = |render_id: usize, tiles_done: usize| ManagerMessage::Progress {
        render_id,
        active_threads: 2,
        tiles_done,
        tiles_total: 8,
        approx_remaining_s: 1.0f32,
        current_rays_per_s: 10.0,
    };
    let msgs = vec![
        progress(id, 1),
        progress(id - 1, 5),
        ManagerMessage::Finished { render_id: id, ray_count: 99 },
        progress(id, 8),
    ];
    let mut status: Option<RenderStatus<f32>> = None;
    assert_eq!(jobs.on_messages(&mut status, &msgs), 3);
    assert!(matches!(status, Some(RenderStatus::Finished { ray_count: 99 })));
    assert!(!jobs.is_active());

    let mut jobs = Renderer::new();
    let id = jobs.next_render();
    jobs.started();
    let mut status: Option<RenderStatus<f32>> = None;
    assert_eq!(jobs.on_messages(&mut status, &vec![progress(id, 3), progress(id + 1, 4)]), 2);
    assert!(matches!(status, Some(RenderStatus::Progress { tiles_done: 3, .. })));
    assert!(jobs.is_active());
}

#[test]
fn tiles_are_queued_once_per_sample_when_accumulating() {
    assert_eq!(tile_queue(&vec![0, 0, 0], 4, false), vec![(0, 0), (1, 0), (2, 0)]);
    assert_eq!(tile_queue(&vec![0, 2], 3, true), vec![(0, 0), (1, 2), (0, 1), (1, 3), (0, 2), (1, 4)]);
    assert_eq!(tile_queue(&vec![5], 1, true), vec![(5 - 5, 5)]);
}

#[test]
fn recent_tiles_keep_within_the_window() {
    let mut state: ManagerState<f32> = ManagerState::start(3, 10, 1);
    state.on_worker_messages(&vec![tile(3, 1, 0.5), tile(3, 2, 0.25), tile(2, 9, 9.0), tile(3, 3, 0.125)], 2);
    assert_eq!(state.tile_infos.len(), 2);
    assert_eq!(state.tile_infos[0].rays, 2);
    assert_eq!(state.tile_infos[1].rays, 3);
    assert_eq!(state.tile_infos[1].elapsed_s, 0.125);
}
