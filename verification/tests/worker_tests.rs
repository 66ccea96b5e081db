use spatial_audio::worker::{
    OutOfTurn, RenderWorker, WorkerAction, WorkerEvent, WorkerPhase, WorkerState,
};

const CHUNK: u64 = 1_000;
const TIMEOUT: u64 = 300;

#[test]
fn new_worker_is_idle() {
    let worker = RenderWorker::new(3, CHUNK, TIMEOUT);
    assert_eq!(worker.state(), WorkerState::Idle);
    assert_eq!(worker.phase(), WorkerPhase::Idle);
    assert_eq!(worker.chunks_taken(), 0);
    assert_eq!(worker.chunks_delivered(), 0);
    assert_eq!(worker.chunks_dropped(), 0);
}

#[test]
fn start_sleeps_for_one_chunk() {
    let mut worker = RenderWorker::new(3, CHUNK, TIMEOUT);
    assert_eq!(
        worker.step(WorkerEvent::Started, 5_000, false),
        Ok(WorkerAction::Sleep { nanos: CHUNK })
    );
    assert_eq!(worker.state(), WorkerState::Running);
    assert_eq!(worker.phase(), WorkerPhase::Pacing);
}

#[test]
fn sleep_is_what_is_left_of_the_chunk() {
    let mut worker = RenderWorker::new(3, CHUNK, TIMEOUT);
    let _ = worker.step(WorkerEvent::Started, 5_000, false);
    assert_eq!(
        worker.step(WorkerEvent::Resumed, 5_400, false),
        Ok(WorkerAction::Sleep { nanos: 600 })
    );
    assert_eq!(
        worker.step(WorkerEvent::Resumed, 5_999, false),
        Ok(WorkerAction::Sleep { nanos: 1 })
    );
    assert_eq!(
        worker.step(WorkerEvent::Resumed, 6_000, false),
        Ok(WorkerAction::Render { chunk: 0 })
    );
    assert_eq!(worker.phase(), WorkerPhase::Rendering);
    assert_eq!(worker.chunks_taken(), 1);
}

#[test]
fn clock_that_runs_backwards_counts_as_no_time() {
    let mut worker = RenderWorker::new(3, CHUNK, TIMEOUT);
    let _ = worker.step(WorkerEvent::Started, 5_000, false);
    assert_eq!(
        worker.step(WorkerEvent::Resumed, 4_000, false),
        Ok(WorkerAction::Sleep { nanos: CHUNK })
    );
}

#[test]
fn undisturbed_worker_delivers_every_chunk_in_order() {
    let mut worker = RenderWorker::new(3, CHUNK, TIMEOUT);
    let mut now = 0;
    let mut rendered = Vec::new();
    let mut begun = Vec::new();
    let mut action = worker.step(WorkerEvent::Started, now, false).unwrap();
    let mut steps = 0;
    while action != WorkerAction::Exit {
        steps += 1;
        assert!(steps < 100);
        let event = match action {
            WorkerAction::Sleep { nanos } => {
                now += nanos;
                WorkerEvent::Resumed
            }
            WorkerAction::Render { chunk } => {
                rendered.push(chunk);
                begun.push(now);
                now += 10;
                WorkerEvent::Rendered
            }
            WorkerAction::Push => WorkerEvent::Pushed,
            other => panic!("unexpected {:?}", other),
        };
        action = worker.step(event, now, false).unwrap();
    }
    assert_eq!(rendered, vec![0, 1, 2]);
    assert_eq!(begun, vec![CHUNK, 2 * CHUNK, 3 * CHUNK]);
    assert_eq!(worker.state(), WorkerState::Stopped);
    assert_eq!(worker.chunks_taken(), 3);
    assert_eq!(worker.chunks_delivered(), 3);
    assert_eq!(worker.chunks_dropped(), 0);
}

#[test]
fn worker_without_chunks_stops_at_once() {
    let mut worker = RenderWorker::new(0, CHUNK, TIMEOUT);
    assert_eq!(worker.step(WorkerEvent::Started, 0, false), Ok(WorkerAction::Exit));
    assert_eq!(worker.state(), WorkerState::Stopped);
}

#[test]
fn late_worker_renders_without_sleeping() {
    let mut worker = RenderWorker::new(2, CHUNK, TIMEOUT);
    let _ = worker.step(WorkerEvent::Started, 0, false);
    assert_eq!(
        worker.step(WorkerEvent::Resumed, 1_000, false),
        Ok(WorkerAction::Render { chunk: 0 })
    );
    assert_eq!(worker.step(WorkerEvent::Rendered, 2_500, false), Ok(WorkerAction::Push));
    assert_eq!(
        worker.step(WorkerEvent::Pushed, 2_500, false),
        Ok(WorkerAction::Render { chunk: 1 })
    );
}

#[test]
fn stopped_worker_only_says_exit() {
    let mut worker = RenderWorker::new(0, CHUNK, TIMEOUT);
    let _ = worker.step(WorkerEvent::Started, 0, false);
    for event in [
        WorkerEvent::Started,
        WorkerEvent::Resumed,
        WorkerEvent::Rendered,
        WorkerEvent::Pushed,
        WorkerEvent::HandoffFull,
    ] {
        assert_eq!(worker.step(event, 10, false), Ok(WorkerAction::Exit));
        assert_eq!(worker.step(event, 10, true), Ok(WorkerAction::Exit));
        assert_eq!(worker.state(), WorkerState::Stopped);
    }
}

#[test]
fn stop_before_start_ends_the_thread() {
    let mut worker = RenderWorker::new(3, CHUNK, TIMEOUT);
    assert_eq!(worker.step(WorkerEvent::Started, 0, true), Ok(WorkerAction::Exit));
    assert_eq!(worker.state(), WorkerState::Stopped);
    assert_eq!(worker.chunks_taken(), 0);
}

#[test]
fn stop_at_the_top_of_the_loop_begins_no_chunk() {
    let mut worker = RenderWorker::new(3, CHUNK, TIMEOUT);
    let _ = worker.step(WorkerEvent::Started, 0, false);
    assert_eq!(worker.step(WorkerEvent::Resumed, 2_000, true), Ok(WorkerAction::Exit));
    assert_eq!(worker.state(), WorkerState::Stopped);
    assert_eq!(worker.chunks_taken(), 0);
}

#[test]
fn stop_while_rendering_drains_the_chunk() {
    let mut worker = RenderWorker::new(3, CHUNK, TIMEOUT);
    let _ = worker.step(WorkerEvent::Started, 0, false);
    let _ = worker.step(WorkerEvent::Resumed, 1_000, false);
    assert_eq!(worker.step(WorkerEvent::Rendered, 1_100, true), Ok(WorkerAction::Push));
    assert_eq!(worker.state(), WorkerState::Draining);
    assert_eq!(worker.step(WorkerEvent::Pushed, 1_100, true), Ok(WorkerAction::Exit));
    assert_eq!(worker.state(), WorkerState::Stopped);
    assert_eq!(worker.chunks_taken(), 1);
    assert_eq!(worker.chunks_delivered(), 1);
    assert_eq!(worker.chunks_dropped(), 0);
}

#[test]
fn draining_worker_abandons_a_chunk_that_finds_no_room() {
    let mut worker = RenderWorker::new(3, CHUNK, TIMEOUT);
    let _ = worker.step(WorkerEvent::Started, 0, false);
    let _ = worker.step(WorkerEvent::Resumed, 1_000, false);
    let _ = worker.step(WorkerEvent::Rendered, 1_100, true);
    assert_eq!(worker.step(WorkerEvent::HandoffFull, 1_100, true), Ok(WorkerAction::Exit));
    assert_eq!(worker.state(), WorkerState::Stopped);
    assert_eq!(worker.chunks_delivered(), 0);
    assert_eq!(worker.chunks_dropped(), 1);
}

#[test]
fn stop_while_waiting_for_room_abandons_the_chunk() {
    let mut worker = RenderWorker::new(3, CHUNK, TIMEOUT);
    let _ = worker.step(WorkerEvent::Started, 0, false);
    let _ = worker.step(WorkerEvent::Resumed, 1_000, false);
    let _ = worker.step(WorkerEvent::Rendered, 1_100, false);
    assert_eq!(
        worker.step(WorkerEvent::HandoffFull, 1_100, false),
        Ok(WorkerAction::Wait { nanos: TIMEOUT })
    );
    assert_eq!(worker.step(WorkerEvent::Resumed, 1_200, true), Ok(WorkerAction::Exit));
    assert_eq!(worker.state(), WorkerState::Stopped);
    assert_eq!(worker.chunks_dropped(), 1);
}

#[test]
fn stop_after_a_push_counts_the_chunk_as_delivered() {
    let mut worker = RenderWorker::new(3, CHUNK, TIMEOUT);
    let _ = worker.step(WorkerEvent::Started, 0, false);
    let _ = worker.step(WorkerEvent::Resumed, 1_000, false);
    let _ = worker.step(WorkerEvent::Rendered, 1_100, false);
    assert_eq!(worker.step(WorkerEvent::Pushed, 1_100, true), Ok(WorkerAction::Exit));
    assert_eq!(worker.chunks_delivered(), 1);
    assert_eq!(worker.chunks_dropped(), 0);
}

#[test]
fn full_handoff_is_waited_on_until_the_deadline() {
    let mut worker = RenderWorker::new(3, CHUNK, TIMEOUT);
    let _ = worker.step(WorkerEvent::Started, 0, false);
    let _ = worker.step(WorkerEvent::Resumed, 1_000, false);
    assert_eq!(worker.step(WorkerEvent::Rendered, 1_100, false), Ok(WorkerAction::Push));
    assert_eq!(
        worker.step(WorkerEvent::HandoffFull, 1_150, false),
        Ok(WorkerAction::Wait { nanos: 250 })
    );
    assert_eq!(worker.phase(), WorkerPhase::Waiting);
    assert_eq!(worker.step(WorkerEvent::Resumed, 1_300, false), Ok(WorkerAction::Push));
    assert_eq!(
        worker.step(WorkerEvent::HandoffFull, 1_300, false),
        Ok(WorkerAction::Wait { nanos: 100 })
    );
    assert_eq!(worker.step(WorkerEvent::Resumed, 1_400, false), Ok(WorkerAction::Push));
    assert_eq!(worker.step(WorkerEvent::HandoffFull, 1_400, false), Ok(WorkerAction::DropChunk));
    assert_eq!(worker.phase(), WorkerPhase::Pacing);
    assert_eq!(worker.chunks_dropped(), 1);
    assert_eq!(worker.chunks_delivered(), 0);
    assert_eq!(
        worker.step(WorkerEvent::Resumed, 1_400, false),
        Ok(WorkerAction::Sleep { nanos: 600 })
    );
}

#[test]
fn room_before_the_deadline_saves_the_chunk() {
    let mut worker = RenderWorker::new(3, CHUNK, TIMEOUT);
    let _ = worker.step(WorkerEvent::Started, 0, false);
    let _ = worker.step(WorkerEvent::Resumed, 1_000, false);
    let _ = worker.step(WorkerEvent::Rendered, 1_100, false);
    let _ = worker.step(WorkerEvent::HandoffFull, 1_100, false);
    assert_eq!(worker.step(WorkerEvent::Resumed, 1_250, false), Ok(WorkerAction::Push));
    assert_eq!(
        worker.step(WorkerEvent::Pushed, 1_250, false),
        Ok(WorkerAction::Sleep { nanos: 750 })
    );
    assert_eq!(worker.chunks_delivered(), 1);
    assert_eq!(worker.chunks_dropped(), 0);
}

#[test]
fn wait_is_never_longer_than_a_chunk() {
    let mut worker = RenderWorker::new(3, CHUNK, 5 * CHUNK);
    let _ = worker.step(WorkerEvent::Started, 0, false);
    let _ = worker.step(WorkerEvent::Resumed, 1_000, false);
    let _ = worker.step(WorkerEvent::Rendered, 1_100, false);
    assert_eq!(
        worker.step(WorkerEvent::HandoffFull, 1_100, false),
        Ok(WorkerAction::Wait { nanos: CHUNK })
    );
}

#[test]
fn zero_timeout_drops_at_the_first_refusal() {
    let mut worker = RenderWorker::new(3, CHUNK, 0);
    let _ = worker.step(WorkerEvent::Started, 0, false);
    let _ = worker.step(WorkerEvent::Resumed, 1_000, false);
    let _ = worker.step(WorkerEvent::Rendered, 1_100, false);
    assert_eq!(worker.step(WorkerEvent::HandoffFull, 1_100, false), Ok(WorkerAction::DropChunk));
}

#[test]
fn deadline_at_the_end_of_time_does_not_overflow() {
    let mut worker = RenderWorker::new(3, CHUNK, u64::MAX);
    let _ = worker.step(WorkerEvent::Started, 0, false);
    let _ = worker.step(WorkerEvent::Resumed, 1_000, false);
    let _ = worker.step(WorkerEvent::Rendered, u64::MAX - 10, false);
    assert_eq!(
        worker.step(WorkerEvent::HandoffFull, u64::MAX - 4, false),
        Ok(WorkerAction::Wait { nanos: 4 })
    );
    assert_eq!(worker.step(WorkerEvent::Resumed, u64::MAX, false), Ok(WorkerAction::Push));
    assert_eq!(worker.step(WorkerEvent::HandoffFull, u64::MAX, false), Ok(WorkerAction::DropChunk));
}

#[test]
fn event_out_of_turn_changes_nothing() {
    let mut worker = RenderWorker::new(3, CHUNK, TIMEOUT);
    assert_eq!(worker.step(WorkerEvent::Resumed, 0, false), Err(OutOfTurn));
    assert_eq!(worker.step(WorkerEvent::Pushed, 0, false), Err(OutOfTurn));
    assert_eq!(worker.state(), WorkerState::Idle);
    let _ = worker.step(WorkerEvent::Started, 0, false);
    assert_eq!(worker.step(WorkerEvent::Started, 0, false), Err(OutOfTurn));
    assert_eq!(worker.step(WorkerEvent::Rendered, 0, false), Err(OutOfTurn));
    assert_eq!(worker.phase(), WorkerPhase::Pacing);
    let _ = worker.step(WorkerEvent::Resumed, 1_000, false);
    assert_eq!(worker.step(WorkerEvent::Resumed, 1_000, false), Err(OutOfTurn));
    assert_eq!(worker.step(WorkerEvent::HandoffFull, 1_000, false), Err(OutOfTurn));
    assert_eq!(worker.phase(), WorkerPhase::Rendering);
    assert_eq!(worker.chunks_taken(), 1);
    let _ = worker.step(WorkerEvent::Rendered, 1_000, false);
    assert_eq!(worker.step(WorkerEvent::Rendered, 1_000, false), Err(OutOfTurn));
    assert_eq!(worker.phase(), WorkerPhase::Pushing);
}

#[test]
fn stop_is_obeyed_even_out_of_turn() {
    let mut worker = RenderWorker::new(3, CHUNK, TIMEOUT);
    let _ = worker.step(WorkerEvent::Started, 0, false);
    let _ = worker.step(WorkerEvent::Resumed, 1_000, false);
    assert_eq!(worker.step(WorkerEvent::Resumed, 1_000, true), Ok(WorkerAction::Exit));
    assert_eq!(worker.state(), WorkerState::Stopped);
    assert_eq!(worker.chunks_dropped(), 1);
}
