use dbmonitor::batch::{BatchCommand, BatchEvent, BatchProcessor, FlushOutcome};
use dbmonitor::broadcaster::{broadcast_window, payloads_of, publish_all};
use dbmonitor::coalesce::UpdateCoalescer;
use dbmonitor::hub::{Payload, PollResult, PubSubHub};
use dbmonitor::queue::EnqueueOutcome;
use dbmonitor::reading::Reading;
use dbmonitor::service::MonitorService;

fn reading(device_id: i32, decibels_tenths: i64, timestamp_ms: u64) -> Reading {
    Reading {
        device_id,
        decibels_tenths,
        timestamp_ms,
    }
}

#[test]
fn cache_reflects_last_inserted_reading() {
    let mut s = MonitorService::new();
    s.update_device_reading(7, 600, 1_000);
    s.update_device_reading(7, 615, 2_000);
    s.update_device_reading(7, 592, 3_000);
    let snap = s.get_active_devices(3_500);
    assert_eq!(snap.len(), 1);
    assert_eq!(snap[0].device_id, 7);
    assert_eq!(snap[0].decibels_tenths, 592);
    assert_eq!(snap[0].timestamp_ms, 3_000);
    assert_eq!(s.cache_size(), 1);
}

#[test]
fn stale_entry_leaves_snapshot_before_it_is_swept() {
    let mut s = MonitorService::new();
    s.update_device_reading(1, 500, 0);
    // Within the 60 s freshness horizon: visible.
    assert_eq!(s.get_active_devices(60_000).len(), 1);
    // One millisecond past the freshness horizon: hidden, but still counted.
    assert_eq!(s.get_active_devices(60_001).len(), 0);
    assert_eq!(s.cache_size(), 1);
    // Within the 300 s eviction horizon: the sweep keeps it.
    s.cleanup_old_entries(300_000);
    assert_eq!(s.cache_size(), 1);
    // Past the eviction horizon: the sweep removes it.
    s.cleanup_old_entries(300_001);
    assert_eq!(s.cache_size(), 0);
}

#[test]
fn snapshot_reports_age_in_whole_seconds() {
    let mut s = MonitorService::new();
    s.update_device_reading(3, 700, 10_000);
    let snap = s.get_active_devices(13_500);
    assert_eq!(snap.len(), 1);
    assert_eq!(snap[0].seconds_since, 3);
}

#[test]
fn snapshot_copies_every_fresh_device_once() {
    let mut s = MonitorService::new();
    s.update_device_reading(1, 500, 1_000);
    s.update_device_reading(2, 600, 2_000);
    s.update_device_reading(3, 700, 80_000);
    let mut snap = s.get_active_devices(61_500);
    snap.sort_by_key(|d| d.device_id);
    assert_eq!(snap.len(), 2);
    assert_eq!((snap[0].device_id, snap[0].decibels_tenths), (2, 600));
    assert_eq!((snap[1].device_id, snap[1].decibels_tenths), (3, 700));
}

#[test]
fn enqueue_before_processor_start_is_a_noop() {
    let mut s = MonitorService::new();
    assert_eq!(s.queue_insert(1, 500, 0), EnqueueOutcome::NotStarted);
    assert_eq!(s.is_queue_active(), (0, false));
    let _p = s.init_batch_processor();
    assert_eq!(s.is_queue_active(), (0, true));
    assert_eq!(s.queue_insert(1, 500, 0), EnqueueOutcome::Accepted);
    assert_eq!(s.is_queue_active(), (1, true));
    s.queue.close();
    assert_eq!(s.queue_insert(1, 500, 0), EnqueueOutcome::Closed);
    assert_eq!(s.is_queue_active(), (1, false));
}

#[test]
fn record_fans_out_to_all_three_forks() {
    let mut s = MonitorService::new();
    let _p = s.init_batch_processor();
    assert_eq!(s.record(7, 592, 1_000), EnqueueOutcome::Accepted);
    assert_eq!(s.cache_size(), 1);
    assert_eq!(s.is_queue_active(), (1, true));
    let drained = s.coalescer.drain();
    assert_eq!(drained.len(), 1);
    assert_eq!(drained[0], reading(7, 592, 1_000));
}

#[test]
fn queue_hands_out_readings_in_arrival_order() {
    let mut s = MonitorService::new();
    let _p = s.init_batch_processor();
    s.queue_insert(1, 500, 10);
    s.queue_insert(2, 600, 20);
    assert_eq!(s.queue.backlog_len(), 2);
    assert_eq!(s.queue.dequeue(), Some(reading(1, 500, 10)));
    assert_eq!(s.queue.dequeue(), Some(reading(2, 600, 20)));
    assert_eq!(s.queue.dequeue(), None);
}

#[test]
fn single_reading_flushes_on_the_max_wait_timer() {
    let mut p = BatchProcessor::new();
    let cmd = p.on_event(BatchEvent::Received(reading(7, 592, 1_000)));
    assert_eq!(cmd, BatchCommand::Wait);
    // The low-traffic timer skips a batch under the minimum size.
    assert_eq!(p.on_event(BatchEvent::LowTrafficTick), BatchCommand::Wait);
    // The max-wait timer flushes any non-empty batch.
    assert_eq!(p.on_event(BatchEvent::MaxWaitTick), BatchCommand::Flush);
    assert_eq!(p.batch_len(), 1);
    let stmt = p.flush_statement();
    assert_eq!(
        stmt,
        "INSERT INTO decibel_logs (decibels, fk_device_id, created_at) VALUES ($1, $2, $3)"
    );
    p.apply_flush_outcome(FlushOutcome::Written);
    assert_eq!(p.batch_len(), 0);
}

#[test]
fn size_trigger_fires_at_two_hundred_and_the_rest_waits() {
    let mut p = BatchProcessor::new();
    let mut flushes = Vec::new();
    for i in 0..250u64 {
        let cmd = p.on_event(BatchEvent::Received(reading(1, 500, i)));
        if cmd == BatchCommand::Flush {
            flushes.push((i, p.batch_len()));
            p.apply_flush_outcome(FlushOutcome::Written);
        }
    }
    // Exactly one flush of 200 fired immediately, at the 200th reading.
    assert_eq!(flushes, vec![(199, 200)]);
    assert_eq!(p.batch_len(), 50);
    // The remaining 50 flush on the next trigger.
    assert_eq!(p.on_event(BatchEvent::LowTrafficTick), BatchCommand::Flush);
    assert_eq!(p.batch_len(), 50);
    let stmt = p.flush_statement();
    assert!(stmt.ends_with("($148, $149, $150)"));
    p.apply_flush_outcome(FlushOutcome::Written);
    assert_eq!(p.batch_len(), 0);
}

#[test]
fn connectivity_failure_retains_the_batch_for_retry() {
    let mut p = BatchProcessor::new();
    p.on_event(BatchEvent::Received(reading(1, 500, 10)));
    p.on_event(BatchEvent::Received(reading(2, 600, 20)));
    assert_eq!(p.on_event(BatchEvent::MaxWaitTick), BatchCommand::Flush);
    p.apply_flush_outcome(FlushOutcome::ConnectionFailed);
    // Nothing was sent, so the rows reappear in the next flush attempt.
    assert_eq!(p.batch_len(), 2);
    assert_eq!(p.flush_rows(), vec![reading(1, 500, 10), reading(2, 600, 20)]);
    assert_eq!(p.on_event(BatchEvent::MaxWaitTick), BatchCommand::Flush);
    p.apply_flush_outcome(FlushOutcome::Written);
    assert_eq!(p.batch_len(), 0);
}

#[test]
fn statement_failure_drops_the_batch_instead_of_retrying() {
    let mut p = BatchProcessor::new();
    p.on_event(BatchEvent::Received(reading(1, 500, 10)));
    assert_eq!(p.on_event(BatchEvent::MaxWaitTick), BatchCommand::Flush);
    p.apply_flush_outcome(FlushOutcome::StatementFailed);
    assert_eq!(p.batch_len(), 0);
    // A later tick has nothing left to flush.
    assert_eq!(p.on_event(BatchEvent::MaxWaitTick), BatchCommand::Wait);
}

#[test]
fn closure_flushes_the_remainder_exactly_once() {
    let mut p = BatchProcessor::new();
    p.on_event(BatchEvent::Received(reading(1, 500, 10)));
    assert_eq!(p.on_event(BatchEvent::Closed), BatchCommand::FlushAndStop);
    p.apply_flush_outcome(FlushOutcome::Written);
    assert_eq!(p.on_event(BatchEvent::Closed), BatchCommand::Stop);
}

#[test]
fn low_traffic_timer_needs_the_minimum_batch_size() {
    let mut p = BatchProcessor::new();
    for i in 0..9u64 {
        p.on_event(BatchEvent::Received(reading(1, 500, i)));
    }
    assert_eq!(p.on_event(BatchEvent::LowTrafficTick), BatchCommand::Wait);
    p.on_event(BatchEvent::Received(reading(1, 500, 9)));
    assert_eq!(p.on_event(BatchEvent::LowTrafficTick), BatchCommand::Flush);
}

#[test]
fn window_collapses_three_stagings_to_one_payload() {
    let mut s = MonitorService::new();
    // Three readings for device 7 inside one window: 60.0, 61.5, 59.2.
    s.broadcast_reading_update(7, 600, 1_000);
    s.broadcast_reading_update(7, 615, 1_030);
    s.broadcast_reading_update(7, 592, 1_060);
    let mut hub = PubSubHub::new(8);
    let sub = hub.subscribe().unwrap();
    let published = broadcast_window(&mut s.coalescer, &mut hub);
    assert_eq!(published.len(), 1);
    assert_eq!(published[0].device_id, 7);
    assert_eq!(published[0].decibels_tenths, 592);
    // Exactly one payload reached the observer, carrying the last value.
    assert_eq!(
        hub.next_payload(sub),
        PollResult::Ready(Payload {
            device_id: 7,
            decibels_tenths: 592,
            timestamp_ms: 1_060,
        })
    );
    assert_eq!(hub.next_payload(sub), PollResult::Pending);
    // The drain closed the window: the next one starts empty.
    assert_eq!(s.coalescer.staged_len(), 0);
}

#[test]
fn coalescer_keeps_devices_independent() {
    let mut c = UpdateCoalescer::new();
    c.stage(reading(1, 500, 10));
    c.stage(reading(2, 600, 20));
    c.stage(reading(1, 510, 30));
    assert_eq!(c.staged_len(), 2);
    let mut drained = c.drain();
    drained.sort_by_key(|r| r.device_id);
    assert_eq!(drained, vec![reading(1, 510, 30), reading(2, 600, 20)]);
}

#[test]
fn publish_with_zero_subscribers_returns_and_keeps_nothing() {
    let mut hub = PubSubHub::new(4);
    for i in 0..10_000i64 {
        hub.publish(Payload {
            device_id: 1,
            decibels_tenths: i,
            timestamp_ms: 0,
        });
    }
    assert_eq!(hub.subscriber_count(), 0);
    // A subscriber joining later starts with an empty buffer.
    let sub = hub.subscribe().unwrap();
    assert_eq!(hub.next_payload(sub), PollResult::Pending);
}

#[test]
fn full_buffer_drops_the_oldest_undelivered_payload() {
    let mut hub = PubSubHub::new(2);
    let sub = hub.subscribe().unwrap();
    for i in 0..5i64 {
        hub.publish(Payload {
            device_id: 1,
            decibels_tenths: i,
            timestamp_ms: i as u64,
        });
    }
    // Capacity 2: only the two newest survive, oldest first.
    match hub.next_payload(sub) {
        PollResult::Ready(p) => assert_eq!(p.decibels_tenths, 3),
        other => panic!("expected a payload, got {:?}", other),
    }
    match hub.next_payload(sub) {
        PollResult::Ready(p) => assert_eq!(p.decibels_tenths, 4),
        other => panic!("expected a payload, got {:?}", other),
    }
    assert_eq!(hub.next_payload(sub), PollResult::Pending);
}

#[test]
fn unsubscribed_handle_reads_as_closed() {
    let mut hub = PubSubHub::new(4);
    let a = hub.subscribe().unwrap();
    let b = hub.subscribe().unwrap();
    assert_ne!(a, b);
    hub.unsubscribe(a);
    assert_eq!(hub.next_payload(a), PollResult::Closed);
    hub.publish(Payload {
        device_id: 1,
        decibels_tenths: 500,
        timestamp_ms: 0,
    });
    match hub.next_payload(b) {
        PollResult::Ready(p) => assert_eq!(p.decibels_tenths, 500),
        other => panic!("expected a payload, got {:?}", other),
    }
}

#[test]
fn publish_all_delivers_in_order_to_every_subscriber() {
    let mut hub = PubSubHub::new(8);
    let a = hub.subscribe().unwrap();
    let b = hub.subscribe().unwrap();
    let readings = vec![reading(1, 500, 10), reading(2, 600, 20)];
    let payloads = payloads_of(&readings);
    publish_all(&mut hub, &payloads);
    for sub in [a, b] {
        match hub.next_payload(sub) {
            PollResult::Ready(p) => assert_eq!((p.device_id, p.decibels_tenths), (1, 500)),
            other => panic!("expected a payload, got {:?}", other),
        }
        match hub.next_payload(sub) {
            PollResult::Ready(p) => assert_eq!((p.device_id, p.decibels_tenths), (2, 600)),
            other => panic!("expected a payload, got {:?}", other),
        }
        assert_eq!(hub.next_payload(sub), PollResult::Pending);
    }
}

#[test]
fn empty_window_publishes_nothing() {
    let mut c = UpdateCoalescer::new();
    let mut hub = PubSubHub::new(4);
    let sub = hub.subscribe().unwrap();
    let published = broadcast_window(&mut c, &mut hub);
    assert!(published.is_empty());
    assert_eq!(hub.next_payload(sub), PollResult::Pending);
}

#[test]
fn window_publishes_one_payload_per_staged_device() {
    let mut c = UpdateCoalescer::new();
    c.stage(reading(1, 500, 10));
    c.stage(reading(2, 600, 20));
    c.stage(reading(1, 510, 30));
    c.stage(reading(2, 610, 40));
    let mut hub = PubSubHub::new(8);
    let sub = hub.subscribe().unwrap();
    let mut published = broadcast_window(&mut c, &mut hub);
    published.sort_by_key(|p| p.device_id);
    assert_eq!(published.len(), 2);
    assert_eq!((published[0].device_id, published[0].decibels_tenths), (1, 510));
    assert_eq!((published[1].device_id, published[1].decibels_tenths), (2, 610));
    let mut delivered = Vec::new();
    while let PollResult::Ready(p) = hub.next_payload(sub) {
        delivered.push(p);
    }
    delivered.sort_by_key(|p| p.device_id);
    assert_eq!(delivered.len(), 2);
    assert_eq!((delivered[0].device_id, delivered[0].decibels_tenths), (1, 510));
    assert_eq!((delivered[1].device_id, delivered[1].decibels_tenths), (2, 610));
}

#[test]
fn horizon_includes_the_boundary_and_future_stamps() {
    let r = Reading::new(5, 550, 10_000);
    assert_eq!(r, reading(5, 550, 10_000));
    // Age exactly the horizon still counts.
    assert!(r.is_within_horizon(10_060, 60));
    // One millisecond over does not.
    assert!(!r.is_within_horizon(10_061, 60));
    // A stamp in the future has age zero.
    assert!(r.is_within_horizon(9_000, 60));
}
