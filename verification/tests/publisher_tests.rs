use sensor_audio::AudioFrame;
use sensor_audio::ConnState;
use sensor_audio::MutableRunner;
use sensor_audio::Publisher;
use sensor_audio::RawType;
use sensor_audio::SampleQueue;
use sensor_audio::build_frame;
use sensor_audio::deserialize;
use sensor_audio::get_topics;
use sensor_audio::serialize;

fn marker_frame(n: i16) -> AudioFrame {
    AudioFrame {
        channel_count: 1,
        sample_count: 2,
        sample_rate: 8000,
        raw_type: RawType::S16Le,
        samples: vec![vec![n, -n]],
    }
}

#[test]
fn new_publisher_starts_disconnected() {
    let p = Publisher::new(10, 100, 3000);
    assert_eq!(p.state, ConnState::Disconnected);
    assert_eq!(p.retry_count, 0);
    assert_eq!(p.backlog_len(), 0);
    assert!(!p.running);
}

#[test]
fn transitions_follow_the_state_machine() {
    let mut p = Publisher::new(10, 100, 3000);
    p.on_start();
    assert_eq!(p.state, ConnState::Connecting);
    p.on_connect_failure();
    assert_eq!(p.state, ConnState::Backoff);
    assert_eq!(p.retry_count, 1);
    p.on_backoff_elapsed();
    assert_eq!(p.state, ConnState::Connecting);
    p.on_connect_success();
    assert_eq!(p.state, ConnState::Connected);
    p.on_publish_success();
    assert_eq!(p.retry_count, 0);
    p.on_publish_failure(vec![1, 2, 3]);
    assert_eq!(p.state, ConnState::Backoff);
    assert_eq!(p.backlog_len(), 1);
}

#[test]
fn backoff_delays_double_up_to_the_maximum() {
    let mut p = Publisher::new(10, 100, 3000);
    p.on_start();
    let mut delays = Vec::new();
    for _ in 0..6 {
        p.on_connect_failure();
        delays.push(p.backoff_delay());
        p.on_backoff_elapsed();
    }
    assert_eq!(delays, vec![200, 400, 800, 1600, 3000, 3000]);
}

#[test]
fn backoff_is_strictly_monotone_below_the_maximum() {
    let mut p = Publisher::new(10, 7, 1000);
    p.on_start();
    let mut last = p.backoff_delay();
    assert_eq!(last, 7);
    for _ in 0..12 {
        p.on_connect_failure();
        let d = p.backoff_delay();
        assert!(d <= 1000);
        if last < 1000 {
            assert!(d > last);
        } else {
            assert_eq!(d, 1000);
        }
        last = d;
        p.on_backoff_elapsed();
    }
    assert_eq!(last, 1000);
}

#[test]
fn backlog_keeps_the_last_ten_of_fifteen() {
    let mut p = Publisher::new(10, 100, 3000);
    let mut expected = Vec::new();
    for n in 0..15i16 {
        let frame = marker_frame(n);
        expected.push(serialize(&frame).unwrap());
        let out = p.handle_frame(&frame).expect("well-formed frame");
        assert!(out.is_none());
        assert!(p.backlog_len() <= 10);
    }
    p.on_start();
    p.on_connect_success();
    assert_eq!(p.state, ConnState::Connected);
    let mut flushed = Vec::new();
    while let Some(env) = p.pop_backlog_front() {
        flushed.push(env);
    }
    assert_eq!(flushed.len(), 10);
    assert_eq!(flushed, expected[5..].to_vec());
}

#[test]
fn connected_publisher_hands_back_the_envelope() {
    let mut p = Publisher::new(10, 100, 3000);
    p.on_start();
    p.on_connect_success();
    let frame = marker_frame(42);
    let env = p.handle_frame(&frame).unwrap().expect("connected yields an envelope");
    assert_eq!(env, serialize(&frame).unwrap());
    assert_eq!(p.backlog_len(), 0);
}

#[test]
fn invalid_frame_is_a_fatal_serialization_error() {
    let mut p = Publisher::new(10, 100, 3000);
    let mut frame = marker_frame(1);
    frame.sample_count = 99;
    assert!(p.handle_frame(&frame).is_err());
    assert_eq!(p.backlog_len(), 0);
}

#[test]
fn hundred_callbacks_publish_in_order_without_drops() {
    let mut q = SampleQueue::new(128);
    for i in 0..100usize {
        let mut raw: Vec<i16> = Vec::with_capacity(1024);
        for f in 0..512usize {
            raw.push(i as i16);
            raw.push((f % 7) as i16);
        }
        let frame = build_frame(&raw, 512, 2, 16384).expect("buffer matches counts");
        assert!(q.push(frame));
    }
    assert_eq!(q.dropped_count(), 0);
    let mut p = Publisher::new(10, 100, 3000);
    p.on_start();
    p.on_connect_success();
    let mut published = Vec::new();
    while let Some(frame) = q.try_pop() {
        let env = p.handle_frame(&frame).unwrap().expect("connected yields an envelope");
        p.on_publish_success();
        published.push(env);
    }
    assert_eq!(published.len(), 100);
    for (i, env) in published.iter().enumerate() {
        let frame = deserialize(env).expect("envelope decodes");
        assert_eq!(frame.channel_count, 2);
        assert_eq!(frame.sample_count, 512);
        assert_eq!(frame.sample_rate, 16384);
        assert_eq!(frame.samples[0][0], i as i16);
    }
}

#[test]
fn lifecycle_start_and_stop() {
    let mut p = Publisher::new(10, 100, 3000);
    MutableRunner::start(&mut p);
    assert!(p.running);
    assert_eq!(p.state, ConnState::Connecting);
    MutableRunner::stop(&mut p);
    assert!(!p.running);
    assert_eq!(p.state, ConnState::Connecting);
}

#[test]
fn topic_map_routes_out_to_sensor_data() {
    let topics = get_topics();
    assert_eq!(topics.len(), 1);
    assert_eq!(topics.get("out").map(|s| s.as_str()), Some("sensor-data"));
}
