use sensor_audio::AudioFrame;
use sensor_audio::RawType;
use sensor_audio::SampleQueue;

fn marker_frame(n: i16) -> AudioFrame {
    AudioFrame {
        channel_count: 1,
        sample_count: 1,
        sample_rate: 1000,
        raw_type: RawType::S16Le,
        samples: vec![vec![n]],
    }
}

#[test]
fn push_then_pop_is_fifo() {
    let mut q = SampleQueue::new(4);
    for n in 0..4i16 {
        assert!(q.push(marker_frame(n)));
    }
    for n in 0..4i16 {
        let f = q.try_pop().expect("queue holds a frame");
        assert_eq!(f.samples[0][0], n);
    }
    assert!(q.try_pop().is_none());
}

#[test]
fn full_queue_rejects_without_blocking() {
    let mut q = SampleQueue::new(1);
    assert!(q.push(marker_frame(1)));
    assert_eq!(q.dropped_count(), 0);
    assert!(!q.push(marker_frame(2)));
    assert_eq!(q.dropped_count(), 1);
    assert_eq!(q.len(), 1);
    let kept = q.try_pop().unwrap();
    assert_eq!(kept.samples[0][0], 1);
}

#[test]
fn twenty_pushes_into_capacity_ten() {
    let mut q = SampleQueue::new(10);
    let mut accepted = 0;
    let mut rejected = 0;
    for n in 0..20i16 {
        if q.push(marker_frame(n)) {
            accepted += 1;
        } else {
            rejected += 1;
        }
    }
    assert_eq!(accepted, 10);
    assert_eq!(rejected, 10);
    assert_eq!(q.dropped_count(), 10);
    for n in 0..10i16 {
        assert_eq!(q.try_pop().unwrap().samples[0][0], n);
    }
}
