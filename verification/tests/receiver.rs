use streambridge::receiver::CHANNEL_CAPACITY;
use streambridge::{JpegFrame, SharedReceiver};
use tokio::sync::broadcast::error::TryRecvError;

fn jpeg(tag: u8) -> Vec<u8> {
    vec![0xFF, 0xD8, tag, tag.wrapping_mul(3), 0xFF, 0xD9]
}

#[test]
fn frame_holds_the_encoder_output() {
    let bytes = vec![0xFF, 0xD8, 1, 2, 3, 0xFF, 0xD9];
    let frame = JpegFrame::new(bytes.clone());
    assert_eq!(frame.len(), 7);
    assert_eq!(frame.to_vec(), bytes);
    assert_eq!(&frame.data[..], &bytes[..]);
    let empty = JpegFrame::new(Vec::new());
    assert_eq!(empty.len(), 0);
    assert_eq!(empty.to_vec(), Vec::<u8>::new());
}

#[test]
fn frame_clone_shares_the_bytes() {
    let frame = JpegFrame::new(jpeg(5));
    let copy = frame.clone();
    assert_eq!(copy.to_vec(), jpeg(5));
    assert_eq!(copy.len(), frame.len());
    assert_eq!(copy.data.as_ptr(), frame.data.as_ptr());
}

#[test]
fn new_record_has_no_clients_and_no_receivers() {
    let record = SharedReceiver::new("CAM1".to_string());
    assert_eq!(record.source_name, "CAM1");
    assert_eq!(record.client_count(), 0);
    assert_eq!(record.receiver_count(), 0);
    assert_eq!(record.stats.frames_in, 0);
    assert_eq!(record.stats.dropped, 0);
}

#[test]
fn channel_holds_four_frames() {
    assert_eq!(CHANNEL_CAPACITY, 4);
}

#[test]
fn subscribe_and_unsubscribe_move_the_client_count() {
    let mut record = SharedReceiver::new("CAM1".to_string());
    let rx1 = record.subscribe();
    assert_eq!(record.client_count(), 1);
    assert_eq!(record.receiver_count(), 1);
    let rx2 = record.subscribe();
    assert_eq!(record.client_count(), 2);
    assert_eq!(record.receiver_count(), 2);
    record.unsubscribe();
    assert_eq!(record.client_count(), 1);
    drop(rx1);
    assert_eq!(record.receiver_count(), 1);
    record.unsubscribe();
    drop(rx2);
    assert_eq!(record.client_count(), 0);
    assert_eq!(record.receiver_count(), 0);
    assert_eq!(record.source_name, "CAM1");
}

#[test]
fn client_count_wraps_like_the_counters() {
    let mut record = SharedReceiver::new("CAM1".to_string());
    record.unsubscribe();
    assert_eq!(record.client_count(), u64::MAX);
    let _rx = record.subscribe();
    assert_eq!(record.client_count(), 0);
}

#[test]
fn publish_without_subscribers_reaches_nobody() {
    let record = SharedReceiver::new("CAM1".to_string());
    assert_eq!(record.publish(JpegFrame::new(jpeg(1))), 0);
    assert_eq!(SharedReceiver::reached_count(None), 0);
    assert_eq!(SharedReceiver::reached_count(Some(3)), 3);
}

#[test]
fn subscriber_sees_frames_in_publication_order() {
    let mut record = SharedReceiver::new("CAM1".to_string());
    let mut rx = record.subscribe();
    assert!(matches!(rx.try_recv(), Err(TryRecvError::Empty)));
    for tag in 1..=3u8 {
        assert_eq!(record.publish(JpegFrame::new(jpeg(tag))), 1);
    }
    for tag in 1..=3u8 {
        assert_eq!(rx.try_recv().unwrap().to_vec(), jpeg(tag));
    }
    assert!(matches!(rx.try_recv(), Err(TryRecvError::Empty)));
}

#[test]
fn subscriber_sees_only_frames_published_after_it_subscribed() {
    let mut record = SharedReceiver::new("CAM1".to_string());
    let mut early = record.subscribe();
    record.publish(JpegFrame::new(jpeg(1)));
    let mut late = record.subscribe();
    assert_eq!(record.publish(JpegFrame::new(jpeg(2))), 2);
    assert_eq!(early.try_recv().unwrap().to_vec(), jpeg(1));
    assert_eq!(early.try_recv().unwrap().to_vec(), jpeg(2));
    assert_eq!(late.try_recv().unwrap().to_vec(), jpeg(2));
    assert!(matches!(late.try_recv(), Err(TryRecvError::Empty)));
}

#[test]
fn two_subscribers_get_identical_bytes() {
    let mut record = SharedReceiver::new("CAM1".to_string());
    let mut a = record.subscribe();
    let mut b = record.subscribe();
    for tag in 10..14u8 {
        assert_eq!(record.publish(JpegFrame::new(jpeg(tag))), 2);
    }
    for _ in 0..4 {
        let from_a = a.try_recv().unwrap();
        let from_b = b.try_recv().unwrap();
        assert_eq!(from_a.to_vec(), from_b.to_vec());
        assert_eq!(from_a.data.as_ptr(), from_b.data.as_ptr());
    }
}

#[test]
fn paused_subscriber_lags_without_holding_up_the_other() {
    let mut record = SharedReceiver::new("CAM1".to_string());
    let mut paused = record.subscribe();
    let mut keen = record.subscribe();
    for tag in 1..=7u8 {
        // Publishing never blocks, however far the paused subscriber is behind.
        assert_eq!(record.publish(JpegFrame::new(jpeg(tag))), 2);
        assert_eq!(keen.try_recv().unwrap().to_vec(), jpeg(tag));
    }
    // The channel holds four frames: the paused subscriber missed the first three.
    match paused.try_recv() {
        Err(TryRecvError::Lagged(skipped)) => assert_eq!(skipped, 3),
        other => panic!("expected a lag notice, got {:?}", other.map(|f| f.to_vec())),
    }
    for tag in 4..=7u8 {
        assert_eq!(paused.try_recv().unwrap().to_vec(), jpeg(tag));
    }
    assert!(matches!(paused.try_recv(), Err(TryRecvError::Empty)));
}

#[test]
fn dropping_the_record_closes_the_channel() {
    let mut record = SharedReceiver::new("CAM1".to_string());
    let mut rx = record.subscribe();
    record.publish(JpegFrame::new(jpeg(1)));
    drop(record);
    assert_eq!(rx.try_recv().unwrap().to_vec(), jpeg(1));
    assert!(matches!(rx.try_recv(), Err(TryRecvError::Closed)));
}
