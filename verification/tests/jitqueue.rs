use std::time::Duration;

use nanopulse_core::jitqueue::{Config, Queue, TxMode, TxPacket};
use nanopulse_core::structs::TxAckStatus;

#[derive(Clone, Copy)]
struct TxPacketMock {
    time_on_air: Duration,
    tx_mode: TxMode,
    count: Duration,
}

fn duration_of(nanos: u128) -> Duration {
    Duration::new((nanos / 1_000_000_000) as u64, (nanos % 1_000_000_000) as u32)
}

impl TxPacket for TxPacketMock {
    fn packet_time_on_air(&self) -> Option<u128> {
        Some(self.time_on_air.as_nanos())
    }
    fn packet_mode(&self) -> TxMode {
        self.tx_mode
    }
    fn packet_count(&self) -> u128 {
        self.count.as_nanos()
    }
    fn with_mode(self, tx_mode: TxMode) -> Self {
        TxPacketMock { tx_mode, ..self }
    }
    fn with_count(self, count: u128) -> Self {
        TxPacketMock { count: duration_of(count), ..self }
    }
    fn get_time_on_air(&self) -> Option<u128> {
        Some(self.time_on_air.as_nanos())
    }
    fn get_tx_mode(&self) -> TxMode {
        self.tx_mode
    }
    fn get_id(&self) -> u32 {
        0
    }
    fn set_tx_mode(&mut self, tx_mode: TxMode) {
        self.tx_mode = tx_mode;
    }
    fn get_count(&self) -> u128 {
        self.count.as_nanos()
    }
    fn set_count(&mut self, count: u128) {
        self.count = duration_of(count)
    }
}

fn mock(time_on_air: Duration, tx_mode: TxMode, count: Duration) -> TxPacketMock {
    TxPacketMock { time_on_air, tx_mode, count }
}

#[test]
fn test_size() {
    let q: Queue<TxPacketMock> = Queue::new(10, Config::default());
    assert_eq!(10, q.capacity());
}

#[test]
fn test_enqueue_full() {
    let mut q: Queue<TxPacketMock> = Queue::new(2, Config::default());

    q.enqueue(
        Duration::from_nanos(100).as_nanos(),
        mock(Duration::from_millis(100), TxMode::Immediate, Duration::ZERO),
    )
    .unwrap();

    q.enqueue(
        Duration::from_nanos(100).as_nanos(),
        mock(Duration::from_millis(100), TxMode::Immediate, Duration::ZERO),
    )
    .unwrap();

    assert!(
        q.enqueue(
            Duration::from_nanos(100).as_nanos(),
            mock(Duration::from_millis(100), TxMode::Immediate, Duration::ZERO),
        )
        .is_err(),
        "jit queue should be full"
    );
}

#[test]
fn test_enqueue_immediate() {
    let mut q: Queue<TxPacketMock> = Queue::new(2, Config::default());
    let count = Duration::from_nanos(100);

    q.enqueue(
        count.as_nanos(),
        mock(Duration::from_millis(100), TxMode::Immediate, Duration::ZERO),
    )
    .unwrap();

    q.enqueue(
        count.as_nanos(),
        mock(Duration::from_millis(100), TxMode::Immediate, Duration::ZERO),
    )
    .unwrap();

    let item = q.item(0);
    assert_eq!(TxMode::Timestamped, item.packet().get_tx_mode());
    assert_eq!(Duration::from_micros(1500 + 40000).as_nanos(), item.pre_delay());
    assert_eq!(Duration::from_millis(100).as_nanos(), item.post_delay());
    assert_eq!((count + Duration::from_millis(80)).as_nanos(), item.packet().get_count());

    let first_end_count = item.packet().get_count() + item.post_delay();

    let item = q.item(1);
    assert_eq!(Duration::from_micros(1500 + 40000).as_nanos(), item.pre_delay());
    assert_eq!(Duration::from_millis(100).as_nanos(), item.post_delay());
    assert_eq!(
        first_end_count + item.pre_delay() + q.config().tx_margin_delay(),
        item.packet().get_count()
    );
}

#[test]
fn test_pop_empty() {
    let mut q: Queue<TxPacketMock> = Queue::new(2, Config::default());
    let item = q.pop(Duration::from_secs(1).as_nanos());
    assert!(item.is_none());
}

#[test]
fn test_pop() {
    let mut q: Queue<TxPacketMock> = Queue::new(2, Config::default());
    let count = Duration::from_secs(1);
    q.enqueue(
        count.as_nanos(),
        mock(Duration::from_millis(100), TxMode::Timestamped, Duration::from_secs(2)),
    )
    .unwrap();

    let item = q.pop(Duration::from_secs(2).as_nanos());
    assert!(item.is_some());
}

#[test]
fn test_pop_too_far_in_future() {
    let mut q: Queue<TxPacketMock> = Queue::new(2, Config::default());
    let count = Duration::from_secs(1);
    q.enqueue(
        count.as_nanos(),
        mock(Duration::from_millis(100), TxMode::Timestamped, Duration::from_secs(2)),
    )
    .unwrap();

    let item = q.pop(Duration::from_secs(1).as_nanos());
    assert!(item.is_none());
}

#[test]
fn default_config_values() {
    let c = Config::default();
    assert_eq!(1_500_000, c.tx_start_delay());
    assert_eq!(1_000_000, c.tx_margin_delay());
    assert_eq!(40_000_000, c.tx_jit_delay());
    assert_eq!(512_000_000_000, c.tx_max_advance_delay());
}

#[test]
fn full_queue_refuses_with_queue_full() {
    let mut q: Queue<TxPacketMock> = Queue::new(1, Config::default());
    assert!(!q.full());
    q.enqueue(0, mock(Duration::from_millis(10), TxMode::Immediate, Duration::ZERO))
        .unwrap();
    assert!(q.full());
    assert_eq!(
        Err(TxAckStatus::QueueFull),
        q.enqueue(0, mock(Duration::from_millis(10), TxMode::Immediate, Duration::ZERO))
    );
    assert_eq!(1, q.len());
}

#[test]
fn timestamped_too_late() {
    let mut q: Queue<TxPacketMock> = Queue::new(4, Config::default());
    // 10 ms ahead is less than start + margin + jit (42.5 ms).
    let r = q.enqueue(
        Duration::from_secs(1).as_nanos(),
        mock(
            Duration::from_millis(10),
            TxMode::Timestamped,
            Duration::from_secs(1) + Duration::from_millis(10),
        ),
    );
    assert_eq!(Err(TxAckStatus::TooLate), r);
    // a count that has passed is too late as well
    let r = q.enqueue(
        Duration::from_secs(2).as_nanos(),
        mock(Duration::from_millis(10), TxMode::Timestamped, Duration::from_secs(1)),
    );
    assert_eq!(Err(TxAckStatus::TooLate), r);
    assert_eq!(0, q.len());
}

#[test]
fn timestamped_too_far_ahead_is_refused() {
    let mut q: Queue<TxPacketMock> = Queue::new(4, Config::default());
    let r = q.enqueue(
        0,
        mock(Duration::from_millis(10), TxMode::Timestamped, Duration::from_secs(513)),
    );
    assert_eq!(Err(TxAckStatus::TooLate), r);
    let r = q.enqueue(
        0,
        mock(Duration::from_millis(10), TxMode::Timestamped, Duration::from_secs(512)),
    );
    assert_eq!(Ok(()), r);
}

#[test]
fn timestamped_collision_is_refused() {
    let mut q: Queue<TxPacketMock> = Queue::new(4, Config::default());
    q.enqueue(
        0,
        mock(Duration::from_millis(100), TxMode::Timestamped, Duration::from_secs(2)),
    )
    .unwrap();
    let r = q.enqueue(
        0,
        mock(
            Duration::from_millis(100),
            TxMode::Timestamped,
            Duration::from_secs(2) + Duration::from_millis(50),
        ),
    );
    assert_eq!(Err(TxAckStatus::CollisionPacket), r);
    assert_eq!(1, q.len());
}

#[test]
fn items_stay_ordered_by_count() {
    let mut q: Queue<TxPacketMock> = Queue::new(4, Config::default());
    q.enqueue(0, mock(Duration::from_millis(10), TxMode::Timestamped, Duration::from_secs(3)))
        .unwrap();
    q.enqueue(0, mock(Duration::from_millis(10), TxMode::Timestamped, Duration::from_secs(1)))
        .unwrap();
    q.enqueue(0, mock(Duration::from_millis(10), TxMode::Timestamped, Duration::from_secs(2)))
        .unwrap();
    assert_eq!(3, q.len());
    assert_eq!(Duration::from_secs(1).as_nanos(), q.item(0).count());
    assert_eq!(Duration::from_secs(2).as_nanos(), q.item(1).count());
    assert_eq!(Duration::from_secs(3).as_nanos(), q.item(2).count());
}

#[test]
fn pop_drops_a_packet_whose_count_has_passed() {
    let mut q: Queue<TxPacketMock> = Queue::new(2, Config::default());
    q.enqueue(0, mock(Duration::from_millis(10), TxMode::Timestamped, Duration::from_secs(1)))
        .unwrap();
    assert!(q.pop(Duration::from_secs(2).as_nanos()).is_none());
    assert_eq!(0, q.len());
}

#[test]
fn immediate_after_pop_waits_for_transmission_in_progress() {
    let mut q: Queue<TxPacketMock> = Queue::new(2, Config::default());
    q.enqueue(0, mock(Duration::from_millis(100), TxMode::Timestamped, Duration::from_secs(1)))
        .unwrap();
    let popped = q.pop(Duration::from_secs(1).as_nanos());
    assert!(popped.is_some());
    // the radio is busy until 1.1 s; the next slot starts after margin and pre-delay
    q.enqueue(
        Duration::from_secs(1).as_nanos(),
        mock(Duration::from_millis(10), TxMode::Immediate, Duration::ZERO),
    )
    .unwrap();
    let expected = Duration::from_millis(1100).as_nanos() + 1_000_000 + 41_500_000;
    assert_eq!(expected, q.item(0).count());
    assert_eq!(expected, q.item(0).packet().get_count());
}
