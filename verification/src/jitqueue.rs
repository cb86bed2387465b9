//! Just-in-time queue of downlink transmissions.
//!
//! Times are counts of nanoseconds on the concentrator's linear clock. A
//! packet is handed to the radio shortly before its transmission time; the
//! queue keeps the packets ordered by that time and refuses packets that would
//! overlap one another, that come too late or too far in advance.
use vstd::prelude::*;

use crate::structs::TxAckStatus;

verus! {

/// The longest span a `std::time::Duration` holds, in nanoseconds.
pub const DURATION_MAX_NANOS: u128 = 18_446_744_073_709_551_615_999_999_999u128;

/// Whether `d` nanoseconds can be held by a `std::time::Duration`.
pub open spec fn is_duration(d: int) -> bool {
    0 <= d <= DURATION_MAX_NANOS
}

/// Transmission mode of a packet.
#[derive(PartialEq, Eq, Copy, Clone, Debug, Structural)]
pub enum TxMode {
    /// Send as soon as possible.
    Immediate,
    /// Send at the packet's own count.
    Timestamped,
}

/// A packet that the queue can schedule.
///
/// Implementations read their values deterministically: each getter returns
/// the value that the matching spec function names.
pub trait TxPacket: Sized {
    /// The packet's time on air, `None` where it cannot be computed.
    spec fn packet_time_on_air(&self) -> Option<u128>;

    /// The packet's transmission mode.
    spec fn packet_mode(&self) -> TxMode;

    /// The packet's transmission count.
    spec fn packet_count(&self) -> u128;

    /// The packet as `set_tx_mode` leaves it: switched to `mode`, all else
    /// kept.
    spec fn with_mode(self, mode: TxMode) -> Self;

    /// The packet as `set_count` leaves it: moved to `count`, all else kept.
    spec fn with_count(self, count: u128) -> Self;

    fn get_id(&self) -> u32;

    fn get_time_on_air(&self) -> (r: Option<u128>)
        ensures
            r == self.packet_time_on_air(),
    ;

    fn get_tx_mode(&self) -> (r: TxMode)
        ensures
            r == self.packet_mode(),
    ;

    fn set_tx_mode(&mut self, tx_mode: TxMode)
        ensures
            *final(self) == old(self).with_mode(tx_mode),
            final(self).packet_mode() == tx_mode,
            final(self).packet_count() == old(self).packet_count(),
            final(self).packet_time_on_air() == old(self).packet_time_on_air(),
    ;

    fn get_count(&self) -> (r: u128)
        ensures
            r == self.packet_count(),
    ;

    fn set_count(&mut self, count: u128)
        ensures
            *final(self) == old(self).with_count(count),
            final(self).packet_count() == count,
            final(self).packet_mode() == old(self).packet_mode(),
            final(self).packet_time_on_air() == old(self).packet_time_on_air(),
    ;
}

/// A scheduled packet.
pub struct Item<T> {
    count: u128,
    pre_delay: u128,
    post_delay: u128,
    packet: T,
}

impl<T> Item<T> {
    /// Count at which the transmission starts.
    pub closed spec fn at(&self) -> u128 {
        self.count
    }

    /// Time the concentrator needs before the transmission starts.
    pub closed spec fn pre(&self) -> u128 {
        self.pre_delay
    }

    /// Time the transmission lasts.
    pub closed spec fn post(&self) -> u128 {
        self.post_delay
    }

    /// The scheduled packet.
    pub closed spec fn payload(&self) -> T {
        self.packet
    }

    pub fn count(&self) -> (r: u128)
        ensures
            r == self.at(),
    {
        self.count
    }

    pub fn pre_delay(&self) -> (r: u128)
        ensures
            r == self.pre(),
    {
        self.pre_delay
    }

    pub fn post_delay(&self) -> (r: u128)
        ensures
            r == self.post(),
    {
        self.post_delay
    }

    pub fn packet(&self) -> (r: &T)
        ensures
            *r == self.payload(),
    {
        &self.packet
    }
}

/// Timing parameters of the queue (ns).
pub struct Config {
    tx_start_delay: u128,
    tx_margin_delay: u128,
    tx_jit_delay: u128,
    tx_max_advance_delay: u128,
}

impl Config {
    /// Time the radio needs to start a transmission.
    pub closed spec fn start(&self) -> u128 {
        self.tx_start_delay
    }

    /// Gap kept between two transmissions.
    pub closed spec fn margin(&self) -> u128 {
        self.tx_margin_delay
    }

    /// How long before its count a packet is handed to the radio.
    pub closed spec fn jit(&self) -> u128 {
        self.tx_jit_delay
    }

    /// How far in advance a packet may be enqueued.
    pub closed spec fn max_advance(&self) -> u128 {
        self.tx_max_advance_delay
    }

    /// Every delay is a duration.
    pub closed spec fn wf(&self) -> bool {
        &&& is_duration(self.tx_start_delay as int)
        &&& is_duration(self.tx_margin_delay as int)
        &&& is_duration(self.tx_jit_delay as int)
        &&& is_duration(self.tx_max_advance_delay as int)
    }

    pub fn tx_start_delay(&self) -> (r: u128)
        ensures
            r == self.start(),
    {
        self.tx_start_delay
    }

    pub fn tx_margin_delay(&self) -> (r: u128)
        ensures
            r == self.margin(),
    {
        self.tx_margin_delay
    }

    pub fn tx_jit_delay(&self) -> (r: u128)
        ensures
            r == self.jit(),
    {
        self.tx_jit_delay
    }

    pub fn tx_max_advance_delay(&self) -> (r: u128)
        ensures
            r == self.max_advance(),
    {
        self.tx_max_advance_delay
    }
}

impl Default for Config {
    /// 1.5 ms start delay, 1 ms margin, 40 ms just-in-time delay and 512 s
    /// maximum advance.
    fn default() -> (r: Config)
        ensures
            r.start() == 1_500_000,
            r.margin() == 1_000_000,
            r.jit() == 40_000_000,
            r.max_advance() == 512_000_000_000,
            r.wf(),
    {
        Config {
            tx_start_delay: 1_500_000,
            tx_margin_delay: 1_000_000,
            tx_jit_delay: 40_000_000,
            tx_max_advance_delay: 512_000_000_000,
        }
    }
}

/// Whether a transmission at `count` (with the given delays) overlaps with
/// the queued item `p`.
pub open spec fn overlaps(count: int, pre: int, post: int, margin: int, p_at: int, p_pre: int, p_post: int) -> bool {
    if count > p_at {
        count - p_at <= pre + p_post + margin
    } else {
        p_at - count <= p_pre + post + margin
    }
}

/// The items are ordered by count.
pub open spec fn sorted_by_count<T>(s: Seq<Item<T>>) -> bool {
    forall|i: int, j: int| 0 <= i <= j < s.len() ==> (#[trigger] s[i]).at() <= (#[trigger] s[j]).at()
}

/// The downlink queue.
pub struct Queue<T> {
    config: Config,
    items: Vec<Item<T>>,
    capacity: usize,
    /// Count at which the last packet handed to the radio ends.
    tx_count_finished: u128,
}

impl<T: TxPacket> Queue<T> {
    /// The queued items, ordered by count.
    pub closed spec fn queued(&self) -> Seq<Item<T>> {
        self.items@
    }

    /// How many items the queue holds at most.
    pub closed spec fn cap(&self) -> nat {
        self.capacity as nat
    }

    pub closed spec fn conf(&self) -> Config {
        self.config
    }

    /// Count at which the transmission last handed to the radio ends.
    pub closed spec fn finished(&self) -> u128 {
        self.tx_count_finished
    }

    /// The queue's invariant: at most `cap` items, ordered by count, and all
    /// values within the range of durations (sums of a few durations).
    pub closed spec fn wf(&self) -> bool {
        &&& self.config.wf()
        &&& self.items@.len() <= self.capacity
        &&& sorted_by_count(self.items@)
        &&& forall|i: int|
            0 <= i < self.items@.len() ==> {
                &&& (#[trigger] self.items@[i]).count <= 2 * DURATION_MAX_NANOS
                &&& self.items@[i].pre_delay <= 2 * DURATION_MAX_NANOS
                &&& self.items@[i].post_delay <= DURATION_MAX_NANOS
            }
        &&& self.tx_count_finished <= 3 * DURATION_MAX_NANOS
    }

    /// Whether `count` overlaps with the queued item `i`.
    pub open spec fn overlaps_item(&self, i: int, count: int, pre: int, post: int) -> bool {
        overlaps(
            count,
            pre,
            post,
            self.conf().margin() as int,
            self.queued()[i].at() as int,
            self.queued()[i].pre() as int,
            self.queued()[i].post() as int,
        )
    }

    /// Whether a transmission at `count` collides with the transmission in
    /// progress or with a queued item.
    pub open spec fn collision(&self, count: int, pre: int, post: int) -> bool {
        ||| count < self.finished() + pre + self.conf().margin()
        ||| exists|i: int| 0 <= i < self.queued().len() && #[trigger] self.overlaps_item(i, count, pre, post)
    }

    /// First slot behind a queued item: the end of item `i`, the time the
    /// radio needs before a transmission and the margin.
    pub open spec fn slot_after(&self, i: int, pre: int) -> int {
        self.queued()[i].at() + self.queued()[i].post() + pre + self.conf().margin()
    }

    /// Tries the slots behind the items from `i` on, returning the first
    /// free one, else the last one tried (`acc` if none is left to try).
    pub open spec fn scan_slots(&self, i: int, acc: int, pre: int, post: int) -> int
        decreases self.queued().len() - i,
    {
        if i < 0 || i >= self.queued().len() {
            acc
        } else {
            let c = self.slot_after(i, pre);
            if !self.collision(c, pre, post) {
                c
            } else {
                self.scan_slots(i + 1, c, pre, post)
            }
        }
    }

    /// Count given to an immediate packet enqueued at `count`: as soon as
    /// the just-in-time delay (twice) and the transmission in progress
    /// allow; where that collides, the first free slot behind a queued item.
    pub open spec fn immediate_slot(&self, count: int, pre: int, post: int) -> int {
        let asap = count + 2 * self.conf().jit();
        let not_before = self.finished() + self.conf().margin() + pre;
        let asap0 = if asap < not_before { not_before } else { asap };
        if self.collision(count, pre, post) {
            self.scan_slots(0, asap0, pre, post)
        } else {
            asap0
        }
    }

    /// What enqueueing `packet` at `count` gives: the count the packet is
    /// scheduled at, or the reason for refusing it.
    pub open spec fn schedule(&self, count: int, packet: T) -> Result<int, TxAckStatus> {
        if self.queued().len() == self.cap() {
            Err(TxAckStatus::QueueFull)
        } else {
            match packet.packet_time_on_air() {
                None => Err(TxAckStatus::InternalError),
                Some(toa) => {
                    let pre = self.conf().start() + self.conf().jit();
                    let post = toa as int;
                    let immediate = packet.packet_mode() == TxMode::Immediate;
                    let s = if immediate {
                        self.immediate_slot(count, pre, post)
                    } else {
                        packet.packet_count() as int
                    };
                    if !immediate && self.collision(packet.packet_count() as int, pre, post) {
                        Err(TxAckStatus::CollisionPacket)
                    } else if s < count || s - count < self.conf().start() + self.conf().margin()
                        + self.conf().jit() {
                        Err(TxAckStatus::TooLate)
                    } else if s - count > self.conf().max_advance() {
                        Err(TxAckStatus::TooLate)
                    } else {
                        Ok(s)
                    }
                },
            }
        }
    }

    /// An empty queue for at most `capacity` packets.
    pub fn new(capacity: usize, config: Config) -> (q: Queue<T>)
        requires
            config.wf(),
        ensures
            q.wf(),
            q.queued() == Seq::<Item<T>>::empty(),
            q.cap() == capacity,
            q.conf() == config,
            q.finished() == 0,
    {
        Queue { config, items: Vec::with_capacity(capacity), capacity, tx_count_finished: 0 }
    }

    /// Whether the queue holds as many items as it can.
    pub fn full(&self) -> (r: bool)
        ensures
            r == (self.queued().len() == self.cap()),
    {
        self.items.len() == self.capacity
    }

    pub fn capacity(&self) -> (r: usize)
        ensures
            r == self.cap(),
    {
        self.capacity
    }

    pub fn len(&self) -> (r: usize)
        ensures
            r == self.queued().len(),
    {
        self.items.len()
    }

    pub fn item(&self, i: usize) -> (r: &Item<T>)
        requires
            i < self.queued().len(),
        ensures
            *r == self.queued()[i as int],
    {
        &self.items[i]
    }

    pub fn config(&self) -> (r: &Config)
        ensures
            *r == self.conf(),
    {
        &self.config
    }

    /// Takes the first packet when its transmission is due within its
    /// pre-delay. A first packet whose count has already passed is dropped.
    pub fn pop(&mut self, count: u128) -> (r: Option<T>)
        requires
            old(self).wf(),
        ensures
            final(self).wf(),
            final(self).cap() == old(self).cap(),
            final(self).conf() == old(self).conf(),
            old(self).queued().len() == 0 ==> r is None && *final(self) == *old(self),
            old(self).queued().len() > 0 ==> {
                let first = old(self).queued()[0];
                if first.at() < count {
                    &&& r is None
                    &&& final(self).queued() == old(self).queued().drop_first()
                    &&& final(self).finished() == old(self).finished()
                } else if first.at() - count > first.pre() {
                    r is None && *final(self) == *old(self)
                } else {
                    &&& r == Some(first.payload())
                    &&& final(self).queued() == old(self).queued().drop_first()
                    &&& final(self).finished() == first.at() + first.post()
                }
            },
    {
        if self.items.len() == 0 {
            return None;
        }
        let first_count = self.items[0].count;
        if first_count < count {
            let _dropped = self.items.remove(0);
            proof {
                assert(self.items@ =~= old(self).items@.drop_first());
            }
            return None;
        }
        if first_count - count > self.items[0].pre_delay {
            return None;
        }
        let item = self.items.remove(0);
        proof {
            assert(self.items@ =~= old(self).items@.drop_first());
        }
        self.tx_count_finished = item.count + item.post_delay;
        Some(item.packet)
    }

    /// Whether a transmission at `count` collides.
    fn collision_test(&self, count: u128, pre_delay: u128, post_delay: u128) -> (r: bool)
        requires
            self.wf(),
            count <= 6 * DURATION_MAX_NANOS,
            pre_delay <= 2 * DURATION_MAX_NANOS,
            post_delay <= DURATION_MAX_NANOS,
        ensures
            r == self.collision(count as int, pre_delay as int, post_delay as int),
    {
        if count < self.tx_count_finished + pre_delay + self.config.tx_margin_delay {
            return true;
        }
        let mut i: usize = 0;
        while i < self.items.len()
            invariant
                self.wf(),
                i <= self.items@.len(),
                count <= 6 * DURATION_MAX_NANOS,
                pre_delay <= 2 * DURATION_MAX_NANOS,
                post_delay <= DURATION_MAX_NANOS,
                forall|j: int|
                    0 <= j < i ==> !#[trigger] self.overlaps_item(
                        j,
                        count as int,
                        pre_delay as int,
                        post_delay as int,
                    ),
            decreases self.items@.len() - i,
        {
            let p_count = self.items[i].count;
            let p_pre = self.items[i].pre_delay;
            let p_post = self.items[i].post_delay;
            proof {
                assert(self.items@[i as int].count <= 2 * DURATION_MAX_NANOS);
            }
            if count > p_count {
                if count - p_count <= pre_delay + p_post + self.config.tx_margin_delay {
                    assert(self.overlaps_item(i as int, count as int, pre_delay as int, post_delay as int));
                    return true;
                }
            } else if p_count - count <= p_pre + post_delay + self.config.tx_margin_delay {
                assert(self.overlaps_item(i as int, count as int, pre_delay as int, post_delay as int));
                return true;
            }
            i += 1;
        }
        false
    }

    /// Enqueues `packet` at `count` (the current count). An immediate packet is
    /// given the earliest slot that the queue allows and becomes timestamped.
    pub fn enqueue(&mut self, count: u128, packet: T) -> (r: Result<(), TxAckStatus>)
        requires
            old(self).wf(),
            is_duration(count as int),
            is_duration(packet.packet_count() as int),
            packet.packet_time_on_air() matches Some(t) ==> is_duration(t as int),
        ensures
            final(self).wf(),
            match old(self).schedule(count as int, packet) {
                Err(e) => r == Err::<(), TxAckStatus>(e) && *final(self) == *old(self),
                Ok(s) => {
                    &&& r is Ok
                    &&& final(self).cap() == old(self).cap()
                    &&& final(self).conf() == old(self).conf()
                    &&& final(self).finished() == old(self).finished()
                    &&& exists|p: int, it: Item<T>|
                        #![trigger old(self).queued().insert(p, it)]
                        {
                            &&& 0 <= p <= old(self).queued().len()
                            &&& final(self).queued() == old(self).queued().insert(p, it)
                            &&& forall|j: int| 0 <= j < p ==> (#[trigger] old(self).queued()[j]).at() <= s
                            &&& forall|j: int|
                                p <= j < old(self).queued().len() ==> (#[trigger] old(self).queued()[j]).at() > s
                            &&& it.at() == s
                            &&& it.pre() == old(self).conf().start() + old(self).conf().jit()
                            &&& Some(it.post()) == packet.packet_time_on_air()
                            &&& it.payload().packet_mode() == TxMode::Timestamped
                            &&& it.payload().packet_count() == s
                            &&& it.payload().packet_time_on_air() == packet.packet_time_on_air()
                            &&& packet.packet_mode() == TxMode::Timestamped ==> it.payload() == packet
                            &&& packet.packet_mode() == TxMode::Immediate ==> it.payload() == packet.with_mode(
                                TxMode::Timestamped,
                            ).with_count(s as u128)
                        }
                },
            },
    {
        let mode = packet.get_tx_mode();
        if self.items.len() == self.capacity {
            return Err(TxAckStatus::QueueFull);
        }
        let time_on_air = match packet.get_time_on_air() {
            Some(t) => t,
            None => return Err(TxAckStatus::InternalError),
        };
        let packet_count = packet.get_count();
        let pre_delay = self.config.tx_start_delay + self.config.tx_jit_delay;
        let post_delay = time_on_air;
        let ghost pre = pre_delay as int;
        let ghost post = post_delay as int;
        let ghost packet0 = packet;
        let mut packet = packet;
        let scheduled: u128;

        match mode {
            TxMode::Immediate => {
                packet.set_tx_mode(TxMode::Timestamped);
                let mut asap = count + 2 * self.config.tx_jit_delay;
                let not_before = self.tx_count_finished + self.config.tx_margin_delay + pre_delay;
                if asap < not_before {
                    asap = not_before;
                }
                let ghost asap0 = asap as int;
                if self.collision_test(count, pre_delay, post_delay) {
                    let mut i: usize = 0;
                    while i < self.items.len()
                        invariant
                            self.wf(),
                            i <= self.items@.len(),
                            pre_delay == pre,
                            post_delay == post,
                            pre <= 2 * DURATION_MAX_NANOS,
                            post <= DURATION_MAX_NANOS,
                            asap <= 6 * DURATION_MAX_NANOS,
                            self.scan_slots(i as int, asap as int, pre, post) == self.scan_slots(
                                0,
                                asap0,
                                pre,
                                post,
                            ),
                        ensures
                            asap <= 6 * DURATION_MAX_NANOS,
                            asap as int == self.scan_slots(0, asap0, pre, post),
                        decreases self.items@.len() - i,
                    {
                        proof {
                            assert(self.items@[i as int].count <= 2 * DURATION_MAX_NANOS);
                        }
                        asap = self.items[i].count + self.items[i].post_delay + pre_delay
                            + self.config.tx_margin_delay;
                        if !self.collision_test(asap, pre_delay, post_delay) {
                            break;
                        }
                        i += 1;
                    }
                }
                assert(asap as int == self.immediate_slot(count as int, pre, post));
                packet.set_count(asap);
                scheduled = asap;
            },
            TxMode::Timestamped => {
                if self.collision_test(packet_count, pre_delay, post_delay) {
                    return Err(TxAckStatus::CollisionPacket);
                }
                scheduled = packet_count;
            },
        }

        // too late to send this packet
        if scheduled < count || scheduled - count < self.config.tx_start_delay
            + self.config.tx_margin_delay + self.config.tx_jit_delay {
            return Err(TxAckStatus::TooLate);
        }
        // too early
        if scheduled - count > self.config.tx_max_advance_delay {
            return Err(TxAckStatus::TooLate);
        }

        let item = Item { count: scheduled, pre_delay, post_delay, packet };
        let mut p: usize = 0;
        while p < self.items.len() && self.items[p].count <= scheduled
            invariant
                self.wf(),
                p <= self.items@.len(),
                forall|j: int| 0 <= j < p ==> (#[trigger] self.items@[j]).count <= scheduled,
            decreases self.items@.len() - p,
        {
            p += 1;
        }
        let ghost old_items = self.items@;
        self.items.insert(p, item);
        proof {
            assert forall|j: int| p <= j < old_items.len() implies (#[trigger] old_items[j]).at()
                > scheduled by {
                assert(old_items[p as int].count > scheduled);
                assert(old_items[p as int].at() <= old_items[j].at());
            }
            assert(self.items@ == old_items.insert(p as int, item));
            assert(old(self).queued().insert(p as int, item) == self.queued());
        }
        Ok(())
    }
}

/// A packet the queue accepts is scheduled neither too late nor too early:
/// at least the start, margin and just-in-time delays after the current
/// count, at most the maximum advance after it.
pub proof fn lemma_schedule_window<T: TxPacket>(q: Queue<T>, count: int, packet: T)
    ensures
        q.schedule(count, packet) matches Ok(s) ==> {
            &&& count + q.conf().start() + q.conf().margin() + q.conf().jit() <= s
            &&& s <= count + q.conf().max_advance()
        },
{
}

/// A timestamped packet the queue accepts keeps its own count and collides
/// neither with the transmission in progress nor with a queued packet.
pub proof fn lemma_timestamped_no_collision<T: TxPacket>(q: Queue<T>, count: int, packet: T)
    requires
        packet.packet_mode() == TxMode::Timestamped,
    ensures
        q.schedule(count, packet) matches Ok(s) ==> {
            &&& s == packet.packet_count()
            &&& !q.collision(
                s,
                q.conf().start() + q.conf().jit(),
                packet.packet_time_on_air()->0 as int,
            )
        },
{
}

/// A full queue refuses every packet.
pub proof fn lemma_full_queue_refuses<T: TxPacket>(q: Queue<T>, count: int, packet: T)
    requires
        q.queued().len() == q.cap(),
    ensures
        q.schedule(count, packet) == Err::<int, TxAckStatus>(TxAckStatus::QueueFull),
{
}

/// The queue refuses a packet as full exactly when it is full.
pub proof fn lemma_queue_full_iff<T: TxPacket>(q: Queue<T>, count: int, packet: T)
    ensures
        (q.schedule(count, packet) == Err::<int, TxAckStatus>(TxAckStatus::QueueFull)) <==> (
        q.queued().len() == q.cap()),
{
}

/// What a queue that is not full answers a packet whose time on air is not
/// known: an internal error.
pub proof fn lemma_unknown_time_on_air<T: TxPacket>(q: Queue<T>, count: int, packet: T)
    requires
        q.queued().len() != q.cap(),
        packet.packet_time_on_air() is None,
    ensures
        q.schedule(count, packet) == Err::<int, TxAckStatus>(TxAckStatus::InternalError),
{
}

/// What a queue that is not full answers a timestamped packet: a collision
/// where it collides; else, outside the window from the start, margin and
/// just-in-time delays after the current count up to the maximum advance
/// after it, too late (too early counts as too late too); else it is
/// accepted at its own count.
pub proof fn lemma_timestamped_outcome<T: TxPacket>(q: Queue<T>, count: int, packet: T)
    requires
        q.queued().len() != q.cap(),
        packet.packet_mode() == TxMode::Timestamped,
        packet.packet_time_on_air() is Some,
    ensures
        q.schedule(count, packet) == (if q.collision(
            packet.packet_count() as int,
            q.conf().start() + q.conf().jit(),
            packet.packet_time_on_air()->0 as int,
        ) {
            Err::<int, TxAckStatus>(TxAckStatus::CollisionPacket)
        } else if count + q.conf().start() + q.conf().margin() + q.conf().jit() <= packet.packet_count()
            <= count + q.conf().max_advance() {
            Ok::<int, TxAckStatus>(packet.packet_count() as int)
        } else {
            Err::<int, TxAckStatus>(TxAckStatus::TooLate)
        }),
{
}

proof fn lemma_slot_behind_item_collides<T: TxPacket>(q: Queue<T>, k: int, pre: int, post: int)
    requires
        0 <= k < q.queued().len(),
        pre >= 0,
        post >= 0,
    ensures
        q.collision(q.slot_after(k, pre), pre, post),
{
    assert(q.overlaps_item(k, q.slot_after(k, pre), pre, post));
}

proof fn lemma_scan_reaches_last<T: TxPacket>(q: Queue<T>, i: int, acc: int, pre: int, post: int)
    requires
        0 <= i < q.queued().len(),
        pre >= 0,
        post >= 0,
    ensures
        q.scan_slots(i, acc, pre, post) == q.slot_after(q.queued().len() - 1, pre),
    decreases q.queued().len() - i,
{
    lemma_slot_behind_item_collides(q, i, pre, post);
    let c = q.slot_after(i, pre);
    assert(q.scan_slots(i, acc, pre, post) == q.scan_slots(i + 1, c, pre, post));
    if i + 1 < q.queued().len() {
        lemma_scan_reaches_last(q, i + 1, c, pre, post);
    } else {
        assert(q.scan_slots(i + 1, c, pre, post) == c);
    }
}

/// Where an immediate packet collides at the current count, it is put behind
/// the last queued packet: after that packet's own end (its count plus its
/// time on air), the time the radio needs before a transmission and the
/// margin. Where it does not collide, it goes out as soon as the
/// just-in-time delay (twice) and the end of the transmission in progress
/// allow.
pub proof fn lemma_immediate_slot<T: TxPacket>(q: Queue<T>, count: int, packet: T)
    requires
        packet.packet_mode() == TxMode::Immediate,
        packet.packet_time_on_air() is Some,
    ensures
        ({
            let pre = q.conf().start() + q.conf().jit();
            let post = packet.packet_time_on_air()->0 as int;
            let n = q.queued().len();
            q.schedule(count, packet) matches Ok(s) ==> {
                &&& q.collision(count, pre, post) && n > 0 ==> s == q.queued()[n - 1].at() + q.queued()[n
                    - 1].post() + pre + q.conf().margin()
                &&& !q.collision(count, pre, post) ==> s == if count + 2 * q.conf().jit() < q.finished()
                    + q.conf().margin() + pre {
                    q.finished() + q.conf().margin() + pre
                } else {
                    count + 2 * q.conf().jit()
                }
            }
        }),
{
    let pre = q.conf().start() + q.conf().jit();
    let post = packet.packet_time_on_air()->0 as int;
    let n = q.queued().len();
    if q.collision(count, pre, post) && n > 0 {
        let asap = count + 2 * q.conf().jit();
        let not_before = q.finished() + q.conf().margin() + pre;
        let asap0 = if asap < not_before { not_before } else { asap };
        lemma_scan_reaches_last(q, 0, asap0, pre, post);
    }
}

/// The queue hands packets to the radio in count order: the first item, the
/// only one `pop` takes, has the earliest count.
pub proof fn lemma_first_is_earliest<T: TxPacket>(q: Queue<T>)
    requires
        q.wf(),
    ensures
        forall|i: int| 0 <= i < q.queued().len() ==> q.queued()[0].at() <= (#[trigger] q.queued()[i]).at(),
{
}

} // verus!
