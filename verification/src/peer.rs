//! Sequence and acknowledgement bookkeeping of one end of the UDP sync: which
//! messages were sent and received, which of ours the remote has acknowledged,
//! and round-trip times. The socket itself lives with the caller.
use crate::message::{Message, RpcError, MAX_UNACKED_PACKETS, PAYLOAD_LEN, padded_payload};
use crate::seq::{advance_maybe_wrap, spec_wrapping_sub, successor, wrapping_sub};
use histogram::Histogram;
use std::collections::VecDeque;
use vstd::prelude::*;

verus! {

#[verifier::external_type_specification]
#[verifier::external_body]
pub struct ExHistogram(Histogram);

/// The number of samples a histogram has been offered (`Histogram::entries`),
/// refused ones included.
pub uninterp spec fn histogram_entries(h: Histogram) -> nat;

/// The largest sample value that a histogram stores, fixed when it is built.
pub uninterp spec fn histogram_max_value(h: Histogram) -> nat;

/// The largest sample value of a histogram built by `Histogram::new`.
pub const DEFAULT_HISTOGRAM_MAX_VALUE: u64 = 60_000_000_000;

/// Calls `histogram::Histogram::new`, which builds a histogram from the default
/// configuration: no entries yet, and samples up to 60_000_000_000 stored.
/// Which bucket counts a histogram holds is left unsaid.
#[verifier::external_body]
fn histogram_new() -> (h: Histogram)
    ensures
        histogram_entries(h) == 0,
        histogram_max_value(h) == DEFAULT_HISTOGRAM_MAX_VALUE,
{
    Histogram::new()
}

/// Calls `histogram::Histogram::increment`, which counts one more entry
/// (saturating at `u64::MAX`) and stores the value when it is at most the
/// histogram's maximum value; a larger value is refused with an error. The
/// bucket that the value lands in is left unsaid.
#[verifier::external_body]
fn histogram_increment(h: &mut Histogram, value: u64) -> (res: Result<(), &'static str>)
    ensures
        histogram_entries(*final(h)) == if histogram_entries(*old(h)) < u64::MAX {
            histogram_entries(*old(h)) + 1
        } else {
            u64::MAX as nat
        },
        histogram_max_value(*final(h)) == histogram_max_value(*old(h)),
        res is Ok <==> value <= histogram_max_value(*old(h)),
{
    h.increment(value)
}

/// Calls `histogram::Histogram::entries`, the number of samples offered.
#[verifier::external_body]
fn histogram_entries_of(h: &Histogram) -> (n: u64)
    ensures
        n == histogram_entries(*h),
{
    h.entries()
}

/// A tracked packet: its sequence number, the time it was queued in
/// microseconds, and whether it has been acknowledged.
pub type PacketRecord = (u16, u64, bool);

/// What a peer's bookkeeping holds: sequence numbers, the tracked packets
/// that were sent and received, the acknowledged sequence numbers, the
/// round-trip histogram's entry count and largest storable value, and the
/// round-trip times in microseconds offered to that histogram, in order.
#[verifier::ext_equal]
pub struct PeerView {
    pub seq: u16,
    pub remote_seq: u16,
    pub send_queue: Seq<PacketRecord>,
    pub recv_queue: Seq<PacketRecord>,
    pub acked: Seq<u16>,
    pub rtt_entries: nat,
    pub rtt_max: nat,
    pub rtt_samples: Seq<u64>,
}

/// The tracked packets that were sent and received, oldest first; neither
/// queue ever holds more than `MAX_UNACKED_PACKETS`.
pub struct PacketQueues {
    send: VecDeque<PacketRecord>,
    recv: VecDeque<PacketRecord>,
}

impl PacketQueues {
    #[verifier::type_invariant]
    spec fn bounded(self) -> bool {
        &&& self.send@.len() <= MAX_UNACKED_PACKETS
        &&& self.recv@.len() <= MAX_UNACKED_PACKETS
    }

    /// The packets sent, oldest first.
    pub closed spec fn sent(self) -> Seq<PacketRecord> {
        self.send@
    }

    /// The packets received, oldest first.
    pub closed spec fn received(self) -> Seq<PacketRecord> {
        self.recv@
    }

    fn new() -> (q: Self)
        ensures
            q.sent() == Seq::<PacketRecord>::empty(),
            q.received() == Seq::<PacketRecord>::empty(),
    {
        PacketQueues { send: VecDeque::new(), recv: VecDeque::new() }
    }

    /// `item` appended to `q`, the oldest dropped when `q` is full.
    fn push_bounded_exec(q: &mut VecDeque<PacketRecord>, item: PacketRecord)
        requires
            old(q)@.len() <= MAX_UNACKED_PACKETS,
        ensures
            final(q)@ == push_bounded(old(q)@, item),
            final(q)@.len() <= MAX_UNACKED_PACKETS,
    {
        if q.len() == MAX_UNACKED_PACKETS {
            q.pop_front();
        }
        q.push_back(item);
        assert(q@ =~= push_bounded(old(q)@, item));
    }

    fn push_send(&mut self, item: PacketRecord)
        ensures
            final(self).sent() == push_bounded(old(self).sent(), item),
            final(self).received() == old(self).received(),
    {
        proof {
            use_type_invariant(&*self);
        }
        let mut q = VecDeque::new();
        std::mem::swap(&mut q, &mut self.send);
        Self::push_bounded_exec(&mut q, item);
        self.send = q;
    }

    fn push_recv(&mut self, item: PacketRecord)
        ensures
            final(self).received() == push_bounded(old(self).received(), item),
            final(self).sent() == old(self).sent(),
    {
        proof {
            use_type_invariant(&*self);
        }
        let mut q = VecDeque::new();
        std::mem::swap(&mut q, &mut self.recv);
        Self::push_bounded_exec(&mut q, item);
        self.recv = q;
    }

    /// Mark the sent packet at `index` as acknowledged.
    fn mark_acked(&mut self, index: usize)
        requires
            index < old(self).sent().len(),
        ensures
            final(self).sent() == old(self).sent().update(
                index as int,
                (old(self).sent()[index as int].0, old(self).sent()[index as int].1, true),
            ),
            final(self).received() == old(self).received(),
    {
        proof {
            use_type_invariant(&*self);
        }
        let mut q = VecDeque::new();
        std::mem::swap(&mut q, &mut self.send);
        let (seq, start, _) = q[index];
        q.remove(index);
        q.insert(index, (seq, start, true));
        assert(q@ =~= old(self).sent().update(index as int, (seq, start, true)));
        self.send = q;
    }
}

/// Bookkeeping of one end of the sync.
pub struct PeerState {
    seq: u16,
    remote_seq: u16,
    queues: PacketQueues,
    own_final_ackd_sequences: Vec<u16>,
    rtt_micros: Histogram,
    rtt_samples: Ghost<Seq<u64>>,
}

impl View for PeerState {
    type V = PeerView;

    closed spec fn view(&self) -> PeerView {
        PeerView {
            seq: self.seq,
            remote_seq: self.remote_seq,
            send_queue: self.queues.sent(),
            recv_queue: self.queues.received(),
            acked: self.own_final_ackd_sequences@,
            rtt_entries: histogram_entries(self.rtt_micros),
            rtt_max: histogram_max_value(self.rtt_micros),
            rtt_samples: self.rtt_samples@,
        }
    }
}

/// Both queues hold at most `MAX_UNACKED_PACKETS` packets.
pub open spec fn peer_wf(p: PeerView) -> bool {
    &&& p.send_queue.len() <= MAX_UNACKED_PACKETS
    &&& p.recv_queue.len() <= MAX_UNACKED_PACKETS
}

/// A queue with `item` appended, dropping the oldest packet when it is full.
pub open spec fn push_bounded(q: Seq<PacketRecord>, item: PacketRecord) -> Seq<PacketRecord> {
    if q.len() == MAX_UNACKED_PACKETS {
        q.drop_first().push(item)
    } else {
        q.push(item)
    }
}

/// Whether bit `n` of `x` is set.
pub open spec fn u32_bit(x: u32, n: u32) -> bool {
    (x >> n) & 1u32 == 1u32
}

/// Whether a packet with sequence number `s` is in the queue.
pub open spec fn queued(q: Seq<PacketRecord>, s: u16) -> bool {
    exists|i: int| 0 <= i < q.len() && (#[trigger] q[i]).0 == s
}

/// The acknowledgement bits for `latest`: bit `n` is set when `latest - n`
/// (without wrapping) was received.
pub open spec fn ack_bits_spec(recv: Seq<PacketRecord>, latest: u16, bits: u32) -> bool {
    forall|n: u32|
        n < 32 ==> #[trigger] u32_bit(bits, n) == (n <= latest && queued(
            recv,
            (latest - n) as u16,
        ))
}

/// The microseconds between `start` and `now`, zero when `now` is earlier.
pub open spec fn elapsed(start: u64, now: u64) -> u64 {
    if now >= start { (now - start) as u64 } else { 0 }
}

/// The histogram entry count after one more sample.
pub open spec fn bump(n: nat) -> nat {
    if n < u64::MAX { n + 1 } else { u64::MAX as nat }
}

/// The effect of acknowledgement bit `i`: when it is set and the `i`-th packet
/// of the send queue is not yet acknowledged, that packet is marked, its
/// sequence number recorded, and its round-trip time offered to the histogram
/// and logged;
/// the flag says whether the histogram refused it.
pub open spec fn ack_one(p: PeerView, bits: u32, now: u64, i: int) -> (PeerView, bool) {
    if u32_bit(bits, i as u32) && i < p.send_queue.len() && !p.send_queue[i].2 {
        let e = p.send_queue[i];
        (
            PeerView {
                send_queue: p.send_queue.update(i, (e.0, e.1, true)),
                acked: p.acked.push(e.0),
                rtt_entries: bump(p.rtt_entries),
                rtt_samples: p.rtt_samples.push(elapsed(e.1, now)),
                ..p
            },
            elapsed(e.1, now) > p.rtt_max,
        )
    } else {
        (p, false)
    }
}

/// The effect of acknowledgement bits `0..k`, stopping at the first refusal.
pub open spec fn ack_fold(p: PeerView, bits: u32, now: u64, k: nat) -> (PeerView, bool)
    decreases k,
{
    if k == 0 {
        (p, false)
    } else {
        let (q, failed) = ack_fold(p, bits, now, (k - 1) as nat);
        if failed {
            (q, true)
        } else {
            ack_one(q, bits, now, k - 1)
        }
    }
}

impl PeerState {
    /// Fresh bookkeeping: sequence numbers at zero, nothing queued.
    pub fn new() -> (p: Self)
        ensures
            p@ == (PeerView {
                seq: 0,
                remote_seq: 0,
                send_queue: Seq::empty(),
                recv_queue: Seq::empty(),
                acked: Seq::empty(),
                rtt_entries: 0,
                rtt_max: DEFAULT_HISTOGRAM_MAX_VALUE as nat,
                rtt_samples: Seq::empty(),
            }),
    {
        let p = Self {
            seq: 0,
            remote_seq: 0,
            queues: PacketQueues::new(),
            own_final_ackd_sequences: Vec::new(),
            rtt_micros: histogram_new(),
            rtt_samples: Ghost(Seq::empty()),
        };
        assert(p@ =~= PeerView {
            seq: 0,
            remote_seq: 0,
            send_queue: Seq::empty(),
            recv_queue: Seq::empty(),
            acked: Seq::empty(),
            rtt_entries: 0,
            rtt_max: DEFAULT_HISTOGRAM_MAX_VALUE as nat,
            rtt_samples: Seq::empty(),
        });
        p
    }

    /// The sequence number of the next message sent.
    pub fn seq(&self) -> (s: u16)
        ensures
            s == self@.seq,
    {
        self.seq
    }

    /// The latest remote sequence number seen.
    pub fn remote_seq(&self) -> (s: u16)
        ensures
            s == self@.remote_seq,
    {
        self.remote_seq
    }

    /// The packets sent and not yet dropped from tracking, oldest first.
    pub fn send_queue(&self) -> (q: &VecDeque<PacketRecord>)
        ensures
            q@ == self@.send_queue,
    {
        &self.queues.send
    }

    /// The packets received and not yet dropped from tracking, oldest first.
    pub fn recv_queue(&self) -> (q: &VecDeque<PacketRecord>)
        ensures
            q@ == self@.recv_queue,
    {
        &self.queues.recv
    }

    /// Sequence numbers of our packets that the remote acknowledged, in order.
    pub fn own_final_ackd_sequences(&self) -> (s: &[u16])
        ensures
            s@ == self@.acked,
    {
        self.own_final_ackd_sequences.as_slice()
    }

    /// The number of round-trip samples offered so far.
    pub fn rtt_entries(&self) -> (n: u64)
        ensures
            n == self@.rtt_entries,
    {
        histogram_entries_of(&self.rtt_micros)
    }

    /// The histogram of round-trip times in microseconds that this peer keeps.
    pub closed spec fn rtt_histogram(&self) -> Histogram {
        self.rtt_micros
    }

    /// The round-trip times in microseconds.
    pub fn rtt_micros(&self) -> (h: &Histogram)
        ensures
            *h == self.rtt_histogram(),
            histogram_entries(*h) == self@.rtt_entries,
            histogram_max_value(*h) == self@.rtt_max,
    {
        &self.rtt_micros
    }

    /// Step the local sequence number.
    pub fn next_seq(&mut self)
        ensures
            final(self)@ == (PeerView { seq: successor(old(self)@.seq), ..old(self)@ }),
    {
        self.seq = advance_maybe_wrap(self.seq);
    }

    /// Record a packet as sent at time `now`, dropping the oldest tracked one
    /// when the queue is full.
    pub fn push_send_queue(&mut self, seq: u16, now: u64)
        ensures
            peer_wf(final(self)@),
            final(self)@ == (PeerView {
                send_queue: push_bounded(old(self)@.send_queue, (seq, now, false)),
                ..old(self)@
            }),
    {
        self.queues.push_send((seq, now, false));
        proof {
            use_type_invariant(&self.queues);
            assert(self@ =~= PeerView {
                send_queue: push_bounded(old(self)@.send_queue, (seq, now, false)),
                ..old(self)@
            });
        }
    }

    /// Record a packet as received at time `now`, dropping the oldest tracked
    /// one when the queue is full.
    pub fn push_recv_queue(&mut self, seq: u16, now: u64)
        ensures
            peer_wf(final(self)@),
            final(self)@ == (PeerView {
                recv_queue: push_bounded(old(self)@.recv_queue, (seq, now, true)),
                ..old(self)@
            }),
    {
        self.queues.push_recv((seq, now, true));
        proof {
            use_type_invariant(&self.queues);
            assert(self@ =~= PeerView {
                recv_queue: push_bounded(old(self)@.recv_queue, (seq, now, true)),
                ..old(self)@
            });
        }
    }

    /// Whether a packet with sequence number `s` was received.
    fn received(&self, s: u16) -> (r: bool)
        ensures
            r == queued(self@.recv_queue, s),
    {
        let mut i: usize = 0;
        let q = &self.queues.recv;
        while i < q.len()
            invariant
                q@ == self@.recv_queue,
                0 <= i <= q@.len(),
                forall|j: int| 0 <= j < i ==> (#[trigger] q@[j]).0 != s,
            decreases q@.len() - i,
        {
            if q[i].0 == s {
                assert(q@[i as int].0 == s);
                return true;
            }
            i = i + 1;
        }
        false
    }

    /// The acknowledgement bits to send along with `latest_ack`: bit `n` is set
    /// when the packet numbered `latest_ack - n` was received.
    pub fn recvd_ack_bits(&self, latest_ack: u16) -> (bits: u32)
        ensures
            ack_bits_spec(self@.recv_queue, latest_ack, bits),
    {
        let mut bits: u32 = 0;
        let mut n: u32 = 0;
        proof {
            assert forall|m: u32| m < 32 implies !#[trigger] u32_bit(0u32, m) by {
                assert((0u32 >> m) & 1u32 == 0u32) by (bit_vector);
            }
        }
        while n < 32
            invariant
                n <= 32,
                forall|m: u32|
                    m < n ==> #[trigger] u32_bit(bits, m) == (m <= latest_ack && queued(
                        self@.recv_queue,
                        (latest_ack - m) as u16,
                    )),
                forall|m: u32| n <= m < 32 ==> !#[trigger] u32_bit(bits, m),
            decreases 32 - n,
        {
            if (n as u16) <= latest_ack && self.received(latest_ack - n as u16) {
                let old_bits = bits;
                bits = bits | (1u32 << n);
                proof {
                    assert forall|m: u32| m < 32 implies #[trigger] u32_bit(bits, m) == (m == n
                        || u32_bit(old_bits, m)) by {
                        lemma_set_u32_bit(old_bits, n, m);
                    }
                }
            }
            n = n + 1;
        }
        bits
    }

    /// Mark the packets that the remote acknowledges in `msg` and record their
    /// round-trip times as of `now`. Stops with an error at the first time the
    /// histogram refuses.
    pub fn handle_message_acks(&mut self, msg: &Message, now: u64) -> (res: Result<(), RpcError>)
        ensures
            peer_wf(final(self)@),
            final(self)@ == ack_fold(old(self)@, msg.ack_bits, now, 32).0,
            res is Err <==> ack_fold(old(self)@, msg.ack_bits, now, 32).1,
            res is Err ==> res == Err::<(), RpcError>(RpcError::Histogram("sample value too large")),
    {
        let mut index: usize = 0;
        while index < 32
            invariant
                index <= 32,
                ack_fold(old(self)@, msg.ack_bits, now, index as nat) == (self@, false),
            decreases 32 - index,
        {
            let bit = (msg.ack_bits >> (index as u32)) & 1u32 == 1u32;
            let ghost before = self@;
            if bit && index < self.queues.send.len() && !self.queues.send[index].2 {
                let (seq, start, _) = self.queues.send[index];
                self.queues.mark_acked(index);
                self.own_final_ackd_sequences.push(seq);
                let dt: u64 = if now >= start { now - start } else { 0 };
                let r = histogram_increment(&mut self.rtt_micros, dt);
                self.rtt_samples = Ghost(self.rtt_samples@.push(dt));
                proof {
                    assert(self@ =~= ack_one(before, msg.ack_bits, now, index as int).0);
                }
                if r.is_err() {
                    proof {
                        use_type_invariant(&self.queues);
                        lemma_ack_fold_failed_stays(old(self)@, msg.ack_bits, now, (index + 1) as nat, 32);
                    }
                    return Err(RpcError::Histogram("sample value too large"));
                }
            } else {
                assert(self@ =~= ack_one(before, msg.ack_bits, now, index as int).0);
            }
            index = index + 1;
        }
        proof {
            use_type_invariant(&self.queues);
        }
        Ok(())
    }

    /// The bookkeeping part of receiving `msg` at time `now`: record it as
    /// received, adopt its sequence number as the remote one when it is ahead,
    /// and take its acknowledgements.
    pub fn receive(&mut self, msg: &Message, now: u64) -> (res: Result<(), RpcError>)
        ensures
            peer_wf(final(self)@),
            ({
                let pushed = PeerView {
                    recv_queue: push_bounded(old(self)@.recv_queue, (msg.seq, now, true)),
                    remote_seq: if spec_wrapping_sub(old(self)@.remote_seq, msg.seq) is Some {
                        msg.seq
                    } else {
                        old(self)@.remote_seq
                    },
                    ..old(self)@
                };
                &&& final(self)@ == ack_fold(pushed, msg.ack_bits, now, 32).0
                &&& res is Err <==> ack_fold(pushed, msg.ack_bits, now, 32).1
            }),
    {
        self.push_recv_queue(msg.seq, now);
        if let Some(_higher) = wrapping_sub(self.remote_seq, msg.seq) {
            self.remote_seq = msg.seq;
        }
        self.handle_message_acks(msg, now)
    }
}

impl PeerState {
    /// The bookkeeping part of sending `payload` at time `now`: refuse a
    /// payload longer than `PAYLOAD_LEN`; otherwise build the message with the
    /// local sequence number and the acknowledgement of the latest remote one,
    /// record it as sent and step the sequence number.
    pub fn prepare_send(&mut self, payload: &[u8], now: u64) -> (res: Result<Message, RpcError>)
        ensures
            peer_wf(final(self)@),
            payload@.len() > PAYLOAD_LEN ==> res == Err::<Message, RpcError>(
                RpcError::PayloadTooLarge(payload@.len() as usize),
            ) && final(self)@ == old(self)@,
            payload@.len() <= PAYLOAD_LEN ==> (res matches Ok(m) && {
                &&& m.seq == old(self)@.seq
                &&& m.ack == old(self)@.remote_seq
                &&& ack_bits_spec(old(self)@.recv_queue, old(self)@.remote_seq, m.ack_bits)
                &&& m.payload@ == padded_payload(payload@)
                &&& final(self)@ == (PeerView {
                    seq: successor(old(self)@.seq),
                    send_queue: push_bounded(old(self)@.send_queue, (old(self)@.seq, now, false)),
                    ..old(self)@
                })
            }),
    {
        proof {
            use_type_invariant(&self.queues);
        }
        if payload.len() > PAYLOAD_LEN {
            return Err(RpcError::PayloadTooLarge(payload.len()));
        }
        let bits = self.recvd_ack_bits(self.remote_seq);
        let msg = Message::new(self.seq, self.remote_seq, bits, payload);
        self.push_send_queue(msg.seq, now);
        self.next_seq();
        Ok(msg)
    }
}

/// Acknowledgements leave the receive queue, the sequence numbers and the
/// length of the send queue alone.
pub proof fn lemma_ack_fold_frame(p: PeerView, bits: u32, now: u64, k: nat)
    ensures
        ack_fold(p, bits, now, k).0.recv_queue == p.recv_queue,
        ack_fold(p, bits, now, k).0.seq == p.seq,
        ack_fold(p, bits, now, k).0.remote_seq == p.remote_seq,
        ack_fold(p, bits, now, k).0.send_queue.len() == p.send_queue.len(),
        ack_fold(p, bits, now, k).0.rtt_max == p.rtt_max,
    decreases k,
{
    if k > 0 {
        lemma_ack_fold_frame(p, bits, now, (k - 1) as nat);
    }
}

/// Acknowledgements only ever mark packets: a packet once acknowledged stays
/// so, every tracked packet keeps its sequence number and send time, the
/// list of acknowledged sequence numbers only grows at its end, and the log of
/// round-trip samples grows at its end by one sample for each of them.
pub proof fn lemma_acks_are_monotone(p: PeerView, bits: u32, now: u64, k: nat)
    ensures
        ({
            let q = ack_fold(p, bits, now, k).0;
            &&& q.send_queue.len() == p.send_queue.len()
            &&& forall|i: int|
                0 <= i < p.send_queue.len() ==> (#[trigger] q.send_queue[i]).0 == p.send_queue[i].0
                    && q.send_queue[i].1 == p.send_queue[i].1 && (p.send_queue[i].2
                    ==> q.send_queue[i].2)
            &&& p.acked.len() <= q.acked.len()
            &&& q.acked.subrange(0, p.acked.len() as int) == p.acked
            &&& q.rtt_samples.len() - p.rtt_samples.len() == q.acked.len() - p.acked.len()
            &&& q.rtt_samples.subrange(0, p.rtt_samples.len() as int) == p.rtt_samples
        }),
    decreases k,
{
    if k > 0 {
        lemma_acks_are_monotone(p, bits, now, (k - 1) as nat);
        let r = ack_fold(p, bits, now, (k - 1) as nat).0;
        assert(r.acked.push(r.send_queue[k - 1].0).subrange(0, p.acked.len() as int)
            =~= r.acked.subrange(0, p.acked.len() as int));
        assert(r.rtt_samples.push(elapsed(r.send_queue[k - 1].1, now)).subrange(
            0,
            p.rtt_samples.len() as int,
        ) =~= r.rtt_samples.subrange(0, p.rtt_samples.len() as int));
    }
}

/// A message that was just received is acknowledged by bit zero of the
/// acknowledgement bits for its own sequence number.
pub proof fn lemma_received_is_acknowledged(p: PeerView, seq: u16, now: u64, msg_bits: u32, remote: u16, ack_bits: u32)
    requires
        ack_bits_spec(
            ack_fold(
                PeerView { recv_queue: push_bounded(p.recv_queue, (seq, now, true)), remote_seq: remote, ..p },
                msg_bits,
                now,
                32,
            ).0.recv_queue,
            seq,
            ack_bits,
        ),
    ensures
        u32_bit(ack_bits, 0),
{
    let pushed = PeerView { recv_queue: push_bounded(p.recv_queue, (seq, now, true)), remote_seq: remote, ..p };
    lemma_ack_fold_frame(pushed, msg_bits, now, 32);
    let q = pushed.recv_queue;
    assert(q[q.len() - 1].0 == seq);
    assert(queued(q, seq));
    assert(u32_bit(ack_bits, 0u32) == (0u32 <= seq && queued(q, (seq - 0u32) as u16)));
}

/// Once a refusal has stopped the acknowledgements, later bits change nothing.
pub proof fn lemma_ack_fold_failed_stays(p: PeerView, bits: u32, now: u64, k: nat, m: nat)
    requires
        k <= m,
        ack_fold(p, bits, now, k).1,
    ensures
        ack_fold(p, bits, now, m) == ack_fold(p, bits, now, k),
    decreases m - k,
{
    if k < m {
        lemma_ack_fold_failed_stays(p, bits, now, k, (m - 1) as nat);
    }
}

/// Setting bit `n` of `x` sets that bit and keeps the others.
pub proof fn lemma_set_u32_bit(x: u32, n: u32, m: u32)
    requires
        n < 32,
        m < 32,
    ensures
        u32_bit(x | (1u32 << n), m) == (m == n || u32_bit(x, m)),
{
    assert((((x | (1u32 << n)) >> m) & 1u32 == 1u32) == (m == n || (x >> m) & 1u32 == 1u32))
        by (bit_vector)
        requires
            n < 32,
            m < 32,
    ;
}

/// What one attempt of a client to read a packet without waiting gave.
#[derive(Debug, Clone, Copy, PartialEq, Eq, Structural)]
pub enum RecvAttempt {
    /// A packet arrived; it replaces any kept before.
    Packet,
    /// Nothing was waiting.
    TimedOut,
    /// The socket failed otherwise.
    Failed,
}

/// What a client that wants only the newest packet does next.
#[derive(Debug, Clone, Copy, PartialEq, Eq, Structural)]
pub enum DrainNext {
    KeepReading,
    UseLatest,
    GiveUp,
}

/// The client reads until nothing more is waiting and then uses the newest
/// packet; with no packet yet it keeps reading; a socket failure ends it.
pub open spec fn spec_drain_next(have_packet: bool, attempt: RecvAttempt) -> DrainNext {
    match attempt {
        RecvAttempt::Packet => DrainNext::KeepReading,
        RecvAttempt::TimedOut => if have_packet {
            DrainNext::UseLatest
        } else {
            DrainNext::KeepReading
        },
        RecvAttempt::Failed => DrainNext::GiveUp,
    }
}

/// What to do after a read attempt, given whether a packet is kept already.
pub fn drain_next(have_packet: bool, attempt: RecvAttempt) -> (n: DrainNext)
    ensures
        n == spec_drain_next(have_packet, attempt),
{
    match attempt {
        RecvAttempt::Packet => DrainNext::KeepReading,
        RecvAttempt::TimedOut => if have_packet {
            DrainNext::UseLatest
        } else {
            DrainNext::KeepReading
        },
        RecvAttempt::Failed => DrainNext::GiveUp,
    }
}

/// Every sequence number that `q` lists as acknowledged beyond those of `p`
/// is that of a packet in `q`'s send queue that is marked acknowledged.
pub open spec fn acks_are_marked(p: PeerView, q: PeerView) -> bool {
    forall|j: int| p.acked.len() <= j < q.acked.len() ==> #[trigger] marked_in(q, q.acked[j])
}

/// Whether the send queue of `q` holds a packet numbered `seq` that is marked
/// acknowledged.
pub open spec fn marked_in(q: PeerView, seq: u16) -> bool {
    exists|m: int| 0 <= m < q.send_queue.len() && (#[trigger] q.send_queue[m]).2 && q.send_queue[m].0 == seq
}

/// One acknowledgement bit records at most one sequence number, and it is
/// the sequence number of the packet at that position of the send queue, a
/// packet that was not yet acknowledged and is marked acknowledged by the same
/// step; otherwise nothing is recorded or marked.
pub proof fn lemma_ack_records_the_packet(p: PeerView, bits: u32, now: u64, i: int)
    requires
        0 <= i,
    ensures
        ({
            let q = ack_one(p, bits, now, i).0;
            ||| q.acked == p.acked && q.send_queue == p.send_queue
            ||| {
                &&& 0 <= i < p.send_queue.len()
                &&& !p.send_queue[i].2
                &&& q.send_queue == p.send_queue.update(
                    i,
                    (p.send_queue[i].0, p.send_queue[i].1, true),
                )
                &&& q.acked == p.acked.push(p.send_queue[i].0)
            }
        }),
{
    if u32_bit(bits, i as u32) && i < p.send_queue.len() && !p.send_queue[i].2 {
        let e = p.send_queue[i];
        assert(ack_one(p, bits, now, i).0.send_queue =~= p.send_queue.update(i, (e.0, e.1, true)));
    }
}

/// Every sequence number that acknowledgements add to the acknowledged list is
/// that of a packet in the send queue that is marked acknowledged.
pub proof fn lemma_acked_are_marked_packets(p: PeerView, bits: u32, now: u64, k: nat)
    ensures
        acks_are_marked(p, ack_fold(p, bits, now, k).0),
    decreases k,
{
    if k > 0 {
        lemma_acked_are_marked_packets(p, bits, now, (k - 1) as nat);
        let r = ack_fold(p, bits, now, (k - 1) as nat).0;
        let failed = ack_fold(p, bits, now, (k - 1) as nat).1;
        if !failed {
            let q = ack_one(r, bits, now, k - 1).0;
            assert(ack_fold(p, bits, now, k).0 == q);
            lemma_ack_records_the_packet(r, bits, now, k - 1);
            assert forall|j: int| p.acked.len() <= j < q.acked.len() implies #[trigger] marked_in(
                q,
                q.acked[j],
            ) by {
                if j < r.acked.len() {
                    assert(marked_in(r, r.acked[j]));
                    let m = choose|m: int|
                        0 <= m < r.send_queue.len() && (#[trigger] r.send_queue[m]).2
                            && r.send_queue[m].0 == r.acked[j];
                    assert(q.acked[j] == r.acked[j]);
                    assert(q.send_queue[m].2 && q.send_queue[m].0 == q.acked[j]);
                } else {
                    let m = k - 1;
                    assert(q.send_queue[m].2 && q.send_queue[m].0 == q.acked[j]);
                }
            }
        }
    }
}

} // verus!
