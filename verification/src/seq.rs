use vstd::prelude::*;

verus! {

/// Largest sequence number before wrapping back to zero.
pub const SEQ_MAX: u16 = 65535;

/// Half of the sequence number space, used to detect wrap-around.
pub const HALF_MAX: u16 = 32767;

/// The sequence number that follows `seq`, wrapping to zero after `SEQ_MAX`.
pub open spec fn successor(seq: u16) -> u16 {
    if seq == SEQ_MAX { 0 } else { (seq + 1) as u16 }
}

/// The distance by which `maybe_next` is ahead of `seq`, when it is ahead.
///
/// When `seq` exceeds `maybe_next` by more than half the sequence space, the
/// numbers are taken to have wrapped and the distance is
/// `SEQ_MAX - seq + maybe_next`; otherwise `maybe_next` is ahead exactly when it
/// is larger, by the plain difference.
pub open spec fn spec_wrapping_sub(seq: u16, maybe_next: u16) -> Option<u16> {
    if seq > maybe_next && seq - maybe_next > HALF_MAX {
        Some((SEQ_MAX - seq + maybe_next) as u16)
    } else if maybe_next > seq {
        Some((maybe_next - seq) as u16)
    } else {
        None
    }
}

/// Advance a sequence number by one, wrapping to zero after `SEQ_MAX`.
pub fn advance_maybe_wrap(seq: u16) -> (next: u16)
    ensures
        next == successor(seq),
        next as int == (seq as int + 1) % 65536,
{
    if seq == SEQ_MAX {
        0
    } else {
        seq + 1
    }
}

/// The sequence number after `current`, wrapping to zero after `u16::MAX`.
pub fn next_seq(current: u16) -> (next: u16)
    ensures
        next == successor(current),
        next as int == (current as int + 1) % 65536,
{
    if current == SEQ_MAX {
        return 0;
    }
    current + 1
}

/// How far `maybe_next` is ahead of `seq`, or `None` when it is not ahead.
pub fn wrapping_sub(seq: u16, maybe_next: u16) -> (res: Option<u16>)
    ensures
        res == spec_wrapping_sub(seq, maybe_next),
{
    if seq.saturating_sub(maybe_next) > HALF_MAX {
        Some(SEQ_MAX - seq + maybe_next)
    } else if maybe_next > seq {
        Some(maybe_next.saturating_sub(seq))
    } else {
        None
    }
}

/// A sequence number is never ahead of itself.
pub proof fn lemma_not_ahead_of_itself(seq: u16)
    ensures
        spec_wrapping_sub(seq, seq) is None,
{
}

/// The successor of any sequence number counts as ahead of it, the wrap from
/// `SEQ_MAX` to zero included; unless it wrapped, it is ahead by exactly one.
pub proof fn lemma_successor_is_ahead(seq: u16)
    ensures
        spec_wrapping_sub(seq, successor(seq)) is Some,
        seq != SEQ_MAX ==> spec_wrapping_sub(seq, successor(seq)) == Some(1u16),
{
}

/// Both ways of stepping a sequence number agree.
pub proof fn lemma_next_seq_matches_advance(seq: u16)
    ensures
        successor(seq) as int == (seq as int + 1) % 65536,
{
}

/// What `spec_wrapping_sub` says of two sequence numbers: a number behind
/// `seq` by at most half the sequence space, or equal to it, is not ahead; a
/// larger number is ahead by the plain difference; a number behind by more
/// than half the space is taken to have wrapped, and the distance and the gap
/// add up to `SEQ_MAX`.
pub proof fn lemma_wrapping_sub_meaning(seq: u16, m: u16)
    ensures
        seq >= m && seq - m <= 32767 ==> spec_wrapping_sub(seq, m) is None,
        m > seq ==> spec_wrapping_sub(seq, m) == Some((m - seq) as u16),
        seq > m && seq - m > 32767 ==> (spec_wrapping_sub(seq, m) matches Some(d) && d + (seq
            - m) == 65535),
        spec_wrapping_sub(seq, m) is Some <==> (m > seq || seq - m > 32767),
{
}

} // verus!
