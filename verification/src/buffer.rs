//! The dedup buffer: fingerprints of recently seen gossip messages, held
//! for a fixed retention window and swept periodically. Without it, every
//! relayed message would echo around the mesh forever.

use crate::message::{BufMessage, Message};
use vstd::prelude::*;

verus! {

/// How long a fingerprint is retained before a sweep may drop it.
pub const RETENTION_MILLIS: u128 = 300000;

/// Some record in the buffer carries this fingerprint.
pub open spec fn buf_contains_hash(buf: Seq<BufMessage>, h: Seq<char>) -> bool {
    exists|i: int| 0 <= i < buf.len() && buf[i].hash@ == h
}

/// No two records carry the same fingerprint.
pub open spec fn distinct_buf_hashes(buf: Seq<BufMessage>) -> bool {
    forall|i: int, j: int| 0 <= i < j < buf.len() ==> buf[i].hash@ != buf[j].hash@
}

/// A record is still within the retention window at `now`. A record dated
/// in the future is kept: it cannot be older than the window.
pub open spec fn still_fresh(m: BufMessage, now: u128) -> bool {
    now >= m.timestamp ==> now - m.timestamp <= RETENTION_MILLIS
}

/// What a sweep at `now` leaves: the records still within the window, in
/// their original order.
pub open spec fn swept(buf: Seq<BufMessage>, now: u128) -> Seq<BufMessage>
    decreases buf.len(),
{
    if buf.len() == 0 {
        Seq::<BufMessage>::empty()
    } else if still_fresh(buf.last(), now) {
        swept(buf.drop_last(), now).push(buf.last())
    } else {
        swept(buf.drop_last(), now)
    }
}

proof fn lemma_swept_distinct(buf: Seq<BufMessage>, now: u128)
    requires
        distinct_buf_hashes(buf),
    ensures
        distinct_buf_hashes(swept(buf, now)),
        forall|h: Seq<char>|
            #[trigger] buf_contains_hash(swept(buf, now), h) ==> buf_contains_hash(buf, h),
    decreases buf.len(),
{
    if buf.len() > 0 {
        let rest = buf.drop_last();
        lemma_swept_distinct(rest, now);
        assert forall|h: Seq<char>|
            #[trigger] buf_contains_hash(swept(buf, now), h) implies buf_contains_hash(
            buf,
            h,
        ) by {
            let s = swept(buf, now);
            let i = choose|i: int| 0 <= i < s.len() && s[i].hash@ == h;
            if still_fresh(buf.last(), now) && i == s.len() - 1 {
                assert(buf[buf.len() - 1].hash@ == h);
            } else {
                assert(buf_contains_hash(swept(rest, now), h));
                let j = choose|j: int| 0 <= j < rest.len() && rest[j].hash@ == h;
                assert(buf[j].hash@ == h);
            }
        }
        if still_fresh(buf.last(), now) {
            let s = swept(buf, now);
            let prefix = swept(rest, now);
            assert forall|i: int, j: int|
                0 <= i < j < s.len() implies s[i].hash@ != s[j].hash@ by {
                if j < s.len() - 1 {
                    assert(prefix[i].hash@ != prefix[j].hash@);
                } else {
                    if buf_contains_hash(prefix, s[i].hash@) {
                        let k = choose|k: int| 0 <= k < rest.len() && rest[k].hash@
                            == s[i].hash@;
                        assert(buf[k].hash@ != buf.last().hash@);
                    }
                    assert(buf_contains_hash(prefix, s[i].hash@));
                }
            }
        }
    }
}

/// Law (retention, kept side): a record still within the retention window
/// at `now` — in particular one inserted less than the window ago — is
/// still found after a sweep at `now`.
pub proof fn lemma_sweep_keeps_recent(buf: Seq<BufMessage>, now: u128, i: int)
    requires
        0 <= i < buf.len(),
        still_fresh(buf[i], now),
    ensures
        buf_contains_hash(swept(buf, now), buf[i].hash@),
    decreases buf.len(),
{
    let s = swept(buf, now);
    if i == buf.len() - 1 {
        assert(s[s.len() - 1].hash@ == buf[i].hash@);
    } else {
        let rest = buf.drop_last();
        lemma_sweep_keeps_recent(rest, now, i);
        let j = choose|j: int| 0 <= j < swept(rest, now).len() && swept(rest, now)[j].hash@
            == buf[i].hash@;
        assert(s[j].hash@ == buf[i].hash@);
    }
}

/// Law (retention, dropped side): once every record carrying a fingerprint
/// has fallen out of the retention window, a sweep at `now` removes it.
pub proof fn lemma_sweep_drops_expired(buf: Seq<BufMessage>, now: u128, h: Seq<char>)
    requires
        forall|i: int|
            0 <= i < buf.len() && (#[trigger] buf[i]).hash@ == h ==> !still_fresh(buf[i], now),
    ensures
        !buf_contains_hash(swept(buf, now), h),
    decreases buf.len(),
{
    if buf.len() > 0 {
        let rest = buf.drop_last();
        assert forall|i: int|
            0 <= i < rest.len() && (#[trigger] rest[i]).hash@ == h implies !still_fresh(
            rest[i],
            now,
        ) by {
            assert(buf[i] == rest[i]);
        }
        lemma_sweep_drops_expired(rest, now, h);
        if still_fresh(buf.last(), now) {
            assert(buf[buf.len() - 1].hash@ != h);
            if buf_contains_hash(swept(buf, now), h) {
                let s = swept(buf, now);
                let i = choose|i: int| 0 <= i < s.len() && s[i].hash@ == h;
                assert(buf_contains_hash(swept(rest, now), h));
            }
        }
    }
}

/// The buffer of recently seen gossip fingerprints.
pub struct BufferMessage {
    buffer: Vec<BufMessage>,
}

impl View for BufferMessage {
    type V = Seq<BufMessage>;

    closed spec fn view(&self) -> Seq<BufMessage> {
        self.buffer@
    }
}

impl BufferMessage {
    /// No fingerprint is tracked twice.
    pub open spec fn inv(self) -> bool {
        distinct_buf_hashes(self@)
    }

    pub fn new() -> (b: BufferMessage)
        ensures
            b@ == Seq::<BufMessage>::empty(),
            b.inv(),
    {
        BufferMessage { buffer: Vec::new() }
    }

    /// How many fingerprints are tracked.
    pub fn len(&self) -> (n: usize)
        ensures
            n == self@.len(),
    {
        self.buffer.len()
    }

    /// Membership test for a fingerprint.
    pub fn seen(&self, hash: &String) -> (r: bool)
        ensures
            r == buf_contains_hash(self@, hash@),
    {
        let n = self.buffer.len();
        let mut i: usize = 0;
        while i < n
            invariant
                n == self.buffer@.len(),
                i <= n,
                forall|j: int| 0 <= j < i ==> self.buffer@[j].hash@ != hash@,
            decreases n - i,
        {
            if self.buffer[i].hash == *hash {
                return true;
            }
            i += 1;
        }
        false
    }

    /// Tracks an envelope's fingerprint; one already tracked is a no-op.
    pub fn record(&mut self, message: &Message)
        requires
            old(self).inv(),
        ensures
            final(self).inv(),
            buf_contains_hash(old(self)@, message.hash@) ==> final(self)@ == old(self)@,
            !buf_contains_hash(old(self)@, message.hash@) ==> final(self)@ == old(self)@.push(
                (BufMessage { timestamp: message.timestamp, hash: message.hash }),
            ),
    {
        if !self.seen(&message.hash) {
            self.buffer.push(BufMessage::new(message));
        }
    }

    /// Drops every record that has fallen out of the retention window.
    pub fn sweep(&mut self, now: u128)
        requires
            old(self).inv(),
        ensures
            final(self).inv(),
            final(self)@ == swept(old(self)@, now),
    {
        let ghost buf = self.buffer@;
        let n = self.buffer.len();
        let mut kept: Vec<BufMessage> = Vec::new();
        let mut i: usize = 0;
        while i < n
            invariant
                buf == self.buffer@,
                n == buf.len(),
                i <= n,
                kept@ == swept(buf.take(i as int), now),
            decreases n - i,
        {
            let entry = &self.buffer[i];
            let fresh_now = if now >= entry.timestamp {
                now - entry.timestamp <= RETENTION_MILLIS
            } else {
                true
            };
            proof {
                assert(buf.take(i + 1).drop_last() =~= buf.take(i as int));
                assert(buf.take(i + 1).last() == buf[i as int]);
            }
            if fresh_now {
                kept.push(self.buffer[i].duplicate());
            }
            i += 1;
        }
        proof {
            assert(buf.take(n as int) =~= buf);
            lemma_swept_distinct(buf, now);
        }
        self.buffer = kept;
    }
}

} // verus!
