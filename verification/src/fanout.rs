//! The broadcast fanout: one producer slot, many independent subscribers.
//!
//! Every message accepted by `publish` is offered exactly once to every
//! subscriber live at publish time, in publish order. Each subscriber owns
//! a bounded receive buffer; when a slow subscriber's buffer is full, the
//! oldest unread message is dropped for that subscriber only, so a stalled
//! consumer never blocks the publisher or any other consumer. A subscriber
//! that joins after a publish never sees that message. Publishing after
//! shutdown fails with [`FanoutError::ClosedChannel`] and changes nothing.

use vstd::prelude::*;

use crate::msg::ChatMessage;
use crate::msg::MsgView;

verus! {

/// Why a fanout operation failed.
#[derive(Debug, Clone, Copy, PartialEq, Eq)]
pub enum FanoutError {
    /// `publish` was called after the fanout was shut down.
    ClosedChannel,
}

/// One subscriber's endpoint: its identifier, the messages offered to it
/// and not yet received, and ghost positions into the publish order.
pub struct Subscriber {
    pub id: u64,
    pub queue: Vec<ChatMessage>,
    /// How many messages had been published when this subscriber joined.
    pub joined: Ghost<nat>,
    /// How many published messages this subscriber has consumed or lost.
    pub read: Ghost<nat>,
}

/// The abstract values of a sequence of messages.
pub open spec fn msgs_view(s: Seq<ChatMessage>) -> Seq<MsgView> {
    s.map_values(|m: ChatMessage| m@)
}

/// What one subscriber's buffer becomes when a message is offered to it:
/// the message is appended, after dropping the oldest unread message if
/// the buffer is already at `cap`.
pub open spec fn offered_queue(q: Seq<MsgView>, cap: nat, m: MsgView) -> Seq<MsgView> {
    if q.len() < cap {
        q.push(m)
    } else {
        q.drop_first().push(m)
    }
}

/// A subscriber's buffer after a whole sequence of offers.
pub open spec fn offer_all(q: Seq<MsgView>, cap: nat, ms: Seq<MsgView>) -> Seq<MsgView>
    decreases ms.len(),
{
    if ms.len() == 0 {
        q
    } else {
        offer_all(offered_queue(q, cap, ms[0]), cap, ms.drop_first())
    }
}

/// How a publish changes one subscriber: its buffer is offered the message
/// exactly once, and its lost-or-consumed count advances only on overflow.
pub open spec fn delivered(s0: Subscriber, s1: Subscriber, m: MsgView, cap: nat) -> bool {
    &&& s1.id == s0.id
    &&& s1.joined == s0.joined
    &&& msgs_view(s1.queue@) == offered_queue(msgs_view(s0.queue@), cap, m)
    &&& s1.read@ == if s0.queue@.len() < cap {
        s0.read@
    } else {
        s0.read@ + 1
    }
}

/// A subscriber's buffer is exactly the published messages it has not yet
/// consumed or lost, and it never reaches before its join point.
pub open spec fn sub_ok(s: Subscriber, published: Seq<MsgView>, cap: nat) -> bool {
    &&& s.joined@ <= s.read@
    &&& s.read@ + s.queue@.len() == published.len()
    &&& s.queue@.len() <= cap
    &&& msgs_view(s.queue@) == published.subrange(s.read@ as int, published.len() as int)
}

/// Whether some subscriber of `subs` has identifier `id`.
pub open spec fn has_sub(subs: Seq<Subscriber>, id: u64) -> bool {
    exists|i: int| 0 <= i < subs.len() && subs[i].id == id
}

/// The position of the subscriber with identifier `id`.
pub open spec fn sub_idx(subs: Seq<Subscriber>, id: u64) -> int {
    choose|i: int| 0 <= i < subs.len() && subs[i].id == id
}

/// The multi-consumer distribution point. `published` is the ghost record
/// of every message accepted so far, in publish order.
pub struct Fanout {
    pub subs: Vec<Subscriber>,
    pub cap: usize,
    pub closed: bool,
    pub next_id: u64,
    pub published: Ghost<Seq<MsgView>>,
}

impl Fanout {
    /// The fanout's internal invariant.
    pub open spec fn wf(&self) -> bool {
        &&& self.cap >= 1
        &&& forall|i: int, j: int|
            0 <= i < j < self.subs@.len() ==> self.subs@[i].id != self.subs@[j].id
        &&& forall|i: int|
            0 <= i < self.subs@.len() ==> #[trigger] sub_ok(
                self.subs@[i],
                self.published@,
                self.cap as nat,
            )
        &&& forall|i: int| 0 <= i < self.subs@.len() ==> self.subs@[i].id < self.next_id
    }

    /// A fresh fanout with per-subscriber buffers bounded by `cap`.
    pub fn new(cap: usize) -> (r: Fanout)
        requires
            cap >= 1,
        ensures
            r.wf(),
            r.subs@.len() == 0,
            r.cap == cap,
            !r.closed,
            r.next_id == 0,
            r.published@ == Seq::<MsgView>::empty(),
    {
        Fanout { subs: Vec::new(), cap, closed: false, next_id: 0, published: Ghost(Seq::empty()) }
    }

    /// Creates a new independent subscriber endpoint and returns its
    /// identifier. The new endpoint starts with an empty buffer anchored at
    /// the current end of the publish order, so it can only ever observe
    /// messages published after this call. No other subscriber changes.
    pub fn subscribe(&mut self) -> (sid: u64)
        requires
            old(self).wf(),
            old(self).next_id < u64::MAX,
        ensures
            final(self).wf(),
            final(self).published == old(self).published,
            final(self).cap == old(self).cap,
            final(self).closed == old(self).closed,
            sid == old(self).next_id,
            final(self).next_id == old(self).next_id + 1,
            !has_sub(old(self).subs@, sid),
            final(self).subs@.len() == old(self).subs@.len() + 1,
            final(self).subs@.subrange(0, old(self).subs@.len() as int) == old(self).subs@,
            final(self).subs@.last().id == sid,
            final(self).subs@.last().queue@.len() == 0,
            final(self).subs@.last().joined@ == old(self).published@.len(),
            final(self).subs@.last().read@ == old(self).published@.len(),
    {
        let sid = self.next_id;
        self.next_id = self.next_id + 1;
        let sub = Subscriber {
            id: sid,
            queue: Vec::new(),
            joined: Ghost(self.published@.len()),
            read: Ghost(self.published@.len()),
        };
        self.subs.push(sub);
        proof {
            assert(self.subs@.subrange(0, old(self).subs@.len() as int) =~= old(self).subs@);
            assert forall|i: int, j: int|
                0 <= i < j < self.subs@.len() implies self.subs@[i].id != self.subs@[j].id by {
                if j < self.subs@.len() - 1 {
                    assert(old(self).subs@[i].id != old(self).subs@[j].id);
                } else {
                    assert(old(self).subs@[i].id < old(self).next_id);
                }
            }
            assert forall|i: int| 0 <= i < self.subs@.len() implies #[trigger] sub_ok(
                self.subs@[i],
                self.published@,
                self.cap as nat,
            ) by {
                if i < self.subs@.len() - 1 {
                    assert(self.subs@[i] == old(self).subs@[i]);
                    assert(sub_ok(old(self).subs@[i], old(self).published@, old(self).cap as nat));
                } else {
                    assert(msgs_view(self.subs@[i].queue@) =~= self.published@.subrange(
                        self.published@.len() as int,
                        self.published@.len() as int,
                    ));
                }
            }
        }
        sid
    }

    /// Accepts a message for distribution. If the fanout is shut down, the
    /// call fails with `ClosedChannel` and nothing changes. Otherwise the
    /// message is appended to the publish order and offered exactly once to
    /// every subscriber live at this call, each keeping its join anchor.
    pub fn publish(&mut self, m: &ChatMessage) -> (r: Result<(), FanoutError>)
        requires
            old(self).wf(),
        ensures
            final(self).wf(),
            match r {
                Err(FanoutError::ClosedChannel) => {
                    &&& old(self).closed
                    &&& *final(self) == *old(self)
                },
                Ok(()) => {
                    &&& !old(self).closed
                    &&& final(self).published@ == old(self).published@.push(m@)
                    &&& final(self).cap == old(self).cap
                    &&& final(self).closed == old(self).closed
                    &&& final(self).next_id == old(self).next_id
                    &&& final(self).subs@.len() == old(self).subs@.len()
                    &&& forall|i: int|
                        0 <= i < old(self).subs@.len() ==> delivered(
                            old(self).subs@[i],
                            #[trigger] final(self).subs@[i],
                            m@,
                            old(self).cap as nat,
                        )
                },
            },
    {
        if self.closed {
            return Err(FanoutError::ClosedChannel);
        }
        let ghost old_subs = self.subs@;
        let ghost old_published = self.published@;
        let n = self.subs.len();
        let mut done: Vec<Subscriber> = Vec::new();
        while done.len() < n
            invariant
                self.cap == old(self).cap,
                self.closed == old(self).closed,
                self.next_id == old(self).next_id,
                self.published == old(self).published,
                self.cap >= 1,
                old(self).wf(),
                old_subs == old(self).subs@,
                n == old_subs.len(),
                self.subs@.len() + done@.len() == n,
                self.subs@ =~= old_subs.subrange(done@.len() as int, n as int),
                forall|j: int|
                    0 <= j < done@.len() ==> delivered(
                        old_subs[j],
                        #[trigger] done@[j],
                        m@,
                        self.cap as nat,
                    ),
            decreases n - done@.len(),
        {
            let mut s = self.subs.remove(0);
            let ghost s0 = s;
            proof {
                assert(s0 == old_subs[done@.len() as int]);
                assert(sub_ok(s0, old(self).published@, self.cap as nat));
            }
            if s.queue.len() == self.cap {
                s.queue.remove(0);
                s.read = Ghost(s.read@ + 1);
                proof {
                    assert(msgs_view(s.queue@) =~= msgs_view(s0.queue@).drop_first());
                }
            }
            s.queue.push(crate::msg::copy_message(m));
            proof {
                assert(msgs_view(s.queue@) =~= offered_queue(
                    msgs_view(s0.queue@),
                    self.cap as nat,
                    m@,
                ));
                assert(delivered(s0, s, m@, self.cap as nat));
            }
            done.push(s);
            proof {
                assert(self.subs@ =~= old_subs.subrange(done@.len() as int, n as int));
            }
        }
        self.subs = done;
        self.published = Ghost(old_published.push(m@));
        proof {
            assert forall|i: int| 0 <= i < self.subs@.len() implies #[trigger] sub_ok(
                self.subs@[i],
                self.published@,
                self.cap as nat,
            ) by {
                assert(delivered(old_subs[i], self.subs@[i], m@, self.cap as nat));
                assert(sub_ok(old_subs[i], old_published, self.cap as nat));
                lemma_offer_preserves_ok(
                    old_subs[i],
                    self.subs@[i],
                    old_published,
                    m@,
                    self.cap as nat,
                );
            }
            assert forall|i: int, j: int|
                0 <= i < j < self.subs@.len() implies self.subs@[i].id != self.subs@[j].id by {
                assert(delivered(old_subs[i], self.subs@[i], m@, self.cap as nat));
                assert(delivered(old_subs[j], self.subs@[j], m@, self.cap as nat));
                assert(old_subs[i].id != old_subs[j].id);
            }
            assert forall|i: int|
                0 <= i < self.subs@.len() implies self.subs@[i].id < self.next_id by {
                assert(delivered(old_subs[i], self.subs@[i], m@, self.cap as nat));
                assert(old_subs[i].id < old(self).next_id);
            }
        }
        Ok(())
    }

    /// Hands out the next undelivered message for subscriber `sid`, in
    /// publish order; `None` exactly when its buffer is empty. The returned
    /// message sits at the subscriber's cursor in the publish order, which
    /// never lies before its join point, and no other subscriber changes.
    pub fn recv(&mut self, sid: u64) -> (r: Option<ChatMessage>)
        requires
            old(self).wf(),
            has_sub(old(self).subs@, sid),
        ensures
            final(self).wf(),
            final(self).published == old(self).published,
            final(self).cap == old(self).cap,
            final(self).closed == old(self).closed,
            final(self).next_id == old(self).next_id,
            final(self).subs@.len() == old(self).subs@.len(),
            forall|j: int|
                0 <= j < old(self).subs@.len() && j != sub_idx(old(self).subs@, sid)
                    ==> final(self).subs@[j] == old(self).subs@[j],
            ({
                let k = sub_idx(old(self).subs@, sid);
                let s0 = old(self).subs@[k];
                let s1 = final(self).subs@[k];
                match r {
                    None => s0.queue@.len() == 0 && s1 == s0,
                    Some(m) => {
                        &&& s0.queue@.len() > 0
                        &&& m@ == old(self).published@[s0.read@ as int]
                        &&& s0.joined@ <= s0.read@
                        &&& s1.id == s0.id
                        &&& s1.joined == s0.joined
                        &&& s1.read@ == s0.read@ + 1
                        &&& msgs_view(s1.queue@) == msgs_view(s0.queue@).drop_first()
                    },
                }
            }),
    {
        let k = self.find_sub(sid);
        let mut s = self.subs.remove(k);
        let ghost s0 = s;
        proof {
            assert(old(self).subs@[k as int] == s0);
        }
        if s.queue.len() == 0 {
            self.subs.insert(k, s);
            proof {
                assert(self.subs@ =~= old(self).subs@);
            }
            return None;
        }
        let m = s.queue.remove(0);
        s.read = Ghost(s.read@ + 1);
        proof {
            assert(sub_ok(s0, self.published@, self.cap as nat));
            assert(msgs_view(s.queue@) =~= msgs_view(s0.queue@).drop_first());
            assert(msgs_view(s0.queue@)[0] == self.published@[s0.read@ as int]);
            assert(m@ == msgs_view(s0.queue@)[0]);
        }
        self.subs.insert(k, s);
        proof {
            assert(self.subs@ =~= old(self).subs@.update(k as int, s));
            assert(msgs_view(s.queue@) =~= self.published@.subrange(
                s.read@ as int,
                self.published@.len() as int,
            ));
            assert(sub_ok(s, self.published@, self.cap as nat));
            assert forall|i: int| 0 <= i < self.subs@.len() implies #[trigger] sub_ok(
                self.subs@[i],
                self.published@,
                self.cap as nat,
            ) by {
                if i != k {
                    assert(self.subs@[i] == old(self).subs@[i]);
                }
            }
            assert forall|i: int, j: int|
                0 <= i < j < self.subs@.len() implies self.subs@[i].id != self.subs@[j].id by {
                assert(old(self).subs@[i].id != old(self).subs@[j].id);
            }
        }
        Some(m)
    }

    /// Releases the endpoint of subscriber `sid`, if it exists; every other
    /// subscriber keeps its buffer and its anchors unchanged. Releasing an
    /// unknown identifier is a no-op.
    pub fn unsubscribe(&mut self, sid: u64)
        requires
            old(self).wf(),
        ensures
            final(self).wf(),
            final(self).published == old(self).published,
            final(self).cap == old(self).cap,
            final(self).closed == old(self).closed,
            final(self).next_id == old(self).next_id,
            !has_sub(final(self).subs@, sid),
            if has_sub(old(self).subs@, sid) {
                final(self).subs@ == old(self).subs@.remove(sub_idx(old(self).subs@, sid))
            } else {
                final(self).subs@ == old(self).subs@
            },
    {
        let n = self.subs.len();
        let mut i: usize = 0;
        while i < n
            invariant
                old(self) == self,
                old(self).wf(),
                n == self.subs@.len(),
                i <= n,
                forall|j: int| 0 <= j < i ==> self.subs@[j].id != sid,
            decreases n - i,
        {
            if self.subs[i].id == sid {
                proof {
                    assert(self.subs@[i as int].id == sid);
                    lemma_sub_idx_unique(self.subs@, sid, i as int);
                    self.subs@.remove_ensures(i as int);
                }
                let ghost before = self.subs@;
                self.subs.remove(i);
                proof {
                    assert forall|a: int|
                        0 <= a < self.subs@.len() implies self.subs@[a].id != sid by {
                        before.remove_ensures(i as int);
                        if a < i {
                            assert(self.subs@[a] == before[a]);
                        } else {
                            assert(self.subs@[a] == before[a + 1]);
                        }
                    }
                    before.remove_ensures(i as int);
                    assert forall|a: int, b: int|
                        0 <= a < b < self.subs@.len() implies self.subs@[a].id
                        != self.subs@[b].id by {
                        before.remove_ensures(i as int);
                    }
                    assert forall|a: int| 0 <= a < self.subs@.len() implies #[trigger] sub_ok(
                        self.subs@[a],
                        self.published@,
                        self.cap as nat,
                    ) by {
                        before.remove_ensures(i as int);
                        if a < i {
                            assert(self.subs@[a] == before[a]);
                        } else {
                            assert(self.subs@[a] == before[a + 1]);
                        }
                    }
                }
                return;
            }
            i = i + 1;
        }
    }

    /// Shuts the fanout down: later publishes fail with `ClosedChannel`.
    /// Existing subscribers keep the messages already offered to them.
    pub fn shutdown(&mut self)
        requires
            old(self).wf(),
        ensures
            final(self).wf(),
            final(self).closed,
            final(self).published == old(self).published,
            final(self).cap == old(self).cap,
            final(self).next_id == old(self).next_id,
            final(self).subs@ == old(self).subs@,
    {
        self.closed = true;
    }

    /// The position of subscriber `sid`, which must exist.
    fn find_sub(&self, sid: u64) -> (k: usize)
        requires
            self.wf(),
            has_sub(self.subs@, sid),
        ensures
            k < self.subs@.len(),
            self.subs@[k as int].id == sid,
            k as int == sub_idx(self.subs@, sid),
    {
        let n = self.subs.len();
        let mut i: usize = 0;
        while i < n
            invariant
                self.wf(),
                has_sub(self.subs@, sid),
                n == self.subs@.len(),
                i <= n,
                forall|j: int| 0 <= j < i ==> self.subs@[j].id != sid,
            decreases n - i,
        {
            if self.subs[i].id == sid {
                proof {
                    lemma_sub_idx_unique(self.subs@, sid, i as int);
                }
                return i;
            }
            i = i + 1;
        }
        proof {
            let w = choose|j: int| 0 <= j < self.subs@.len() && self.subs@[j].id == sid;
            assert(false);
        }
        0
    }
}

/// With distinct identifiers, any position holding `id` is `sub_idx`.
proof fn lemma_sub_idx_unique(subs: Seq<Subscriber>, sid: u64, i: int)
    requires
        forall|a: int, b: int| 0 <= a < b < subs.len() ==> subs[a].id != subs[b].id,
        0 <= i < subs.len(),
        subs[i].id == sid,
    ensures
        has_sub(subs, sid),
        sub_idx(subs, sid) == i,
{
    assert(has_sub(subs, sid));
    let k = sub_idx(subs, sid);
    if k != i {
        if k < i {
            assert(subs[k].id != subs[i].id);
        } else {
            assert(subs[i].id != subs[k].id);
        }
    }
}

/// Offering one more published message keeps a subscriber's buffer equal
/// to its window of the publish order.
proof fn lemma_offer_preserves_ok(
    s0: Subscriber,
    s1: Subscriber,
    published: Seq<MsgView>,
    m: MsgView,
    cap: nat,
)
    requires
        cap >= 1,
        sub_ok(s0, published, cap),
        delivered(s0, s1, m, cap),
    ensures
        sub_ok(s1, published.push(m), cap),
{
    let p1 = published.push(m);
    assert(msgs_view(s1.queue@) =~= p1.subrange(s1.read@ as int, p1.len() as int));
}

/// Every message sitting in a subscriber's buffer was published at or
/// after the point where the subscriber joined, at the buffer's offset in
/// the publish order: the fanout never replays earlier traffic.
pub proof fn lemma_no_early_delivery(f: &Fanout, i: int)
    requires
        f.wf(),
        0 <= i < f.subs@.len(),
    ensures
        forall|k: int|
            0 <= k < f.subs@[i].queue@.len() ==> f.subs@[i].joined@ <= f.subs@[i].read@ + k
                && #[trigger] msgs_view(f.subs@[i].queue@)[k] == f.published@[f.subs@[i].read@ + k],
{
    assert(sub_ok(f.subs@[i], f.published@, f.cap as nat));
}

/// Removing one subscriber leaves every other identifier subscribed.
pub proof fn lemma_has_sub_remove(subs: Seq<Subscriber>, k: int, id: u64)
    requires
        0 <= k < subs.len(),
        has_sub(subs, id),
        subs[k].id != id,
    ensures
        has_sub(subs.remove(k), id),
{
    let w = choose|i: int| 0 <= i < subs.len() && subs[i].id == id;
    subs.remove_ensures(k);
    if w < k {
        assert(subs.remove(k)[w].id == id);
    } else {
        assert(subs.remove(k)[w - 1].id == id);
    }
}

/// A subscriber whose buffer has room for a whole sequence of messages is
/// offered exactly that sequence, appended in publish order: a subscriber
/// present for N publishes, absent overflow, receives exactly those N
/// messages in call order.
pub proof fn lemma_fanout_in_order(q: Seq<MsgView>, cap: nat, ms: Seq<MsgView>)
    requires
        q.len() + ms.len() <= cap,
    ensures
        offer_all(q, cap, ms) == q + ms,
    decreases ms.len(),
{
    if ms.len() == 0 {
        assert(offer_all(q, cap, ms) =~= q + ms);
    } else {
        assert(offered_queue(q, cap, ms[0]) == q.push(ms[0]));
        lemma_fanout_in_order(q.push(ms[0]), cap, ms.drop_first());
        assert(q.push(ms[0]) + ms.drop_first() =~= q + ms);
    }
}

} // verus!
