//! The hub: composition root over the registry, the fanout and the
//! per-connection sessions.
//!
//! The hub owns the only mutable shared state. `accept` admits a
//! connection, `activate` performs the session's entry actions (register,
//! subscribe), `handle_inbound_text` decodes and broadcasts one inbound
//! frame, `on_event` drives the session state machine for everything a
//! transport task observes, and `inject` publishes a message on behalf of
//! the server itself. The surrounding tasks perform I/O only: every
//! decision is taken here.
//!
//! Storage is a collaborator, not a component: `handle_inbound_text`
//! broadcasts first and hands the decoded message back for persistence, so
//! a failed persistence write can never keep a message from live
//! subscribers, and a failed history fetch merely replays nothing.

use vstd::prelude::*;

use crate::fanout::Fanout;
use crate::fanout::FanoutError;
use crate::fanout::Subscriber;
use crate::fanout::delivered;
use crate::fanout::has_sub;
use crate::fanout::lemma_has_sub_remove;
use crate::fanout::sub_idx;
use crate::msg::ChatMessage;
use crate::msg::broadcast_frame;
use crate::msg::broadcast_frame_of;
use crate::msg::copy_bytes;
use crate::msg::inbound_frame;
use crate::msg::parse_inbound;
use crate::msg::valid_sender;
use crate::registry::PresenceRecord;
use crate::registry::RecView;
use crate::registry::Registry;
use crate::session::SessionDirective;
use crate::session::SessionEvent;
use crate::session::SessionState;
use crate::session::session_step;
use crate::session::spec_step;

verus! {

/// Why a hub operation was refused.
#[derive(Debug, Clone, Copy, PartialEq, Eq, Structural)]
pub enum HubError {
    /// No session carries the named connection identifier.
    UnknownConnection,
    /// `activate` was called on a session that is past `Connecting`.
    NotConnecting,
}

/// What came of one inbound text frame.
pub enum InboundOutcome {
    /// The frame decoded and was broadcast; the carried message is handed
    /// back so the caller can offer it to the storage collaborator.
    Published(ChatMessage),
    /// The frame did not decode; it was skipped and the session stays up.
    Malformed,
    /// The fanout is shut down; the frame was dropped.
    PublishFailed,
    /// The session is not active; the frame was ignored.
    NotActive,
}

/// The hub's record of one session.
pub struct SessionRec {
    pub conn_id: u64,
    pub display_name: Vec<u8>,
    pub state: SessionState,
    /// The session's fanout endpoint; meaningful while the session is live.
    pub sub_id: u64,
}

/// A session is live while it holds a registry entry and a subscription.
pub open spec fn live(s: SessionRec) -> bool {
    s.state == SessionState::Active || s.state == SessionState::Draining
}

/// Whether some session carries connection identifier `cid`.
pub open spec fn has_session(ss: Seq<SessionRec>, cid: u64) -> bool {
    exists|i: int| 0 <= i < ss.len() && ss[i].conn_id == cid
}

/// The position of the session carrying `cid`.
pub open spec fn session_idx(ss: Seq<SessionRec>, cid: u64) -> int {
    choose|i: int| 0 <= i < ss.len() && ss[i].conn_id == cid
}

/// The composition root.
pub struct Hub {
    pub registry: Registry,
    pub fanout: Fanout,
    pub sessions: Vec<SessionRec>,
    pub next_conn: u64,
}

impl Hub {
    /// The hub's invariant: identifiers are distinct and fresh, exactly the
    /// live sessions hold registry entries, and every live session owns its
    /// own fanout endpoint.
    pub open spec fn wf(&self) -> bool {
        &&& self.registry.wf()
        &&& self.fanout.wf()
        &&& forall|i: int, j: int|
            0 <= i < j < self.sessions@.len() ==> self.sessions@[i].conn_id
                != self.sessions@[j].conn_id
        &&& forall|i: int|
            0 <= i < self.sessions@.len() ==> (#[trigger] self.sessions@[i]).conn_id
                < self.next_conn
        &&& forall|i: int|
            0 <= i < self.sessions@.len() && live(#[trigger] self.sessions@[i])
                ==> self.registry@.contains_key(self.sessions@[i].conn_id)
        &&& forall|id: u64| #[trigger]
            self.registry@.contains_key(id) ==> exists|i: int|
                0 <= i < self.sessions@.len() && (#[trigger] self.sessions@[i]).conn_id == id
                    && live(self.sessions@[i])
        &&& forall|i: int|
            0 <= i < self.sessions@.len() && live(#[trigger] self.sessions@[i]) ==> has_sub(
                self.fanout.subs@,
                self.sessions@[i].sub_id,
            )
        &&& forall|i: int, j: int|
            0 <= i < j < self.sessions@.len() && live(self.sessions@[i]) && live(
                self.sessions@[j],
            ) ==> self.sessions@[i].sub_id != self.sessions@[j].sub_id
    }

    /// A fresh hub whose fanout buffers `cap` messages per subscriber.
    pub fn new(cap: usize) -> (r: Hub)
        requires
            cap >= 1,
        ensures
            r.wf(),
            r.registry@ == Map::<u64, RecView>::empty(),
            r.sessions@.len() == 0,
            r.next_conn == 0,
            r.fanout.cap == cap,
            !r.fanout.closed,
            r.fanout.next_id == 0,
            r.fanout.published@.len() == 0,
    {
        Hub { registry: Registry::new(), fanout: Fanout::new(cap), sessions: Vec::new(), next_conn: 0 }
    }

    /// Admits a new transport connection under `display_name` and returns
    /// its fresh connection identifier. The session starts in `Connecting`:
    /// nothing is registered or subscribed yet.
    pub fn accept(&mut self, display_name: Vec<u8>) -> (cid: u64)
        requires
            old(self).wf(),
            old(self).next_conn < u64::MAX,
        ensures
            final(self).wf(),
            !has_session(old(self).sessions@, cid),
            final(self).registry == old(self).registry,
            final(self).fanout == old(self).fanout,
            final(self).next_conn == old(self).next_conn + 1,
            final(self).sessions@ == old(self).sessions@.push(
                (SessionRec {
                    conn_id: cid,
                    display_name: display_name,
                    state: SessionState::Connecting,
                    sub_id: 0,
                }),
            ),
    {
        let cid = self.next_conn;
        self.next_conn = self.next_conn + 1;
        self.sessions.push(
            SessionRec { conn_id: cid, display_name, state: SessionState::Connecting, sub_id: 0 },
        );
        proof {
            if has_session(old(self).sessions@, cid) {
                let w = choose|i: int|
                    0 <= i < old(self).sessions@.len() && old(self).sessions@[i].conn_id == cid;
                assert(old(self).sessions@[w].conn_id < cid);
            }
            assert forall|i: int|
                0 <= i < self.sessions@.len() && live(#[trigger] self.sessions@[i])
                    implies self.registry@.contains_key(self.sessions@[i].conn_id) by {
                if i < self.sessions@.len() - 1 {
                    assert(self.sessions@[i] == old(self).sessions@[i]);
                }
            }
            assert forall|id: u64| #[trigger]
                self.registry@.contains_key(id) implies exists|i: int|
                0 <= i < self.sessions@.len() && (#[trigger] self.sessions@[i]).conn_id == id
                    && live(self.sessions@[i]) by {
                let w = choose|i: int|
                    0 <= i < old(self).sessions@.len() && (#[trigger] old(self).sessions@[i]).conn_id
                        == id && live(old(self).sessions@[i]);
                assert(self.sessions@[w].conn_id == id && live(self.sessions@[w]));
            }
            assert forall|i: int|
                0 <= i < self.sessions@.len() && live(#[trigger] self.sessions@[i]) implies has_sub(
                self.fanout.subs@,
                self.sessions@[i].sub_id,
            ) by {
                if i < self.sessions@.len() - 1 {
                    assert(self.sessions@[i] == old(self).sessions@[i]);
                }
            }
        }
        cid
    }

    /// Performs the session's entry actions, in order: inserts its presence
    /// record (joined at `now`) and subscribes it to the fanout, so that it
    /// can only ever receive messages published from this point on. Succeeds
    /// exactly when `cid` names a session still in `Connecting`.
    pub fn activate(&mut self, cid: u64, now: u64) -> (r: Result<(), HubError>)
        requires
            old(self).wf(),
            old(self).fanout.next_id < u64::MAX,
        ensures
            final(self).wf(),
            match r {
                Ok(()) => {
                    let i = session_idx(old(self).sessions@, cid);
                    &&& has_session(old(self).sessions@, cid)
                    &&& old(self).sessions@[i].state == SessionState::Connecting
                    &&& final(self).sessions@.len() == old(self).sessions@.len()
                    &&& forall|j: int|
                        0 <= j < old(self).sessions@.len() && j != i ==> final(self).sessions@[j]
                            == old(self).sessions@[j]
                    &&& final(self).sessions@[i].conn_id == cid
                    &&& final(self).sessions@[i].state == SessionState::Active
                    &&& final(self).sessions@[i].display_name@ == old(
                        self,
                    ).sessions@[i].display_name@
                    &&& final(self).registry@ == old(self).registry@.insert(
                        cid,
                        (RecView {
                            conn_id: cid,
                            display_name: old(self).sessions@[i].display_name@,
                            joined_at: now,
                        }),
                    )
                    &&& final(self).fanout.published == old(self).fanout.published
                    &&& final(self).fanout.cap == old(self).fanout.cap
                    &&& final(self).fanout.closed == old(self).fanout.closed
                    &&& final(self).fanout.next_id == old(self).fanout.next_id + 1
                    &&& final(self).fanout.subs@.len() == old(self).fanout.subs@.len() + 1
                    &&& final(self).fanout.subs@.subrange(0, old(self).fanout.subs@.len() as int)
                        == old(self).fanout.subs@
                    &&& final(self).fanout.subs@.last().id == final(self).sessions@[i].sub_id
                    &&& final(self).fanout.subs@.last().queue@.len() == 0
                    &&& final(self).fanout.subs@.last().joined@ == old(
                        self,
                    ).fanout.published@.len()
                },
                Err(HubError::UnknownConnection) => {
                    &&& !has_session(old(self).sessions@, cid)
                    &&& *final(self) == *old(self)
                },
                Err(HubError::NotConnecting) => {
                    &&& has_session(old(self).sessions@, cid)
                    &&& old(self).sessions@[session_idx(old(self).sessions@, cid)].state
                        != SessionState::Connecting
                    &&& *final(self) == *old(self)
                },
            },
    {
        let oi = self.find_session(cid);
        let i = match oi {
            None => { return Err(HubError::UnknownConnection); },
            Some(i) => i,
        };
        let st = self.sessions[i].state;
        if st != SessionState::Connecting {
            return Err(HubError::NotConnecting);
        }
        let rec = PresenceRecord {
            conn_id: cid,
            display_name: copy_bytes(&self.sessions[i].display_name),
            joined_at: now,
        };
        proof {
            if self.registry@.contains_key(cid) {
                let w = choose|k: int|
                    0 <= k < self.sessions@.len() && (#[trigger] self.sessions@[k]).conn_id == cid
                        && live(self.sessions@[k]);
                if w < i as int {
                    assert(self.sessions@[w].conn_id != self.sessions@[i as int].conn_id);
                } else if w > i as int {
                    assert(self.sessions@[i as int].conn_id != self.sessions@[w].conn_id);
                }
                assert(false);
            }
        }
        match self.registry.add(rec) {
            Ok(()) => {},
            Err(_) => {
                proof {
                    assert(false);
                }
                return Err(HubError::UnknownConnection);
            },
        }
        let sid = self.fanout.subscribe();
        let mut s = self.sessions.remove(i);
        s.state = SessionState::Active;
        s.sub_id = sid;
        let ghost snew = s;
        self.sessions.insert(i, s);
        proof {
            assert(self.sessions@ =~= old(self).sessions@.update(i as int, snew));
            let osubs = old(self).fanout.subs@;
            assert forall|j: int|
                0 <= j < self.sessions@.len() && live(#[trigger] self.sessions@[j]) implies has_sub(
                self.fanout.subs@,
                self.sessions@[j].sub_id,
            ) by {
                if j == i as int {
                    assert(self.fanout.subs@.last().id == sid);
                    assert(self.fanout.subs@[self.fanout.subs@.len() - 1].id == sid);
                } else {
                    let w = choose|k: int|
                        0 <= k < osubs.len() && osubs[k].id == self.sessions@[j].sub_id;
                    assert(self.fanout.subs@.subrange(0, osubs.len() as int)[w] == osubs[w]);
                    assert(self.fanout.subs@[w].id == self.sessions@[j].sub_id);
                }
            }
            assert forall|a: int, b: int|
                0 <= a < b < self.sessions@.len() && live(self.sessions@[a]) && live(
                    self.sessions@[b],
                ) implies self.sessions@[a].sub_id != self.sessions@[b].sub_id by {
                if a != i as int && b != i as int {
                    assert(old(self).sessions@[a] == self.sessions@[a]);
                    assert(old(self).sessions@[b] == self.sessions@[b]);
                } else {
                    let o = if a == i as int {
                        b
                    } else {
                        a
                    };
                    assert(old(self).sessions@[o] == self.sessions@[o]);
                    assert(has_sub(osubs, self.sessions@[o].sub_id));
                    assert(!has_sub(osubs, sid));
                }
            }
            assert forall|id: u64| #[trigger]
                self.registry@.contains_key(id) implies exists|j: int|
                0 <= j < self.sessions@.len() && (#[trigger] self.sessions@[j]).conn_id == id
                    && live(self.sessions@[j]) by {
                if id == cid {
                    assert(self.sessions@[i as int].conn_id == id && live(
                        self.sessions@[i as int],
                    ));
                } else {
                    let w = choose|k: int|
                        0 <= k < old(self).sessions@.len() && (#[trigger] old(
                            self,
                        ).sessions@[k]).conn_id == id && live(old(self).sessions@[k]);
                    assert(w != i as int);
                    assert(self.sessions@[w].conn_id == id && live(self.sessions@[w]));
                }
            }
        }
        Ok(())
    }

    /// Decodes one inbound text frame from session `cid` and, when the
    /// session is active and the frame well-formed, broadcasts the carried
    /// message stamped with `now` to every live subscriber and hands it
    /// back for persistence. A malformed frame is skipped and the session
    /// stays active; a shut-down fanout fails this call only. Nothing here
    /// depends on the storage collaborator: the message reaches live
    /// subscribers whether or not its later persistence succeeds.
    pub fn handle_inbound_text(&mut self, cid: u64, frame: &Vec<u8>, now: u64) -> (r:
        InboundOutcome)
        requires
            old(self).wf(),
            has_session(old(self).sessions@, cid),
        ensures
            final(self).wf(),
            final(self).registry == old(self).registry,
            final(self).sessions == old(self).sessions,
            final(self).next_conn == old(self).next_conn,
            ({
                let st = old(self).sessions@[session_idx(old(self).sessions@, cid)].state;
                match r {
                    InboundOutcome::NotActive => st != SessionState::Active && *final(self) == *old(
                        self,
                    ),
                    InboundOutcome::Malformed => {
                        &&& st == SessionState::Active
                        &&& *final(self) == *old(self)
                        &&& forall|sn: Seq<u8>, bd: Seq<u8>|
                            valid_sender(sn) ==> frame@ != inbound_frame(sn, bd)
                    },
                    InboundOutcome::PublishFailed => {
                        &&& st == SessionState::Active
                        &&& old(self).fanout.closed
                        &&& *final(self) == *old(self)
                    },
                    InboundOutcome::Published(m) => {
                        &&& st == SessionState::Active
                        &&& !old(self).fanout.closed
                        &&& valid_sender(m.sender@)
                        &&& frame@ == inbound_frame(m.sender@, m.body@)
                        &&& m.observed_at == now
                        &&& final(self).fanout.published@ == old(self).fanout.published@.push(m@)
                        &&& final(self).fanout.cap == old(self).fanout.cap
                        &&& final(self).fanout.closed == old(self).fanout.closed
                        &&& final(self).fanout.subs@.len() == old(self).fanout.subs@.len()
                        &&& forall|i: int|
                            0 <= i < old(self).fanout.subs@.len() ==> delivered(
                                old(self).fanout.subs@[i],
                                #[trigger] final(self).fanout.subs@[i],
                                m@,
                                old(self).fanout.cap as nat,
                            )
                    },
                }
            }),
    {
        let i = match self.find_session(cid) {
            None => { proof { assert(false); } return InboundOutcome::NotActive; },
            Some(i) => i,
        };
        if self.sessions[i].state != SessionState::Active {
            return InboundOutcome::NotActive;
        }
        let m = match parse_inbound(frame, now) {
            None => { return InboundOutcome::Malformed; },
            Some(m) => m,
        };
        match self.fanout.publish(&m) {
            Ok(()) => {
                proof {
                    self.lemma_subs_ids_preserved(old(self), m@);
                }
                InboundOutcome::Published(m)
            },
            Err(FanoutError::ClosedChannel) => InboundOutcome::PublishFailed,
        }
    }

    /// Publishes a message on the hub's own behalf.
    pub fn inject(&mut self, m: &ChatMessage) -> (r: Result<(), FanoutError>)
        requires
            old(self).wf(),
        ensures
            final(self).wf(),
            final(self).registry == old(self).registry,
            final(self).sessions == old(self).sessions,
            final(self).next_conn == old(self).next_conn,
            match r {
                Err(FanoutError::ClosedChannel) => old(self).fanout.closed && *final(self) == *old(
                    self,
                ),
                Ok(()) => {
                    &&& !old(self).fanout.closed
                    &&& final(self).fanout.published@ == old(self).fanout.published@.push(m@)
                    &&& final(self).fanout.cap == old(self).fanout.cap
                    &&& final(self).fanout.closed == old(self).fanout.closed
                    &&& final(self).fanout.subs@.len() == old(self).fanout.subs@.len()
                    &&& forall|i: int|
                        0 <= i < old(self).fanout.subs@.len() ==> delivered(
                            old(self).fanout.subs@[i],
                            #[trigger] final(self).fanout.subs@[i],
                            m@,
                            old(self).fanout.cap as nat,
                        )
                },
            },
    {
        let r = self.fanout.publish(m);
        proof {
            if r is Ok {
                self.lemma_subs_ids_preserved(old(self), m@);
            }
        }
        r
    }

    /// Endpoint identifiers survive a publish, so live sessions stay
    /// subscribed.
    proof fn lemma_subs_ids_preserved(&self, pre: &Hub, m: crate::msg::MsgView)
        requires
            pre.wf(),
            self.registry == pre.registry,
            self.sessions == pre.sessions,
            self.fanout.subs@.len() == pre.fanout.subs@.len(),
            forall|i: int|
                0 <= i < pre.fanout.subs@.len() ==> delivered(
                    pre.fanout.subs@[i],
                    #[trigger] self.fanout.subs@[i],
                    m,
                    pre.fanout.cap as nat,
                ),
        ensures
            forall|i: int|
                0 <= i < self.sessions@.len() && live(#[trigger] self.sessions@[i]) ==> has_sub(
                    self.fanout.subs@,
                    self.sessions@[i].sub_id,
                ),
    {
        assert forall|i: int|
            0 <= i < self.sessions@.len() && live(#[trigger] self.sessions@[i]) implies has_sub(
            self.fanout.subs@,
            self.sessions@[i].sub_id,
        ) by {
            let w = choose|k: int|
                0 <= k < pre.fanout.subs@.len() && pre.fanout.subs@[k].id
                    == pre.sessions@[i].sub_id;
            assert(delivered(pre.fanout.subs@[w], self.fanout.subs@[w], m, pre.fanout.cap as nat));
            assert(self.fanout.subs@[w].id == self.sessions@[i].sub_id);
        }
    }

    /// Drives the session state machine for one observed event and performs
    /// whatever the ordered directive requires of the hub itself: on
    /// `Teardown` the presence record is removed and the fanout endpoint
    /// released, leaving every other session's record, endpoint and buffer
    /// untouched. Activation has its own entry point.
    pub fn on_event(&mut self, cid: u64, e: SessionEvent) -> (d: SessionDirective)
        requires
            old(self).wf(),
            has_session(old(self).sessions@, cid),
            e != SessionEvent::Activated,
        ensures
            final(self).wf(),
            final(self).next_conn == old(self).next_conn,
            final(self).fanout.published == old(self).fanout.published,
            final(self).fanout.cap == old(self).fanout.cap,
            final(self).fanout.closed == old(self).fanout.closed,
            final(self).sessions@.len() == old(self).sessions@.len(),
            ({
                let i = session_idx(old(self).sessions@, cid);
                let s0 = old(self).sessions@[i];
                &&& d == spec_step(s0.state, e).1
                &&& forall|j: int|
                    0 <= j < old(self).sessions@.len() && j != i ==> final(self).sessions@[j]
                        == old(self).sessions@[j]
                &&& final(self).sessions@[i].state == spec_step(s0.state, e).0
                &&& final(self).sessions@[i].conn_id == s0.conn_id
                &&& final(self).sessions@[i].sub_id == s0.sub_id
                &&& final(self).sessions@[i].display_name@ == s0.display_name@
                &&& if d == SessionDirective::Teardown {
                    &&& final(self).registry@ == old(self).registry@.remove(cid)
                    &&& !has_sub(final(self).fanout.subs@, s0.sub_id)
                    &&& final(self).fanout.subs@ == old(self).fanout.subs@.remove(
                        sub_idx(old(self).fanout.subs@, s0.sub_id),
                    )
                } else {
                    &&& final(self).registry == old(self).registry
                    &&& final(self).fanout.subs@ == old(self).fanout.subs@
                }
            }),
    {
        let i = match self.find_session(cid) {
            None => { proof { assert(false); } return SessionDirective::Ignore; },
            Some(i) => i,
        };
        let st = self.sessions[i].state;
        let (ns, dir) = session_step(st, e);
        let mut s = self.sessions.remove(i);
        s.state = ns;
        let sid = s.sub_id;
        let ghost snew = s;
        self.sessions.insert(i, s);
        proof {
            assert(self.sessions@ =~= old(self).sessions@.update(i as int, snew));
        }
        if dir == SessionDirective::Teardown {
            proof {
                crate::session::lemma_teardown_once(st, e);
                assert(live(old(self).sessions@[i as int]));
            }
            self.registry.remove(cid);
            let ghost presubs = self.fanout.subs@;
            self.fanout.unsubscribe(sid);
            proof {
                self.wf_after_teardown(old(self), cid, i as int, sid);
            }
        } else {
            proof {
                self.wf_after_plain_step(old(self), cid, i as int, e);
            }
        }
        dir
    }

    /// Re-establishes the invariant after a teardown step.
    proof fn wf_after_teardown(&self, pre: &Hub, cid: u64, i: int, sid: u64)
        requires
            pre.wf(),
            0 <= i < pre.sessions@.len(),
            pre.sessions@[i].conn_id == cid,
            live(pre.sessions@[i]),
            pre.sessions@[i].sub_id == sid,
            self.next_conn == pre.next_conn,
            self.sessions@.len() == pre.sessions@.len(),
            forall|j: int| 0 <= j < pre.sessions@.len() && j != i ==> self.sessions@[j] == pre.sessions@[j],
            self.sessions@[i].conn_id == cid,
            self.sessions@[i].sub_id == sid,
            self.sessions@[i].state == SessionState::Closed,
            self.registry.wf(),
            self.registry@ == pre.registry@.remove(cid),
            self.fanout.wf(),
            !has_sub(self.fanout.subs@, sid),
            self.fanout.subs@ == if has_sub(pre.fanout.subs@, sid) {
                pre.fanout.subs@.remove(sub_idx(pre.fanout.subs@, sid))
            } else {
                pre.fanout.subs@
            },
        ensures
            self.wf(),
    {
        assert forall|a: int, b: int|
            0 <= a < b < self.sessions@.len() implies self.sessions@[a].conn_id
            != self.sessions@[b].conn_id by {
            assert(pre.sessions@[a].conn_id != pre.sessions@[b].conn_id);
        }
        assert forall|j: int|
            0 <= j < self.sessions@.len() implies (#[trigger] self.sessions@[j]).conn_id
            < self.next_conn by {
            assert(pre.sessions@[j].conn_id < pre.next_conn);
        }
        assert forall|j: int|
            0 <= j < self.sessions@.len() && live(#[trigger] self.sessions@[j])
            implies self.registry@.contains_key(self.sessions@[j].conn_id) by {
            assert(j != i);
            assert(live(pre.sessions@[j]));
            assert(pre.registry@.contains_key(pre.sessions@[j].conn_id));
            if j < i {
                assert(pre.sessions@[j].conn_id != pre.sessions@[i].conn_id);
            } else {
                assert(pre.sessions@[i].conn_id != pre.sessions@[j].conn_id);
            }
        }
        assert forall|id: u64| #[trigger]
            self.registry@.contains_key(id) implies exists|j: int|
            0 <= j < self.sessions@.len() && (#[trigger] self.sessions@[j]).conn_id == id && live(
                self.sessions@[j],
            ) by {
            assert(pre.registry@.contains_key(id));
            assert(id != cid);
            let w = choose|k: int|
                0 <= k < pre.sessions@.len() && (#[trigger] pre.sessions@[k]).conn_id == id && live(
                    pre.sessions@[k],
                );
            assert(w != i);
            assert(self.sessions@[w].conn_id == id && live(self.sessions@[w]));
        }
        assert forall|j: int|
            0 <= j < self.sessions@.len() && live(#[trigger] self.sessions@[j]) implies has_sub(
            self.fanout.subs@,
            self.sessions@[j].sub_id,
        ) by {
            assert(j != i);
            assert(live(pre.sessions@[j]));
            assert(has_sub(pre.fanout.subs@, pre.sessions@[j].sub_id));
            if j < i {
                assert(pre.sessions@[j].sub_id != pre.sessions@[i].sub_id);
            } else {
                assert(pre.sessions@[i].sub_id != pre.sessions@[j].sub_id);
            }
            let k = sub_idx(pre.fanout.subs@, sid);
            assert(has_sub(pre.fanout.subs@, sid));
            assert(pre.fanout.subs@[k].id == sid);
            lemma_has_sub_remove(pre.fanout.subs@, k, self.sessions@[j].sub_id);
        }
        assert forall|a: int, b: int|
            0 <= a < b < self.sessions@.len() && live(self.sessions@[a]) && live(
                self.sessions@[b],
            ) implies self.sessions@[a].sub_id != self.sessions@[b].sub_id by {
            assert(a != i && b != i);
            assert(live(pre.sessions@[a]) && live(pre.sessions@[b]));
        }
    }

    /// Re-establishes the invariant after a step that touches no structure.
    proof fn wf_after_plain_step(&self, pre: &Hub, cid: u64, i: int, e: SessionEvent)
        requires
            pre.wf(),
            e != SessionEvent::Activated,
            0 <= i < pre.sessions@.len(),
            pre.sessions@[i].conn_id == cid,
            self.next_conn == pre.next_conn,
            self.registry == pre.registry,
            self.fanout == pre.fanout,
            self.sessions@.len() == pre.sessions@.len(),
            forall|j: int| 0 <= j < pre.sessions@.len() && j != i ==> self.sessions@[j] == pre.sessions@[j],
            self.sessions@[i].conn_id == cid,
            self.sessions@[i].sub_id == pre.sessions@[i].sub_id,
            self.sessions@[i].state == spec_step(pre.sessions@[i].state, e).0,
            spec_step(pre.sessions@[i].state, e).1 != SessionDirective::Teardown,
        ensures
            self.wf(),
    {
        // A non-teardown step never takes a session into or out of the live
        // states except Active -> Draining, so liveness is unchanged.
        assert(live(self.sessions@[i]) == live(pre.sessions@[i]));
        assert forall|a: int, b: int|
            0 <= a < b < self.sessions@.len() implies self.sessions@[a].conn_id
            != self.sessions@[b].conn_id by {
            assert(pre.sessions@[a].conn_id != pre.sessions@[b].conn_id);
        }
        assert forall|j: int|
            0 <= j < self.sessions@.len() implies (#[trigger] self.sessions@[j]).conn_id
            < self.next_conn by {
            assert(pre.sessions@[j].conn_id < pre.next_conn);
        }
        assert forall|j: int|
            0 <= j < self.sessions@.len() && live(#[trigger] self.sessions@[j])
            implies self.registry@.contains_key(self.sessions@[j].conn_id) by {
            assert(live(pre.sessions@[j]));
            assert(pre.registry@.contains_key(pre.sessions@[j].conn_id));
        }
        assert forall|id: u64| #[trigger]
            self.registry@.contains_key(id) implies exists|j: int|
            0 <= j < self.sessions@.len() && (#[trigger] self.sessions@[j]).conn_id == id && live(
                self.sessions@[j],
            ) by {
            let w = choose|k: int|
                0 <= k < pre.sessions@.len() && (#[trigger] pre.sessions@[k]).conn_id == id && live(
                    pre.sessions@[k],
                );
            assert(self.sessions@[w].conn_id == id && live(self.sessions@[w]));
        }
        assert forall|j: int|
            0 <= j < self.sessions@.len() && live(#[trigger] self.sessions@[j]) implies has_sub(
            self.fanout.subs@,
            self.sessions@[j].sub_id,
        ) by {
            assert(live(pre.sessions@[j]));
            assert(has_sub(pre.fanout.subs@, pre.sessions@[j].sub_id));
        }
        assert forall|a: int, b: int|
            0 <= a < b < self.sessions@.len() && live(self.sessions@[a]) && live(
                self.sessions@[b],
            ) implies self.sessions@[a].sub_id != self.sessions@[b].sub_id by {
            assert(live(pre.sessions@[a]) && live(pre.sessions@[b]));
        }
    }

    /// Hands out the next broadcast message queued for session `cid`, in
    /// publish order: `None` when the session is not live or nothing is
    /// pending. A returned message was published at or after the moment the
    /// session subscribed, never before.
    pub fn next_outbound(&mut self, cid: u64) -> (r: Option<ChatMessage>)
        requires
            old(self).wf(),
            has_session(old(self).sessions@, cid),
        ensures
            final(self).wf(),
            final(self).registry == old(self).registry,
            final(self).sessions == old(self).sessions,
            final(self).next_conn == old(self).next_conn,
            final(self).fanout.published == old(self).fanout.published,
            final(self).fanout.cap == old(self).fanout.cap,
            final(self).fanout.closed == old(self).fanout.closed,
            ({
                let s = old(self).sessions@[session_idx(old(self).sessions@, cid)];
                if live(s) {
                    let k = sub_idx(old(self).fanout.subs@, s.sub_id);
                    let b0 = old(self).fanout.subs@[k];
                    let b1 = final(self).fanout.subs@[k];
                    &&& final(self).fanout.subs@.len() == old(self).fanout.subs@.len()
                    &&& forall|j: int|
                        0 <= j < old(self).fanout.subs@.len() && j != k
                            ==> final(self).fanout.subs@[j] == old(self).fanout.subs@[j]
                    &&& match r {
                        None => b0.queue@.len() == 0 && b1 == b0,
                        Some(m) => {
                            &&& b0.queue@.len() > 0
                            &&& m@ == old(self).fanout.published@[b0.read@ as int]
                            &&& b0.joined@ <= b0.read@
                            &&& b1.read@ == b0.read@ + 1
                        },
                    }
                } else {
                    r is None && *final(self) == *old(self)
                }
            }),
    {
        let i = match self.find_session(cid) {
            None => { proof { assert(false); } return None; },
            Some(i) => i,
        };
        let st = self.sessions[i].state;
        if !(st == SessionState::Active || st == SessionState::Draining) {
            return None;
        }
        let sid = self.sessions[i].sub_id;
        let r = self.fanout.recv(sid);
        proof {
            let k = sub_idx(old(self).fanout.subs@, sid);
            assert forall|j: int|
                0 <= j < self.sessions@.len() && live(#[trigger] self.sessions@[j]) implies has_sub(
                self.fanout.subs@,
                self.sessions@[j].sub_id,
            ) by {
                let w = choose|q: int|
                    0 <= q < old(self).fanout.subs@.len() && old(self).fanout.subs@[q].id
                        == self.sessions@[j].sub_id;
                if w == k {
                    assert(self.fanout.subs@[w].id == old(self).fanout.subs@[w].id);
                } else {
                    assert(self.fanout.subs@[w] == old(self).fanout.subs@[w]);
                }
            }
        }
        r
    }

    /// Shuts the fanout down; later publishes fail with `ClosedChannel`.
    pub fn shutdown(&mut self)
        requires
            old(self).wf(),
        ensures
            final(self).wf(),
            final(self).registry == old(self).registry,
            final(self).sessions == old(self).sessions,
            final(self).next_conn == old(self).next_conn,
            final(self).fanout.closed,
            final(self).fanout.published == old(self).fanout.published,
            final(self).fanout.subs@ == old(self).fanout.subs@,
    {
        self.fanout.shutdown();
    }

    /// The current number of registered live connections.
    pub fn count(&self) -> (r: usize)
        requires
            self.wf(),
        ensures
            r == self.registry@.dom().len(),
    {
        self.registry.count()
    }

    /// An immutable copy of all presence records, for diagnostics.
    pub fn snapshot(&self) -> (r: Vec<PresenceRecord>)
        requires
            self.wf(),
        ensures
            r@.len() == self.registry@.dom().len(),
            forall|i: int|
                0 <= i < r@.len() ==> self.registry@.contains_key((#[trigger] r@[i]).conn_id),
            forall|i: int|
                0 <= i < r@.len() ==> self.registry@[(#[trigger] r@[i]).conn_id] == r@[i]@,
            forall|id: u64| #[trigger]
                self.registry@.contains_key(id) ==> exists|i: int|
                    0 <= i < r@.len() && r@[i].conn_id == id,
    {
        self.registry.snapshot()
    }

    /// Where the session carrying `cid` stands, if it exists.
    pub fn session_state(&self, cid: u64) -> (r: Option<SessionState>)
        requires
            self.wf(),
        ensures
            match r {
                None => !has_session(self.sessions@, cid),
                Some(st) => has_session(self.sessions@, cid) && st
                    == self.sessions@[session_idx(self.sessions@, cid)].state,
            },
    {
        match self.find_session(cid) {
            None => None,
            Some(i) => Some(self.sessions[i].state),
        }
    }

    /// The position of the session carrying `cid`, if any.
    fn find_session(&self, cid: u64) -> (r: Option<usize>)
        requires
            self.wf(),
        ensures
            match r {
                None => !has_session(self.sessions@, cid),
                Some(i) => {
                    &&& (i as int) < self.sessions@.len()
                    &&& self.sessions@[i as int].conn_id == cid
                    &&& i as int == session_idx(self.sessions@, cid)
                    &&& has_session(self.sessions@, cid)
                },
            },
    {
        let n = self.sessions.len();
        let mut i: usize = 0;
        while i < n
            invariant
                self.wf(),
                n == self.sessions@.len(),
                i <= n,
                forall|j: int| 0 <= j < i ==> self.sessions@[j].conn_id != cid,
            decreases n - i,
        {
            if self.sessions[i].conn_id == cid {
                proof {
                    lemma_session_idx_unique(self.sessions@, cid, i as int);
                }
                return Some(i);
            }
            i = i + 1;
        }
        None
    }
}

/// With distinct connection identifiers, any position holding `cid` is
/// `session_idx`.
proof fn lemma_session_idx_unique(ss: Seq<SessionRec>, cid: u64, i: int)
    requires
        forall|a: int, b: int| 0 <= a < b < ss.len() ==> ss[a].conn_id != ss[b].conn_id,
        0 <= i < ss.len(),
        ss[i].conn_id == cid,
    ensures
        has_session(ss, cid),
        session_idx(ss, cid) == i,
{
    assert(has_session(ss, cid));
    let k = session_idx(ss, cid);
    if k != i {
        if k < i {
            assert(ss[k].conn_id != ss[i].conn_id);
        } else {
            assert(ss[i].conn_id != ss[k].conn_id);
        }
    }
}

/// Formats persisted history for one-time replay to a newly joined
/// connection: one frame per message, of exactly the shape live broadcast
/// frames have, in the stored order.
pub fn replay_frames(history: &Vec<ChatMessage>) -> (r: Vec<Vec<u8>>)
    ensures
        r@.len() == history@.len(),
        forall|i: int| 0 <= i < r@.len() ==> #[trigger] r@[i]@ == broadcast_frame_of(history@[i]@),
{
    let n = history.len();
    let mut r: Vec<Vec<u8>> = Vec::new();
    let mut i: usize = 0;
    while i < n
        invariant
            n == history@.len(),
            i <= n,
            r@.len() == i,
            forall|j: int| 0 <= j < i ==> #[trigger] r@[j]@ == broadcast_frame_of(history@[j]@),
        decreases n - i,
    {
        r.push(broadcast_frame(&history[i]));
        i = i + 1;
    }
    r
}

/// A failed liveness probe evicts a session: a heartbeat failure on an
/// active session orders a drain, completing that drain closes the session
/// and orders its teardown, and a registry from which the teardown removed
/// the session's identifier no longer holds it.
pub proof fn lemma_heartbeat_eviction(reg: Map<u64, RecView>, cid: u64)
    ensures
        spec_step(SessionState::Active, SessionEvent::HeartbeatFailed) == (
            SessionState::Draining,
            SessionDirective::BeginDrain,
        ),
        spec_step(SessionState::Draining, SessionEvent::DrainComplete) == (
            SessionState::Closed,
            SessionDirective::Teardown,
        ),
        !reg.remove(cid).contains_key(cid),
{
}

} // verus!
