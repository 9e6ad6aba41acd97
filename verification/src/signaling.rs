//! The signaling relay: who offered a session under which passcode, and to
//! whom a message is passed on.
//!
//! The relay keeps one session per passcode. The caller owns the socket: it
//! hands each message in with the address it came from and sends the
//! message on to the address that comes back, if one does.

use vstd::prelude::*;

verus! {

/// The kinds of signaling message.
#[derive(Clone, Copy, Debug, PartialEq, Eq, Structural)]
pub enum SignalingMessageType {
    Offer,
    Answer,
    IceCandidate,
}

/// A socket address as plain values. An IPv4 address fills the low 32 bits
/// of `ip`; `flow_info` and `scope_id` are zero for it.
#[derive(Clone, Copy, Debug, PartialEq, Eq, Structural)]
pub struct PeerAddr {
    pub is_v6: bool,
    pub ip: u128,
    pub port: u16,
    pub flow_info: u32,
    pub scope_id: u32,
}

/// One signaling message. The session's identifier travels as the 128 bits
/// of its UUID.
#[derive(Debug)]
pub struct SignalingMessage {
    pub session_id: u128,
    pub passcode: String,
    pub message_type: SignalingMessageType,
    pub payload: String,
}

/// What the relay knows of one session.
#[derive(Clone, Copy, Debug)]
pub struct SessionInfo {
    pub id: u128,
    pub sender_addr: PeerAddr,
    pub receiver_addr: Option<PeerAddr>,
}

/// The relay's transition function: the sessions after a message of kind
/// `message_type` for `passcode` arrived from `addr`, and the address the
/// message is passed on to, if any.
///
/// An offer opens the session of its passcode, or opens it anew. An answer
/// to an open session notes where the receiver is and goes to the sender.
/// An ICE candidate for an open session goes to the other peer: to the
/// receiver, if one is known, when it came from the sender, else to the
/// sender. Messages for a passcode without a session are dropped.
pub open spec fn relay_step(
    sessions: Map<Seq<char>, SessionInfo>,
    message_type: SignalingMessageType,
    passcode: Seq<char>,
    session_id: u128,
    addr: PeerAddr,
) -> (Map<Seq<char>, SessionInfo>, Option<PeerAddr>) {
    match message_type {
        SignalingMessageType::Offer => (
            sessions.insert(
                passcode,
                SessionInfo { id: session_id, sender_addr: addr, receiver_addr: None },
            ),
            None,
        ),
        SignalingMessageType::Answer => if sessions.dom().contains(passcode) {
            (
                sessions.insert(
                    passcode,
                    SessionInfo { receiver_addr: Some(addr), ..sessions[passcode] },
                ),
                Some(sessions[passcode].sender_addr),
            )
        } else {
            (sessions, None)
        },
        SignalingMessageType::IceCandidate => if sessions.dom().contains(passcode) {
            (
                sessions,
                if addr == sessions[passcode].sender_addr {
                    sessions[passcode].receiver_addr
                } else {
                    Some(sessions[passcode].sender_addr)
                },
            )
        } else {
            (sessions, None)
        },
    }
}

/// The sessions a relay holds, one per passcode.
#[derive(Debug)]
pub struct SessionRegistry {
    passcodes: Vec<String>,
    infos: Vec<SessionInfo>,
}

impl View for SessionRegistry {
    type V = Map<Seq<char>, SessionInfo>;

    closed spec fn view(&self) -> Map<Seq<char>, SessionInfo> {
        Map::new(|k: Seq<char>| self.holds(k), |k: Seq<char>| self.infos@[self.index_of(k)])
    }
}

impl SessionRegistry {
    /// Whether a session is held under `passcode`.
    spec fn holds(&self, passcode: Seq<char>) -> bool {
        exists|i: int| 0 <= i < self.passcodes@.len() && (#[trigger] self.passcodes@[i])@ == passcode
    }

    /// The place of the session held under `passcode`.
    spec fn index_of(&self, passcode: Seq<char>) -> int {
        choose|i: int| 0 <= i < self.passcodes@.len() && (#[trigger] self.passcodes@[i])@ == passcode
    }

    /// The invariant of a registry: no passcode is held twice.
    pub closed spec fn wf(&self) -> bool {
        &&& self.passcodes@.len() == self.infos@.len()
        &&& forall|i: int, j: int|
            0 <= i < j < self.passcodes@.len() ==> (#[trigger] self.passcodes@[i])@ != (
            #[trigger] self.passcodes@[j])@
    }

    proof fn lemma_index(&self, i: int)
        requires
            self.wf(),
            0 <= i < self.passcodes@.len(),
        ensures
            self.holds(self.passcodes@[i]@),
            self.index_of(self.passcodes@[i]@) == i,
            self@.dom().contains(self.passcodes@[i]@),
            self@[self.passcodes@[i]@] == self.infos@[i],
    {
        let k = self.passcodes@[i]@;
        assert(self.passcodes@[i]@ == k);
        let j = self.index_of(k);
        assert(0 <= j < self.passcodes@.len() && self.passcodes@[j]@ == k);
        if i < j {
            assert(self.passcodes@[i]@ != self.passcodes@[j]@);
        } else if j < i {
            assert(self.passcodes@[j]@ != self.passcodes@[i]@);
        }
    }

    /// A registry without sessions.
    pub fn new() -> (registry: SessionRegistry)
        ensures
            registry.wf(),
            registry@ == Map::<Seq<char>, SessionInfo>::empty(),
    {
        let registry = SessionRegistry { passcodes: Vec::new(), infos: Vec::new() };
        assert(registry@ =~= Map::<Seq<char>, SessionInfo>::empty());
        registry
    }

    fn find(&self, passcode: &String) -> (found: Option<usize>)
        requires
            self.wf(),
        ensures
            match found {
                Some(i) => i < self.passcodes@.len() && self.passcodes@[i as int]@ == passcode@,
                None => !self.holds(passcode@),
            },
    {
        let mut i: usize = 0;
        while i < self.passcodes.len()
            invariant
                i <= self.passcodes@.len(),
                forall|j: int| 0 <= j < i ==> (#[trigger] self.passcodes@[j])@ != passcode@,
            decreases self.passcodes@.len() - i,
        {
            if self.passcodes[i] == *passcode {
                return Some(i);
            }
            i += 1;
        }
        None
    }

    /// The session held under `passcode`, if there is one.
    pub fn session(&self, passcode: &String) -> (info: Option<SessionInfo>)
        requires
            self.wf(),
        ensures
            self@.dom().contains(passcode@) ==> info == Some(self@[passcode@]),
            !self@.dom().contains(passcode@) ==> info.is_none(),
    {
        match self.find(passcode) {
            Some(i) => {
                proof {
                    self.lemma_index(i as int);
                }
                Some(self.infos[i])
            },
            None => None,
        }
    }

    fn put(&mut self, passcode: &String, info: SessionInfo)
        requires
            old(self).wf(),
        ensures
            final(self).wf(),
            final(self)@ == old(self)@.insert(passcode@, info),
    {
        match self.find(passcode) {
            Some(i) => {
                self.infos.set(i, info);
                proof {
                    assert(self.passcodes@ == old(self).passcodes@);
                    assert forall|k: Seq<char>| self.holds(k) == old(self).holds(k) by {
                        if self.holds(k) {
                            let j = self.index_of(k);
                            assert(old(self).passcodes@[j]@ == k);
                        }
                        if old(self).holds(k) {
                            let j = old(self).index_of(k);
                            assert(self.passcodes@[j]@ == k);
                        }
                    }
                    assert forall|k: Seq<char>| self.holds(k) implies #[trigger] self@[k] == old(
                        self,
                    )@.insert(passcode@, info)[k] by {
                        let j = self.index_of(k);
                        self.lemma_index(j);
                        old(self).lemma_index(j);
                        self.lemma_index(i as int);
                    }
                    old(self).lemma_index(i as int);
                    assert(self@ =~= old(self)@.insert(passcode@, info));
                }
            },
            None => {
                self.passcodes.push(passcode.clone());
                self.infos.push(info);
                proof {
                    let last = old(self).passcodes@.len() as int;
                    assert(self.passcodes@[last]@ == passcode@);
                    assert forall|i: int, j: int|
                        0 <= i < j < self.passcodes@.len() implies (#[trigger] self.passcodes@[i])@
                        != (#[trigger] self.passcodes@[j])@ by {
                        if j == last {
                            assert(old(self).passcodes@[i]@ != passcode@);
                        } else {
                            assert(old(self).passcodes@[i]@ != old(self).passcodes@[j]@);
                        }
                    }
                    assert forall|k: Seq<char>| self.holds(k) == (old(self).holds(k) || k
                        == passcode@) by {
                        if self.holds(k) {
                            let j = self.index_of(k);
                            if j < last {
                                assert(old(self).passcodes@[j]@ == k);
                            }
                        }
                        if old(self).holds(k) {
                            let j = old(self).index_of(k);
                            assert(self.passcodes@[j]@ == k);
                        }
                    }
                    assert forall|k: Seq<char>| self.holds(k) implies #[trigger] self@[k] == old(
                        self,
                    )@.insert(passcode@, info)[k] by {
                        let j = self.index_of(k);
                        self.lemma_index(j);
                        if j < last {
                            assert(old(self).passcodes@[j]@ == k);
                            old(self).lemma_index(j);
                        }
                    }
                    assert(self@ =~= old(self)@.insert(passcode@, info));
                }
            },
        }
    }

    /// Takes one message that arrived from `addr`, and answers with the
    /// address to pass it on to, if any: the registry moves as `relay_step`
    /// says.
    pub fn handle_message(&mut self, message: &SignalingMessage, addr: PeerAddr) -> (target:
        Option<PeerAddr>)
        requires
            old(self).wf(),
        ensures
            final(self).wf(),
            (final(self)@, target) == relay_step(
                old(self)@,
                message.message_type,
                message.passcode@,
                message.session_id,
                addr,
            ),
    {
        match message.message_type {
            SignalingMessageType::Offer => {
                self.put(
                    &message.passcode,
                    SessionInfo { id: message.session_id, sender_addr: addr, receiver_addr: None },
                );
                None
            },
            SignalingMessageType::Answer => {
                match self.session(&message.passcode) {
                    Some(session) => {
                        self.put(
                            &message.passcode,
                            SessionInfo { receiver_addr: Some(addr), ..session },
                        );
                        Some(session.sender_addr)
                    },
                    None => None,
                }
            },
            SignalingMessageType::IceCandidate => {
                match self.session(&message.passcode) {
                    Some(session) => {
                        if addr == session.sender_addr {
                            session.receiver_addr
                        } else {
                            Some(session.sender_addr)
                        }
                    },
                    None => None,
                }
            },
        }
    }
}

} // verus!
