//! Rendezvous: how a sender waits for the peer that knows its passcode, and
//! how a receiver looks for its sender.
//!
//! Both sides are state machines. The caller owns the sockets: it reports
//! what happened as an event and performs the action that comes back.

use vstd::prelude::*;
use vstd::slice::slice_to_vec;
use vstd::string::StrSliceExecFns;
use vstd::string::StringSliceAdditionalSpecFns;
use crate::error::{error_of_io_kind, FileTransferError, IoErrorKind};
use crate::passcode::{passcode_matches, valid_passcode, validate_passcode};

verus! {

/// The number of failed attempts after which a session gives up, unless the
/// caller sets another budget.
pub const MAX_RETRIES: u32 = 3;

/// Where a sender session stands.
#[derive(Clone, Copy, Debug, PartialEq, Eq, Structural)]
pub enum SenderPhase {
    /// Nothing is bound yet.
    Idle,
    /// The listener is bound; the next connection attempt is awaited.
    AwaitingPeer,
    /// A peer presented the passcode; the transfer runs on its connection.
    Paired,
    /// The file was delivered.
    Completed,
    /// The session ended without delivering the file.
    Failed(FileTransferError),
}

/// What the caller observed on the sender's sockets.
#[derive(Debug)]
pub enum SenderEvent {
    /// The listening endpoint was bound.
    Bound,
    /// The listening endpoint could not be bound.
    BindFailed,
    /// Accepting a connection attempt failed.
    AcceptFailed,
    /// An announcement went out and no peer came before the next was due.
    NoPeer,
    /// A peer connected and presented these bytes as its passcode.
    PeerPresented(Vec<u8>),
    /// A peer connected, but its passcode could not be read.
    HandshakeFailed(IoErrorKind),
    /// The transfer on the paired connection delivered the whole file.
    TransferFinished,
    /// The transfer on the paired connection failed.
    TransferFailed(FileTransferError),
}

/// What the caller does next for a sender session.
#[derive(Clone, Copy, Debug, PartialEq, Eq, Structural)]
pub enum SenderAction {
    /// Bind the listening endpoint.
    Bind,
    /// Accept the next connection attempt and read the passcode it presents;
    /// where peers are found by broadcast, announce the session meanwhile.
    Accept,
    /// Send the header and the file, from its first byte, to the paired peer.
    Transfer,
    /// Close everything: the file was delivered.
    Succeed,
    /// Close everything and report the failure.
    Fail(FileTransferError),
}

/// The mathematical state of a sender session.
pub struct SenderModel {
    pub passcode: Seq<u8>,
    pub retry_budget: nat,
    pub retries: nat,
    pub phase: SenderPhase,
}

impl SenderModel {
    /// The retries never pass the budget, and a session that still waits or
    /// transfers has budget left.
    pub open spec fn well_formed(self) -> bool {
        &&& self.retries <= self.retry_budget
        &&& (self.phase == SenderPhase::AwaitingPeer || self.phase == SenderPhase::Paired)
            ==> self.retries < self.retry_budget
    }

    pub open spec fn with_phase(self, phase: SenderPhase) -> SenderModel {
        SenderModel { phase, ..self }
    }

    /// Goes back to waiting if budget is left, else fails with `exhausted`.
    pub open spec fn await_or_fail(self, exhausted: FileTransferError) -> SenderModel {
        if self.retries < self.retry_budget {
            self.with_phase(SenderPhase::AwaitingPeer)
        } else {
            self.with_phase(SenderPhase::Failed(exhausted))
        }
    }

    /// Counts one failed attempt, then waits again or fails with `exhausted`.
    pub open spec fn retried(self, exhausted: FileTransferError) -> SenderModel {
        SenderModel { retries: self.retries + 1, ..self }.await_or_fail(exhausted)
    }
}

/// The sender's transition function.
///
/// A wrong passcode changes nothing: the session keeps waiting and no retry
/// is counted. A failed accept, an announcement that no peer answered and a
/// timed-out transfer each count one retry; when the budget is used up the
/// first ends the session with `ConnectionFailed`, the other two with
/// `Timeout`. Every other transfer failure, and a passcode that cannot be
/// read, ends the session at once. An event that does not belong to the
/// current phase is ignored.
pub open spec fn sender_step(s: SenderModel, event: SenderEvent) -> SenderModel {
    match s.phase {
        SenderPhase::Idle => match event {
            SenderEvent::Bound => s.await_or_fail(FileTransferError::Timeout),
            SenderEvent::BindFailed => s.with_phase(
                SenderPhase::Failed(FileTransferError::Timeout),
            ),
            _ => s,
        },
        SenderPhase::AwaitingPeer => match event {
            SenderEvent::AcceptFailed => s.retried(FileTransferError::ConnectionFailed),
            SenderEvent::NoPeer => s.retried(FileTransferError::Timeout),
            SenderEvent::PeerPresented(presented) => if presented@ == s.passcode {
                s.with_phase(SenderPhase::Paired)
            } else {
                s
            },
            SenderEvent::HandshakeFailed(kind) => s.with_phase(
                SenderPhase::Failed(error_of_io_kind(kind)),
            ),
            _ => s,
        },
        SenderPhase::Paired => match event {
            SenderEvent::TransferFinished => s.with_phase(SenderPhase::Completed),
            SenderEvent::TransferFailed(error) => if error == FileTransferError::Timeout {
                s.retried(FileTransferError::Timeout)
            } else {
                s.with_phase(SenderPhase::Failed(error))
            },
            _ => s,
        },
        SenderPhase::Completed => s,
        SenderPhase::Failed(_) => s,
    }
}

/// What the caller has to do while the session is in `phase`.
pub open spec fn sender_action(phase: SenderPhase) -> SenderAction {
    match phase {
        SenderPhase::Idle => SenderAction::Bind,
        SenderPhase::AwaitingPeer => SenderAction::Accept,
        SenderPhase::Paired => SenderAction::Transfer,
        SenderPhase::Completed => SenderAction::Succeed,
        SenderPhase::Failed(error) => SenderAction::Fail(error),
    }
}

/// The state after a row of events, taken in order.
pub open spec fn sender_run(s: SenderModel, events: Seq<SenderEvent>) -> SenderModel
    decreases events.len(),
{
    if events.len() == 0 {
        s
    } else {
        sender_run(sender_step(s, events[0]), events.drop_first())
    }
}

/// What a sender broadcasts so that receivers can find it.
#[derive(Debug)]
pub struct RendezvousAnnouncement {
    pub passcode: Vec<u8>,
    pub filename: Vec<u8>,
    pub session_token: u128,
}

/// One sender's wait for the peer that knows its passcode.
#[derive(Debug)]
pub struct SenderSession {
    passcode: Vec<u8>,
    retry_budget: u32,
    retries: u32,
    phase: SenderPhase,
}

impl View for SenderSession {
    type V = SenderModel;

    closed spec fn view(&self) -> SenderModel {
        SenderModel {
            passcode: self.passcode@,
            retry_budget: self.retry_budget as nat,
            retries: self.retries as nat,
            phase: self.phase,
        }
    }
}

impl SenderSession {
    /// The invariant of a session: its model is well formed.
    pub open spec fn wf(&self) -> bool {
        self@.well_formed()
    }

    /// A session for `passcode` that gives up after `retry_budget` failed
    /// attempts. Nothing is bound yet.
    pub fn new(passcode: Vec<u8>, retry_budget: u32) -> (session: SenderSession)
        ensures
            session.wf(),
            session@ == (SenderModel {
                passcode: passcode@,
                retry_budget: retry_budget as nat,
                retries: 0,
                phase: SenderPhase::Idle,
            }),
    {
        SenderSession { passcode, retry_budget, retries: 0, phase: SenderPhase::Idle }
    }

    /// Where the session stands.
    pub fn phase(&self) -> (phase: SenderPhase)
        ensures
            phase == self@.phase,
    {
        self.phase
    }

    /// The failed attempts counted so far.
    pub fn retries(&self) -> (retries: u32)
        ensures
            retries == self@.retries,
    {
        self.retries
    }

    /// The passcode that a peer has to present.
    pub fn passcode(&self) -> (passcode: &Vec<u8>)
        ensures
            passcode@ == self@.passcode,
    {
        &self.passcode
    }

    /// The announcement of this session for a file called `filename`.
    pub fn announcement(&self, filename: &Vec<u8>, session_token: u128) -> (announcement:
        RendezvousAnnouncement)
        ensures
            announcement.passcode@ == self@.passcode,
            announcement.filename@ == filename@,
            announcement.session_token == session_token,
    {
        RendezvousAnnouncement {
            passcode: slice_to_vec(self.passcode.as_slice()),
            filename: slice_to_vec(filename.as_slice()),
            session_token,
        }
    }

    /// What the caller has to do now.
    pub fn action(&self) -> (action: SenderAction)
        ensures
            action == sender_action(self@.phase),
    {
        match self.phase {
            SenderPhase::Idle => SenderAction::Bind,
            SenderPhase::AwaitingPeer => SenderAction::Accept,
            SenderPhase::Paired => SenderAction::Transfer,
            SenderPhase::Completed => SenderAction::Succeed,
            SenderPhase::Failed(error) => SenderAction::Fail(error),
        }
    }

    fn await_or_fail(&mut self, exhausted: FileTransferError)
        requires
            old(self)@.retries <= old(self)@.retry_budget,
        ensures
            final(self)@ == old(self)@.await_or_fail(exhausted),
            final(self).wf(),
    {
        if self.retries < self.retry_budget {
            self.phase = SenderPhase::AwaitingPeer;
        } else {
            self.phase = SenderPhase::Failed(exhausted);
        }
    }

    fn retried(&mut self, exhausted: FileTransferError)
        requires
            old(self)@.retries < old(self)@.retry_budget,
        ensures
            final(self)@ == old(self)@.retried(exhausted),
            final(self).wf(),
    {
        self.retries = self.retries + 1;
        self.await_or_fail(exhausted);
    }

    /// Takes one event and answers with what the caller has to do next: the
    /// session moves as `sender_step` says, and the answer is the action of
    /// the phase it has moved to.
    pub fn on_event(&mut self, event: SenderEvent) -> (action: SenderAction)
        requires
            old(self).wf(),
        ensures
            final(self).wf(),
            final(self)@ == sender_step(old(self)@, event),
            action == sender_action(final(self)@.phase),
    {
        match self.phase {
            SenderPhase::Idle => match event {
                SenderEvent::Bound => {
                    self.await_or_fail(FileTransferError::Timeout);
                },
                SenderEvent::BindFailed => {
                    self.phase = SenderPhase::Failed(FileTransferError::Timeout);
                },
                _ => {},
            },
            SenderPhase::AwaitingPeer => match event {
                SenderEvent::AcceptFailed => {
                    self.retried(FileTransferError::ConnectionFailed);
                },
                SenderEvent::NoPeer => {
                    self.retried(FileTransferError::Timeout);
                },
                SenderEvent::PeerPresented(presented) => {
                    if passcode_matches(&self.passcode, &presented) {
                        self.phase = SenderPhase::Paired;
                    }
                },
                SenderEvent::HandshakeFailed(kind) => {
                    self.phase = SenderPhase::Failed(FileTransferError::from(kind));
                },
                _ => {},
            },
            SenderPhase::Paired => match event {
                SenderEvent::TransferFinished => {
                    self.phase = SenderPhase::Completed;
                },
                SenderEvent::TransferFailed(error) => {
                    if error == FileTransferError::Timeout {
                        self.retried(FileTransferError::Timeout);
                    } else {
                        self.phase = SenderPhase::Failed(error);
                    }
                },
                _ => {},
            },
            SenderPhase::Completed => {},
            SenderPhase::Failed(_) => {},
        }
        self.action()
    }
}

/// Whatever happens, a sender session stays well formed, keeps its passcode
/// and its budget, and never takes a counted retry back; once it has
/// completed or failed it stays as it is.
pub proof fn lemma_sender_step_invariant(s: SenderModel, event: SenderEvent)
    requires
        s.well_formed(),
    ensures
        sender_step(s, event).well_formed(),
        sender_step(s, event).passcode == s.passcode,
        sender_step(s, event).retry_budget == s.retry_budget,
        s.retries <= sender_step(s, event).retries <= s.retries + 1,
        (s.phase == SenderPhase::Completed || s.phase is Failed) ==> sender_step(s, event) == s,
{
}

/// Whether `event` is a peer presenting something other than `passcode`.
pub open spec fn is_wrong_attempt(event: SenderEvent, passcode: Seq<u8>) -> bool {
    event matches SenderEvent::PeerPresented(presented) && presented@ != passcode
}

/// However many peers present a wrong passcode, a waiting sender is left
/// exactly as it was: still waiting, with no retry counted.
pub proof fn lemma_wrong_passcodes_change_nothing(s: SenderModel, attempts: Seq<SenderEvent>)
    requires
        s.phase == SenderPhase::AwaitingPeer,
        forall|i: int|
            0 <= i < attempts.len() ==> is_wrong_attempt(#[trigger] attempts[i], s.passcode),
    ensures
        sender_run(s, attempts) == s,
    decreases attempts.len(),
{
    if attempts.len() > 0 {
        assert(is_wrong_attempt(attempts[0], s.passcode));
        assert(sender_step(s, attempts[0]) == s);
        let rest = attempts.drop_first();
        assert forall|i: int| 0 <= i < rest.len() implies is_wrong_attempt(
            #[trigger] rest[i],
            s.passcode,
        ) by {
            assert(rest[i] == attempts[i + 1]);
        }
        lemma_wrong_passcodes_change_nothing(s, rest);
    }
}

/// After any number of wrong passcodes, the peer that presents the right one
/// is still paired with.
pub proof fn lemma_right_passcode_pairs_after_wrong_ones(
    s: SenderModel,
    attempts: Seq<SenderEvent>,
    presented: Vec<u8>,
)
    requires
        s.phase == SenderPhase::AwaitingPeer,
        forall|i: int|
            0 <= i < attempts.len() ==> is_wrong_attempt(#[trigger] attempts[i], s.passcode),
        presented@ == s.passcode,
    ensures
        sender_step(sender_run(s, attempts), SenderEvent::PeerPresented(presented)).phase
            == SenderPhase::Paired,
        sender_step(sender_run(s, attempts), SenderEvent::PeerPresented(presented)).retries
            == s.retries,
{
    lemma_wrong_passcodes_change_nothing(s, attempts);
}

/// Where a receiver session stands.
#[derive(Clone, Copy, Debug, PartialEq, Eq, Structural)]
pub enum ReceiverPhase {
    /// Nothing was tried yet.
    Idle,
    /// The sender is being looked for.
    Searching,
    /// A candidate was found; the passcode is being presented to it.
    Connecting,
    /// The sender took the passcode; the transfer runs on this connection.
    Paired,
    /// The session ended without a pairing.
    Failed(FileTransferError),
}

/// What the caller observed on the receiver's sockets.
#[derive(Clone, Copy, Debug, PartialEq, Eq, Structural)]
pub enum ReceiverEvent {
    /// The search began.
    Started,
    /// An address was found at which the sender may be.
    CandidateFound,
    /// The search came up with nothing.
    SearchFailed(IoErrorKind),
    /// The passcode went out and the sender answered.
    PasscodeAccepted,
    /// Connecting failed, or the connection broke before the sender
    /// answered the passcode.
    AttemptFailed(IoErrorKind),
}

/// What the caller does next for a receiver session.
#[derive(Clone, Copy, Debug, PartialEq, Eq, Structural)]
pub enum ReceiverAction {
    /// Begin to look for the sender.
    Begin,
    /// Look for the sender: listen for announcements, or take the address
    /// that was configured.
    Search,
    /// Connect to the candidate and present the passcode.
    Present,
    /// Read the header and the file from the paired connection.
    Receive,
    /// Close everything and report the failure.
    Fail(FileTransferError),
}

/// The mathematical state of a receiver session.
pub struct ReceiverModel {
    pub passcode: Seq<u8>,
    pub retry_budget: nat,
    pub retries: nat,
    pub phase: ReceiverPhase,
}

/// The failure that a receiver out of budget ends with: a timeout if its
/// last attempt timed out, else a failed connection.
pub open spec fn exhausted_error(kind: IoErrorKind) -> FileTransferError {
    if error_of_io_kind(kind) == FileTransferError::Timeout {
        FileTransferError::Timeout
    } else {
        FileTransferError::ConnectionFailed
    }
}

impl ReceiverModel {
    /// The retries never pass the budget, and a session that still searches
    /// or connects has budget left.
    pub open spec fn well_formed(self) -> bool {
        &&& self.retries <= self.retry_budget
        &&& (self.phase == ReceiverPhase::Searching || self.phase == ReceiverPhase::Connecting)
            ==> self.retries < self.retry_budget
    }

    pub open spec fn with_phase(self, phase: ReceiverPhase) -> ReceiverModel {
        ReceiverModel { phase, ..self }
    }

    /// Searches on if budget is left, else fails with `exhausted`.
    pub open spec fn search_or_fail(self, exhausted: FileTransferError) -> ReceiverModel {
        if self.retries < self.retry_budget {
            self.with_phase(ReceiverPhase::Searching)
        } else {
            self.with_phase(ReceiverPhase::Failed(exhausted))
        }
    }

    /// Counts one failed attempt of kind `kind`, then searches on or fails.
    pub open spec fn retried(self, kind: IoErrorKind) -> ReceiverModel {
        ReceiverModel { retries: self.retries + 1, ..self }.search_or_fail(exhausted_error(kind))
    }
}

/// The receiver's transition function.
///
/// A failed search and a failed attempt each count one retry and send the
/// session back to searching; when the budget is used up the session fails.
/// An event that does not belong to the current phase is ignored.
pub open spec fn receiver_step(s: ReceiverModel, event: ReceiverEvent) -> ReceiverModel {
    match s.phase {
        ReceiverPhase::Idle => match event {
            ReceiverEvent::Started => s.search_or_fail(FileTransferError::Timeout),
            _ => s,
        },
        ReceiverPhase::Searching => match event {
            ReceiverEvent::CandidateFound => s.with_phase(ReceiverPhase::Connecting),
            ReceiverEvent::SearchFailed(kind) => s.retried(kind),
            _ => s,
        },
        ReceiverPhase::Connecting => match event {
            ReceiverEvent::PasscodeAccepted => s.with_phase(ReceiverPhase::Paired),
            ReceiverEvent::AttemptFailed(kind) => s.retried(kind),
            _ => s,
        },
        ReceiverPhase::Paired => s,
        ReceiverPhase::Failed(_) => s,
    }
}

/// Whatever happens, a receiver session stays well formed, keeps its
/// passcode and its budget, and never takes a counted retry back; once it
/// is paired or has failed it stays as it is.
pub proof fn lemma_receiver_step_invariant(s: ReceiverModel, event: ReceiverEvent)
    requires
        s.well_formed(),
    ensures
        receiver_step(s, event).well_formed(),
        receiver_step(s, event).passcode == s.passcode,
        receiver_step(s, event).retry_budget == s.retry_budget,
        s.retries <= receiver_step(s, event).retries <= s.retries + 1,
        (s.phase == ReceiverPhase::Paired || s.phase is Failed) ==> receiver_step(s, event) == s,
{
}

/// What the caller has to do while the session is in `phase`.
pub open spec fn receiver_action(phase: ReceiverPhase) -> ReceiverAction {
    match phase {
        ReceiverPhase::Idle => ReceiverAction::Begin,
        ReceiverPhase::Searching => ReceiverAction::Search,
        ReceiverPhase::Connecting => ReceiverAction::Present,
        ReceiverPhase::Paired => ReceiverAction::Receive,
        ReceiverPhase::Failed(error) => ReceiverAction::Fail(error),
    }
}

/// One receiver's search for the sender that holds its passcode.
#[derive(Debug)]
pub struct ReceiverSession {
    passcode: Vec<u8>,
    retry_budget: u32,
    retries: u32,
    phase: ReceiverPhase,
}

impl View for ReceiverSession {
    type V = ReceiverModel;

    closed spec fn view(&self) -> ReceiverModel {
        ReceiverModel {
            passcode: self.passcode@,
            retry_budget: self.retry_budget as nat,
            retries: self.retries as nat,
            phase: self.phase,
        }
    }
}

impl ReceiverSession {
    /// The invariant of a session: its model is well formed.
    pub open spec fn wf(&self) -> bool {
        self@.well_formed()
    }

    /// A session that looks for the sender holding `passcode` and gives up
    /// after `retry_budget` failed attempts. The passcode is checked here,
    /// before anything touches the network: an invalid one yields no
    /// session at all.
    pub fn new(passcode: &str, retry_budget: u32) -> (result: Result<
        ReceiverSession,
        FileTransferError,
    >)
        ensures
            valid_passcode(passcode@) ==> result is Ok && result.unwrap().wf() && result.unwrap()@
                == (ReceiverModel {
                passcode: passcode.spec_bytes(),
                retry_budget: retry_budget as nat,
                retries: 0,
                phase: ReceiverPhase::Idle,
            }),
            !valid_passcode(passcode@) ==> result is Err && result.unwrap_err()
                == FileTransferError::InvalidPasscode,
    {
        match validate_passcode(passcode) {
            Ok(()) => Ok(
                ReceiverSession {
                    passcode: passcode.as_bytes_vec(),
                    retry_budget,
                    retries: 0,
                    phase: ReceiverPhase::Idle,
                },
            ),
            Err(error) => Err(error),
        }
    }

    /// Where the session stands.
    pub fn phase(&self) -> (phase: ReceiverPhase)
        ensures
            phase == self@.phase,
    {
        self.phase
    }

    /// The failed attempts counted so far.
    pub fn retries(&self) -> (retries: u32)
        ensures
            retries == self@.retries,
    {
        self.retries
    }

    /// The bytes to present to the sender.
    pub fn passcode(&self) -> (passcode: &Vec<u8>)
        ensures
            passcode@ == self@.passcode,
    {
        &self.passcode
    }

    /// What the caller has to do now.
    pub fn action(&self) -> (action: ReceiverAction)
        ensures
            action == receiver_action(self@.phase),
    {
        match self.phase {
            ReceiverPhase::Idle => ReceiverAction::Begin,
            ReceiverPhase::Searching => ReceiverAction::Search,
            ReceiverPhase::Connecting => ReceiverAction::Present,
            ReceiverPhase::Paired => ReceiverAction::Receive,
            ReceiverPhase::Failed(error) => ReceiverAction::Fail(error),
        }
    }

    fn search_or_fail(&mut self, exhausted: FileTransferError)
        requires
            old(self)@.retries <= old(self)@.retry_budget,
        ensures
            final(self)@ == old(self)@.search_or_fail(exhausted),
            final(self).wf(),
    {
        if self.retries < self.retry_budget {
            self.phase = ReceiverPhase::Searching;
        } else {
            self.phase = ReceiverPhase::Failed(exhausted);
        }
    }

    fn retried(&mut self, kind: IoErrorKind)
        requires
            old(self)@.retries < old(self)@.retry_budget,
        ensures
            final(self)@ == old(self)@.retried(kind),
            final(self).wf(),
    {
        let exhausted = if FileTransferError::from(kind) == FileTransferError::Timeout {
            FileTransferError::Timeout
        } else {
            FileTransferError::ConnectionFailed
        };
        self.retries = self.retries + 1;
        self.search_or_fail(exhausted);
    }

    /// Takes one event and answers with what the caller has to do next: the
    /// session moves as `receiver_step` says, and the answer is the action
    /// of the phase it has moved to.
    pub fn on_event(&mut self, event: ReceiverEvent) -> (action: ReceiverAction)
        requires
            old(self).wf(),
        ensures
            final(self).wf(),
            final(self)@ == receiver_step(old(self)@, event),
            action == receiver_action(final(self)@.phase),
    {
        match self.phase {
            ReceiverPhase::Idle => match event {
                ReceiverEvent::Started => {
                    self.search_or_fail(FileTransferError::Timeout);
                },
                _ => {},
            },
            ReceiverPhase::Searching => match event {
                ReceiverEvent::CandidateFound => {
                    self.phase = ReceiverPhase::Connecting;
                },
                ReceiverEvent::SearchFailed(kind) => {
                    self.retried(kind);
                },
                _ => {},
            },
            ReceiverPhase::Connecting => match event {
                ReceiverEvent::PasscodeAccepted => {
                    self.phase = ReceiverPhase::Paired;
                },
                ReceiverEvent::AttemptFailed(kind) => {
                    self.retried(kind);
                },
                _ => {},
            },
            ReceiverPhase::Paired => {},
            ReceiverPhase::Failed(_) => {},
        }
        self.action()
    }

    /// Whether an announcement is from the sender looked for: its passcode
    /// is, byte for byte, the session's.
    pub fn accepts(&self, announcement: &RendezvousAnnouncement) -> (accepted: bool)
        ensures
            accepted == (announcement.passcode@ == self@.passcode),
    {
        passcode_matches(&self.passcode, &announcement.passcode)
    }

    /// The first of the announcements heard that is from the sender looked
    /// for. Announcements with another passcode are passed over in silence;
    /// `None` means that none of them matched.
    pub fn select_announcement(&self, heard: &Vec<RendezvousAnnouncement>) -> (chosen: Option<
        usize,
    >)
        ensures
            match chosen {
                Some(index) => {
                    &&& index < heard@.len()
                    &&& heard@[index as int].passcode@ == self@.passcode
                    &&& forall|j: int|
                        0 <= j < index ==> (#[trigger] heard@[j]).passcode@ != self@.passcode
                },
                None => forall|j: int|
                    0 <= j < heard@.len() ==> (#[trigger] heard@[j]).passcode@ != self@.passcode,
            },
    {
        let mut i: usize = 0;
        while i < heard.len()
            invariant
                i <= heard@.len(),
                forall|j: int| 0 <= j < i ==> (#[trigger] heard@[j]).passcode@ != self@.passcode,
            decreases heard@.len() - i,
        {
            if self.accepts(&heard[i]) {
                return Some(i);
            }
            i += 1;
        }
        None
    }
}

} // verus!
