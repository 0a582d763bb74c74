//! The session state machine: greeting, then one mail transaction at a
//! time — sender, recipients, data — with quit legal in every live state.
//! Each step takes a parsed command and decides whether it is legal in the
//! current state, what the session becomes, and what reply to send; a
//! command illegal in its state is a protocol violation, which ends the
//! session without a reply.

use vstd::prelude::*;

use crate::CR;
use crate::LF;
use crate::parser::Command;
use crate::parser::SpecCommand;

verus! {

/// The byte `.`: a data line of just this byte ends the message body.
pub const DOT: u8 = 46;

/// Where in the exchange a session stands.
#[derive(PartialEq, Eq, Structural, Clone, Copy, Debug)]
pub enum SessionState {
    AwaitGreeting,
    AwaitMailFrom,
    AwaitRcptTo,
    CollectingData,
    Closed,
}

/// The mathematical image of a session: its fields as sequences.
pub struct SpecSession {
    pub client_hostname: Option<Seq<u8>>,
    pub sender: Option<Seq<u8>>,
    pub recipients: Seq<Seq<u8>>,
    pub in_data_mode: bool,
    pub terminated: bool,
}

/// An optional owned byte string, seen as an optional byte sequence.
pub open spec fn opt_bytes_view(o: Option<Vec<u8>>) -> Option<Seq<u8>> {
    match o {
        Some(v) => Some(v@),
        None => None,
    }
}

/// A list of owned byte strings, seen as a sequence of byte sequences.
pub open spec fn seq_bytes_view(v: Seq<Vec<u8>>) -> Seq<Seq<u8>> {
    Seq::new(v.len(), |i: int| v[i]@)
}

/// One connection's session: who greeted, the transaction's envelope so
/// far, and whether the body or the end of the connection has been
/// reached. Mutated only by the state machine's own steps.
pub struct Session {
    client_hostname: Option<Vec<u8>>,
    sender: Option<Vec<u8>>,
    recipients: Vec<Vec<u8>>,
    in_data_mode: bool,
    terminated: bool,
}

impl View for Session {
    type V = SpecSession;

    closed spec fn view(&self) -> SpecSession {
        SpecSession {
            client_hostname: opt_bytes_view(self.client_hostname),
            sender: opt_bytes_view(self.sender),
            recipients: seq_bytes_view(self.recipients@),
            in_data_mode: self.in_data_mode,
            terminated: self.terminated,
        }
    }
}

/// The state a session's fields put it in: closed once terminated,
/// collecting while in data mode, and otherwise decided by how much of
/// the envelope is filled in.
pub open spec fn spec_state_of(s: SpecSession) -> SessionState {
    if s.terminated {
        SessionState::Closed
    } else if s.in_data_mode {
        SessionState::CollectingData
    } else if s.client_hostname is None {
        SessionState::AwaitGreeting
    } else if s.sender is None {
        SessionState::AwaitMailFrom
    } else {
        SessionState::AwaitRcptTo
    }
}

/// The ordering invariant: a sender only after a greeting, recipients
/// only after a sender, the body only once a recipient exists, and never
/// past the end of the session.
pub open spec fn spec_wf(s: SpecSession) -> bool {
    &&& s.sender is Some ==> s.client_hostname is Some
    &&& s.recipients.len() > 0 ==> s.sender is Some
    &&& s.in_data_mode ==> s.recipients.len() > 0 && !s.terminated
}

/// A fresh session, before any command.
pub open spec fn spec_init() -> SpecSession {
    SpecSession {
        client_hostname: None,
        sender: None,
        recipients: Seq::empty(),
        in_data_mode: false,
        terminated: false,
    }
}

/// What one step hands back: the reply to send, or notice that the
/// command was illegal in the current state.
pub enum SessionOutcome {
    Reply(Vec<u8>),
    Violation,
}

/// The mathematical image of an outcome.
pub enum SpecOutcome {
    Reply(Seq<u8>),
    Violation,
}

impl View for SessionOutcome {
    type V = SpecOutcome;

    open spec fn view(&self) -> SpecOutcome {
        match self {
            SessionOutcome::Reply(v) => SpecOutcome::Reply(v@),
            SessionOutcome::Violation => SpecOutcome::Violation,
        }
    }
}

/// The reply `250 Ok` with its terminator.
pub open spec fn spec_reply_ok() -> Seq<u8> {
    seq![50u8, 53u8, 48u8, 32u8, 79u8, 107u8, 13u8, 10u8]
}

/// The reply `221 Bye` with its terminator.
pub open spec fn spec_reply_bye() -> Seq<u8> {
    seq![50u8, 50u8, 49u8, 32u8, 66u8, 121u8, 101u8, 13u8, 10u8]
}

/// The reply `250 Hello <hostname>` with its terminator.
pub open spec fn spec_reply_hello(host: Seq<u8>) -> Seq<u8> {
    seq![50u8, 53u8, 48u8, 32u8, 72u8, 101u8, 108u8, 108u8, 111u8, 32u8] + host + seq![CR, LF]
}

/// The reply `354 End data with <CR><LF>.<CR><LF>` with its terminator.
pub open spec fn spec_reply_data_go() -> Seq<u8> {
    seq![
        51u8, 53u8, 52u8, 32u8, 69u8, 110u8, 100u8, 32u8, 100u8, 97u8, 116u8, 97u8, 32u8, 119u8,
        105u8, 116u8, 104u8, 32u8, 60u8, 67u8, 82u8, 62u8, 60u8, 76u8, 70u8, 62u8, 46u8, 60u8,
        67u8, 82u8, 62u8, 60u8, 76u8, 70u8, 62u8, 13u8, 10u8,
    ]
}

/// The greeting `220 <hostname> ESMTP <agent>` with its terminator.
pub open spec fn spec_greeting(host: Seq<u8>, agent: Seq<u8>) -> Seq<u8> {
    seq![50u8, 50u8, 48u8, 32u8] + host + seq![32u8, 69u8, 83u8, 77u8, 84u8, 80u8, 32u8] + agent
        + seq![CR, LF]
}

/// What one command does to a session: in each state the legal commands
/// move the session on and name their reply; everything else, `Invalid`
/// and `Unknown` included, is a violation and changes nothing. `Quit` is
/// legal in every state this function is asked about.
pub open spec fn spec_step(s: SpecSession, c: SpecCommand) -> (SpecSession, SpecOutcome) {
    match spec_state_of(s) {
        SessionState::AwaitGreeting => match c {
            SpecCommand::Helo(h) => (
                SpecSession { client_hostname: Some(h), ..s },
                SpecOutcome::Reply(spec_reply_hello(h)),
            ),
            SpecCommand::Ehlo(h) => (
                SpecSession { client_hostname: Some(h), ..s },
                SpecOutcome::Reply(spec_reply_hello(h)),
            ),
            SpecCommand::Quit => (
                SpecSession { terminated: true, ..s },
                SpecOutcome::Reply(spec_reply_bye()),
            ),
            _ => (s, SpecOutcome::Violation),
        },
        SessionState::AwaitMailFrom => match c {
            SpecCommand::MailFrom(a) => (
                SpecSession { sender: Some(a), ..s },
                SpecOutcome::Reply(spec_reply_ok()),
            ),
            SpecCommand::Quit => (
                SpecSession { terminated: true, ..s },
                SpecOutcome::Reply(spec_reply_bye()),
            ),
            _ => (s, SpecOutcome::Violation),
        },
        SessionState::AwaitRcptTo => match c {
            SpecCommand::RcptTo(a) => (
                SpecSession { recipients: s.recipients.push(a), ..s },
                SpecOutcome::Reply(spec_reply_ok()),
            ),
            SpecCommand::Data => if s.recipients.len() > 0 {
                (SpecSession { in_data_mode: true, ..s }, SpecOutcome::Reply(spec_reply_data_go()))
            } else {
                (s, SpecOutcome::Violation)
            },
            SpecCommand::Quit => (
                SpecSession { terminated: true, ..s },
                SpecOutcome::Reply(spec_reply_bye()),
            ),
            _ => (s, SpecOutcome::Violation),
        },
        SessionState::CollectingData => (s, SpecOutcome::Violation),
        SessionState::Closed => (s, SpecOutcome::Violation),
    }
}

/// What one body line does to a collecting session: the terminator line,
/// a single dot, ends collection and is acknowledged; every other line is
/// body content and draws no reply.
pub open spec fn spec_data_step(s: SpecSession, line: Seq<u8>) -> (SpecSession, Option<Seq<u8>>) {
    if line == seq![DOT] {
        (SpecSession { in_data_mode: false, ..s }, Some(spec_reply_ok()))
    } else {
        (s, None)
    }
}

/// An optional reply, seen at the mathematical level.
pub open spec fn opt_reply_view(r: Option<Vec<u8>>) -> Option<Seq<u8>> {
    match r {
        Some(v) => Some(v@),
        None => None,
    }
}

/// Appends every byte of `s` to `v`.
fn push_bytes(v: &mut Vec<u8>, s: &[u8])
    ensures
        final(v)@ == old(v)@ + s@,
{
    let n = s.len();
    let mut i: usize = 0;
    while i < n
        invariant
            n == s@.len(),
            0 <= i <= n,
            v@ == old(v)@ + s@.take(i as int),
        decreases n - i,
    {
        let b = s[i];
        v.push(b);
        proof {
            assert(old(v)@ + s@.take(i as int) + seq![s@[i as int]] =~= old(v)@ + s@.take(
                i as int + 1,
            ));
        }
        i = i + 1;
    }
    proof {
        assert(s@.take(n as int) =~= s@);
    }
}

/// The reply `250 Ok` as wire bytes.
fn reply_ok() -> (v: Vec<u8>)
    ensures
        v@ == spec_reply_ok(),
{
    let mut v: Vec<u8> = Vec::new();
    v.push(50);
    v.push(53);
    v.push(48);
    v.push(32);
    v.push(79);
    v.push(107);
    v.push(CR);
    v.push(LF);
    proof {
        assert(v@ =~= spec_reply_ok());
    }
    v
}

/// The reply `221 Bye` as wire bytes.
fn reply_bye() -> (v: Vec<u8>)
    ensures
        v@ == spec_reply_bye(),
{
    let mut v: Vec<u8> = Vec::new();
    v.push(50);
    v.push(50);
    v.push(49);
    v.push(32);
    v.push(66);
    v.push(121);
    v.push(101);
    v.push(CR);
    v.push(LF);
    proof {
        assert(v@ =~= spec_reply_bye());
    }
    v
}

/// The reply `250 Hello <hostname>` as wire bytes.
fn reply_hello(host: &[u8]) -> (v: Vec<u8>)
    ensures
        v@ == spec_reply_hello(host@),
{
    let mut v: Vec<u8> = Vec::new();
    v.push(50);
    v.push(53);
    v.push(48);
    v.push(32);
    v.push(72);
    v.push(101);
    v.push(108);
    v.push(108);
    v.push(111);
    v.push(32);
    push_bytes(&mut v, host);
    v.push(CR);
    v.push(LF);
    proof {
        assert(v@ =~= spec_reply_hello(host@));
    }
    v
}

/// The reply `354 End data with <CR><LF>.<CR><LF>` as wire bytes.
fn reply_data_go() -> (v: Vec<u8>)
    ensures
        v@ == spec_reply_data_go(),
{
    let mut v: Vec<u8> = Vec::new();
    v.push(51);
    v.push(53);
    v.push(52);
    v.push(32);
    v.push(69);
    v.push(110);
    v.push(100);
    v.push(32);
    v.push(100);
    v.push(97);
    v.push(116);
    v.push(97);
    v.push(32);
    v.push(119);
    v.push(105);
    v.push(116);
    v.push(104);
    v.push(32);
    v.push(60);
    v.push(67);
    v.push(82);
    v.push(62);
    v.push(60);
    v.push(76);
    v.push(70);
    v.push(62);
    v.push(46);
    v.push(60);
    v.push(67);
    v.push(82);
    v.push(62);
    v.push(60);
    v.push(76);
    v.push(70);
    v.push(62);
    v.push(CR);
    v.push(LF);
    proof {
        assert(v@ =~= spec_reply_data_go());
    }
    v
}

/// The greeting `220 <hostname> ESMTP <agent>` as wire bytes: the line the
/// server sends as soon as a connection opens.
pub fn greeting_line(server_hostname: &[u8], agent: &[u8]) -> (v: Vec<u8>)
    ensures
        v@ == spec_greeting(server_hostname@, agent@),
{
    let mut v: Vec<u8> = Vec::new();
    v.push(50);
    v.push(50);
    v.push(48);
    v.push(32);
    push_bytes(&mut v, server_hostname);
    v.push(32);
    v.push(69);
    v.push(83);
    v.push(77);
    v.push(84);
    v.push(80);
    v.push(32);
    push_bytes(&mut v, agent);
    v.push(CR);
    v.push(LF);
    proof {
        assert(v@ =~= spec_greeting(server_hostname@, agent@));
    }
    v
}

impl Session {
    /// A fresh session, waiting for the client's greeting.
    pub fn new() -> (s: Session)
        ensures
            s@ == spec_init(),
            spec_wf(s@),
    {
        let s = Session {
            client_hostname: None,
            sender: None,
            recipients: Vec::new(),
            in_data_mode: false,
            terminated: false,
        };
        proof {
            assert(s@.recipients =~= spec_init().recipients);
        }
        s
    }

    /// The state the session stands in.
    pub fn state(&self) -> (st: SessionState)
        ensures
            st == spec_state_of(self@),
    {
        if self.terminated {
            SessionState::Closed
        } else if self.in_data_mode {
            SessionState::CollectingData
        } else if self.client_hostname.is_none() {
            SessionState::AwaitGreeting
        } else if self.sender.is_none() {
            SessionState::AwaitMailFrom
        } else {
            SessionState::AwaitRcptTo
        }
    }

    /// Whether body lines, not commands, are expected next.
    pub fn in_data_mode(&self) -> (b: bool)
        ensures
            b == self@.in_data_mode,
    {
        self.in_data_mode
    }

    /// Whether the session has ended and accepts nothing further.
    pub fn is_terminated(&self) -> (b: bool)
        ensures
            b == self@.terminated,
    {
        self.terminated
    }

    /// The hostname the client greeted with, if it has.
    pub fn client_hostname(&self) -> (r: &Option<Vec<u8>>)
        ensures
            opt_bytes_view(*r) == self@.client_hostname,
    {
        &self.client_hostname
    }

    /// The transaction's sender, if one has been accepted.
    pub fn sender(&self) -> (r: &Option<Vec<u8>>)
        ensures
            opt_bytes_view(*r) == self@.sender,
    {
        &self.sender
    }

    /// The recipients accepted so far, in the order they were sent.
    pub fn recipients(&self) -> (r: &Vec<Vec<u8>>)
        ensures
            seq_bytes_view(r@) == self@.recipients,
    {
        &self.recipients
    }

    /// Feeds one parsed command to the session, which must be live and
    /// awaiting commands: the step is exactly `spec_step`.
    pub fn handle_command(&mut self, cmd: Command) -> (r: SessionOutcome)
        requires
            spec_wf(old(self)@),
            spec_state_of(old(self)@) != SessionState::CollectingData,
            spec_state_of(old(self)@) != SessionState::Closed,
        ensures
            spec_wf(final(self)@),
            (final(self)@, r@) == spec_step(old(self)@, cmd@),
    {
        let st = self.state();
        match st {
            SessionState::AwaitGreeting => match cmd {
                Command::Helo(h) => {
                    let reply = reply_hello(h.as_slice());
                    self.client_hostname = Some(h);
                    SessionOutcome::Reply(reply)
                },
                Command::Ehlo(h) => {
                    let reply = reply_hello(h.as_slice());
                    self.client_hostname = Some(h);
                    SessionOutcome::Reply(reply)
                },
                Command::Quit => {
                    self.terminated = true;
                    SessionOutcome::Reply(reply_bye())
                },
                _ => SessionOutcome::Violation,
            },
            SessionState::AwaitMailFrom => match cmd {
                Command::MailFrom(a) => {
                    self.sender = Some(a);
                    SessionOutcome::Reply(reply_ok())
                },
                Command::Quit => {
                    self.terminated = true;
                    SessionOutcome::Reply(reply_bye())
                },
                _ => SessionOutcome::Violation,
            },
            SessionState::AwaitRcptTo => match cmd {
                Command::RcptTo(a) => {
                    let ghost before = self@.recipients;
                    let ghost addr = a@;
                    self.recipients.push(a);
                    proof {
                        assert(self@.recipients =~= before.push(addr));
                    }
                    SessionOutcome::Reply(reply_ok())
                },
                Command::Data => {
                    if self.recipients.len() > 0 {
                        self.in_data_mode = true;
                        SessionOutcome::Reply(reply_data_go())
                    } else {
                        SessionOutcome::Violation
                    }
                },
                Command::Quit => {
                    self.terminated = true;
                    SessionOutcome::Reply(reply_bye())
                },
                _ => SessionOutcome::Violation,
            },
            SessionState::CollectingData => SessionOutcome::Violation,
            SessionState::Closed => SessionOutcome::Violation,
        }
    }

    /// Feeds one body line, its terminator already stripped, to a session
    /// that is collecting data: the step is exactly `spec_data_step`.
    pub fn handle_data_line(&mut self, line: &[u8]) -> (r: Option<Vec<u8>>)
        requires
            spec_wf(old(self)@),
            spec_state_of(old(self)@) == SessionState::CollectingData,
        ensures
            spec_wf(final(self)@),
            (final(self)@, opt_reply_view(r)) == spec_data_step(old(self)@, line@),
    {
        if line.len() == 1 && line[0] == DOT {
            proof {
                assert(line@ =~= seq![DOT]);
            }
            self.in_data_mode = false;
            Some(reply_ok())
        } else {
            proof {
                assert(line@ != seq![DOT]);
            }
            None
        }
    }
}

/// Every step keeps the session's ordering invariant: a sender only after
/// a greeting, recipients only after a sender, the body only once a
/// recipient exists.
pub proof fn lemma_step_preserves_wf(s: SpecSession, c: SpecCommand)
    requires
        spec_wf(s),
    ensures
        spec_wf(spec_step(s, c).0),
{
}

/// A closed session accepts nothing: every command is a violation and
/// changes nothing.
pub proof fn lemma_closed_accepts_nothing(s: SpecSession, c: SpecCommand)
    requires
        spec_state_of(s) == SessionState::Closed,
    ensures
        spec_step(s, c) == (s, SpecOutcome::Violation),
{
}

/// Repeating a recipient command while recipients are awaited always
/// succeeds and appends: two recipient commands in a row are both
/// acknowledged, leave the session awaiting recipients, and extend the
/// recipient list by the two addresses in the order they were sent,
/// overwriting nothing.
pub proof fn lemma_rcpt_repeat_appends(s: SpecSession, a1: Seq<u8>, a2: Seq<u8>)
    requires
        spec_wf(s),
        spec_state_of(s) == SessionState::AwaitRcptTo,
    ensures
        ({
            let (s1, o1) = spec_step(s, SpecCommand::RcptTo(a1));
            let (s2, o2) = spec_step(s1, SpecCommand::RcptTo(a2));
            &&& o1 == SpecOutcome::Reply(spec_reply_ok())
            &&& o2 == SpecOutcome::Reply(spec_reply_ok())
            &&& spec_wf(s1) && spec_state_of(s1) == SessionState::AwaitRcptTo
            &&& spec_wf(s2) && spec_state_of(s2) == SessionState::AwaitRcptTo
            &&& s1.recipients == s.recipients.push(a1)
            &&& s2.recipients == s.recipients.push(a1).push(a2)
        }),
{
}

} // verus!
