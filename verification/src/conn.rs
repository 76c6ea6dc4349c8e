//! One connection: the bytes received and not yet decoded, the bytes to send
//! next, and the steps of receiving, waiting and shaking hands.
//!
//! The connection owns no socket. Whoever owns it writes `outgoing_bytes` to
//! the server, hands what the server sends to `feed`, and measures the time
//! that each receive has taken.

use crate::request::{startup_wire, Request};
use crate::text::texts;
use crate::wait::{Wait, WaitView};
use crate::wire::{
    announced, buffered, decoded, frame_of, framing, held, message_view, parse_message, Frame,
    FrameView, Framing,
};
use bytes::BytesMut;
use postgres_protocol::message::backend::Message;
use vstd::prelude::*;

verus! {

/// Why a receive, a wait or a handshake failed.
#[derive(Debug)]
pub enum Failure {
    /// No complete frame arrived within the timeout.
    Timeout,
    /// The codec rejected the bytes; its words.
    Rejected(String),
    /// A header announces a frame too long for this machine.
    Oversized,
    /// A frame's body cannot be read.
    Unreadable,
    /// The server's first frame did not acknowledge the startup.
    Unexpected,
}

/// What one attempt to receive came to.
pub enum Received {
    /// No complete frame is buffered: read from the server, `feed`, and try
    /// again with the time elapsed since the first attempt.
    NeedBytes,
    /// One frame left the buffer: the leading byte of the buffer as it was,
    /// and the decoded message.
    Message(char, Message),
    Failed(Failure),
}

/// What one step of a wait or of a handshake came to.
#[derive(Debug)]
pub enum Step {
    /// Nothing is awaited any more.
    Done,
    /// One frame left the buffer and more is awaited: the next receive
    /// begins, and its time is measured from now.
    Consumed,
    /// No complete frame is buffered: read from the server, `feed`, and step
    /// again with the time elapsed since the receive began.
    NeedBytes,
    Failed(Failure),
}

/// The kind of an outcome, without the codec's words.
pub enum Outcome {
    Done,
    Consumed,
    NeedBytes,
    Timeout,
    Rejected,
    Oversized,
    Unreadable,
    Unexpected,
}

impl Failure {
    pub open spec fn outcome(self) -> Outcome {
        match self {
            Failure::Timeout => Outcome::Timeout,
            Failure::Rejected(_) => Outcome::Rejected,
            Failure::Oversized => Outcome::Oversized,
            Failure::Unreadable => Outcome::Unreadable,
            Failure::Unexpected => Outcome::Unexpected,
        }
    }
}

impl Step {
    pub open spec fn outcome(self) -> Outcome {
        match self {
            Step::Done => Outcome::Done,
            Step::Consumed => Outcome::Consumed,
            Step::NeedBytes => Outcome::NeedBytes,
            Step::Failed(failure) => failure.outcome(),
        }
    }
}

/// The state of a connection, as mathematics.
pub struct ConnView {
    /// The bytes received and not yet decoded, oldest first.
    pub pending: Seq<u8>,
    /// The bytes of the request encoded last.
    pub outgoing: Seq<u8>,
    /// The longest that one receive may take, in nanoseconds.
    pub timeout: u128,
    pub verbose: bool,
}

/// The header of `bytes` announces a frame too long for this machine.
pub open spec fn oversized(bytes: Seq<u8>) -> bool {
    bytes.len() >= 5 && announced(bytes) + 1 > usize::MAX
}

/// What an attempt to receive finds.
pub enum Arrival {
    /// The frame that leaves the buffer, and the leading byte of the buffer.
    Frame { frame: FrameView, lead: char },
    /// The codec rejects the first frame.
    Rejected,
    /// Nothing leaves the buffer, for this reason.
    Nothing { why: Outcome },
}

/// One attempt to receive: what it finds, and the bytes that stay buffered.
///
/// The time is checked first. Then the first frame is taken off the buffer
/// once all of it is there; the bytes behind it stay as they are.
pub open spec fn arrival(pending: Seq<u8>, timeout: u128, elapsed: u128) -> (Arrival, Seq<u8>) {
    if elapsed > timeout {
        (Arrival::Nothing { why: Outcome::Timeout }, pending)
    } else if oversized(pending) {
        (Arrival::Nothing { why: Outcome::Oversized }, pending)
    } else {
        match framing(pending) {
            Framing::Incomplete => (Arrival::Nothing { why: Outcome::NeedBytes }, pending),
            Framing::Invalid => (Arrival::Nothing { why: Outcome::Rejected }, pending),
            Framing::Complete { len } => match decoded(pending.take(len)) {
                Some(frame) => (
                    Arrival::Frame { frame, lead: pending[0] as char },
                    pending.skip(len),
                ),
                None => (Arrival::Rejected, pending.skip(len)),
            },
        }
    }
}

/// One step of a wait: its outcome, the bytes that stay buffered, and the
/// wait afterwards.
///
/// A wait with nothing left to await takes nothing. Otherwise one receive is
/// attempted, and the frame that it yields is observed.
pub open spec fn wait_step(pending: Seq<u8>, timeout: u128, wait: WaitView, elapsed: u128) -> (
    Outcome,
    Seq<u8>,
    WaitView,
) {
    if wait.done() {
        (Outcome::Done, pending, wait)
    } else {
        match arrival(pending, timeout, elapsed) {
            (Arrival::Nothing { why }, rest) => (why, rest, wait),
            (Arrival::Rejected, rest) => (Outcome::Rejected, rest, wait),
            (Arrival::Frame { frame, lead }, rest) => match wait.observe(frame, lead) {
                None => (Outcome::Unreadable, rest, wait),
                Some(next) => (
                    if next.done() {
                        Outcome::Done
                    } else {
                        Outcome::Consumed
                    },
                    rest,
                    next,
                ),
            },
        }
    }
}

/// The steps of a wait over what is buffered, as long as each takes a frame
/// and more is awaited: the outcome of the last step, the bytes that stay
/// buffered, and the wait afterwards. No time passes between the steps.
pub open spec fn settle(pending: Seq<u8>, timeout: u128, wait: WaitView) -> (
    Outcome,
    Seq<u8>,
    WaitView,
)
    decreases pending.len(),
{
    let (outcome, rest, next) = wait_step(pending, timeout, wait, 0);
    if outcome is Consumed && rest.len() < pending.len() {
        settle(rest, timeout, next)
    } else {
        (outcome, rest, next)
    }
}

/// The frames that can be taken off what is buffered, one behind the other,
/// each with the leading byte that it is read with: up to the first frame
/// that is not all there or that the codec rejects.
pub open spec fn frames_in(pending: Seq<u8>) -> Seq<(FrameView, char)>
    decreases pending.len(),
{
    match arrival(pending, 0, 0) {
        (Arrival::Frame { frame, lead }, rest) => if rest.len() < pending.len() {
            seq![(frame, lead)] + frames_in(rest)
        } else {
            seq![(frame, lead)]
        },
        _ => Seq::empty(),
    }
}

/// A frame that is taken leaves fewer bytes buffered.
pub proof fn taking_shortens(pending: Seq<u8>, timeout: u128, elapsed: u128)
    requires
        arrival(pending, timeout, elapsed).0 is Frame,
    ensures
        arrival(pending, timeout, elapsed).1.len() < pending.len(),
{
}

/// A step that takes a frame leaves fewer bytes buffered.
pub proof fn step_shortens(pending: Seq<u8>, timeout: u128, wait: WaitView, elapsed: u128)
    requires
        wait_step(pending, timeout, wait, elapsed).0 is Consumed,
    ensures
        wait_step(pending, timeout, wait, elapsed).1.len() < pending.len(),
{
}

/// Stepping through what is buffered is observing the buffered frames in
/// order: the wait ends where `run` over those frames ends, and it fails as
/// unreadable exactly where `run` does.
pub proof fn settle_is_run(pending: Seq<u8>, timeout: u128, wait: WaitView)
    ensures
        match wait.run(frames_in(pending)) {
            Some(end) => settle(pending, timeout, wait).2 == end && !(settle(
                pending,
                timeout,
                wait,
            ).0 is Unreadable),
            None => settle(pending, timeout, wait).0 is Unreadable,
        },
    decreases pending.len(),
{
    let frames = frames_in(pending);
    if wait.done() {
    } else {
        match arrival(pending, timeout, 0) {
            (Arrival::Frame { frame, lead }, rest) => {
                taking_shortens(pending, timeout, 0);
                assert(arrival(pending, 0, 0) == arrival(pending, timeout, 0));
                assert(frames[0] == (frame, lead));
                assert(frames.skip(1) =~= frames_in(rest));
                match wait.observe(frame, lead) {
                    Some(next) => {
                        settle_is_run(rest, timeout, next);
                    },
                    None => {},
                }
            },
            _ => {
                assert(arrival(pending, 0, 0).0 == arrival(pending, timeout, 0).0);
                assert(frames =~= Seq::<(FrameView, char)>::empty());
            },
        }
    }
}

/// A receive fails for the time exactly where more time has passed than the
/// timeout allows; what is buffered decides nothing about it, and stays.
pub proof fn late_is_timeout(pending: Seq<u8>, timeout: u128, elapsed: u128)
    ensures
        arrival(pending, timeout, elapsed).0 == (Arrival::Nothing { why: Outcome::Timeout })
            <==> elapsed > timeout,
        elapsed > timeout ==> arrival(pending, timeout, elapsed).1 == pending,
{
}

/// A receive looks no further than the first frame: once that frame is all
/// there, what follows it changes neither what is received nor the frame's
/// leading byte, and stays buffered behind what was left.
pub proof fn later_bytes_wait_their_turn(
    pending: Seq<u8>,
    more: Seq<u8>,
    timeout: u128,
    elapsed: u128,
)
    requires
        framing(pending) is Complete,
    ensures
        arrival(pending + more, timeout, elapsed).0 == arrival(pending, timeout, elapsed).0,
        arrival(pending + more, timeout, elapsed).1 == arrival(pending, timeout, elapsed).1 + more,
{
    let all = pending + more;
    assert(announced(all) == announced(pending));
    if !(elapsed > timeout) && !oversized(pending) {
        let len = framing(pending)->len;
        assert(all.take(len) =~= pending.take(len));
        assert(all.skip(len) =~= pending.skip(len) + more);
    }
    assert(arrival(all, timeout, elapsed).1 =~= arrival(pending, timeout, elapsed).1 + more);
}

/// While a frame is not all there, a receive takes nothing: what is buffered
/// stays for the next attempt.
pub proof fn partial_frame_stays(pending: Seq<u8>, timeout: u128, elapsed: u128)
    requires
        !(framing(pending) is Complete),
    ensures
        arrival(pending, timeout, elapsed).1 == pending,
        !(arrival(pending, timeout, elapsed).0 is Frame),
{
}

/// A connection after its handshake.
pub struct PgConn {
    recv_buf: BytesMut,
    send_buf: BytesMut,
    timeout: u128,
    verbose: bool,
}

impl View for PgConn {
    type V = ConnView;

    closed spec fn view(&self) -> ConnView {
        ConnView {
            pending: buffered(self.recv_buf),
            outgoing: buffered(self.send_buf),
            timeout: self.timeout,
            verbose: self.verbose,
        }
    }
}

impl PgConn {
    fn fresh(timeout: u128, verbose: bool) -> (conn: PgConn)
        ensures
            conn@ == (ConnView {
                pending: Seq::empty(),
                outgoing: Seq::empty(),
                timeout,
                verbose,
            }),
    {
        PgConn { recv_buf: BytesMut::new(), send_buf: BytesMut::new(), timeout, verbose }
    }

    /// The longest that one receive may take, in nanoseconds.
    pub fn timeout(&self) -> (t: u128)
        ensures
            t == self@.timeout,
    {
        self.timeout
    }

    /// Whether the traffic is to be shown.
    pub fn verbose(&self) -> (v: bool)
        ensures
            v == self@.verbose,
    {
        self.verbose
    }

    /// The bytes to write to the server: those of the request encoded last.
    pub fn outgoing_bytes(&self) -> (bytes: &[u8])
        ensures
            bytes@ == self@.outgoing,
    {
        held(&self.send_buf)
    }

    /// How many bytes are received and not yet decoded.
    pub fn pending_len(&self) -> (n: usize)
        ensures
            n == self@.pending.len(),
    {
        self.recv_buf.len()
    }

    /// Encodes a request as the bytes to write next, in place of those
    /// encoded before. Where the request cannot be encoded, nothing is left
    /// to write.
    pub fn send(&mut self, request: &Request) -> (ok: bool)
        ensures
            ok <==> request.wire() is Some,
            final(self)@ == (ConnView {
                outgoing: match request.wire() {
                    Some(bytes) => bytes,
                    None => Seq::empty(),
                },
                ..old(self)@
            }),
    {
        self.send_buf.clear();
        let ok = request.put(&mut self.send_buf);
        if !ok {
            self.send_buf.clear();
        }
        assert(Seq::<u8>::empty() + request.wire().unwrap() =~= request.wire().unwrap());
        ok
    }

    /// Takes in bytes that the server sent, behind those already buffered.
    pub fn feed(&mut self, chunk: &[u8])
        ensures
            final(self)@ == (ConnView { pending: old(self)@.pending + chunk@, ..old(self)@ }),
    {
        self.recv_buf.extend_from_slice(chunk);
    }

    /// Attempts to take one frame off the buffer, `elapsed` nanoseconds after
    /// the receive began.
    ///
    /// The attempt fails with `Timeout` where `elapsed` is over the timeout,
    /// whatever is buffered. Bytes behind the frame taken stay buffered, and
    /// so does everything where no frame is taken.
    pub fn recv(&mut self, elapsed: u128) -> (r: Received)
        ensures
            final(self)@ == (ConnView {
                pending: arrival(old(self)@.pending, old(self)@.timeout, elapsed).1,
                ..old(self)@
            }),
            match arrival(old(self)@.pending, old(self)@.timeout, elapsed).0 {
                Arrival::Frame { frame, lead } => r matches Received::Message(l, msg) && l == lead
                    && message_view(msg) == frame,
                Arrival::Rejected => r matches Received::Failed(Failure::Rejected(_)),
                Arrival::Nothing { why } => match why {
                    Outcome::NeedBytes => r is NeedBytes,
                    _ => r matches Received::Failed(failure) && failure.outcome() == why,
                },
            },
    {
        if elapsed > self.timeout {
            return Received::Failed(Failure::Timeout);
        }
        let bytes = held(&self.recv_buf);
        let mut lead: char = '0';
        if bytes.len() > 0 {
            lead = bytes[0] as char;
        }
        if bytes.len() >= 5 {
            let length: u64 = (bytes[1] as u64) * 0x100_0000 + (bytes[2] as u64) * 0x1_0000 + (
            bytes[3] as u64) * 0x100 + (bytes[4] as u64);
            if length >= usize::MAX as u64 {
                return Received::Failed(Failure::Oversized);
            }
        }
        match parse_message(&mut self.recv_buf) {
            Ok(Some(msg)) => Received::Message(lead, msg),
            Ok(None) => Received::NeedBytes,
            Err(words) => Received::Failed(Failure::Rejected(words)),
        }
    }

    /// One step of a wait, `elapsed` nanoseconds after the current receive
    /// began: takes at most one frame off the buffer and lets the wait
    /// observe it.
    pub fn until(&mut self, wait: &mut Wait, elapsed: u128) -> (step: Step)
        ensures
            final(self)@ == (ConnView {
                pending: wait_step(
                    old(self)@.pending,
                    old(self)@.timeout,
                    old(wait)@,
                    elapsed,
                ).1,
                ..old(self)@
            }),
            step.outcome() == wait_step(
                old(self)@.pending,
                old(self)@.timeout,
                old(wait)@,
                elapsed,
            ).0,
            final(wait)@ == wait_step(
                old(self)@.pending,
                old(self)@.timeout,
                old(wait)@,
                elapsed,
            ).2,
    {
        if wait.is_done() {
            return Step::Done;
        }
        match self.recv(elapsed) {
            Received::NeedBytes => Step::NeedBytes,
            Received::Failed(failure) => Step::Failed(failure),
            Received::Message(lead, msg) => {
                let frame = frame_of(&msg);
                match wait.observe(&frame, lead) {
                    Err(_) => Step::Failed(Failure::Unreadable),
                    Ok(()) => if wait.is_done() {
                        Step::Done
                    } else {
                        Step::Consumed
                    },
                }
            },
        }
    }

    /// Steps a wait through what is buffered: frame after frame is taken and
    /// observed until nothing is awaited any more, a frame is not all there,
    /// or a frame fails. No time passes between the steps, so none of them
    /// fails for the time.
    pub fn drain(&mut self, wait: &mut Wait) -> (step: Step)
        ensures
            final(self)@ == (ConnView {
                pending: settle(old(self)@.pending, old(self)@.timeout, old(wait)@).1,
                ..old(self)@
            }),
            step.outcome() == settle(old(self)@.pending, old(self)@.timeout, old(wait)@).0,
            final(wait)@ == settle(old(self)@.pending, old(self)@.timeout, old(wait)@).2,
            !(step is Consumed),
    {
        loop
            invariant
                self@.outgoing == old(self)@.outgoing,
                self@.timeout == old(self)@.timeout,
                self@.verbose == old(self)@.verbose,
                settle(self@.pending, self@.timeout, wait@) == settle(
                    old(self)@.pending,
                    old(self)@.timeout,
                    old(wait)@,
                ),
            decreases self@.pending.len(),
        {
            let ghost before = self@;
            let ghost waited = wait@;
            let step = self.until(wait, 0);
            proof {
                if step is Consumed {
                    step_shortens(before.pending, before.timeout, waited, 0);
                }
            }
            match step {
                Step::Consumed => {},
                other => {
                    return other;
                },
            }
        }
    }
}

/// The wait that ends a handshake: for the first `ReadyForQuery`, showing
/// the code, the severity and the message of errors, ignoring nothing.
pub open spec fn ready_wait() -> WaitView {
    WaitView {
        targets: seq!["ReadyForQuery"@],
        filter: seq!['C', 'S', 'M'],
        ignore: Seq::empty(),
        seen: 0,
        trace: Seq::empty(),
    }
}

/// The state of a handshake, as mathematics.
pub struct HandshakeView {
    pub conn: ConnView,
    /// The server has acknowledged the startup.
    pub authenticated: bool,
    /// The wait for the server to be ready.
    pub wait: WaitView,
}

impl HandshakeView {
    /// The server has acknowledged the startup and is ready.
    pub open spec fn complete(self) -> bool {
        self.authenticated && self.wait.done()
    }

    /// One step of the handshake: its outcome and the state afterwards.
    ///
    /// The first frame must acknowledge the startup. After that the frames
    /// are taken as a wait for `ReadyForQuery` takes them.
    pub open spec fn step(self, elapsed: u128) -> (Outcome, HandshakeView) {
        if self.authenticated {
            let (outcome, rest, wait) = wait_step(
                self.conn.pending,
                self.conn.timeout,
                self.wait,
                elapsed,
            );
            (outcome, HandshakeView { conn: ConnView { pending: rest, ..self.conn }, wait, ..self })
        } else {
            let (found, rest) = arrival(self.conn.pending, self.conn.timeout, elapsed);
            let conn = ConnView { pending: rest, ..self.conn };
            match found {
                Arrival::Nothing { why } => (why, HandshakeView { conn, ..self }),
                Arrival::Rejected => (Outcome::Rejected, HandshakeView { conn, ..self }),
                Arrival::Frame { frame, lead } => if frame is AuthenticationOk {
                    (
                        if self.wait.done() {
                            Outcome::Done
                        } else {
                            Outcome::Consumed
                        },
                        HandshakeView { conn, authenticated: true, ..self },
                    )
                } else {
                    (Outcome::Unexpected, HandshakeView { conn, ..self })
                },
            }
        }
    }
}

/// What beginning a handshake yields: nothing where the startup request of
/// the user cannot be encoded; else a handshake with that request to write,
/// nothing received, and the startup not yet acknowledged.
pub open spec fn begun(user: Seq<char>, timeout: u128, verbose: bool, r: Option<Handshake>) -> bool {
    &&& r is Some <==> startup_wire(user) is Some
    &&& r matches Some(h) ==> h@ == (HandshakeView {
        conn: ConnView {
            pending: Seq::empty(),
            outgoing: startup_wire(user).unwrap(),
            timeout,
            verbose,
        },
        authenticated: false,
        wait: ready_wait(),
    })
}

/// A connection that is shaking hands: the startup request is encoded, its
/// acknowledgement and the server's readiness are awaited.
pub struct Handshake {
    conn: PgConn,
    authenticated: bool,
    wait: Wait,
}

impl View for Handshake {
    type V = HandshakeView;

    closed spec fn view(&self) -> HandshakeView {
        HandshakeView { conn: self.conn@, authenticated: self.authenticated, wait: self.wait@ }
    }
}

impl Handshake {
    /// Begins a handshake for `user`: the startup request is what is to be
    /// written first. `None` where the startup request cannot be encoded.
    pub fn start(user: &str, timeout: u128, verbose: bool) -> (r: Option<Handshake>)
        ensures
            begun(user@, timeout, verbose, r),
    {
        let mut conn = PgConn::fresh(timeout, verbose);
        let request = Request::Startup { user: user.to_owned() };
        if !conn.send(&request) {
            return None;
        }
        let mut targets: Vec<String> = Vec::new();
        targets.push("ReadyForQuery".to_owned());
        let mut shown: Vec<char> = Vec::new();
        shown.push('C');
        shown.push('S');
        shown.push('M');
        let wait = Wait::new(targets, shown, Vec::new());
        proof {
            assert(texts(targets@) =~= seq!["ReadyForQuery"@]);
            assert(shown@ =~= seq!['C', 'S', 'M']);
            assert(texts(Seq::<String>::empty()) =~= Seq::<Seq<char>>::empty());
        }
        Some(Handshake { conn, authenticated: false, wait })
    }

    /// The bytes to write to the server: the startup request.
    pub fn outgoing_bytes(&self) -> (bytes: &[u8])
        ensures
            bytes@ == self@.conn.outgoing,
    {
        self.conn.outgoing_bytes()
    }

    /// The longest that one receive may take, in nanoseconds.
    pub fn timeout(&self) -> (t: u128)
        ensures
            t == self@.conn.timeout,
    {
        self.conn.timeout()
    }

    /// Takes in bytes that the server sent.
    pub fn feed(&mut self, chunk: &[u8])
        ensures
            final(self)@ == (HandshakeView {
                conn: ConnView { pending: old(self)@.conn.pending + chunk@, ..old(self)@.conn },
                ..old(self)@
            }),
    {
        self.conn.feed(chunk);
    }

    /// One step of the handshake, `elapsed` nanoseconds after the current
    /// receive began.
    pub fn step(&mut self, elapsed: u128) -> (step: Step)
        ensures
            step.outcome() == old(self)@.step(elapsed).0,
            final(self)@ == old(self)@.step(elapsed).1,
    {
        if self.authenticated {
            self.conn.until(&mut self.wait, elapsed)
        } else {
            match self.conn.recv(elapsed) {
                Received::NeedBytes => Step::NeedBytes,
                Received::Failed(failure) => Step::Failed(failure),
                Received::Message(_, msg) => {
                    match frame_of(&msg) {
                        Frame::AuthenticationOk => {
                            self.authenticated = true;
                            if self.wait.is_done() {
                                Step::Done
                            } else {
                                Step::Consumed
                            }
                        },
                        _ => Step::Failed(Failure::Unexpected),
                    }
                },
            }
        }
    }

    /// Whether the server has acknowledged the startup and is ready.
    pub fn is_complete(&self) -> (done: bool)
        ensures
            done == self@.complete(),
    {
        self.authenticated && self.wait.is_done()
    }

    /// The connection, once the handshake is complete; the handshake itself
    /// where it is not.
    pub fn finish(self) -> (r: Result<PgConn, Handshake>)
        ensures
            match r {
                Ok(conn) => self@.complete() && conn@ == self@.conn,
                Err(h) => !self@.complete() && h@ == self@,
            },
    {
        if self.is_complete() {
            Ok(self.conn)
        } else {
            Err(self)
        }
    }
}

} // verus!
