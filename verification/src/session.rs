//! A session: the connections of one test file by name, and how new ones
//! are made.
//!
//! The session owns no socket. A name that it does not know yet stands for a
//! connection to open: `begin` starts its handshake, and `attach` takes the
//! connection in once the handshake is complete.

use crate::conn::{begun, wait_step, ConnView, Handshake, PgConn, Step};
use crate::request::Request;
use crate::text::{
    comes_before, precedes, precedes_is_irreflexive, precedes_is_total, precedes_is_transitive,
};
use crate::wait::Wait;
use vstd::prelude::*;

verus! {

/// The state of a session, as mathematics.
pub struct SessionView {
    pub addr: Seq<char>,
    pub user: Seq<char>,
    /// The longest that one receive may take, in nanoseconds.
    pub timeout: u128,
    pub verbose: bool,
    /// The names of the connections, in the order in which they stand.
    pub names: Seq<Seq<char>>,
    /// The connection of each name.
    pub conns: Seq<ConnView>,
}

/// The names stand in the order of texts, so that none stands twice.
pub open spec fn ascending(names: Seq<Seq<char>>) -> bool {
    forall|i: int, j: int|
        0 <= i < j < names.len() ==> precedes(#[trigger] names[i], #[trigger] names[j])
}

/// The name that a directive means: the one given, or that of the default
/// connection, which is empty.
pub open spec fn name_meant(given: Option<String>) -> Seq<char> {
    match given {
        Some(name) => name@,
        None => Seq::empty(),
    }
}

/// The bytes of the request that ends a connection.
pub open spec fn farewell() -> Seq<u8> {
    seq![0x58u8, 0u8, 0u8, 0u8, 4u8]
}

impl SessionView {
    /// Each name has its connection, and the names stand in the order of
    /// texts.
    pub open spec fn wf(self) -> bool {
        self.names.len() == self.conns.len() && ascending(self.names)
    }

    /// The session with another connection in the place of the one at `at`.
    pub open spec fn with_conn(self, at: int, conn: ConnView) -> SessionView {
        SessionView { conns: self.conns.update(at, conn), ..self }
    }
}

/// In ascending names, a name stands where it is found and nowhere else.
pub proof fn name_stands_once(names: Seq<Seq<char>>, i: int, j: int)
    requires
        ascending(names),
        0 <= i < names.len(),
        0 <= j < names.len(),
        names[i] == names[j],
    ensures
        i == j,
{
    precedes_is_irreflexive(names[i]);
}

/// A connection under its name.
struct Named {
    name: String,
    conn: PgConn,
}

/// The connections of one test file.
pub struct PgTest {
    addr: String,
    user: String,
    timeout: u128,
    verbose: bool,
    conns: Vec<Named>,
}

impl View for PgTest {
    type V = SessionView;

    closed spec fn view(&self) -> SessionView {
        SessionView {
            addr: self.addr@,
            user: self.user@,
            timeout: self.timeout,
            verbose: self.verbose,
            names: self.conns@.map_values(|n: Named| n.name@),
            conns: self.conns@.map_values(|n: Named| n.conn@),
        }
    }
}

impl PgTest {
    /// A session with its default connection, whose name is empty.
    pub fn new(addr: String, user: String, timeout: u128, verbose: bool, default: PgConn) -> (s:
        PgTest)
        ensures
            s@.wf(),
            s@ == (SessionView {
                addr: addr@,
                user: user@,
                timeout,
                verbose,
                names: seq![Seq::<char>::empty()],
                conns: seq![default@],
            }),
    {
        let mut conns: Vec<Named> = Vec::new();
        conns.push(Named { name: String::new(), conn: default });
        let s = PgTest { addr, user, timeout, verbose, conns };
        assert(s@.names =~= seq![Seq::<char>::empty()]);
        assert(s@.conns =~= seq![default@]);
        s
    }

    /// The address of the server.
    pub fn addr(&self) -> (a: &String)
        ensures
            a@ == self@.addr,
    {
        &self.addr
    }

    /// Whether the traffic is to be shown.
    pub fn verbose(&self) -> (v: bool)
        ensures
            v == self@.verbose,
    {
        self.verbose
    }

    /// How many connections the session has.
    pub fn len(&self) -> (n: usize)
        ensures
            n == self@.names.len(),
            n == self@.conns.len(),
    {
        self.conns.len()
    }

    /// The name of the connection at `at`; `None` where there is none.
    pub fn name_at(&self, at: usize) -> (name: Option<&String>)
        ensures
            name is Some <==> at < self@.names.len(),
            name matches Some(n) ==> n@ == self@.names[at as int],
    {
        if at < self.conns.len() {
            Some(&self.conns[at].name)
        } else {
            None
        }
    }

    /// Begins the handshake of one more connection, for the session's user
    /// and with its timeout. `None` where the startup request cannot be
    /// encoded.
    pub fn begin(&self) -> (r: Option<Handshake>)
        ensures
            begun(self@.user, self@.timeout, self@.verbose, r),
    {
        Handshake::start(self.user.as_str(), self.timeout, self.verbose)
    }

    /// Where the connection that a directive means stands: the first of that
    /// name. `None` where the session has none of that name yet.
    pub fn get_conn(&self, name: &Option<String>) -> (at: Option<usize>)
        ensures
            at is Some <==> self@.names.contains(name_meant(*name)),
            at matches Some(i) ==> i < self@.names.len() && self@.names[i as int] == name_meant(
                *name,
            ) && forall|k: int| 0 <= k < i ==> self@.names[k] != name_meant(*name),
    {
        let none = String::new();
        let wanted = match name {
            Some(name) => name,
            None => &none,
        };
        let mut i: usize = 0;
        while i < self.conns.len()
            invariant
                i <= self.conns.len(),
                wanted@ == name_meant(*name),
                forall|k: int| 0 <= k < i ==> self@.names[k] != wanted@,
            decreases self.conns.len() - i,
        {
            if self.conns[i].name == *wanted {
                assert(self@.names[i as int] == wanted@);
                return Some(i);
            }
            i += 1;
        }
        None
    }

    /// Takes in a connection under a name that the session does not have
    /// yet, at its place in the order of names, and says where that is. A
    /// name that the session has keeps its connection, and the one offered
    /// comes back.
    pub fn attach(&mut self, name: Option<String>, conn: PgConn) -> (r: Result<usize, PgConn>)
        ensures
            old(self)@.wf() ==> final(self)@.wf(),
            match r {
                Err(back) => old(self)@.names.contains(name_meant(name)) && final(self)@ == old(
                    self,
                )@ && back@ == conn@,
                Ok(at) => !old(self)@.names.contains(name_meant(name)) && at <= old(
                    self,
                )@.names.len() && final(self)@ == (SessionView {
                    names: old(self)@.names.insert(at as int, name_meant(name)),
                    conns: old(self)@.conns.insert(at as int, conn@),
                    ..old(self)@
                }),
            },
    {
        if self.get_conn(&name).is_some() {
            return Err(conn);
        }
        let name = match name {
            Some(name) => name,
            None => String::new(),
        };
        let ghost before = self@;
        let mut at: usize = 0;
        while at < self.conns.len() && comes_before(self.conns[at].name.as_str(), name.as_str())
            invariant
                at <= self.conns.len(),
                self@ == before,
                forall|k: int| 0 <= k < at ==> precedes(#[trigger] before.names[k], name@),
            decreases self.conns.len() - at,
        {
            at += 1;
        }
        proof {
            if before.wf() {
                assert forall|k: int| at <= k < before.names.len() implies precedes(
                    name@,
                    #[trigger] before.names[k],
                ) by {
                    precedes_is_total(before.names[at as int], name@);
                    if k > at {
                        precedes_is_transitive(name@, before.names[at as int], before.names[k]);
                    }
                }
            }
        }
        self.conns.insert(at, Named { name, conn });
        proof {
            assert(self@.names =~= before.names.insert(at as int, name@));
            assert(self@.conns =~= before.conns.insert(at as int, conn@));
        }
        Ok(at)
    }

    /// Encodes a request on the connection at `at` as the bytes to write
    /// next. `None` where there is no such connection; else whether the
    /// request could be encoded.
    pub fn send(&mut self, at: usize, request: &Request) -> (r: Option<bool>)
        ensures
            r is Some <==> at < old(self)@.conns.len(),
            r is None ==> final(self)@ == old(self)@,
            r matches Some(ok) ==> (ok <==> request.wire() is Some) && final(self)@ == old(
                self,
            )@.with_conn(
                at as int,
                ConnView {
                    outgoing: match request.wire() {
                        Some(bytes) => bytes,
                        None => Seq::empty(),
                    },
                    ..old(self)@.conns[at as int]
                },
            ),
    {
        if at >= self.conns.len() {
            return None;
        }
        let ok = self.conns[at].conn.send(request);
        proof {
            assert(self@.names =~= old(self)@.names);
            assert(self@.conns =~= old(self)@.conns.update(at as int, self.conns@[at as int].conn@));
        }
        Some(ok)
    }

    /// The bytes to write to the server of the connection at `at`; `None`
    /// where there is none.
    pub fn outgoing_bytes(&self, at: usize) -> (bytes: Option<&[u8]>)
        ensures
            bytes is Some <==> at < self@.conns.len(),
            bytes matches Some(b) ==> b@ == self@.conns[at as int].outgoing,
    {
        if at < self.conns.len() {
            Some(self.conns[at].conn.outgoing_bytes())
        } else {
            None
        }
    }

    /// Takes in bytes that the server of the connection at `at` sent. Where
    /// there is no such connection, nothing is taken in and the result is
    /// `false`.
    pub fn feed(&mut self, at: usize, chunk: &[u8]) -> (fed: bool)
        ensures
            fed <==> at < old(self)@.conns.len(),
            fed ==> final(self)@ == old(self)@.with_conn(
                at as int,
                ConnView {
                    pending: old(self)@.conns[at as int].pending + chunk@,
                    ..old(self)@.conns[at as int]
                },
            ),
            !fed ==> final(self)@ == old(self)@,
    {
        if at >= self.conns.len() {
            return false;
        }
        self.conns[at].conn.feed(chunk);
        proof {
            assert(self@.names =~= old(self)@.names);
            assert(self@.conns =~= old(self)@.conns.update(at as int, self.conns@[at as int].conn@));
        }
        true
    }

    /// One step of a wait on the connection at `at`, `elapsed` nanoseconds
    /// after the current receive began. `None` where there is no such
    /// connection.
    pub fn until(&mut self, at: usize, wait: &mut Wait, elapsed: u128) -> (step: Option<Step>)
        ensures
            step is Some <==> at < old(self)@.conns.len(),
            step is None ==> final(self)@ == old(self)@ && final(wait)@ == old(wait)@,
            step matches Some(s) ==> {
                let (outcome, rest, next) = wait_step(
                    old(self)@.conns[at as int].pending,
                    old(self)@.conns[at as int].timeout,
                    old(wait)@,
                    elapsed,
                );
                &&& s.outcome() == outcome
                &&& final(wait)@ == next
                &&& final(self)@ == old(self)@.with_conn(
                    at as int,
                    ConnView { pending: rest, ..old(self)@.conns[at as int] },
                )
            },
    {
        if at >= self.conns.len() {
            return None;
        }
        let step = self.conns[at].conn.until(wait, elapsed);
        proof {
            assert(self@.names =~= old(self)@.names);
            assert(self@.conns =~= old(self)@.conns.update(at as int, self.conns@[at as int].conn@));
        }
        Some(step)
    }

    /// Ends the session: on every connection, the request that ends it is
    /// what is to be written next.
    pub fn close(&mut self)
        ensures
            final(self)@ == (SessionView {
                conns: old(self)@.conns.map_values(
                    |c: ConnView| ConnView { outgoing: farewell(), ..c },
                ),
                ..old(self)@
            }),
    {
        let mut i: usize = 0;
        while i < self.conns.len()
            invariant
                i <= self.conns.len(),
                self.conns.len() == old(self).conns.len(),
                self.addr == old(self).addr,
                self.user == old(self).user,
                self.timeout == old(self).timeout,
                self.verbose == old(self).verbose,
                forall|k: int|
                    0 <= k < self.conns.len() ==> (#[trigger] self.conns@[k]).name == old(
                        self,
                    ).conns@[k].name,
                forall|k: int|
                    0 <= k < i ==> (#[trigger] self.conns@[k]).conn@ == (ConnView {
                        outgoing: farewell(),
                        ..old(self).conns@[k].conn@
                    }),
                forall|k: int|
                    i <= k < self.conns.len() ==> (#[trigger] self.conns@[k]).conn == old(
                        self,
                    ).conns@[k].conn,
            decreases self.conns.len() - i,
        {
            self.conns[i].conn.send(&Request::Terminate);
            i += 1;
        }
        proof {
            assert(self@.names =~= old(self)@.names);
            assert(self@.conns =~= old(self)@.conns.map_values(
                |c: ConnView| ConnView { outgoing: farewell(), ..c },
            ));
        }
    }
}

/// A name that is new to a session has no connection until one is attached;
/// from then on it has exactly that one, and every other name has the
/// connection that it had.
pub proof fn attached_name_resolves(
    before: SessionView,
    name: Seq<char>,
    conn: ConnView,
    at: int,
    other: int,
)
    requires
        before.wf(),
        !before.names.contains(name),
        0 <= at <= before.names.len(),
        0 <= other < before.names.len(),
    ensures
        before.names.insert(at, name)[at] == name,
        before.conns.insert(at, conn)[at] == conn,
        before.names.insert(at, name)[if other < at {
            other
        } else {
            other + 1
        }] == before.names[other],
        before.conns.insert(at, conn)[if other < at {
            other
        } else {
            other + 1
        }] == before.conns[other],
{
}

} // verus!
