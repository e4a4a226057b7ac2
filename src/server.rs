//! Server configuration, the per-connection framing state, request decoding and
//! the dispatcher. Socket I/O stays with the caller: the connection asks for
//! bytes and is handed what was read.
use vstd::prelude::*;
use vstd::slice::slice_subrange;
use crate::dao::{add_user_images, delete_user, verified_user, verify_user};
use crate::entities::{empty_object_text, verification_text, ADD_STATUS, DELETE_STATUS, VERIFY_STATUS};
use crate::json::{json_members, json_object_members, json_str_of};
use crate::prelude::{response_text, Command, Request, RequestView, Responder, Response};

verus! {

/// Bytes a connection's buffer holds when it starts, and after each response.
pub const INITIAL_CAPACITY: usize = 4096;

/// The members of a decoded object, as values.
pub type Members = Seq<(Seq<char>, Option<Seq<char>>)>;

/// `i` is the first member named `key`.
pub open spec fn first_member(f: Members, key: Seq<char>, i: int) -> bool {
    &&& 0 <= i < f.len()
    &&& f[i].0 == key
    &&& forall|j: int| 0 <= j < i ==> f[j].0 != key
}

/// The value of the first member named `key`: `Some(None)` when that value
/// is not a string.
pub open spec fn member(f: Members, key: Seq<char>) -> Option<Option<Seq<char>>> {
    if exists|i: int| first_member(f, key, i) {
        Some(f[choose|i: int| first_member(f, key, i)].1)
    } else {
        None
    }
}

/// The command a method name selects.
pub open spec fn command_named(m: Seq<char>) -> Option<Command> {
    if m == "ADD"@ {
        Some(Command::ADD)
    } else if m == "DELETE"@ {
        Some(Command::DELETE)
    } else if m == "VERIFY"@ {
        Some(Command::VERIFY)
    } else {
        None
    }
}

/// The request that a decoded object describes, if it has all three members
/// as strings and names a known method. Other members are ignored.
pub open spec fn request_of_members(f: Members) -> Option<RequestView> {
    match (member(f, "authorization"@), member(f, "body"@), member(f, "method"@)) {
        (Some(Some(a)), Some(Some(b)), Some(Some(m))) => match command_named(m) {
            Some(c) => Some(RequestView { authorization: a, body: b, method: c }),
            None => None,
        },
        _ => None,
    }
}

/// The request that a run of bytes decodes to, if any.
pub open spec fn decode_request(b: Seq<u8>) -> Option<RequestView> {
    match json_object_members(b) {
        Some(f) => request_of_members(f),
        None => None,
    }
}

pub open spec fn request_view(r: Option<Request>) -> Option<RequestView> {
    match r {
        Some(q) => Some(q@),
        None => None,
    }
}

/// The value of the first member named `key`.
pub fn find_member(members: &Vec<(String, Option<String>)>, key: &String) -> (r: Option<Option<String>>)
    ensures
        r.is_some() == member(members.deep_view(), key@).is_some(),
        r matches Some(v) ==> member(members.deep_view(), key@) == Some(v.deep_view()),
{
    let ghost f = members.deep_view();
    let mut i: usize = 0;
    while i < members.len()
        invariant
            f == members.deep_view(),
            i <= members.len(),
            forall|j: int| 0 <= j < i ==> f[j].0 != key@,
        decreases members.len() - i,
    {
        if members[i].0 == *key {
            assert(first_member(f, key@, i as int));
            let ghost c = choose|k: int| first_member(f, key@, k);
            assert(c == i as int) by {
                if c < i as int {
                } else if c > i as int {
                    assert(f[i as int].0 == key@);
                }
            }
            return match &members[i].1 {
                Some(v) => Some(Some(v.clone())),
                None => Some(None),
            };
        }
        i = i + 1;
    }
    assert(!exists|k: int| first_member(f, key@, k));
    None
}

/// The command a method name selects.
pub fn command_from_name(m: &String) -> (r: Option<Command>)
    ensures
        r == command_named(m@),
{
    if *m == String::from_str("ADD") {
        Some(Command::ADD)
    } else if *m == String::from_str("DELETE") {
        Some(Command::DELETE)
    } else if *m == String::from_str("VERIFY") {
        Some(Command::VERIFY)
    } else {
        None
    }
}

/// Builds a request from the members of a decoded object.
pub fn request_from_members(members: &Vec<(String, Option<String>)>) -> (r: Option<Request>)
    ensures
        request_view(r) == request_of_members(members.deep_view()),
{
    let authorization = find_member(members, &String::from_str("authorization"));
    let body = find_member(members, &String::from_str("body"));
    let method = find_member(members, &String::from_str("method"));
    match (authorization, body, method) {
        (Some(Some(authorization)), Some(Some(body)), Some(Some(method))) => match command_from_name(&method) {
            Some(method) => Some(Request { authorization, body, method }),
            None => None,
        },
        _ => None,
    }
}

/// Decodes one request from the whole of `b`.
pub fn decode_request_bytes(b: &[u8]) -> (r: Option<Request>)
    ensures
        request_view(r) == decode_request(b@),
{
    match json_members(b) {
        Some(members) => request_from_members(&members),
        None => None,
    }
}

/// The error a connection ends with when the peer closes it mid-frame.
#[derive(Debug, Clone, Copy, PartialEq, Eq, Structural)]
pub enum FrameError {
    ConnectionAborted,
}

/// What `read_frame` asks of its caller next.
#[derive(Debug)]
pub enum FrameStep {
    /// A whole request was decoded from the buffered bytes.
    Frame(Request),
    /// No request yet: read at most this many bytes and hand them to `fill`.
    Read(usize),
}

/// What came of handing read bytes to `fill`.
#[derive(Debug, Clone, Copy, PartialEq, Eq, Structural)]
pub enum Fill {
    /// The bytes were buffered: call `read_frame` again.
    Received,
    /// The peer closed with nothing pending: the connection is done.
    Closed,
}

/// The framing state of one connection: a growable buffer whose first `cursor`
/// bytes are what was received since the last response was written.
#[derive(Debug)]
pub struct Connection {
    buffer: Vec<u8>,
    cursor: usize,
}

impl Connection {
    pub closed spec fn wf(&self) -> bool {
        &&& self.cursor <= self.buffer.len()
        &&& INITIAL_CAPACITY <= self.buffer.len()
    }

    /// The bytes received since the last response (or since the start).
    pub closed spec fn pending(&self) -> Seq<u8> {
        self.buffer@.subrange(0, self.cursor as int)
    }

    /// How many bytes the buffer holds, used or not.
    pub closed spec fn capacity_spec(&self) -> nat {
        self.buffer.len() as nat
    }

    /// The unused part of the buffer is zero-filled.
    pub closed spec fn spare_is_zero(&self) -> bool {
        forall|i: int| self.cursor <= i < self.buffer.len() ==> self.buffer@[i] == 0
    }

    /// A fresh connection state: nothing pending, the initial capacity.
    pub fn new() -> (r: Connection)
        ensures
            r.wf(),
            r.pending() == Seq::<u8>::empty(),
            r.capacity_spec() == INITIAL_CAPACITY,
            r.spare_is_zero(),
    {
        let r = Connection { buffer: vec![0u8; INITIAL_CAPACITY], cursor: 0 };
        assert(r.pending() =~= Seq::<u8>::empty());
        r
    }

    pub fn capacity(&self) -> (r: usize)
        ensures
            r == self.capacity_spec(),
    {
        self.buffer.len()
    }

    pub fn pending_len(&self) -> (r: usize)
        requires
            self.wf(),
        ensures
            r == self.pending().len(),
    {
        self.cursor
    }

    /// Decodes the whole of the pending bytes as one request.
    pub fn parse_frame(&self) -> (r: Option<Request>)
        requires
            self.wf(),
        ensures
            request_view(r) == decode_request(self.pending()),
    {
        let pending = slice_subrange(self.buffer.as_slice(), 0, self.cursor);
        decode_request_bytes(pending)
    }

    /// Doubles the buffer, zero-filled, when no room is left; keeps the pending
    /// bytes as they are.
    pub fn grow_if_full(&mut self)
        requires
            old(self).wf(),
            old(self).capacity_spec() * 2 <= usize::MAX,
        ensures
            final(self).wf(),
            final(self).pending() == old(self).pending(),
            old(self).pending().len() == old(self).capacity_spec() ==> final(self).capacity_spec()
                == 2 * old(self).capacity_spec(),
            old(self).pending().len() < old(self).capacity_spec() ==> final(self).capacity_spec()
                == old(self).capacity_spec(),
            final(self).pending().len() < final(self).capacity_spec(),
            old(self).spare_is_zero() ==> final(self).spare_is_zero(),
            old(self).pending().len() == old(self).capacity_spec() ==> final(self).spare_is_zero(),
    {
        if self.cursor == self.buffer.len() {
            let ghost before = self.buffer@;
            self.buffer.resize(self.cursor * 2, 0u8);
            assert(self.buffer@.subrange(0, self.cursor as int) =~= before.subrange(0, self.cursor as int));
        }
    }

    /// One decision of the read loop: the request the pending bytes decode
    /// to, or, when they decode to none, how many bytes to read next (the
    /// buffer doubles first when it is full).
    pub fn read_frame(&mut self) -> (r: FrameStep)
        requires
            old(self).wf(),
            old(self).capacity_spec() * 2 <= usize::MAX,
        ensures
            final(self).wf(),
            final(self).pending() == old(self).pending(),
            match r {
                FrameStep::Frame(q) => {
                    &&& decode_request(old(self).pending()) == Some(q@)
                    &&& *final(self) == *old(self)
                },
                FrameStep::Read(n) => {
                    &&& decode_request(old(self).pending()).is_none()
                    &&& n == final(self).capacity_spec() - final(self).pending().len()
                    &&& n > 0
                    &&& old(self).pending().len() == old(self).capacity_spec() ==> final(self).capacity_spec()
                        == 2 * old(self).capacity_spec()
                    &&& old(self).pending().len() < old(self).capacity_spec() ==> final(self).capacity_spec()
                        == old(self).capacity_spec()
                },
            },
    {
        match self.parse_frame() {
            Some(q) => FrameStep::Frame(q),
            None => {
                self.grow_if_full();
                FrameStep::Read(self.buffer.len() - self.cursor)
            },
        }
    }

    /// Hands the caller's read to the connection. An empty read means the peer
    /// closed: cleanly when nothing is pending, mid-frame otherwise.
    pub fn fill(&mut self, data: &[u8]) -> (r: Result<Fill, FrameError>)
        requires
            old(self).wf(),
            data@.len() <= old(self).capacity_spec() - old(self).pending().len(),
        ensures
            final(self).wf(),
            final(self).capacity_spec() == old(self).capacity_spec(),
            data@.len() == 0 ==> *final(self) == *old(self),
            data@.len() == 0 && old(self).pending().len() == 0 ==> r == Ok::<Fill, FrameError>(Fill::Closed),
            data@.len() == 0 && old(self).pending().len() > 0 ==> r == Err::<Fill, FrameError>(FrameError::ConnectionAborted),
            data@.len() > 0 ==> r == Ok::<Fill, FrameError>(Fill::Received) && final(self).pending() == old(self).pending() + data@,
    {
        let n = data.len();
        if n == 0 {
            if self.cursor == 0 {
                return Ok(Fill::Closed);
            } else {
                return Err(FrameError::ConnectionAborted);
            }
        }
        let ghost before = self.buffer@;
        let start = self.cursor;
        let mut i: usize = 0;
        while i < n
            invariant
                start == self.cursor,
                start + n <= self.buffer.len(),
                n == data@.len(),
                i <= n,
                self.buffer.len() == before.len(),
                forall|k: int| 0 <= k < start ==> self.buffer@[k] == before[k],
                forall|k: int| 0 <= k < i ==> self.buffer@[start + k] == data@[k],
            decreases n - i,
        {
            self.buffer.set(start + i, data[i]);
            i = i + 1;
        }
        self.cursor = start + n;
        assert(self.pending() =~= before.subrange(0, start as int) + data@);
        Ok(Fill::Received)
    }

    /// Empties the buffer back to the initial capacity, zero-filled.
    pub fn flush(&mut self)
        ensures
            final(self).wf(),
            final(self).pending() == Seq::<u8>::empty(),
            final(self).capacity_spec() == INITIAL_CAPACITY,
            final(self).spare_is_zero(),
    {
        self.buffer.clear();
        self.buffer.resize(INITIAL_CAPACITY, 0u8);
        self.cursor = 0;
        assert(self.pending() =~= Seq::<u8>::empty());
    }

    /// The bytes to send for a response: its JSON text and `\r\n`. The buffer
    /// is then reset for the next request.
    pub fn write_frame(&mut self, response: Response) -> (r: String)
        ensures
            r@ == response_text(response.status, json_str_of(response.body@)) + "\r\n"@,
            final(self).wf(),
            final(self).pending() == Seq::<u8>::empty(),
            final(self).capacity_spec() == INITIAL_CAPACITY,
    {
        let mut out = response.to_json();
        out.append("\r\n");
        self.flush();
        out
    }
}

/// The status code and body that the dispatcher answers a command with.
pub open spec fn reply_for(c: Command) -> (u16, Seq<char>) {
    match c {
        Command::ADD => (ADD_STATUS, empty_object_text()),
        Command::DELETE => (DELETE_STATUS, empty_object_text()),
        Command::VERIFY => (VERIFY_STATUS, verification_text(Some(verified_user()))),
    }
}

/// Runs the operation that the request's method selects and turns its result
/// into the wire response.
pub fn process_request(req: &Request) -> (r: Response)
    ensures
        r@ == reply_for(req.method),
{
    match req.method {
        Command::ADD => Response::from(add_user_images(&req.body).transform().0),
        Command::DELETE => Response::from(delete_user(&req.body).transform().0),
        Command::VERIFY => Response::from(verify_user(&req.body).transform().0),
    }
}

/// Port a server listens on unless told otherwise.
pub const DEFAULT_PORT: u16 = 8080;

/// Where and on which port to listen.
#[derive(Debug)]
pub struct Server {
    port: u16,
    address: [u8; 4],
}

impl Server {
    pub closed spec fn port_spec(&self) -> u16 {
        self.port
    }

    pub closed spec fn address_spec(&self) -> Seq<u8> {
        self.address@
    }

    pub fn port(&self) -> (r: u16)
        ensures
            r == self.port_spec(),
    {
        self.port
    }

    pub fn address(&self) -> (r: [u8; 4])
        ensures
            r@ == self.address_spec(),
    {
        self.address
    }
}

/// Collects a server's configuration before it starts.
#[derive(Debug)]
pub struct ServerBuilder {
    port: u16,
    address: [u8; 4],
}

impl ServerBuilder {
    pub closed spec fn port_spec(&self) -> u16 {
        self.port
    }

    pub closed spec fn address_spec(&self) -> Seq<u8> {
        self.address@
    }

    /// A builder for 127.0.0.1, port 8080.
    pub fn new() -> (r: Self)
        ensures
            r.port_spec() == DEFAULT_PORT,
            r.address_spec() == seq![127u8, 0, 0, 1],
    {
        ServerBuilder::default()
    }

    pub fn port(self, port: u16) -> (r: Self)
        ensures
            r.port_spec() == port,
            r.address_spec() == self.address_spec(),
    {
        let mut b = self;
        b.port = port;
        b
    }

    pub fn address(self, address: [u8; 4]) -> (r: Self)
        ensures
            r.port_spec() == self.port_spec(),
            r.address_spec() == address@,
    {
        let mut b = self;
        b.address = address;
        b
    }

    pub fn build(self) -> (r: Server)
        ensures
            r.port_spec() == self.port_spec(),
            r.address_spec() == self.address_spec(),
    {
        Server { port: self.port, address: self.address }
    }
}

impl Default for ServerBuilder {
    fn default() -> (r: Self)
        ensures
            r.port_spec() == DEFAULT_PORT,
            r.address_spec() == seq![127u8, 0, 0, 1],
    {
        let r = ServerBuilder { address: [127u8, 0, 0, 1], port: DEFAULT_PORT };
        assert(r.address@ =~= seq![127u8, 0, 0, 1]);
        r
    }
}

/// The pending bytes after `fill` has been handed each of `chunks` in order,
/// starting from `start`.
pub open spec fn fed(start: Seq<u8>, chunks: Seq<Seq<u8>>) -> Seq<u8>
    decreases chunks.len(),
{
    if chunks.len() == 0 {
        start
    } else {
        fed(start + chunks[0], chunks.drop_first())
    }
}

/// Buffering keeps every byte in the order it came: the pending bytes after a
/// run of reads are `start` followed by the reads joined together.
pub proof fn lemma_fed_is_joined(start: Seq<u8>, chunks: Seq<Seq<u8>>)
    ensures
        fed(start, chunks) == start + chunks.flatten(),
    decreases chunks.len(),
{
    if chunks.len() == 0 {
        assert(start + chunks.flatten() =~= start);
    } else {
        lemma_fed_is_joined(start + chunks[0], chunks.drop_first());
        assert(start + chunks.flatten() =~= (start + chunks[0]) + chunks.drop_first().flatten());
    }
}

/// However a request's bytes are split across reads, a fresh connection holds
/// the same pending bytes, and so decodes the same request, as when they all
/// came in one read.
pub proof fn lemma_split_invariant(chunks: Seq<Seq<u8>>)
    ensures
        fed(Seq::empty(), chunks) == fed(Seq::empty(), seq![chunks.flatten()]),
        decode_request(fed(Seq::empty(), chunks)) == decode_request(chunks.flatten()),
{
    lemma_fed_is_joined(Seq::empty(), chunks);
    lemma_fed_is_joined(Seq::empty(), seq![chunks.flatten()]);
    let one = seq![chunks.flatten()];
    assert(one.drop_first() =~= Seq::<Seq<u8>>::empty());
    assert(one.drop_first().flatten() == Seq::<u8>::empty());
    assert(one.flatten() == one.first() + one.drop_first().flatten());
    assert(one.flatten() =~= chunks.flatten());
    assert(Seq::<u8>::empty() + chunks.flatten() =~= chunks.flatten());
}

/// The dispatcher's command table: ADD and VERIFY answer 200, DELETE answers
/// 204, and the body is the JSON text of the result the operation returns.
pub proof fn lemma_dispatch_table(c: Command)
    ensures
        c == Command::ADD ==> reply_for(c) == (200u16, "{}"@),
        c == Command::DELETE ==> reply_for(c) == (204u16, "{}"@),
        c == Command::VERIFY ==> reply_for(c) == (200u16, "{\"user_id\":"@ + json_str_of("user_1"@) + "}"@),
{
}

} // verus!
