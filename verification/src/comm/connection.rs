//! One connection: assembling messages from what the socket delivers,
//! and framing the responses.

use std::sync::Arc;
use vstd::prelude::*;
use vstd::bytes::{
    spec_u32_from_le_bytes, spec_u32_to_le_bytes, u32_from_le_bytes, u32_to_le_bytes,
};
use vstd::slice::{slice_subrange, slice_to_vec};
use super::errors::{
    BadRequestError, Cause, ConnectionSevered, Fault, HeaderValidationError, ReadError,
};
use super::handlers::{kind_replies, AnyResponse, BoxedReqHandler, DispatchError, Dispatcher};
use super::{Message, MessageId, MessageRaw, Response};
use crate::agent::{Agent, AgentView};

verus! {

/// The signature with which every message starts, `RG`.
pub const SKEY: [u8; 2] = [0x52, 0x47];

/// Most bytes taken from the socket in one read.
pub const MSG_BATCH_LEN: usize = 512;

/// Length of the header's payload length field.
pub const MSG_LEN_FIELD_LEN: usize = 4;

/// Length of the signature.
pub const MSG_SKEY_FIELD_LEN: usize = 2;

/// Length of the header's message id field.
pub const MSG_ID_FIELD_LEN: usize = 4;

/// Length of the header.
pub const MSG_HEADER_LEN: usize = MSG_SKEY_FIELD_LEN + MSG_LEN_FIELD_LEN + MSG_ID_FIELD_LEN;

/// The signature as a sequence of bytes.
pub open spec fn skey() -> Seq<u8> {
    seq![0x52u8, 0x47u8]
}

/// Whether the bytes start with the signature.
pub open spec fn signed(raw: Seq<u8>) -> bool {
    raw.len() >= 2 && raw[0] == 0x52 && raw[1] == 0x47
}

/// The message id that the header holds.
pub open spec fn frame_id(raw: Seq<u8>) -> MessageId {
    spec_u32_from_le_bytes(raw.subrange(2, 6))
}

/// The payload length that the header announces.
pub open spec fn declared_len(raw: Seq<u8>) -> u32 {
    spec_u32_from_le_bytes(raw.subrange(6, 10))
}

/// The bytes behind the header.
pub open spec fn frame_payload(raw: Seq<u8>) -> Seq<u8> {
    raw.subrange(10, raw.len() as int)
}

/// Whether the bytes are one complete message: the signature, the id, the
/// payload length, and exactly as many payload bytes as announced.
pub open spec fn is_frame(raw: Seq<u8>) -> bool {
    &&& raw.len() >= 10
    &&& signed(raw)
    &&& raw.len() == 10 + declared_len(raw)
}

/// A message on the wire: the signature, the id and the payload's length,
/// both as four bytes with the lowest first, and then the payload.
pub open spec fn frame_bytes(id: MessageId, payload: Seq<u8>) -> Seq<u8> {
    skey() + spec_u32_to_le_bytes(id) + spec_u32_to_le_bytes(payload.len() as u32) + payload
}

/// What one read from the socket delivered.
pub enum ReadEvent {
    /// The bytes that were read; none at all when the peer has closed the
    /// connection.
    Bytes(Vec<u8>),
    /// The socket reported an error, with this text.
    Failed(String),
}

/// How far a message has been assembled, as plain mathematical values.
pub struct Assembling {
    /// The bytes read so far.
    pub raw: Seq<u8>,
    /// Whether the header has been read and found valid.
    pub header_parsed: bool,
    /// The length of the whole message, once the header has been read.
    pub full_msg_len: u64,
}

/// Where the assembling of a message stands after some reads.
pub enum Progress {
    /// More bytes are needed.
    Pending(Assembling),
    /// The message is complete.
    Frame(Seq<u8>),
    /// The peer closed the connection.
    Severed,
    /// The message does not start with the signature.
    HeaderMismatch { actual: Seq<u8> },
    /// More bytes arrived than the header announced.
    OverRead { expected: u64, read: usize },
    /// The socket reported an error.
    Transport(String),
}

/// The state in which no byte of a message has been read.
pub open spec fn fresh() -> Assembling {
    Assembling { raw: Seq::empty(), header_parsed: false, full_msg_len: 0 }
}

/// What one read does to a message that is being assembled. An error of
/// the socket and a read of no bytes end the assembling. Otherwise the
/// bytes are appended. The header is looked at once, as soon as all its
/// ten bytes are there: without the signature the message is refused. From
/// then on the length is known: the message is complete when exactly that
/// many bytes are there, and refused when there are more.
pub open spec fn feed(state: Assembling, event: ReadEvent) -> Progress {
    match event {
        ReadEvent::Failed(text) => Progress::Transport(text),
        ReadEvent::Bytes(chunk) => {
            let raw = state.raw + chunk@;
            let parse = raw.len() >= 10 && !state.header_parsed;
            let header_parsed = state.header_parsed || parse;
            let full_msg_len = if parse {
                (10 + declared_len(raw)) as u64
            } else {
                state.full_msg_len
            };
            if chunk@.len() == 0 {
                Progress::Severed
            } else if parse && !signed(raw) {
                Progress::HeaderMismatch { actual: raw }
            } else if header_parsed && raw.len() == full_msg_len {
                Progress::Frame(raw)
            } else if header_parsed && raw.len() > full_msg_len {
                Progress::OverRead { expected: full_msg_len, read: raw.len() as usize }
            } else {
                Progress::Pending(Assembling { raw, header_parsed, full_msg_len })
            }
        },
    }
}

/// What a series of reads does to a message that is being assembled: the
/// reads are taken one by one until one of them completes the message or
/// ends the assembling; what follows it is not looked at.
pub open spec fn decode(state: Assembling, events: Seq<ReadEvent>) -> Progress
    decreases events.len(),
{
    if events.len() == 0 {
        Progress::Pending(state)
    } else {
        match feed(state, events[0]) {
            Progress::Pending(next) => decode(next, events.drop_first()),
            done => done,
        }
    }
}

/// Whether `r` and the state `after` are what is handed to the caller
/// when the assembling stands at `progress`. A message that is not yet
/// complete is kept for the next read; in every other case the next read
/// starts a new message.
pub open spec fn reported(
    progress: Progress,
    r: Result<Decoded, BadRequestError>,
    after: Assembling,
) -> bool {
    match progress {
        Progress::Pending(state) => r matches Ok(Decoded::WouldBlock) && after == state,
        Progress::Frame(frame) => r matches Ok(Decoded::Frame(raw)) && raw@ == frame && after
            == fresh(),
        Progress::Severed => r matches Err(BadRequestError(Fault::Severed(_))) && after == fresh(),
        Progress::HeaderMismatch { actual } => r matches Err(BadRequestError(Fault::Header(e)))
            && e.expected@ == skey() && e.actual@ == actual && after == fresh(),
        Progress::OverRead { expected, read } => r == Err::<Decoded, BadRequestError>(
            BadRequestError(Fault::Read(ReadError { couse: Cause::OverRead { expected, read } })),
        ) && after == fresh(),
        Progress::Transport(text) => r == Err::<Decoded, BadRequestError>(
            BadRequestError(Fault::Read(ReadError { couse: Cause::Transport(text) })),
        ) && after == fresh(),
    }
}

/// A message that is being assembled from what the socket delivers.
pub struct Assembly {
    raw: MessageRaw,
    header_parsed: bool,
    full_msg_len: u64,
}

impl View for Assembly {
    type V = Assembling;

    closed spec fn view(&self) -> Assembling {
        Assembling {
            raw: self.raw@,
            header_parsed: self.header_parsed,
            full_msg_len: self.full_msg_len,
        }
    }
}

impl Assembly {
    /// Starts a new message.
    pub fn new() -> (assembly: Assembly)
        ensures
            assembly@ == fresh(),
    {
        Assembly { raw: Vec::with_capacity(MSG_HEADER_LEN), header_parsed: false, full_msg_len: 0 }
    }

    /// Number of bytes read so far.
    pub fn len(&self) -> (n: usize)
        ensures
            n == self@.raw.len(),
    {
        self.raw.len()
    }
}

/// What `read_mess` hands back when nothing went wrong.
pub enum Decoded {
    /// A complete message, header included.
    Frame(MessageRaw),
    /// The message is not complete yet: more has to be read.
    WouldBlock,
}

/// What is known of a connection while it is served.
#[derive(Clone, Copy, Debug)]
pub struct Context {
    /// Number of the connection, for diagnostics.
    pub id: usize,
    /// Whether the client has said hello.
    pub initialized: bool,
}

impl Context {
    /// The context of a connection that has just been accepted.
    pub fn new(conn_id: usize) -> (ctx: Context)
        ensures
            ctx.id == conn_id,
            !ctx.initialized,
    {
        Context { id: conn_id, initialized: false }
    }
}

/// What the server does next on a connection.
pub enum Action {
    /// Read from the socket again: the message is not complete.
    Read,
    /// Write these bytes, flush, and read the next message.
    Respond(Vec<u8>),
    /// Close the connection.
    Close,
}

/// Whether the registry may answer the message `raw` with `resp`.
pub open spec fn accepts(
    registry: Map<MessageId, BoxedReqHandler>,
    raw: Seq<u8>,
    ctx: Context,
    agent: AgentView,
    resp: AnyResponse,
    ctx_after: Context,
    agent_after: AgentView,
) -> bool {
    registry.contains_key(frame_id(raw)) && kind_replies(
        registry[frame_id(raw)],
        raw,
        ctx,
        agent,
        Ok(resp),
        ctx_after,
        agent_after,
    )
}

/// Whether the registry may refuse the message `raw`: no handler is
/// registered for it, and nothing changes, or its handler reports an
/// error.
pub open spec fn rejects(
    registry: Map<MessageId, BoxedReqHandler>,
    raw: Seq<u8>,
    ctx: Context,
    agent: AgentView,
    ctx_after: Context,
    agent_after: AgentView,
) -> bool {
    if registry.contains_key(frame_id(raw)) {
        exists|e: DispatchError|
            kind_replies(registry[frame_id(raw)], raw, ctx, agent, Err(e), ctx_after, agent_after)
    } else {
        ctx_after == ctx && agent_after == agent
    }
}

/// Serves one connection.
pub struct Handler {
    context: Context,
    req_handlers: Arc<Dispatcher>,
}

impl Handler {
    /// Creates the handler of a connection from the connection's initial
    /// context and the registry that all connections share.
    pub fn new(context: Context, req_handlers: Arc<Dispatcher>) -> (handler: Handler)
        ensures
            handler.context() == context,
            handler.registry() == req_handlers@,
    {
        Handler { context, req_handlers }
    }

    /// The context with which the connection starts.
    pub closed spec fn context(&self) -> Context {
        self.context
    }

    /// The handlers that the connection can call on.
    pub closed spec fn registry(&self) -> Map<MessageId, BoxedReqHandler> {
        self.req_handlers@
    }

    /// Returns the context with which the connection starts.
    pub fn initial_context(&self) -> (ctx: Context)
        ensures
            ctx == self.context(),
    {
        self.context
    }

    /// Takes one step in serving the connection: takes in what the socket
    /// has delivered and says what to do next. While the message is not
    /// complete, that is to read on. A complete message is handed to its
    /// handler, and the response is framed to be written. The connection
    /// is closed when the message cannot be completed, or is not answered.
    pub fn handle_connection(
        &self,
        assembly: &mut Assembly,
        events: &Vec<ReadEvent>,
        ctx: &mut Context,
        agent: &mut Agent,
    ) -> (action: Action)
        requires
            old(agent).wf(),
            awaiting(old(assembly)@),
        ensures
            final(agent).wf(),
            awaiting(final(assembly)@),
            match decode(old(assembly)@, events@) {
                Progress::Pending(state) => {
                    &&& action is Read
                    &&& final(assembly)@ == state
                    &&& *final(ctx) == *old(ctx)
                    &&& final(agent)@ == old(agent)@
                },
                Progress::Frame(frame) => {
                    &&& final(assembly)@ == fresh()
                    &&& match action {
                        Action::Respond(bytes) => exists|resp: AnyResponse|
                            accepts(
                                self.registry(),
                                frame,
                                *old(ctx),
                                old(agent)@,
                                resp,
                                *final(ctx),
                                final(agent)@,
                            ) && bytes@ == frame_bytes(resp.id_spec(), resp.payload_spec()),
                        Action::Close => rejects(
                            self.registry(),
                            frame,
                            *old(ctx),
                            old(agent)@,
                            *final(ctx),
                            final(agent)@,
                        ),
                        Action::Read => false,
                    }
                },
                _ => {
                    &&& action is Close
                    &&& final(assembly)@ == fresh()
                    &&& *final(ctx) == *old(ctx)
                    &&& final(agent)@ == old(agent)@
                },
            },
    {
        let raw = match self.try_mess_read(assembly, events) {
            Some(Decoded::Frame(raw)) => raw,
            Some(Decoded::WouldBlock) => { return Action::Read; },
            None => { return Action::Close; },
        };
        proof {
            lemma_frames_have_headers(old(assembly)@, events@);
        }
        match self.handle_request(raw, &self.req_handlers, ctx, agent) {
            Some(resp) => {
                let bytes = Self::response_as_bytes(&resp);
                proof {
                    assert(accepts(
                        self.registry(),
                        raw@,
                        *old(ctx),
                        old(agent)@,
                        resp,
                        *ctx,
                        agent@,
                    ));
                }
                Action::Respond(bytes)
            },
            None => Action::Close,
        }
    }

    /// Lets the registry answer a complete message, and gives the response
    /// if there is one.
    pub fn handle_request(
        &self,
        raw: MessageRaw,
        req_dispatcher: &Dispatcher,
        ctx: &mut Context,
        agent: &mut Agent,
    ) -> (r: Option<AnyResponse>)
        requires
            raw@.len() >= 6,
            old(agent).wf(),
        ensures
            final(agent).wf(),
            match r {
                Some(resp) => accepts(
                    req_dispatcher@,
                    raw@,
                    *old(ctx),
                    old(agent)@,
                    resp,
                    *final(ctx),
                    final(agent)@,
                ),
                None => rejects(
                    req_dispatcher@,
                    raw@,
                    *old(ctx),
                    old(agent)@,
                    *final(ctx),
                    final(agent)@,
                ),
            },
    {
        match req_dispatcher.dispatch_from_raw(raw, ctx, agent) {
            Err(_) => None,
            Ok(resp) => Some(resp),
        }
    }

    /// Takes in what one read delivered: the bytes are appended to the
    /// message. A read of no bytes means that the peer has gone, and an
    /// error of the socket is passed on.
    pub fn extend_raw_mess(&self, raw: &mut MessageRaw, event: &ReadEvent) -> (r: Result<
        (),
        BadRequestError,
    >)
        ensures
            match *event {
                ReadEvent::Failed(text) => r == Err::<(), BadRequestError>(
                    BadRequestError(Fault::Read(ReadError { couse: Cause::Transport(text) })),
                ) && final(raw)@ == old(raw)@,
                ReadEvent::Bytes(chunk) => if chunk@.len() == 0 {
                    r == Err::<(), BadRequestError>(
                        BadRequestError(Fault::Severed(ConnectionSevered)),
                    ) && final(raw)@ == old(raw)@
                } else {
                    r is Ok && final(raw)@ == old(raw)@ + chunk@
                },
            },
    {
        match event {
            ReadEvent::Failed(text) => Err(
                BadRequestError::from(ReadError::new(Cause::Transport(text.clone()))),
            ),
            ReadEvent::Bytes(chunk) => {
                if chunk.len() == 0 {
                    Err(BadRequestError::from(ConnectionSevered {  }))
                } else {
                    raw.extend_from_slice(chunk.as_slice());
                    Ok(())
                }
            },
        }
    }

    /// Forgets what has been read of the message.
    fn reset(assembly: &mut Assembly)
        ensures
            final(assembly)@ == fresh(),
    {
        assembly.raw = Vec::with_capacity(MSG_HEADER_LEN);
        assembly.header_parsed = false;
        assembly.full_msg_len = 0;
    }

    /// Takes in one read.
    fn read_step(&self, assembly: &mut Assembly, event: &ReadEvent) -> (r: Result<
        Decoded,
        BadRequestError,
    >)
        ensures
            reported(feed(old(assembly)@, *event), r, final(assembly)@),
    {
        if let Err(e) = self.extend_raw_mess(&mut assembly.raw, event) {
            Self::reset(assembly);
            return Err(e);
        }
        if assembly.raw.len() >= MSG_HEADER_LEN && !assembly.header_parsed {
            match self.read_header(&assembly.raw) {
                Err(e) => {
                    Self::reset(assembly);
                    return Err(BadRequestError::from(e));
                },
                Ok(full_msg_len) => {
                    assembly.full_msg_len = full_msg_len;
                    assembly.header_parsed = true;
                },
            }
        }
        if assembly.header_parsed {
            let read = assembly.raw.len();
            if read as u64 == assembly.full_msg_len {
                let mut raw: MessageRaw = Vec::new();
                std::mem::swap(&mut raw, &mut assembly.raw);
                Self::reset(assembly);
                return Ok(Decoded::Frame(raw));
            } else if read as u64 > assembly.full_msg_len {
                let expected = assembly.full_msg_len;
                Self::reset(assembly);
                return Err(
                    BadRequestError::from(ReadError::new(Cause::OverRead { expected, read })),
                );
            }
        }
        Ok(Decoded::WouldBlock)
    }

    /// Assembles a message from what the socket has delivered: takes in
    /// the reads one by one until the message is complete or cannot be
    /// completed. When the reads run out before that, the message is kept
    /// in `assembly`, and the next call goes on with it.
    pub fn read_mess(&self, assembly: &mut Assembly, events: &Vec<ReadEvent>) -> (r: Result<
        Decoded,
        BadRequestError,
    >)
        ensures
            reported(decode(old(assembly)@, events@), r, final(assembly)@),
            awaiting(old(assembly)@) ==> awaiting(final(assembly)@),
    {
        proof {
            if awaiting(old(assembly)@) {
                lemma_decode_stays_awaiting(old(assembly)@, events@);
            }
        }
        let mut i: usize = 0;
        proof {
            assert(events@.subrange(0, events@.len() as int) =~= events@);
        }
        while i < events.len()
            invariant
                i <= events@.len(),
                decode(old(assembly)@, events@) == decode(
                    assembly@,
                    events@.subrange(i as int, events@.len() as int),
                ),
            decreases events@.len() - i,
        {
            proof {
                let rest = events@.subrange(i as int, events@.len() as int);
                assert(rest[0] == events@[i as int]);
                assert(rest.drop_first() =~= events@.subrange(i + 1, events@.len() as int));
            }
            match self.read_step(assembly, &events[i]) {
                Ok(Decoded::WouldBlock) => {},
                done => { return done; },
            }
            i = i + 1;
        }
        Ok(Decoded::WouldBlock)
    }

    /// Assembles a message as `read_mess` does, and gives up the message
    /// when it cannot be completed.
    pub fn try_mess_read(&self, assembly: &mut Assembly, events: &Vec<ReadEvent>) -> (r: Option<
        Decoded,
    >)
        ensures
            match decode(old(assembly)@, events@) {
                Progress::Pending(state) => r matches Some(Decoded::WouldBlock)
                    && final(assembly)@ == state,
                Progress::Frame(frame) => r matches Some(Decoded::Frame(raw)) && raw@ == frame
                    && final(assembly)@ == fresh(),
                _ => r is None && final(assembly)@ == fresh(),
            },
            awaiting(old(assembly)@) ==> awaiting(final(assembly)@),
    {
        match self.read_mess(assembly, events) {
            Ok(decoded) => Some(decoded),
            Err(_) => None,
        }
    }

    /// Reads the header of a message of which at least the header is
    /// there, and returns the length of the whole message.
    pub fn read_header(&self, raw: &MessageRaw) -> (r: Result<u64, HeaderValidationError>)
        requires
            raw@.len() >= 10,
        ensures
            signed(raw@) ==> r == Ok::<u64, HeaderValidationError>(
                (10 + declared_len(raw@)) as u64,
            ),
            !signed(raw@) ==> (r matches Err(e) && e.expected@ == skey() && e.actual@ == raw@),
    {
        match Self::parse_header(raw.as_slice()) {
            Err(e) => Err(e),
            Ok(payload_len) => Ok(payload_len as u64 + MSG_HEADER_LEN as u64),
        }
    }

    /// Checks the signature at the start of the header and returns the
    /// payload length that the header announces. Without the signature the
    /// error carries the signature and all the bytes that were given.
    pub fn parse_header(header: &[u8]) -> (r: Result<u32, HeaderValidationError>)
        requires
            header@.len() >= 10,
        ensures
            signed(header@) ==> r == Ok::<u32, HeaderValidationError>(declared_len(header@)),
            !signed(header@) ==> (r matches Err(e) && e.expected@ == skey() && e.actual@
                == header@),
    {
        if header[0] != SKEY[0] || header[1] != SKEY[1] {
            let mut expected: Vec<u8> = Vec::new();
            expected.push(SKEY[0]);
            expected.push(SKEY[1]);
            proof {
                assert(expected@ =~= skey());
            }
            return Err(HeaderValidationError { expected, actual: slice_to_vec(header) });
        }
        let beggining = MSG_SKEY_FIELD_LEN + MSG_ID_FIELD_LEN;
        Ok(u32_from_le_bytes(slice_subrange(header, beggining, beggining + MSG_LEN_FIELD_LEN)))
    }

    /// Frames a response for the wire: the signature, the response's id,
    /// the length of its payload, and the payload.
    pub fn response_as_bytes<R: Response>(resp: &R) -> (as_bytes: Vec<u8>)
        ensures
            as_bytes@ == frame_bytes(resp.id_spec(), resp.payload_spec()),
    {
        let mut as_bytes: Vec<u8> = Vec::with_capacity(MSG_HEADER_LEN);
        as_bytes.push(SKEY[0]);
        as_bytes.push(SKEY[1]);
        let mut id_bytes = u32_to_le_bytes(resp.id());
        as_bytes.append(&mut id_bytes);
        let mut payload = resp.payload();
        let mut len_bytes = u32_to_le_bytes(payload.len() as u32);
        as_bytes.append(&mut len_bytes);
        as_bytes.append(&mut payload);
        proof {
            assert(as_bytes@ =~= frame_bytes(resp.id_spec(), resp.payload_spec()));
        }
        as_bytes
    }
}

/// All the bytes that a series of reads delivered.
pub open spec fn joined(events: Seq<ReadEvent>) -> Seq<u8>
    decreases events.len(),
{
    if events.len() == 0 {
        Seq::empty()
    } else {
        match events[0] {
            ReadEvent::Bytes(chunk) => chunk@ + joined(events.drop_first()),
            ReadEvent::Failed(_) => joined(events.drop_first()),
        }
    }
}

/// Whether every read of the series delivered at least one byte.
pub open spec fn delivers_bytes(events: Seq<ReadEvent>) -> bool {
    forall|i: int|
        0 <= i < events.len() ==> (#[trigger] events[i] matches ReadEvent::Bytes(chunk)
            && chunk@.len() > 0)
}

/// Whether the state is one in which a message waits for more bytes:
/// either the header is not complete and has not been looked at, or it was
/// found valid and fewer bytes are there than it announced.
pub open spec fn awaiting(state: Assembling) -> bool {
    if state.header_parsed {
        &&& state.raw.len() >= 10
        &&& signed(state.raw)
        &&& state.full_msg_len == 10 + declared_len(state.raw)
        &&& state.raw.len() < state.full_msg_len
    } else {
        state.raw.len() < 10
    }
}

/// Reads that deliver bytes deliver at least as many bytes as there are
/// reads.
pub proof fn lemma_joined_len(events: Seq<ReadEvent>)
    requires
        delivers_bytes(events),
    ensures
        joined(events).len() >= events.len(),
    decreases events.len(),
{
    if events.len() > 0 {
        let rest = events.drop_first();
        assert(events[0] is Bytes);
        assert forall|i: int| 0 <= i < rest.len() implies (#[trigger] rest[i] matches ReadEvent::Bytes(
            chunk,
        ) && chunk@.len() > 0) by {
            assert(rest[i] == events[i + 1]);
        }
        lemma_joined_len(rest);
    }
}

/// Framing and reading agree: a framed message is one complete message,
/// and its header and payload give back the id and the payload that were
/// framed. The payload must not be longer than four bytes can say.
pub proof fn lemma_frame_round_trip(id: MessageId, payload: Seq<u8>)
    requires
        payload.len() <= u32::MAX,
    ensures
        is_frame(frame_bytes(id, payload)),
        frame_id(frame_bytes(id, payload)) == id,
        declared_len(frame_bytes(id, payload)) == payload.len(),
        frame_payload(frame_bytes(id, payload)) == payload,
{
    vstd::bytes::lemma_auto_spec_u32_to_from_le_bytes();
    let frame = frame_bytes(id, payload);
    let len = payload.len() as u32;
    assert(spec_u32_to_le_bytes(id).len() == 4);
    assert(spec_u32_to_le_bytes(len).len() == 4);
    assert(frame.subrange(2, 6) =~= spec_u32_to_le_bytes(id));
    assert(frame.subrange(6, 10) =~= spec_u32_to_le_bytes(len));
    assert(frame.subrange(10, frame.len() as int) =~= payload);
}

/// However the bytes of one complete message are spread over the reads,
/// the message that is assembled from them is that message.
pub proof fn lemma_decode_rest(state: Assembling, events: Seq<ReadEvent>, frame: Seq<u8>)
    requires
        is_frame(frame),
        delivers_bytes(events),
        events.len() > 0,
        state.raw + joined(events) == frame,
        state.header_parsed ==> state.raw.len() >= 10 && state.full_msg_len == frame.len(),
        !state.header_parsed ==> state.raw.len() < 10,
    ensures
        decode(state, events) == Progress::Frame(frame),
    decreases events.len(),
{
    let rest = events.drop_first();
    let chunk = events[0]->Bytes_0@;
    let raw = state.raw + chunk;
    assert(events[0] is Bytes && chunk.len() > 0);
    assert forall|i: int| 0 <= i < rest.len() implies (#[trigger] rest[i] matches ReadEvent::Bytes(
        c,
    ) && c@.len() > 0) by {
        assert(rest[i] == events[i + 1]);
    }
    lemma_joined_len(rest);
    assert(raw + joined(rest) =~= frame);
    if raw.len() >= 10 {
        assert(raw.subrange(6, 10) =~= frame.subrange(6, 10));
        assert(raw[0] == frame[0] && raw[1] == frame[1]);
    }
    if rest.len() == 0 {
        assert(raw =~= frame);
    } else {
        let parse = raw.len() >= 10 && !state.header_parsed;
        let next = Assembling {
            raw,
            header_parsed: state.header_parsed || parse,
            full_msg_len: if parse {
                (10 + declared_len(raw)) as u64
            } else {
                state.full_msg_len
            },
        };
        assert(feed(state, events[0]) == Progress::Pending(next));
        lemma_decode_rest(next, rest, frame);
    }
}

/// Reading a complete message gives that message, whether its bytes come
/// in one read, one by one, or in any other portions.
pub proof fn lemma_decode_chunked(events: Seq<ReadEvent>, frame: Seq<u8>)
    requires
        is_frame(frame),
        delivers_bytes(events),
        joined(events) == frame,
    ensures
        decode(fresh(), events) == Progress::Frame(frame),
{
    if events.len() == 0 {
        assert(joined(events).len() == 0);
    } else {
        assert(fresh().raw + joined(events) =~= frame);
        lemma_decode_rest(fresh(), events, frame);
    }
}

/// Two series of reads that deliver the same complete message are
/// assembled into the same message.
pub proof fn lemma_chunking_is_irrelevant(a: Seq<ReadEvent>, b: Seq<ReadEvent>)
    requires
        is_frame(joined(a)),
        joined(a) == joined(b),
        delivers_bytes(a),
        delivers_bytes(b),
    ensures
        decode(fresh(), a) == decode(fresh(), b),
        decode(fresh(), a) == Progress::Frame(joined(a)),
{
    lemma_decode_chunked(a, joined(a));
    lemma_decode_chunked(b, joined(a));
}

/// Framing a response and reading it back, in whatever portions, gives a
/// message with the response's id and payload.
pub proof fn lemma_decode_encoded(id: MessageId, payload: Seq<u8>, events: Seq<ReadEvent>)
    requires
        payload.len() <= u32::MAX,
        delivers_bytes(events),
        joined(events) == frame_bytes(id, payload),
    ensures
        decode(fresh(), events) matches Progress::Frame(frame) && frame_id(frame) == id
            && frame_payload(frame) == payload,
{
    lemma_frame_round_trip(id, payload);
    lemma_decode_chunked(events, frame_bytes(id, payload));
}

/// Bytes that do not start with the signature are refused as soon as ten
/// of them are there, however they are spread over the reads: they are
/// never taken for a message, and never waited on.
pub proof fn lemma_unsigned_is_refused(state: Assembling, events: Seq<ReadEvent>)
    requires
        !state.header_parsed,
        state.raw.len() < 10,
        delivers_bytes(events),
        (state.raw + joined(events)).len() >= 10,
        !signed(state.raw + joined(events)),
    ensures
        decode(state, events) is HeaderMismatch,
    decreases events.len(),
{
    if events.len() == 0 {
        assert(joined(events).len() == 0);
    } else {
        let rest = events.drop_first();
        let chunk = events[0]->Bytes_0@;
        let raw = state.raw + chunk;
        let all = state.raw + joined(events);
        assert(events[0] is Bytes && chunk.len() > 0);
        assert forall|i: int| 0 <= i < rest.len() implies (#[trigger] rest[i] matches ReadEvent::Bytes(
            c,
        ) && c@.len() > 0) by {
            assert(rest[i] == events[i + 1]);
        }
        assert(raw + joined(rest) =~= all);
        if raw.len() >= 10 {
            assert(raw[0] == all[0] && raw[1] == all[1]);
        } else {
            let next = Assembling { raw, header_parsed: false, full_msg_len: state.full_msg_len };
            assert(feed(state, events[0]) == Progress::Pending(next));
            lemma_unsigned_is_refused(next, rest);
        }
    }
}

/// A read after which more bytes are there than the header announces is
/// refused as an over-read.
pub proof fn lemma_over_read_is_refused(state: Assembling, event: ReadEvent)
    requires
        awaiting(state),
        event matches ReadEvent::Bytes(chunk) && chunk@.len() > 0 && ({
            let raw = state.raw + chunk@;
            raw.len() >= 10 && signed(raw) && raw.len() > 10 + declared_len(raw)
        }),
    ensures
        feed(state, event) == (Progress::OverRead {
            expected: (10 + declared_len(state.raw + event->Bytes_0@)) as u64,
            read: (state.raw + event->Bytes_0@).len() as usize,
        }),
{
    let raw = state.raw + event->Bytes_0@;
    if state.header_parsed {
        assert(raw.subrange(6, 10) =~= state.raw.subrange(6, 10));
    }
}

/// A message that waits for more bytes and gets some goes on waiting in a
/// state of the same kind.
pub proof fn lemma_pending_stays_awaiting(state: Assembling, event: ReadEvent)
    requires
        awaiting(state),
        feed(state, event) is Pending,
    ensures
        awaiting(feed(state, event)->Pending_0),
{
    let raw = state.raw + event->Bytes_0@;
    if state.header_parsed {
        assert(raw.subrange(6, 10) =~= state.raw.subrange(6, 10));
    }
}

/// A message that is handed over as complete holds a whole header: ten
/// bytes at least.
pub proof fn lemma_frames_have_headers(state: Assembling, events: Seq<ReadEvent>)
    requires
        awaiting(state),
    ensures
        decode(state, events) matches Progress::Frame(frame) ==> frame.len() >= 10,
    decreases events.len(),
{
    if events.len() > 0 {
        if feed(state, events[0]) is Pending {
            lemma_pending_stays_awaiting(state, events[0]);
            lemma_frames_have_headers(feed(state, events[0])->Pending_0, events.drop_first());
        }
    }
}

/// A message that waits for more bytes still does so after any series of
/// reads that leaves it incomplete.
pub proof fn lemma_decode_stays_awaiting(state: Assembling, events: Seq<ReadEvent>)
    requires
        awaiting(state),
    ensures
        decode(state, events) matches Progress::Pending(next) ==> awaiting(next),
    decreases events.len(),
{
    if events.len() > 0 {
        if feed(state, events[0]) is Pending {
            lemma_pending_stays_awaiting(state, events[0]);
            lemma_decode_stays_awaiting(feed(state, events[0])->Pending_0, events.drop_first());
        }
    }
}

} // verus!
