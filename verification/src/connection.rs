//! One connection, from the first byte of the request to the answer.
//!
//! A connection carries a single exchange: an envelope with a command comes
//! in, the command is carried out, an envelope with the reply goes out. The
//! [`Connection`] decides each step and leaves the doing to the host: it
//! asks for bytes, then for the actions of the executor, and at last hands
//! over the frame to send. A request that cannot be framed or decoded ends
//! the connection without an answer, and harms nothing else.

use crate::command::decode;
use crate::command::fits;
use crate::command::parse;
use crate::command::parse_of_wire;
use crate::command::wire;
use crate::command::CommandView;
use crate::command::DecodeError;
use crate::executor::begin;
use crate::executor::react;
use crate::executor::Action;
use crate::executor::ActionView;
use crate::executor::Event;
use crate::executor::EventView;
use crate::executor::Executor;
use crate::executor::StageView;
use crate::framing::be_bytes;
use crate::framing::be_value_of_be_bytes;
use crate::framing::encode;
use crate::framing::frame_of;
use crate::framing::frame_result;
use crate::framing::frame_result_of_frame;
use crate::framing::progress_of;
use crate::framing::taken;
use crate::framing::FrameReader;
use crate::framing::HEADER_LEN;
use crate::framing::FramingError;
use crate::framing::Progress;
use vstd::prelude::*;
use vstd::string::StringSliceAdditionalSpecFns;
use vstd::utf8::encode_utf8;

verus! {

/// Why a connection ends without an answer.
#[derive(Clone, Copy, Debug, PartialEq, Eq, Structural)]
pub enum Fault {
    /// The request's envelope is cut short or too large, or the reply is too
    /// long for an envelope.
    Framing(FramingError),
    /// The request's payload is not a command.
    Decode(DecodeError),
    /// The host reported what it was not asked for.
    Misuse,
}

/// What the host must do next for the connection.
#[derive(Clone, Debug, PartialEq, Eq)]
pub enum Directive {
    /// Read from the stream, at most so many bytes, and report what came.
    Read { at_most: usize },
    /// Do this for the executor and report the event.
    Perform { action: Action },
    /// Send this frame, the reply in its envelope, and close.
    Send { frame: Vec<u8> },
    /// Close without an answer.
    Hang { fault: Fault },
}

/// A `Directive` as a mathematical value.
pub enum DirectiveView {
    Read { at_most: usize },
    Perform { action: ActionView },
    Send { frame: Seq<u8> },
    Hang { fault: Fault },
}

impl View for Directive {
    type V = DirectiveView;

    open spec fn view(&self) -> DirectiveView {
        match self {
            Directive::Read { at_most } => DirectiveView::Read { at_most: *at_most },
            Directive::Perform { action } => DirectiveView::Perform { action: action@ },
            Directive::Send { frame } => DirectiveView::Send { frame: frame@ },
            Directive::Hang { fault } => DirectiveView::Hang { fault: *fault },
        }
    }
}

/// Where a connection stands.
pub enum ConnectionView {
    /// The request is coming in: these bytes of its envelope are here.
    Receiving { limit: u32, received: Seq<u8> },
    /// The command is being carried out.
    Executing { stage: StageView },
    /// The exchange is over.
    Closed,
}

/// What follows an action of the executor: the reply goes out in its
/// envelope, anything else goes to the host.
pub open spec fn direct(stage: StageView, action: ActionView) -> (ConnectionView, DirectiveView) {
    match action {
        ActionView::Reply { text } => if encode_utf8(text).len() <= u32::MAX {
            (ConnectionView::Closed, DirectiveView::Send { frame: frame_of(encode_utf8(text)) })
        } else {
            (
                ConnectionView::Closed,
                DirectiveView::Hang { fault: Fault::Framing(FramingError::TooLarge) },
            )
        },
        ActionView::Close => (ConnectionView::Closed, DirectiveView::Hang { fault: Fault::Misuse }),
        _ => (ConnectionView::Executing { stage }, DirectiveView::Perform { action }),
    }
}

/// What follows a complete payload: the first action of the command in it,
/// or the end of the connection if it holds none.
pub open spec fn take_up(payload: Seq<u8>) -> (ConnectionView, DirectiveView) {
    match parse(payload) {
        Ok(command) => direct(begin(command).0, begin(command).1),
        Err(e) => (ConnectionView::Closed, DirectiveView::Hang { fault: Fault::Decode(e) }),
    }
}

/// What follows when the stream produces `chunk`, or ends if `chunk` is empty.
pub open spec fn on_bytes(state: ConnectionView, chunk: Seq<u8>) -> (ConnectionView, DirectiveView) {
    match state {
        ConnectionView::Receiving { limit, received } => if chunk.len() == 0 {
            (
                ConnectionView::Closed,
                DirectiveView::Hang { fault: Fault::Framing(FramingError::Truncated) },
            )
        } else {
            match progress_of(limit, taken(limit, received + chunk)) {
                Progress::Need(at_most) => (
                    ConnectionView::Receiving { limit, received: taken(limit, received + chunk) },
                    DirectiveView::Read { at_most },
                ),
                Progress::Oversized => (
                    ConnectionView::Closed,
                    DirectiveView::Hang { fault: Fault::Framing(FramingError::TooLarge) },
                ),
                Progress::Complete => take_up(taken(limit, received + chunk).skip(4)),
            }
        },
        _ => (ConnectionView::Closed, DirectiveView::Hang { fault: Fault::Misuse }),
    }
}

/// What follows when the host reports `event`.
pub open spec fn on_event(state: ConnectionView, event: EventView) -> (
    ConnectionView,
    DirectiveView,
) {
    match state {
        ConnectionView::Executing { stage } => direct(
            react(stage, event).0,
            react(stage, event).1,
        ),
        _ => (ConnectionView::Closed, DirectiveView::Hang { fault: Fault::Misuse }),
    }
}

/// A request that arrives whole is taken up: a connection that has
/// received nothing and is given the envelope of a command asks for the
/// first action of that command, or sends its reply.
pub proof fn request_is_taken_up(limit: u32, command: CommandView)
    requires
        fits(command),
        wire(command).len() <= limit,
    ensures
        on_bytes(
            ConnectionView::Receiving { limit, received: Seq::empty() },
            frame_of(wire(command)),
        ) == direct(begin(command).0, begin(command).1),
{
    let payload = wire(command);
    let chunk = frame_of(payload);
    be_value_of_be_bytes(payload.len() as int);
    assert(Seq::<u8>::empty() + chunk =~= chunk);
    assert(chunk.take(4) =~= be_bytes(payload.len() as int));
    assert(taken(limit, chunk) =~= chunk);
    assert(chunk.skip(4) =~= payload);
    parse_of_wire(command, Seq::empty());
    assert(payload + Seq::<u8>::empty() =~= payload);
}

/// The frame that a connection sends is read by its receiver as the reply's
/// text in UTF-8.
pub proof fn reply_is_framed(stage: StageView, text: Seq<char>)
    requires
        encode_utf8(text).len() <= u32::MAX,
    ensures
        direct(stage, ActionView::Reply { text }).1 is Send,
        frame_result(u32::MAX, direct(stage, ActionView::Reply { text }).1->frame) == Ok::<
            Seq<u8>,
            FramingError,
        >(encode_utf8(text)),
{
    frame_result_of_frame(u32::MAX, encode_utf8(text));
}

enum Phase {
    Receiving { reader: FrameReader },
    Executing { executor: Executor },
    Closed,
}

/// The state of one connection.
pub struct Connection {
    phase: Phase,
}

impl View for Connection {
    type V = ConnectionView;

    closed spec fn view(&self) -> ConnectionView {
        match self.phase {
            Phase::Receiving { reader } => ConnectionView::Receiving {
                limit: reader.limit(),
                received: reader.received(),
            },
            Phase::Executing { executor } => ConnectionView::Executing { stage: executor@ },
            Phase::Closed => ConnectionView::Closed,
        }
    }
}

fn hang(fault: Fault) -> (next: (Connection, Directive))
    ensures
        next.0@ == ConnectionView::Closed,
        next.1@ == (DirectiveView::Hang { fault }),
{
    (Connection { phase: Phase::Closed }, Directive::Hang { fault })
}

fn dispatch(executor: Executor, action: Action) -> (next: (Connection, Directive))
    ensures
        (next.0@, next.1@) == direct(executor@, action@),
{
    match action {
        Action::Reply { text } => match encode(text.as_str().as_bytes()) {
            Ok(frame) => (Connection { phase: Phase::Closed }, Directive::Send { frame }),
            Err(e) => hang(Fault::Framing(e)),
        },
        Action::Close => hang(Fault::Misuse),
        other => (Connection { phase: Phase::Executing { executor } }, Directive::Perform {
            action: other,
        }),
    }
}

fn welcome(payload: Vec<u8>) -> (next: (Connection, Directive))
    ensures
        (next.0@, next.1@) == take_up(payload@),
{
    match decode(payload.as_slice()) {
        Ok(command) => {
            let (executor, action) = Executor::begin(command);
            dispatch(executor, action)
        },
        Err(e) => hang(Fault::Decode(e)),
    }
}

impl Connection {
    /// The connection is well formed: while it receives, it has not yet all
    /// of an envelope that it accepts.
    pub closed spec fn wf(&self) -> bool {
        match self.phase {
            Phase::Receiving { reader } => reader.wf() && progress_of(
                reader.limit(),
                reader.received(),
            ) is Need,
            _ => true,
        }
    }

    /// Opens a connection that accepts payloads of up to `limit` bytes: it
    /// has received nothing and asks for the header.
    pub fn open(limit: u32) -> (first: (Connection, Directive))
        ensures
            first.0.wf(),
            first.0@ == (ConnectionView::Receiving { limit, received: Seq::empty() }),
            first.1@ == (DirectiveView::Read { at_most: 4 }),
    {
        let reader = FrameReader::new(limit);
        (Connection { phase: Phase::Receiving { reader } }, Directive::Read { at_most: HEADER_LEN })
    }

    /// Takes what the stream produced next; an empty `chunk` says that the
    /// stream has ended.
    pub fn received(self, chunk: &[u8]) -> (next: (Connection, Directive))
        requires
            self.wf(),
        ensures
            next.0.wf(),
            (next.0@, next.1@) == on_bytes(self@, chunk@),
    {
        match self.phase {
            Phase::Receiving { reader } => {
                let mut reader = reader;
                if chunk.len() == 0 {
                    return hang(Fault::Framing(FramingError::Truncated));
                }
                let used: usize = reader.accept(chunk);
                match reader.progress() {
                    Progress::Need(at_most) => (
                        Connection { phase: Phase::Receiving { reader } },
                        Directive::Read { at_most },
                    ),
                    Progress::Oversized => hang(Fault::Framing(FramingError::TooLarge)),
                    Progress::Complete => welcome(reader.into_payload()),
                }
            },
            _ => hang(Fault::Misuse),
        }
    }

    /// Takes the host's report of the action it was asked to perform.
    pub fn reported(self, event: Event) -> (next: (Connection, Directive))
        ensures
            next.0.wf(),
            (next.0@, next.1@) == on_event(self@, event@),
    {
        match self.phase {
            Phase::Executing { executor } => {
                let (executor, action) = executor.step(event);
                dispatch(executor, action)
            },
            _ => hang(Fault::Misuse),
        }
    }
}

} // verus!
