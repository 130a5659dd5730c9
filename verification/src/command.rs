//! The three commands and their encoding.
//!
//! A payload is a tag followed by the fields of the tagged variant, with
//! nothing between them:
//!
//! | tag | variant    | fields                    |
//! |-----|------------|---------------------------|
//! | 0   | `Copy`     | `file_path`, then `data`  |
//! | 1   | `Run`      | `command`                 |
//! | 2   | `Rollback` | `file_path`               |
//!
//! The tag is a 32-bit number, least significant byte first. A text field is
//! the length of its UTF-8 encoding in bytes, as a 64-bit number, least
//! significant byte first, followed by that encoding. A byte field is its
//! length, written the same way, followed by the bytes. Bytes after the last
//! field are not part of the command and are ignored by the decoder.

use crate::text::decode_strict;
use vstd::arithmetic::div_mod::lemma_fundamental_div_mod_converse;
use vstd::prelude::*;
use vstd::slice::slice_subrange;
use vstd::slice::slice_to_vec;
use vstd::string::StringSliceAdditionalSpecFns;
use vstd::utf8::decode_utf8;
use vstd::utf8::decode_utf8_encode_utf8;
use vstd::utf8::encode_utf8;
use vstd::utf8::encode_utf8_decode_utf8;
use vstd::utf8::encode_utf8_valid_utf8;
use vstd::utf8::valid_utf8;

verus! {

/// The tag of `Copy`.
pub const TAG_COPY: u32 = 0;

/// The tag of `Run`.
pub const TAG_RUN: u32 = 1;

/// The tag of `Rollback`.
pub const TAG_ROLLBACK: u32 = 2;

/// One operation that a client asks for.
#[derive(Clone, Debug, PartialEq, Eq)]
pub enum Command {
    /// Write `data` to the file at `file_path`, keeping what was there as its backup.
    Copy { file_path: String, data: Vec<u8> },
    /// Run `command` as a shell command line.
    Run { command: String },
    /// Put back every backup found directly under the directory `file_path`.
    Rollback { file_path: String },
}

/// A command as a mathematical value.
pub enum CommandView {
    Copy { file_path: Seq<char>, data: Seq<u8> },
    Run { command: Seq<char> },
    Rollback { file_path: Seq<char> },
}

impl View for Command {
    type V = CommandView;

    open spec fn view(&self) -> CommandView {
        match self {
            Command::Copy { file_path, data } => CommandView::Copy {
                file_path: file_path@,
                data: data@,
            },
            Command::Run { command } => CommandView::Run { command: command@ },
            Command::Rollback { file_path } => CommandView::Rollback { file_path: file_path@ },
        }
    }
}

/// A decoded payload.
#[derive(Clone, Debug, PartialEq, Eq)]
pub struct Message {
    pub command: Command,
}

impl View for Message {
    type V = CommandView;

    open spec fn view(&self) -> CommandView {
        self.command@
    }
}

/// Why a payload is not a command.
#[derive(Clone, Copy, Debug, PartialEq, Eq, Structural)]
pub enum DecodeError {
    /// The payload ends inside the tag, a length or a field.
    UnexpectedEnd,
    /// The tag is none of the three.
    UnknownTag(u32),
    /// A text field is not UTF-8.
    InvalidText,
}

/// The number that four bytes spell, least significant byte first.
pub open spec fn le32_value(b: Seq<u8>) -> int
    recommends
        b.len() == 4,
{
    b[0] as int + b[1] as int * 0x100 + b[2] as int * 0x1_0000 + b[3] as int * 0x100_0000
}

/// The four bytes that spell `n`, least significant byte first.
pub open spec fn le32_bytes(n: int) -> Seq<u8>
    recommends
        0 <= n <= u32::MAX,
{
    seq![
        (n % 0x100) as u8,
        (n / 0x100 % 0x100) as u8,
        (n / 0x1_0000 % 0x100) as u8,
        (n / 0x100_0000) as u8,
    ]
}

/// The number that eight bytes spell, least significant byte first.
pub open spec fn le64_value(b: Seq<u8>) -> int
    recommends
        b.len() == 8,
{
    le32_value(b.take(4)) + le32_value(b.skip(4)) * 0x1_0000_0000
}

/// The eight bytes that spell `n`, least significant byte first.
pub open spec fn le64_bytes(n: int) -> Seq<u8>
    recommends
        0 <= n <= u64::MAX,
{
    le32_bytes(n % 0x1_0000_0000) + le32_bytes(n / 0x1_0000_0000)
}

/// A text field on the wire.
pub open spec fn text_wire(text: Seq<char>) -> Seq<u8> {
    le64_bytes(encode_utf8(text).len() as int) + encode_utf8(text)
}

/// A byte field on the wire.
pub open spec fn blob_wire(blob: Seq<u8>) -> Seq<u8> {
    le64_bytes(blob.len() as int) + blob
}

/// A command on the wire.
pub open spec fn wire(c: CommandView) -> Seq<u8> {
    match c {
        CommandView::Copy { file_path, data } => le32_bytes(TAG_COPY as int) + text_wire(file_path)
            + blob_wire(data),
        CommandView::Run { command } => le32_bytes(TAG_RUN as int) + text_wire(command),
        CommandView::Rollback { file_path } => le32_bytes(TAG_ROLLBACK as int) + text_wire(
            file_path,
        ),
    }
}

/// Every length in the command can be written in 64 bits, as it can for
/// every command that a machine holds.
pub open spec fn fits(c: CommandView) -> bool {
    match c {
        CommandView::Copy { file_path, data } => encode_utf8(file_path).len() <= u64::MAX
            && data.len() <= u64::MAX,
        CommandView::Run { command } => encode_utf8(command).len() <= u64::MAX,
        CommandView::Rollback { file_path } => encode_utf8(file_path).len() <= u64::MAX,
    }
}

/// A byte field at the start of `b`, and what follows it.
pub open spec fn parse_blob(b: Seq<u8>) -> Result<(Seq<u8>, Seq<u8>), DecodeError> {
    if b.len() < 8 {
        Err(DecodeError::UnexpectedEnd)
    } else if b.len() - 8 < le64_value(b.take(8)) {
        Err(DecodeError::UnexpectedEnd)
    } else {
        Ok((b.subrange(8, 8 + le64_value(b.take(8))), b.skip(8 + le64_value(b.take(8)))))
    }
}

/// A text field at the start of `b`, and what follows it.
pub open spec fn parse_text(b: Seq<u8>) -> Result<(Seq<char>, Seq<u8>), DecodeError> {
    match parse_blob(b) {
        Err(e) => Err(e),
        Ok((encoded, rest)) => if valid_utf8(encoded) {
            Ok((decode_utf8(encoded), rest))
        } else {
            Err(DecodeError::InvalidText)
        },
    }
}

/// The command at the start of `b`, or the first thing wrong with `b`.
pub open spec fn parse(b: Seq<u8>) -> Result<CommandView, DecodeError> {
    if b.len() < 4 {
        Err(DecodeError::UnexpectedEnd)
    } else if le32_value(b.take(4)) == TAG_COPY {
        match parse_text(b.skip(4)) {
            Err(e) => Err(e),
            Ok((file_path, rest)) => match parse_blob(rest) {
                Err(e) => Err(e),
                Ok((data, _)) => Ok(CommandView::Copy { file_path, data }),
            },
        }
    } else if le32_value(b.take(4)) == TAG_RUN {
        match parse_text(b.skip(4)) {
            Err(e) => Err(e),
            Ok((command, _)) => Ok(CommandView::Run { command }),
        }
    } else if le32_value(b.take(4)) == TAG_ROLLBACK {
        match parse_text(b.skip(4)) {
            Err(e) => Err(e),
            Ok((file_path, _)) => Ok(CommandView::Rollback { file_path }),
        }
    } else {
        Err(DecodeError::UnknownTag(le32_value(b.take(4)) as u32))
    }
}

/// Four bytes spell a 32-bit number, and spelling it gives them back.
pub proof fn le32_bytes_of_value(b: Seq<u8>)
    requires
        b.len() == 4,
    ensures
        0 <= le32_value(b) <= u32::MAX,
        le32_bytes(le32_value(b)) == b,
{
    let v = le32_value(b);
    lemma_fundamental_div_mod_converse(
        v,
        0x100,
        b[1] as int + b[2] as int * 0x100 + b[3] as int * 0x1_0000,
        b[0] as int,
    );
    lemma_fundamental_div_mod_converse(
        v,
        0x1_0000,
        b[2] as int + b[3] as int * 0x100,
        b[0] as int + b[1] as int * 0x100,
    );
    lemma_fundamental_div_mod_converse(
        v,
        0x100_0000,
        b[3] as int,
        b[0] as int + b[1] as int * 0x100 + b[2] as int * 0x1_0000,
    );
    assert(le32_bytes(v) =~= b);
}

/// A 32-bit number is spelt in four bytes, which spell it.
pub proof fn le32_value_of_bytes(n: int)
    requires
        0 <= n <= u32::MAX,
    ensures
        le32_bytes(n).len() == 4,
        le32_value(le32_bytes(n)) == n,
{
}

/// Eight bytes spell a 64-bit number, and spelling it gives them back.
pub proof fn le64_bytes_of_value(b: Seq<u8>)
    requires
        b.len() == 8,
    ensures
        0 <= le64_value(b) <= u64::MAX,
        le64_bytes(le64_value(b)) == b,
{
    let low = le32_value(b.take(4));
    let high = le32_value(b.skip(4));
    le32_bytes_of_value(b.take(4));
    le32_bytes_of_value(b.skip(4));
    lemma_fundamental_div_mod_converse(le64_value(b), 0x1_0000_0000, high, low);
    assert(le64_bytes(le64_value(b)) =~= b);
}

/// A 64-bit number is spelt in eight bytes, which spell it.
pub proof fn le64_value_of_bytes(n: int)
    requires
        0 <= n <= u64::MAX,
    ensures
        le64_bytes(n).len() == 8,
        le64_value(le64_bytes(n)) == n,
{
    let low = n % 0x1_0000_0000;
    let high = n / 0x1_0000_0000;
    le32_value_of_bytes(low);
    le32_value_of_bytes(high);
    let b = le64_bytes(n);
    assert(b.take(4) =~= le32_bytes(low));
    assert(b.skip(4) =~= le32_bytes(high));
}

/// A byte field is read back as it was written, whatever follows it.
pub proof fn parse_blob_of_wire(blob: Seq<u8>, rest: Seq<u8>)
    requires
        blob.len() <= u64::MAX,
    ensures
        parse_blob(blob_wire(blob) + rest) == Ok::<(Seq<u8>, Seq<u8>), DecodeError>((blob, rest)),
{
    let n = blob.len() as int;
    le64_value_of_bytes(n);
    let b = blob_wire(blob) + rest;
    assert(b.take(8) =~= le64_bytes(n));
    assert(b.subrange(8, 8 + n) =~= blob);
    assert(b.skip(8 + n) =~= rest);
}

/// A text field is read back as it was written, whatever follows it.
pub proof fn parse_text_of_wire(text: Seq<char>, rest: Seq<u8>)
    requires
        encode_utf8(text).len() <= u64::MAX,
    ensures
        parse_text(text_wire(text) + rest) == Ok::<(Seq<char>, Seq<u8>), DecodeError>(
            (text, rest),
        ),
{
    parse_blob_of_wire(encode_utf8(text), rest);
    encode_utf8_valid_utf8(text);
    encode_utf8_decode_utf8(text);
}

/// A payload that starts with the four bytes of `tag` has that tag, and its
/// fields start after them.
proof fn tag_of_wire(tag: u32, fields: Seq<u8>)
    ensures
        (le32_bytes(tag as int) + fields).len() >= 4,
        le32_value((le32_bytes(tag as int) + fields).take(4)) == tag,
        (le32_bytes(tag as int) + fields).skip(4) == fields,
{
    le32_value_of_bytes(tag as int);
    let b = le32_bytes(tag as int) + fields;
    assert(b.take(4) =~= le32_bytes(tag as int));
    assert(b.skip(4) =~= fields);
}

proof fn regroup_two(a: Seq<u8>, b: Seq<u8>, c: Seq<u8>)
    ensures
        (a + b) + c == a + (b + c),
{
    assert((a + b) + c =~= a + (b + c));
}

proof fn regroup_three(a: Seq<u8>, b: Seq<u8>, c: Seq<u8>, d: Seq<u8>)
    ensures
        ((a + b) + c) + d == a + (b + (c + d)),
{
    assert(((a + b) + c) + d =~= a + (b + (c + d)));
}

/// Decoding undoes encoding: the bytes of a command, followed by anything,
/// are read as that command.
pub proof fn parse_of_wire(c: CommandView, rest: Seq<u8>)
    requires
        fits(c),
    ensures
        parse(wire(c) + rest) == Ok::<CommandView, DecodeError>(c),
{
    match c {
        CommandView::Copy { file_path, data } => {
            let fields = text_wire(file_path) + (blob_wire(data) + rest);
            regroup_three(
                le32_bytes(TAG_COPY as int),
                text_wire(file_path),
                blob_wire(data),
                rest,
            );
            tag_of_wire(TAG_COPY, fields);
            parse_text_of_wire(file_path, blob_wire(data) + rest);
            parse_blob_of_wire(data, rest);
        },
        CommandView::Run { command } => {
            let fields = text_wire(command) + rest;
            regroup_two(le32_bytes(TAG_RUN as int), text_wire(command), rest);
            tag_of_wire(TAG_RUN, fields);
            parse_text_of_wire(command, rest);
        },
        CommandView::Rollback { file_path } => {
            let fields = text_wire(file_path) + rest;
            regroup_two(le32_bytes(TAG_ROLLBACK as int), text_wire(file_path), rest);
            tag_of_wire(TAG_ROLLBACK, fields);
            parse_text_of_wire(file_path, rest);
        },
    }
}

/// A byte field that was read stands, as written, at the start of the bytes.
pub proof fn blob_wire_of_parse(b: Seq<u8>)
    requires
        parse_blob(b) is Ok,
    ensures
        b == blob_wire(parse_blob(b)->Ok_0.0) + parse_blob(b)->Ok_0.1,
        parse_blob(b)->Ok_0.0.len() <= u64::MAX,
{
    le64_bytes_of_value(b.take(8));
    let (blob, rest) = parse_blob(b)->Ok_0;
    assert(b =~= blob_wire(blob) + rest);
}

/// A text field that was read stands, as written, at the start of the bytes.
pub proof fn text_wire_of_parse(b: Seq<u8>)
    requires
        parse_text(b) is Ok,
    ensures
        b == text_wire(parse_text(b)->Ok_0.0) + parse_text(b)->Ok_0.1,
        encode_utf8(parse_text(b)->Ok_0.0).len() <= u64::MAX,
{
    blob_wire_of_parse(b);
    decode_utf8_encode_utf8(parse_blob(b)->Ok_0.0);
}

/// Encoding undoes decoding: a payload that is read as a command begins with
/// the bytes of that command.
pub proof fn wire_of_parse(b: Seq<u8>)
    requires
        parse(b) is Ok,
    ensures
        fits(parse(b)->Ok_0),
        wire(parse(b)->Ok_0).len() <= b.len(),
        b.take(wire(parse(b)->Ok_0).len() as int) == wire(parse(b)->Ok_0),
{
    let c = parse(b)->Ok_0;
    le32_bytes_of_value(b.take(4));
    assert(b =~= b.take(4) + b.skip(4));
    text_wire_of_parse(b.skip(4));
    let (first, rest) = parse_text(b.skip(4))->Ok_0;
    match c {
        CommandView::Copy { file_path, data } => {
            blob_wire_of_parse(rest);
            let after = parse_blob(rest)->Ok_0.1;
            assert(b =~= wire(c) + after);
        },
        CommandView::Run { command } => {
            assert(b =~= wire(c) + rest);
        },
        CommandView::Rollback { file_path } => {
            assert(b =~= wire(c) + rest);
        },
    }
    assert((wire(c) + (b.skip(wire(c).len() as int))).take(wire(c).len() as int) =~= wire(c));
}

fn push_le32(out: &mut Vec<u8>, n: u32)
    ensures
        final(out)@ == old(out)@ + le32_bytes(n as int),
{
    out.push((n % 0x100) as u8);
    out.push((n / 0x100 % 0x100) as u8);
    out.push((n / 0x1_0000 % 0x100) as u8);
    out.push((n / 0x100_0000) as u8);
    assert(out@ =~= old(out)@ + le32_bytes(n as int));
}

fn push_le64(out: &mut Vec<u8>, n: u64)
    ensures
        final(out)@ == old(out)@ + le64_bytes(n as int),
{
    push_le32(out, (n % 0x1_0000_0000) as u32);
    push_le32(out, (n / 0x1_0000_0000) as u32);
    assert(out@ =~= old(out)@ + le64_bytes(n as int));
}

fn push_blob(out: &mut Vec<u8>, blob: &[u8])
    ensures
        final(out)@ == old(out)@ + blob_wire(blob@),
        blob@.len() <= u64::MAX,
{
    push_le64(out, blob.len() as u64);
    let mut body: Vec<u8> = slice_to_vec(blob);
    out.append(&mut body);
    assert(out@ =~= old(out)@ + blob_wire(blob@));
}

fn push_text(out: &mut Vec<u8>, text: &str)
    ensures
        final(out)@ == old(out)@ + text_wire(text@),
        encode_utf8(text@).len() <= u64::MAX,
{
    push_blob(out, text.as_bytes());
}

fn read_le32(bytes: &[u8], at: usize) -> (n: u32)
    requires
        at + 4 <= bytes@.len(),
    ensures
        n == le32_value(bytes@.subrange(at as int, at + 4)),
{
    let b0: u32 = bytes[at] as u32;
    let b1: u32 = bytes[at + 1] as u32;
    let b2: u32 = bytes[at + 2] as u32;
    let b3: u32 = bytes[at + 3] as u32;
    b0 + b1 * 0x100 + b2 * 0x1_0000 + b3 * 0x100_0000
}

fn read_le64(bytes: &[u8], at: usize) -> (n: u64)
    requires
        at + 8 <= bytes@.len(),
    ensures
        n == le64_value(bytes@.subrange(at as int, at + 8)),
{
    let total: usize = bytes.len();
    let low: u64 = read_le32(bytes, at) as u64;
    let high: u64 = read_le32(bytes, at + 4) as u64;
    proof {
        let b = bytes@.subrange(at as int, at + 8);
        assert(b.take(4) =~= bytes@.subrange(at as int, at + 4));
        assert(b.skip(4) =~= bytes@.subrange(at + 4, at + 8));
    }
    low + high * 0x1_0000_0000
}

/// Reads the byte field that starts at `at`: the place of its first byte and
/// the place after its last.
fn locate_blob(bytes: &[u8], at: usize) -> (found: Result<(usize, usize), DecodeError>)
    requires
        at <= bytes@.len(),
    ensures
        found is Ok ==> {
            let (from, to) = found->Ok_0;
            &&& at <= from <= to <= bytes@.len()
            &&& parse_blob(bytes@.skip(at as int)) == Ok::<(Seq<u8>, Seq<u8>), DecodeError>(
                (bytes@.subrange(from as int, to as int), bytes@.skip(to as int)),
            )
        },
        found is Err ==> parse_blob(bytes@.skip(at as int)) == Err::<
            (Seq<u8>, Seq<u8>),
            DecodeError,
        >(found->Err_0),
{
    let ghost b = bytes@.skip(at as int);
    if bytes.len() - at < 8 {
        return Err(DecodeError::UnexpectedEnd);
    }
    let len: u64 = read_le64(bytes, at);
    assert(b.take(8) =~= bytes@.subrange(at as int, at + 8));
    let from: usize = at + 8;
    let left: usize = bytes.len() - from;
    if (left as u64) < len {
        return Err(DecodeError::UnexpectedEnd);
    }
    let to: usize = from + len as usize;
    assert(b.subrange(8, 8 + len) =~= bytes@.subrange(from as int, to as int));
    assert(b.skip(8 + len) =~= bytes@.skip(to as int));
    Ok((from, to))
}

/// Reads the text field that starts at `at`: the text and the place after it.
fn take_text(bytes: &[u8], at: usize) -> (found: Result<(String, usize), DecodeError>)
    requires
        at <= bytes@.len(),
    ensures
        found is Ok ==> {
            let (text, next) = found->Ok_0;
            &&& at <= next <= bytes@.len()
            &&& parse_text(bytes@.skip(at as int)) == Ok::<(Seq<char>, Seq<u8>), DecodeError>(
                (text@, bytes@.skip(next as int)),
            )
        },
        found is Err ==> parse_text(bytes@.skip(at as int)) == Err::<
            (Seq<char>, Seq<u8>),
            DecodeError,
        >(found->Err_0),
{
    match locate_blob(bytes, at) {
        Err(e) => Err(e),
        Ok((from, to)) => {
            let encoded: Vec<u8> = slice_to_vec(slice_subrange(bytes, from, to));
            match decode_strict(encoded) {
                Some(text) => Ok((text, to)),
                None => Err(DecodeError::InvalidText),
            }
        },
    }
}

/// Writes a command as a payload.
pub fn encode(command: &Command) -> (payload: Vec<u8>)
    ensures
        payload@ == wire(command@),
        fits(command@),
{
    let mut payload: Vec<u8> = Vec::new();
    match command {
        Command::Copy { file_path, data } => {
            push_le32(&mut payload, TAG_COPY);
            push_text(&mut payload, file_path.as_str());
            push_blob(&mut payload, data.as_slice());
        },
        Command::Run { command } => {
            push_le32(&mut payload, TAG_RUN);
            push_text(&mut payload, command.as_str());
        },
        Command::Rollback { file_path } => {
            push_le32(&mut payload, TAG_ROLLBACK);
            push_text(&mut payload, file_path.as_str());
        },
    }
    assert(payload@ =~= wire(command@));
    payload
}

/// Reads a payload as a command.
///
/// The payload must begin with a known tag and hold each field of that
/// variant in full, each text field in UTF-8. What follows the last field is
/// ignored. Anything else is refused with the first fault found, reading
/// from the start.
pub fn decode(payload: &[u8]) -> (command: Result<Command, DecodeError>)
    ensures
        command is Ok ==> parse(payload@) == Ok::<CommandView, DecodeError>(command->Ok_0@),
        command is Err ==> parse(payload@) == Err::<CommandView, DecodeError>(command->Err_0),
{
    if payload.len() < 4 {
        return Err(DecodeError::UnexpectedEnd);
    }
    let tag: u32 = read_le32(payload, 0);
    assert(payload@.take(4) =~= payload@.subrange(0, 4));
    if tag == TAG_COPY {
        match take_text(payload, 4) {
            Err(e) => Err(e),
            Ok((file_path, next)) => match locate_blob(payload, next) {
                Err(e) => Err(e),
                Ok((from, to)) => {
                    let data: Vec<u8> = slice_to_vec(slice_subrange(payload, from, to));
                    Ok(Command::Copy { file_path, data })
                },
            },
        }
    } else if tag == TAG_RUN {
        match take_text(payload, 4) {
            Err(e) => Err(e),
            Ok((command, _)) => Ok(Command::Run { command }),
        }
    } else if tag == TAG_ROLLBACK {
        match take_text(payload, 4) {
            Err(e) => Err(e),
            Ok((file_path, _)) => Ok(Command::Rollback { file_path }),
        }
    } else {
        Err(DecodeError::UnknownTag(tag))
    }
}

impl Message {
    /// Writes the message as a payload: the bytes of its command.
    pub fn encode(&self) -> (payload: Vec<u8>)
        ensures
            payload@ == wire(self@),
            fits(self@),
    {
        encode(&self.command)
    }

    /// Reads a payload as a message, as `decode` reads it as a command.
    pub fn decode(payload: &[u8]) -> (message: Result<Message, DecodeError>)
        ensures
            message is Ok ==> parse(payload@) == Ok::<CommandView, DecodeError>(message->Ok_0@),
            message is Err ==> parse(payload@) == Err::<CommandView, DecodeError>(
                message->Err_0,
            ),
    {
        match decode(payload) {
            Ok(command) => Ok(Message { command }),
            Err(e) => Err(e),
        }
    }
}

} // verus!
