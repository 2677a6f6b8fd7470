//! The decoder: a raw byte stream in, an instruction sequence out.
//!
//! The grammar is a flat concatenation of instructions; each is one
//! opcode byte, zero or more argument encodings, and a terminating zero
//! byte.  Each argument encoding is a nonzero type-tag byte, a length
//! byte, and that many payload bytes.  The decoder is an explicit
//! finite-state machine with one state per grammar position and one
//! transition per input byte.

use vstd::prelude::*;
use vstd::utf8::decode_utf8;
use vstd::utf8::valid_utf8;

use crate::strings::bytes_to_string;
use crate::value::Inst;
use crate::value::InstModel;
use crate::value::ValModel;
use crate::value::Value;

verus! {

/// The fatal decode-time failures: malformed UTF-8 in a `String`
/// payload, a length byte inconsistent with a fixed-width type, and a
/// stream that ends in the middle of an instruction.
#[derive(Debug, Clone, Copy, PartialEq, Eq, Structural)]
pub enum DecodeError {
    BadUtf8,
    BadLength,
    Truncated,
}

/// The unsigned integer held by 8 big-endian bytes.
pub open spec fn be64(b: Seq<u8>) -> u64
    recommends
        b.len() == 8,
{
    (((b[0] as u64) << 56) | ((b[1] as u64) << 48) | ((b[2] as u64) << 40) | ((b[3] as u64) << 32)
        | ((b[4] as u64) << 24) | ((b[5] as u64) << 16) | ((b[6] as u64) << 8) | (b[7] as u64))
}

/// The 8 big-endian bytes of an unsigned integer.
pub open spec fn be_bytes(x: u64) -> Seq<u8> {
    seq![
        (x >> 56) as u8,
        (x >> 48) as u8,
        (x >> 40) as u8,
        (x >> 32) as u8,
        (x >> 24) as u8,
        (x >> 16) as u8,
        (x >> 8) as u8,
        x as u8,
    ]
}

/// Writing an integer as 8 big-endian bytes and reading them back
/// yields the integer.
pub proof fn lemma_be_roundtrip(x: u64)
    ensures
        be64(be_bytes(x)) == x,
{
    assert((((((x >> 56) as u8) as u64) << 56) | ((((x >> 48) as u8) as u64) << 48) | ((((x
        >> 40) as u8) as u64) << 40) | ((((x >> 32) as u8) as u64) << 32) | ((((x
        >> 24) as u8) as u64) << 24) | ((((x >> 16) as u8) as u64) << 16) | ((((x
        >> 8) as u8) as u64) << 8) | ((x as u8) as u64)) == x) by (bit_vector);
}

/// Read 8 big-endian bytes.
pub fn be64_of(b: &Vec<u8>) -> (r: u64)
    requires
        b@.len() == 8,
    ensures
        r == be64(b@),
{
    (((b[0] as u64) << 56) | ((b[1] as u64) << 48) | ((b[2] as u64) << 40) | ((b[3] as u64) << 32)
        | ((b[4] as u64) << 24) | ((b[5] as u64) << 16) | ((b[6] as u64) << 8) | (b[7] as u64))
}

/// Whether a declared payload length fits the type tag: strings take
/// any length, booleans and bytes exactly one byte, every other tag
/// exactly eight.
pub open spec fn tag_len_ok_n(tag: u8, len: int) -> bool {
    if tag == 1 {
        true
    } else if tag == 3 || tag == 5 {
        len == 1
    } else {
        len == 8
    }
}

fn len_ok(tag: u8, len: u8) -> (r: bool)
    ensures
        r == tag_len_ok_n(tag, len as int),
{
    if tag == 1 {
        true
    } else if tag == 3 || tag == 5 {
        len == 1
    } else {
        len == 8
    }
}

/// The value denoted by a completed payload under a type tag: tag 1 a
/// UTF-8 string, tag 2 a `Number` (big-endian IEEE-754 bit pattern),
/// tag 3 a boolean (1 is true), tag 4 a pointer, tag 5 a byte, and any
/// other tag a raw big-endian unsigned integer.
pub open spec fn finish_arg(tag: u8, buf: Seq<u8>) -> Result<ValModel, DecodeError>
    recommends
        tag_len_ok_n(tag, buf.len() as int),
{
    if tag == 1 {
        if valid_utf8(buf) {
            Ok(ValModel::Str(decode_utf8(buf)))
        } else {
            Err(DecodeError::BadUtf8)
        }
    } else if tag == 2 {
        Ok(ValModel::Num(be64(buf)))
    } else if tag == 3 {
        Ok(ValModel::Bool(buf[0] == 1))
    } else if tag == 4 {
        Ok(ValModel::Ptr(be64(buf)))
    } else if tag == 5 {
        Ok(ValModel::Byte(buf[0]))
    } else {
        Ok(ValModel::Uint(be64(buf)))
    }
}

fn finish(tag: u8, buf: Vec<u8>) -> (r: Result<Value, DecodeError>)
    requires
        tag_len_ok_n(tag, buf@.len() as int),
    ensures
        match r {
            Ok(v) => finish_arg(tag, buf@) == Ok::<ValModel, DecodeError>(v@),
            Err(e) => finish_arg(tag, buf@) == Err::<ValModel, DecodeError>(e),
        },
{
    if tag == 1 {
        match bytes_to_string(buf) {
            Some(s) => Ok(Value::Str(s)),
            None => Err(DecodeError::BadUtf8),
        }
    } else if tag == 2 {
        Ok(Value::Num(be64_of(&buf)))
    } else if tag == 3 {
        Ok(Value::Bool(buf[0] == 1))
    } else if tag == 4 {
        Ok(Value::Ptr(be64_of(&buf)))
    } else if tag == 5 {
        Ok(Value::Byte(buf[0]))
    } else {
        Ok(Value::Uint(be64_of(&buf)))
    }
}

/// One state per grammar position.
pub enum DecodeState {
    /// At an instruction boundary, waiting for an opcode byte.
    AwaitOpcode,
    /// Waiting for an argument's type tag, or the zero terminator.
    AwaitArg { opcode: u8, args: Vec<Value> },
    /// Waiting for the argument's length byte.
    AwaitLen { opcode: u8, args: Vec<Value>, tag: u8 },
    /// Collecting `need` more payload bytes.
    AwaitPayload { opcode: u8, args: Vec<Value>, tag: u8, need: u8, buf: Vec<u8> },
}

/// Mathematical model of [`DecodeState`].
#[verifier::ext_equal]
pub enum DecStateModel {
    AwaitOpcode,
    AwaitArg { opcode: u8, args: Seq<ValModel> },
    AwaitLen { opcode: u8, args: Seq<ValModel>, tag: u8 },
    AwaitPayload { opcode: u8, args: Seq<ValModel>, tag: u8, need: u8, buf: Seq<u8> },
}

impl View for DecodeState {
    type V = DecStateModel;

    open spec fn view(&self) -> DecStateModel {
        match self {
            DecodeState::AwaitOpcode => DecStateModel::AwaitOpcode,
            DecodeState::AwaitArg { opcode, args } => DecStateModel::AwaitArg {
                opcode: *opcode,
                args: args.deep_view(),
            },
            DecodeState::AwaitLen { opcode, args, tag } => DecStateModel::AwaitLen {
                opcode: *opcode,
                args: args.deep_view(),
                tag: *tag,
            },
            DecodeState::AwaitPayload { opcode, args, tag, need, buf } => {
                DecStateModel::AwaitPayload {
                    opcode: *opcode,
                    args: args.deep_view(),
                    tag: *tag,
                    need: *need,
                    buf: buf@,
                }
            },
        }
    }
}

/// Mathematical model of the whole decoder.
#[verifier::ext_equal]
pub struct DecModel {
    pub state: DecStateModel,
    pub out: Seq<InstModel>,
}

/// A collecting state still owes at least one byte, and the payload
/// gathered so far plus what is owed is the declared (tag-consistent)
/// length.
pub open spec fn dec_wf(d: DecModel) -> bool {
    d.state matches DecStateModel::AwaitPayload { tag, need, buf, .. } ==> need >= 1
        && tag_len_ok_n(tag, buf.len() + need as int)
}

/// A fresh decoder: at an instruction boundary with no output yet.
pub open spec fn init_dec() -> DecModel {
    DecModel { state: DecStateModel::AwaitOpcode, out: Seq::empty() }
}

/// The decoder's transition function: what one input byte does in each
/// grammar position.
pub open spec fn feed_spec(d: DecModel, byte: u8) -> Result<DecModel, DecodeError> {
    match d.state {
        DecStateModel::AwaitOpcode => Ok(
            DecModel {
                state: DecStateModel::AwaitArg { opcode: byte, args: Seq::empty() },
                ..d
            },
        ),
        DecStateModel::AwaitArg { opcode, args } => if byte == 0 {
            Ok(
                DecModel {
                    state: DecStateModel::AwaitOpcode,
                    out: d.out.push(InstModel { opcode, args }),
                },
            )
        } else {
            Ok(DecModel { state: DecStateModel::AwaitLen { opcode, args, tag: byte }, ..d })
        },
        DecStateModel::AwaitLen { opcode, args, tag } => if !tag_len_ok_n(tag, byte as int) {
            Err(DecodeError::BadLength)
        } else if byte == 0 {
            match finish_arg(tag, Seq::empty()) {
                Err(e) => Err(e),
                Ok(v) => Ok(
                    DecModel {
                        state: DecStateModel::AwaitArg { opcode, args: args.push(v) },
                        ..d
                    },
                ),
            }
        } else {
            Ok(
                DecModel {
                    state: DecStateModel::AwaitPayload {
                        opcode,
                        args,
                        tag,
                        need: byte,
                        buf: Seq::empty(),
                    },
                    ..d
                },
            )
        },
        DecStateModel::AwaitPayload { opcode, args, tag, need, buf } => {
            let buf2 = buf.push(byte);
            if need == 1 {
                match finish_arg(tag, buf2) {
                    Err(e) => Err(e),
                    Ok(v) => Ok(
                        DecModel {
                            state: DecStateModel::AwaitArg { opcode, args: args.push(v) },
                            ..d
                        },
                    ),
                }
            } else {
                Ok(
                    DecModel {
                        state: DecStateModel::AwaitPayload {
                            opcode,
                            args,
                            tag,
                            need: (need - 1) as u8,
                            buf: buf2,
                        },
                        ..d
                    },
                )
            }
        },
    }
}

/// The decoder run over a whole byte sequence.
pub open spec fn feed_all(d: DecModel, bytes: Seq<u8>) -> Result<DecModel, DecodeError>
    decreases bytes.len(),
{
    if bytes.len() == 0 {
        Ok(d)
    } else {
        match feed_spec(d, bytes[0]) {
            Err(e) => Err(e),
            Ok(d2) => feed_all(d2, bytes.drop_first()),
        }
    }
}

/// Feeding a concatenation is feeding the first part, then the second.
pub proof fn lemma_feed_all_concat(d: DecModel, a: Seq<u8>, b: Seq<u8>)
    ensures
        feed_all(d, a + b) == match feed_all(d, a) {
            Err(e) => Err::<DecModel, DecodeError>(e),
            Ok(d2) => feed_all(d2, b),
        },
    decreases a.len(),
{
    if a.len() == 0 {
        assert(a + b =~= b);
    } else {
        assert((a + b)[0] == a[0]);
        assert((a + b).drop_first() =~= a.drop_first() + b);
        match feed_spec(d, a[0]) {
            Err(_) => {},
            Ok(d2) => {
                lemma_feed_all_concat(d2, a.drop_first(), b);
            },
        }
    }
}

/// The meaning of a whole byte stream: the instruction sequence it
/// denotes, or the first decode failure; a stream that ends in the
/// middle of an instruction is truncated.
pub open spec fn decode_spec(bytes: Seq<u8>) -> Result<Seq<InstModel>, DecodeError> {
    match feed_all(init_dec(), bytes) {
        Err(e) => Err(e),
        Ok(d) => if d.state is AwaitOpcode {
            Ok(d.out)
        } else {
            Err(DecodeError::Truncated)
        },
    }
}

/// The decoder as a value: its grammar position and the instructions
/// completed so far.
pub struct Decoder {
    state: DecodeState,
    out: Vec<Inst>,
}

impl View for Decoder {
    type V = DecModel;

    closed spec fn view(&self) -> DecModel {
        DecModel { state: self.state@, out: self.out.deep_view() }
    }
}

impl Decoder {
    /// A fresh decoder.
    pub fn new() -> (r: Decoder)
        ensures
            r@ == init_dec(),
            dec_wf(r@),
    {
        let r = Decoder { state: DecodeState::AwaitOpcode, out: Vec::new() };
        proof {
            assert(r@ =~~= init_dec());
        }
        r
    }

    /// Whether the decoder stands at an instruction boundary.
    pub fn at_boundary(&self) -> (r: bool)
        ensures
            r == (self@.state is AwaitOpcode),
    {
        match &self.state {
            DecodeState::AwaitOpcode => true,
            _ => false,
        }
    }

    /// The instructions completed so far.
    pub fn into_insts(self) -> (r: Vec<Inst>)
        ensures
            r.deep_view() == self@.out,
    {
        self.out
    }

    /// Feed one byte; see [`feed_spec`].  After an error the decoder
    /// must be discarded.
    pub fn feed(&mut self, byte: u8) -> (r: Result<(), DecodeError>)
        requires
            dec_wf(old(self)@),
        ensures
            match feed_spec(old(self)@, byte) {
                Ok(d2) => r matches Ok(u) && final(self)@ == d2 && dec_wf(d2),
                Err(e) => r matches Err(x) && x == e,
            },
    {
        let mut st = DecodeState::AwaitOpcode;
        core::mem::swap(&mut st, &mut self.state);
        match st {
            DecodeState::AwaitOpcode => {
                self.state = DecodeState::AwaitArg { opcode: byte, args: Vec::new() };
                proof {
                    assert(self@ =~~= feed_spec(old(self)@, byte)->Ok_0);
                }
                Ok(())
            },
            DecodeState::AwaitArg { opcode, args } => {
                if byte == 0 {
                    self.out.push(Inst { opcode, args });
                    proof {
                        assert(self@ =~~= feed_spec(old(self)@, byte)->Ok_0);
                    }
                    Ok(())
                } else {
                    self.state = DecodeState::AwaitLen { opcode, args, tag: byte };
                    proof {
                        assert(self@ =~~= feed_spec(old(self)@, byte)->Ok_0);
                    }
                    Ok(())
                }
            },
            DecodeState::AwaitLen { opcode, mut args, tag } => {
                if !len_ok(tag, byte) {
                    return Err(DecodeError::BadLength);
                }
                if byte == 0 {
                    match finish(tag, Vec::new()) {
                        Err(e) => Err(e),
                        Ok(v) => {
                            args.push(v);
                            self.state = DecodeState::AwaitArg { opcode, args };
                            proof {
                                assert(self@ =~~= feed_spec(old(self)@, byte)->Ok_0);
                            }
                            Ok(())
                        },
                    }
                } else {
                    self.state = DecodeState::AwaitPayload {
                        opcode,
                        args,
                        tag,
                        need: byte,
                        buf: Vec::new(),
                    };
                    proof {
                        assert(self@ =~~= feed_spec(old(self)@, byte)->Ok_0);
                    }
                    Ok(())
                }
            },
            DecodeState::AwaitPayload { opcode, mut args, tag, need, mut buf } => {
                buf.push(byte);
                if need == 1 {
                    match finish(tag, buf) {
                        Err(e) => Err(e),
                        Ok(v) => {
                            args.push(v);
                            self.state = DecodeState::AwaitArg { opcode, args };
                            proof {
                                assert(self@ =~~= feed_spec(old(self)@, byte)->Ok_0);
                            }
                            Ok(())
                        },
                    }
                } else {
                    self.state = DecodeState::AwaitPayload {
                        opcode,
                        args,
                        tag,
                        need: need - 1,
                        buf,
                    };
                    proof {
                        assert(self@ =~~= feed_spec(old(self)@, byte)->Ok_0);
                    }
                    Ok(())
                }
            },
        }
    }
}

/// Decode a whole byte stream into its instruction sequence; see
/// [`decode_spec`].
pub fn to_insts(bytes: &Vec<u8>) -> (r: Result<Vec<Inst>, DecodeError>)
    ensures
        match r {
            Ok(insts) => decode_spec(bytes@) == Ok::<Seq<InstModel>, DecodeError>(
                insts.deep_view(),
            ),
            Err(e) => decode_spec(bytes@) == Err::<Seq<InstModel>, DecodeError>(e),
        },
{
    let mut d = Decoder::new();
    let n = bytes.len();
    let mut i: usize = 0;
    while i < n
        invariant
            n == bytes@.len(),
            i <= n,
            dec_wf(d@),
            feed_all(init_dec(), bytes@.take(i as int)) == Ok::<DecModel, DecodeError>(d@),
        decreases n - i,
    {
        let ghost dpre = d@;
        let b = bytes[i];
        match d.feed(b) {
            Ok(_) => {
                proof {
                    assert(bytes@.take(i as int + 1) =~= bytes@.take(i as int) + seq![b]);
                    lemma_feed_all_concat(init_dec(), bytes@.take(i as int), seq![b]);
                    assert(seq![b].drop_first() =~= Seq::<u8>::empty());
                    assert(feed_all(d@, Seq::<u8>::empty()) == Ok::<DecModel, DecodeError>(d@));
                    assert(feed_all(dpre, seq![b]) == Ok::<DecModel, DecodeError>(d@));
                }
            },
            Err(e) => {
                proof {
                    let tail = bytes@.subrange(i as int, n as int);
                    assert(bytes@ =~= bytes@.take(i as int) + tail);
                    lemma_feed_all_concat(init_dec(), bytes@.take(i as int), tail);
                    assert(tail[0] == b);
                }
                return Err(e);
            },
        }
        i = i + 1;
    }
    proof {
        assert(bytes@.take(n as int) =~= bytes@);
    }
    if d.at_boundary() {
        Ok(d.into_insts())
    } else {
        Err(DecodeError::Truncated)
    }
}

} // verus!
