//! The encoder: an instruction back to its byte encoding, and the
//! round-trip law that decoding an encoded instruction yields exactly
//! that instruction.
//!
//! Encoding fails only when a string argument's UTF-8 form is longer
//! than a length byte can declare (255 bytes).

use vstd::prelude::*;
use vstd::string::StrSliceExecFns;
use vstd::utf8::decode_utf8;
use vstd::utf8::encode_utf8;
use vstd::utf8::encode_utf8_decode_utf8;
use vstd::utf8::encode_utf8_valid_utf8;
use vstd::utf8::valid_utf8;

use crate::decode::DecModel;
use crate::decode::DecStateModel;
use crate::decode::DecodeError;
use crate::decode::be64;
use crate::decode::be_bytes;
use crate::decode::decode_spec;
use crate::decode::feed_all;
use crate::decode::feed_spec;
use crate::decode::finish_arg;
use crate::decode::init_dec;
use crate::decode::lemma_be_roundtrip;
use crate::decode::lemma_feed_all_concat;
use crate::value::Inst;
use crate::value::InstModel;
use crate::value::ValModel;
use crate::value::Value;

verus! {

/// The byte encoding of one argument value: a type tag, a length byte,
/// and the payload.  A string whose UTF-8 form exceeds 255 bytes has no
/// encoding.  Raw unsigned integers are written under tag 6.
pub open spec fn encode_val(v: ValModel) -> Option<Seq<u8>> {
    match v {
        ValModel::Str(s) => {
            let p = encode_utf8(s);
            if p.len() <= 255 {
                Some(seq![1u8, p.len() as u8] + p)
            } else {
                None
            }
        },
        ValModel::Num(n) => Some(seq![2u8, 8u8] + be_bytes(n)),
        ValModel::Bool(b) => Some(
            seq![
                3u8,
                1u8,
                if b {
                    1u8
                } else {
                    0u8
                },
            ],
        ),
        ValModel::Ptr(p) => Some(seq![4u8, 8u8] + be_bytes(p)),
        ValModel::Byte(x) => Some(seq![5u8, 1u8, x]),
        ValModel::Uint(u) => Some(seq![6u8, 8u8] + be_bytes(u)),
    }
}

/// The concatenated encodings of an argument list.
pub open spec fn encode_args(args: Seq<ValModel>) -> Option<Seq<u8>>
    decreases args.len(),
{
    if args.len() == 0 {
        Some(Seq::empty())
    } else {
        match encode_val(args[0]) {
            None => None,
            Some(h) => match encode_args(args.drop_first()) {
                None => None,
                Some(t) => Some(h + t),
            },
        }
    }
}

/// The byte encoding of a whole instruction: the opcode byte, the
/// argument encodings, and the zero terminator.
pub open spec fn encode_inst_spec(i: InstModel) -> Option<Seq<u8>> {
    match encode_args(i.args) {
        None => None,
        Some(a) => Some(seq![i.opcode] + a + seq![0u8]),
    }
}

proof fn lemma_encode_args_snoc(args: Seq<ValModel>, v: ValModel)
    ensures
        encode_args(args.push(v)) == match (encode_args(args), encode_val(v)) {
            (Some(a), Some(b)) => Some(a + b),
            _ => None::<Seq<u8>>,
        },
    decreases args.len(),
{
    reveal_with_fuel(encode_args, 3);
    if args.len() == 0 {
        assert(args.push(v)[0] == v);
        assert(args.push(v).drop_first() =~= Seq::<ValModel>::empty());
        match encode_val(v) {
            None => {},
            Some(h) => {
                assert(Seq::<u8>::empty() + h =~= h);
                assert(h + Seq::<u8>::empty() =~= h);
            },
        }
    } else {
        assert(args.push(v)[0] == args[0]);
        assert(args.push(v).drop_first() =~= args.drop_first().push(v));
        lemma_encode_args_snoc(args.drop_first(), v);
        match (encode_val(args[0]), encode_args(args.drop_first()), encode_val(v)) {
            (Some(h), Some(t), Some(b)) => {
                assert(h + (t + b) =~= (h + t) + b);
            },
            _ => {},
        }
    }
}

proof fn lemma_encode_args_none_iff(args: Seq<ValModel>)
    ensures
        encode_args(args) is None <==> exists|j: int|
            0 <= j < args.len() && (#[trigger] encode_val(args[j])) is None,
    decreases args.len(),
{
    if args.len() == 0 {
    } else {
        lemma_encode_args_none_iff(args.drop_first());
        if encode_args(args) is None {
            if encode_val(args[0]) is None {
                assert(encode_val(args[0]) is None);
            } else {
                let j = choose|j: int|
                    0 <= j < args.drop_first().len() && (#[trigger] encode_val(
                        args.drop_first()[j],
                    )) is None;
                assert(args.drop_first()[j] == args[j + 1]);
                assert(encode_val(args[j + 1]) is None);
            }
        }
        if exists|j: int| 0 <= j < args.len() && (#[trigger] encode_val(args[j])) is None {
            let j = choose|j: int| 0 <= j < args.len() && (#[trigger] encode_val(args[j])) is None;
            if j == 0 {
            } else {
                assert(args.drop_first()[j - 1] == args[j]);
                assert(encode_val(args.drop_first()[j - 1]) is None);
            }
        }
    }
}

/// Encoding fails exactly when some argument is a string whose UTF-8
/// form is longer than a length byte can declare.
pub proof fn lemma_encode_inst_none(i: InstModel)
    ensures
        encode_inst_spec(i) is None <==> exists|j: int|
            0 <= j < i.args.len() && (#[trigger] encode_val(i.args[j])) is None,
        forall|s: Seq<char>|
            (#[trigger] encode_val(ValModel::Str(s))) is None <==> encode_utf8(s).len() > 255,
        forall|v: ValModel| !(v is Str) ==> !((#[trigger] encode_val(v)) is None),
{
    lemma_encode_args_none_iff(i.args);
}

proof fn lemma_encode_args_none(args: Seq<ValModel>, j: int)
    requires
        0 <= j < args.len(),
        encode_val(args[j]) is None,
    ensures
        encode_args(args) is None,
    decreases args.len(),
{
    if j > 0 {
        assert(args.drop_first()[j - 1] == args[j]);
        lemma_encode_args_none(args.drop_first(), j - 1);
    }
}

fn enc8(tag: u8, x: u64) -> (r: Vec<u8>)
    ensures
        r@ == seq![tag, 8u8] + be_bytes(x),
{
    let mut out: Vec<u8> = Vec::new();
    out.push(tag);
    out.push(8);
    out.push((x >> 56) as u8);
    out.push((x >> 48) as u8);
    out.push((x >> 40) as u8);
    out.push((x >> 32) as u8);
    out.push((x >> 24) as u8);
    out.push((x >> 16) as u8);
    out.push((x >> 8) as u8);
    out.push(x as u8);
    proof {
        assert(out@ =~= seq![tag, 8u8] + be_bytes(x));
    }
    out
}

/// Encode one argument value; see [`encode_val`].
pub fn encode_value(v: &Value) -> (r: Option<Vec<u8>>)
    ensures
        match r {
            Some(b) => encode_val(v@) == Some(b@),
            None => encode_val(v@) is None,
        },
{
    match v {
        Value::Str(s) => {
            let mut p = s.as_str().as_bytes_vec();
            if p.len() > 255 {
                return None;
            }
            let mut out: Vec<u8> = Vec::new();
            out.push(1);
            out.push(p.len() as u8);
            out.append(&mut p);
            proof {
                assert(out@ =~= seq![1u8, encode_utf8(s@).len() as u8] + encode_utf8(s@));
            }
            Some(out)
        },
        Value::Num(n) => Some(enc8(2, *n)),
        Value::Bool(b) => {
            let mut out: Vec<u8> = Vec::new();
            out.push(3);
            out.push(1);
            out.push(if *b {
                1
            } else {
                0
            });
            proof {
                assert(out@ =~= encode_val(v@)->Some_0);
            }
            Some(out)
        },
        Value::Ptr(p) => Some(enc8(4, *p)),
        Value::Byte(x) => {
            let mut out: Vec<u8> = Vec::new();
            out.push(5);
            out.push(1);
            out.push(*x);
            proof {
                assert(out@ =~= encode_val(v@)->Some_0);
            }
            Some(out)
        },
        Value::Uint(u) => Some(enc8(6, *u)),
    }
}

/// Encode a whole instruction; see [`encode_inst_spec`].  `None` comes
/// exactly when some string argument's UTF-8 form is over 255 bytes.
pub fn encode_inst(inst: &Inst) -> (r: Option<Vec<u8>>)
    ensures
        match r {
            Some(b) => encode_inst_spec(inst@) == Some(b@),
            None => encode_inst_spec(inst@) is None,
        },
{
    let mut out: Vec<u8> = Vec::new();
    out.push(inst.opcode);
    let n = inst.args.len();
    let mut j: usize = 0;
    while j < n
        invariant
            j <= n,
            n == inst.args@.len(),
            encode_args(inst@.args.take(j as int)) is Some,
            out@ == seq![inst@.opcode] + encode_args(inst@.args.take(j as int))->Some_0,
        decreases n - j,
    {
        proof {
            assert(inst@.args[j as int] == inst.args@[j as int]@);
        }
        match encode_value(&inst.args[j]) {
            None => {
                proof {
                    lemma_encode_args_none(inst@.args, j as int);
                }
                return None;
            },
            Some(mut b) => {
                out.append(&mut b);
                proof {
                    assert(inst@.args.take(j as int + 1) =~= inst@.args.take(j as int).push(
                        inst@.args[j as int],
                    ));
                    lemma_encode_args_snoc(inst@.args.take(j as int), inst@.args[j as int]);
                    assert(out@ =~= seq![inst@.opcode] + encode_args(
                        inst@.args.take(j as int + 1),
                    )->Some_0);
                }
            },
        }
        j = j + 1;
    }
    out.push(0);
    proof {
        assert(inst@.args.take(n as int) =~= inst@.args);
        assert(out@ =~= encode_inst_spec(inst@)->Some_0);
    }
    Some(out)
}

proof fn lemma_feed_payload(
    d_out: Seq<InstModel>,
    opcode: u8,
    args: Seq<ValModel>,
    tag: u8,
    need: u8,
    buf: Seq<u8>,
    p: Seq<u8>,
)
    requires
        need as int == p.len(),
        need >= 1,
    ensures
        feed_all(
            DecModel {
                state: DecStateModel::AwaitPayload { opcode, args, tag, need, buf },
                out: d_out,
            },
            p,
        ) == match finish_arg(tag, buf + p) {
            Err(e) => Err::<DecModel, DecodeError>(e),
            Ok(v) => Ok(
                DecModel {
                    state: DecStateModel::AwaitArg { opcode, args: args.push(v) },
                    out: d_out,
                },
            ),
        },
    decreases p.len(),
{
    reveal_with_fuel(feed_all, 3);
    let d = DecModel {
        state: DecStateModel::AwaitPayload { opcode, args, tag, need, buf },
        out: d_out,
    };
    if need == 1 {
        assert(buf.push(p[0]) =~= buf + p);
        assert(p.drop_first() =~= Seq::<u8>::empty());
        match finish_arg(tag, buf + p) {
            Err(_) => {},
            Ok(v) => {
                let d2 = DecModel {
                    state: DecStateModel::AwaitArg { opcode, args: args.push(v) },
                    out: d_out,
                };
                assert(feed_all(d2, Seq::<u8>::empty()) == Ok::<DecModel, DecodeError>(d2));
            },
        }
    } else {
        assert(buf.push(p[0]) + p.drop_first() =~= buf + p);
        lemma_feed_payload(
            d_out,
            opcode,
            args,
            tag,
            (need - 1) as u8,
            buf.push(p[0]),
            p.drop_first(),
        );
    }
}

proof fn lemma_feed_value(d_out: Seq<InstModel>, opcode: u8, args: Seq<ValModel>, v: ValModel)
    requires
        encode_val(v) is Some,
    ensures
        feed_all(
            DecModel { state: DecStateModel::AwaitArg { opcode, args }, out: d_out },
            encode_val(v)->Some_0,
        ) == Ok::<DecModel, DecodeError>(
            DecModel { state: DecStateModel::AwaitArg { opcode, args: args.push(v) }, out: d_out },
        ),
{
    broadcast use encode_utf8_valid_utf8, encode_utf8_decode_utf8;

    reveal_with_fuel(feed_all, 4);
    let d = DecModel { state: DecStateModel::AwaitArg { opcode, args }, out: d_out };
    let enc = encode_val(v)->Some_0;
    match v {
        ValModel::Str(s) => {
            let p = encode_utf8(s);
            let plen = p.len() as u8;
            assert(enc =~= seq![1u8, plen] + p);
            lemma_feed_all_concat(d, seq![1u8, plen], p);
            assert(seq![1u8, plen].drop_first() =~= seq![plen]);
            assert(seq![plen].drop_first() =~= Seq::<u8>::empty());
            if plen == 0 {
                assert(p =~= Seq::<u8>::empty());
                assert(finish_arg(1u8, Seq::<u8>::empty()) == Ok::<ValModel, DecodeError>(
                    ValModel::Str(s),
                ));
                assert(feed_all(d, seq![1u8, plen]) == Ok::<DecModel, DecodeError>(
                    DecModel {
                        state: DecStateModel::AwaitArg {
                            opcode,
                            args: args.push(ValModel::Str(s)),
                        },
                        out: d_out,
                    },
                ));
            } else {
                let d2 = DecModel {
                    state: DecStateModel::AwaitPayload {
                        opcode,
                        args,
                        tag: 1u8,
                        need: plen,
                        buf: Seq::empty(),
                    },
                    out: d_out,
                };
                assert(feed_all(d, seq![1u8, plen]) == Ok::<DecModel, DecodeError>(d2));
                lemma_feed_payload(d_out, opcode, args, 1u8, plen, Seq::empty(), p);
                assert(Seq::<u8>::empty() + p =~= p);
                assert(finish_arg(1u8, p) == Ok::<ValModel, DecodeError>(ValModel::Str(s)));
            }
        },
        ValModel::Num(n) => {
            lemma_feed_fixed8(d_out, opcode, args, 2u8, n);
            lemma_be_roundtrip(n);
        },
        ValModel::Bool(b) => {
            let x = if b {
                1u8
            } else {
                0u8
            };
            assert(enc =~= seq![3u8, 1u8] + seq![x]);
            lemma_feed_all_concat(d, seq![3u8, 1u8], seq![x]);
            assert(seq![3u8, 1u8].drop_first() =~= seq![1u8]);
            assert(seq![1u8].drop_first() =~= Seq::<u8>::empty());
            lemma_feed_payload(d_out, opcode, args, 3u8, 1u8, Seq::empty(), seq![x]);
            assert(Seq::<u8>::empty() + seq![x] =~= seq![x]);
            assert(finish_arg(3u8, seq![x]) == Ok::<ValModel, DecodeError>(ValModel::Bool(b)));
        },
        ValModel::Ptr(pt) => {
            lemma_feed_fixed8(d_out, opcode, args, 4u8, pt);
            lemma_be_roundtrip(pt);
        },
        ValModel::Byte(x) => {
            assert(enc =~= seq![5u8, 1u8] + seq![x]);
            lemma_feed_all_concat(d, seq![5u8, 1u8], seq![x]);
            assert(seq![5u8, 1u8].drop_first() =~= seq![1u8]);
            assert(seq![1u8].drop_first() =~= Seq::<u8>::empty());
            lemma_feed_payload(d_out, opcode, args, 5u8, 1u8, Seq::empty(), seq![x]);
            assert(Seq::<u8>::empty() + seq![x] =~= seq![x]);
            assert(finish_arg(5u8, seq![x]) == Ok::<ValModel, DecodeError>(ValModel::Byte(x)));
        },
        ValModel::Uint(u) => {
            lemma_feed_fixed8(d_out, opcode, args, 6u8, u);
            lemma_be_roundtrip(u);
        },
    }
}

proof fn lemma_feed_fixed8(d_out: Seq<InstModel>, opcode: u8, args: Seq<ValModel>, tag: u8, x: u64)
    requires
        tag == 2 || tag == 4 || tag == 6,
    ensures
        feed_all(
            DecModel { state: DecStateModel::AwaitArg { opcode, args }, out: d_out },
            seq![tag, 8u8] + be_bytes(x),
        ) == match finish_arg(tag, be_bytes(x)) {
            Err(e) => Err::<DecModel, DecodeError>(e),
            Ok(v) => Ok(
                DecModel {
                    state: DecStateModel::AwaitArg { opcode, args: args.push(v) },
                    out: d_out,
                },
            ),
        },
{
    reveal_with_fuel(feed_all, 4);
    let d = DecModel { state: DecStateModel::AwaitArg { opcode, args }, out: d_out };
    let pay = be_bytes(x);
    lemma_feed_all_concat(d, seq![tag, 8u8], pay);
    assert(seq![tag, 8u8].drop_first() =~= seq![8u8]);
    assert(seq![8u8].drop_first() =~= Seq::<u8>::empty());
    assert(pay.len() == 8);
    lemma_feed_payload(d_out, opcode, args, tag, 8u8, Seq::empty(), pay);
    assert(Seq::<u8>::empty() + pay =~= pay);
}

proof fn lemma_feed_args(d_out: Seq<InstModel>, opcode: u8, done: Seq<ValModel>, rest: Seq<
    ValModel,
>)
    requires
        encode_args(rest) is Some,
    ensures
        feed_all(
            DecModel { state: DecStateModel::AwaitArg { opcode, args: done }, out: d_out },
            encode_args(rest)->Some_0,
        ) == Ok::<DecModel, DecodeError>(
            DecModel { state: DecStateModel::AwaitArg { opcode, args: done + rest }, out: d_out },
        ),
    decreases rest.len(),
{
    reveal_with_fuel(feed_all, 3);
    reveal_with_fuel(encode_args, 2);
    let d = DecModel { state: DecStateModel::AwaitArg { opcode, args: done }, out: d_out };
    if rest.len() == 0 {
        assert(encode_args(rest)->Some_0 =~= Seq::<u8>::empty());
        assert(feed_all(d, Seq::<u8>::empty()) == Ok::<DecModel, DecodeError>(d));
        assert(done + rest =~= done);
        assert(DecModel { state: DecStateModel::AwaitArg { opcode, args: done + rest }, out: d_out }
            =~~= d);
    } else {
        let h = encode_val(rest[0])->Some_0;
        let t = encode_args(rest.drop_first())->Some_0;
        assert(encode_args(rest)->Some_0 =~= h + t);
        lemma_feed_all_concat(d, h, t);
        lemma_feed_value(d_out, opcode, done, rest[0]);
        lemma_feed_args(d_out, opcode, done.push(rest[0]), rest.drop_first());
        assert(done.push(rest[0]) + rest.drop_first() =~= done + rest);
    }
}

/// Round trip: decoding the encoding of an instruction yields exactly
/// that one instruction, opcode and argument values identical.
pub proof fn lemma_encode_decode(i: InstModel)
    requires
        encode_inst_spec(i) is Some,
    ensures
        decode_spec(encode_inst_spec(i)->Some_0) == Ok::<Seq<InstModel>, DecodeError>(seq![i]),
{
    reveal_with_fuel(feed_all, 4);
    let a = encode_args(i.args)->Some_0;
    let bytes = encode_inst_spec(i)->Some_0;
    assert(bytes =~= seq![i.opcode] + (a + seq![0u8]));
    lemma_feed_all_concat(init_dec(), seq![i.opcode], a + seq![0u8]);
    assert(seq![i.opcode].drop_first() =~= Seq::<u8>::empty());
    let d1 = DecModel {
        state: DecStateModel::AwaitArg { opcode: i.opcode, args: Seq::empty() },
        out: Seq::empty(),
    };
    assert(feed_all(init_dec(), seq![i.opcode]) == Ok::<DecModel, DecodeError>(d1));
    lemma_feed_all_concat(d1, a, seq![0u8]);
    lemma_feed_args(Seq::empty(), i.opcode, Seq::empty(), i.args);
    assert(Seq::<ValModel>::empty() + i.args =~= i.args);
    let d2 = DecModel {
        state: DecStateModel::AwaitArg { opcode: i.opcode, args: i.args },
        out: Seq::empty(),
    };
    assert(seq![0u8].drop_first() =~= Seq::<u8>::empty());
    assert(InstModel { opcode: i.opcode, args: i.args } =~~= i);
    let d3 = DecModel { state: DecStateModel::AwaitOpcode, out: seq![i] };
    assert(feed_spec(d2, 0u8) == Ok::<DecModel, DecodeError>(d3)) by {
        assert(Seq::<InstModel>::empty().push(InstModel { opcode: i.opcode, args: i.args })
            =~= seq![i]);
    }
    assert(feed_all(d2, seq![0u8]) == Ok::<DecModel, DecodeError>(d3));
    assert(feed_all(init_dec(), bytes) == Ok::<DecModel, DecodeError>(d3));
}

} // verus!
