//! The wire codec: the length-prefixed, self-describing binary encoding
//! that every typed channel of the fabric carries. The encoding supports
//! the scalar kinds, text, raw bytes, lists, and the two capability-handle
//! tags exchanged on the root channel; every value round-trips.

use vstd::prelude::*;
use vstd::string::StringSliceAdditionalSpecFns;
use vstd::utf8::decode_utf8;
use vstd::utf8::decode_utf8_encode_utf8;
use vstd::utf8::encode_utf8;
use vstd::utf8::encode_utf8_decode_utf8;
use vstd::utf8::encode_utf8_valid_utf8;
use vstd::utf8::valid_utf8;
use crate::error::ErrorKind;
use crate::error::ShadowError;

verus! {

broadcast use vstd::seq::axiom_seq_index_decreases, vstd::std_specs::vec::axiom_vec_decreases_to_view;

/// A value of the wire protocol, as programs build and read it.
#[derive(Debug, PartialEq)]
pub enum WireValue {
    /// The empty payload.
    Unit,
    Bool(bool),
    U32(u32),
    U64(u64),
    Text(String),
    Bytes(Vec<u8>),
    List(Vec<WireValue>),
    /// A handle to the agent's root capability, carrying the substream
    /// reserved for it.
    AgentCapability(u64),
    /// A handle to the operator's root capability.
    OperatorCapability(u64),
}

/// The mathematical shape of a wire value: what the contracts speak of.
pub enum WireVal {
    Unit,
    Bool(bool),
    U32(u32),
    U64(u64),
    Text(Seq<char>),
    Bytes(Seq<u8>),
    List(Seq<WireVal>),
    AgentCapability(u64),
    OperatorCapability(u64),
}

/// The mathematical value a program value denotes.
pub open spec fn wire_view(v: WireValue) -> WireVal
    decreases v,
{
    match v {
        WireValue::Unit => WireVal::Unit,
        WireValue::Bool(b) => WireVal::Bool(b),
        WireValue::U32(n) => WireVal::U32(n),
        WireValue::U64(n) => WireVal::U64(n),
        WireValue::Text(s) => WireVal::Text(s@),
        WireValue::Bytes(b) => WireVal::Bytes(b@),
        WireValue::List(items) => WireVal::List(wire_views(items@)),
        WireValue::AgentCapability(h) => WireVal::AgentCapability(h),
        WireValue::OperatorCapability(h) => WireVal::OperatorCapability(h),
    }
}

/// The mathematical values a sequence of program values denotes.
pub open spec fn wire_views(items: Seq<WireValue>) -> Seq<WireVal>
    decreases items,
{
    if items.len() == 0 {
        Seq::empty()
    } else {
        seq![wire_view(items[0])] + wire_views(items.drop_first())
    }
}

impl WireVal {
    /// Machine-size validity: every length occurring in the value fits the
    /// 8-byte length prefix. Every value built by a program satisfies it.
    pub open spec fn wf(self) -> bool
        decreases self,
    {
        match self {
            WireVal::Text(cs) => encode_utf8(cs).len() <= u64::MAX,
            WireVal::Bytes(bs) => bs.len() <= u64::MAX,
            WireVal::List(items) => items.len() <= u64::MAX && (forall|i: int|
                0 <= i < items.len() ==> (#[trigger] items[i]).wf()),
            _ => true,
        }
    }
}

/// The four little-endian bytes of `n`.
pub open spec fn spec_u32_le(n: u32) -> Seq<u8> {
    seq![
        (n % 256) as u8,
        ((n / 256) % 256) as u8,
        ((n / 65536) % 256) as u8,
        ((n / 16777216) % 256) as u8,
    ]
}

/// The number four little-endian bytes denote.
pub open spec fn spec_u32_from_le(s: Seq<u8>) -> u32
    recommends
        s.len() == 4,
{
    (s[0] + s[1] * 256 + s[2] * 65536 + s[3] * 16777216) as u32
}

/// The eight little-endian bytes of `n`: its low half, then its high half.
pub open spec fn spec_u64_le(n: u64) -> Seq<u8> {
    spec_u32_le((n % 0x100000000) as u32) + spec_u32_le((n / 0x100000000) as u32)
}

/// The number eight little-endian bytes denote.
pub open spec fn spec_u64_from_le(s: Seq<u8>) -> u64
    recommends
        s.len() == 8,
{
    (spec_u32_from_le(s.subrange(0, 4)) + spec_u32_from_le(s.subrange(4, 8)) * 0x100000000) as u64
}

/// Four little-endian bytes read back as the number they were made from.
pub proof fn lemma_u32_le_round_trip(n: u32)
    ensures
        spec_u32_from_le(spec_u32_le(n)) == n,
{
    let s = spec_u32_le(n);
    assert(s[0] == (n % 256) as u8);
    assert(s[1] == ((n / 256) % 256) as u8);
    assert(s[2] == ((n / 65536) % 256) as u8);
    assert(s[3] == ((n / 16777216) % 256) as u8);
    assert(n % 256 + ((n / 256) % 256) * 256 + ((n / 65536) % 256) * 65536 + ((n / 16777216) % 256)
        * 16777216 == n) by (nonlinear_arith);
}

/// Eight little-endian bytes read back as the number they were made from.
pub proof fn lemma_u64_le_round_trip(n: u64)
    ensures
        spec_u64_from_le(spec_u64_le(n)) == n,
{
    let lo = (n % 0x100000000) as u32;
    let hi = (n / 0x100000000) as u32;
    let s = spec_u64_le(n);
    assert(s.subrange(0, 4) =~= spec_u32_le(lo));
    assert(s.subrange(4, 8) =~= spec_u32_le(hi));
    lemma_u32_le_round_trip(lo);
    lemma_u32_le_round_trip(hi);
    assert(lo + hi * 0x100000000 == n);
}

/// The tag byte that opens each value's encoding.
pub open spec fn spec_tag(m: WireVal) -> u8 {
    match m {
        WireVal::Unit => 0,
        WireVal::Bool(_) => 1,
        WireVal::U32(_) => 2,
        WireVal::U64(_) => 3,
        WireVal::Text(_) => 4,
        WireVal::Bytes(_) => 5,
        WireVal::List(_) => 6,
        WireVal::AgentCapability(_) => 7,
        WireVal::OperatorCapability(_) => 8,
    }
}

/// The encoding of one value: its tag, then its payload; variable-length
/// payloads carry an 8-byte little-endian length or count first.
pub open spec fn spec_encode(m: WireVal) -> Seq<u8>
    decreases m,
{
    match m {
        WireVal::Unit => seq![0u8],
        WireVal::Bool(b) => seq![
            1u8,
            if b {
                1u8
            } else {
                0u8
            },
        ],
        WireVal::U32(n) => seq![2u8] + spec_u32_le(n),
        WireVal::U64(n) => seq![3u8] + spec_u64_le(n),
        WireVal::Text(cs) => seq![4u8] + spec_u64_le(encode_utf8(cs).len() as u64) + encode_utf8(
            cs,
        ),
        WireVal::Bytes(bs) => seq![5u8] + spec_u64_le(bs.len() as u64) + bs,
        WireVal::List(items) => seq![6u8] + spec_u64_le(items.len() as u64) + spec_encode_seq(
            items,
        ),
        WireVal::AgentCapability(h) => seq![7u8] + spec_u64_le(h),
        WireVal::OperatorCapability(h) => seq![8u8] + spec_u64_le(h),
    }
}

/// The concatenated encodings of a sequence of values.
pub open spec fn spec_encode_seq(ms: Seq<WireVal>) -> Seq<u8>
    decreases ms,
{
    if ms.len() == 0 {
        Seq::empty()
    } else {
        spec_encode(ms[0]) + spec_encode_seq(ms.drop_first())
    }
}

} // verus!
verus! {

/// Decode `n` values from the front of `s`: the values, and how many bytes
/// they occupied. `None` when the bytes are not an encoding of `n` values.
pub open spec fn spec_decode_many(s: Seq<u8>, n: nat) -> Option<(Seq<WireVal>, nat)>
    decreases s.len(), n, 1int,
{
    if n == 0 {
        Some((Seq::empty(), 0))
    } else if s.len() == 0 {
        None
    } else {
        let tag = s[0];
        if tag == 0 {
            spec_decode_cons(s, n, WireVal::Unit, 1)
        } else if tag == 1 {
            if s.len() >= 2 && (s[1] == 0 || s[1] == 1) {
                spec_decode_cons(s, n, WireVal::Bool(s[1] == 1), 2)
            } else {
                None
            }
        } else if tag == 2 {
            if s.len() >= 5 {
                spec_decode_cons(s, n, WireVal::U32(spec_u32_from_le(s.subrange(1, 5))), 5)
            } else {
                None
            }
        } else if tag == 3 {
            if s.len() >= 9 {
                spec_decode_cons(s, n, WireVal::U64(spec_u64_from_le(s.subrange(1, 9))), 9)
            } else {
                None
            }
        } else if tag == 4 {
            if s.len() >= 9 {
                let m = spec_u64_from_le(s.subrange(1, 9)) as int;
                if s.len() >= 9 + m && valid_utf8(s.subrange(9, 9 + m)) {
                    spec_decode_cons(
                        s,
                        n,
                        WireVal::Text(decode_utf8(s.subrange(9, 9 + m))),
                        (9 + m) as nat,
                    )
                } else {
                    None
                }
            } else {
                None
            }
        } else if tag == 5 {
            if s.len() >= 9 {
                let m = spec_u64_from_le(s.subrange(1, 9)) as int;
                if s.len() >= 9 + m {
                    spec_decode_cons(s, n, WireVal::Bytes(s.subrange(9, 9 + m)), (9 + m) as nat)
                } else {
                    None
                }
            } else {
                None
            }
        } else if tag == 6 {
            if s.len() >= 9 {
                let m = spec_u64_from_le(s.subrange(1, 9)) as nat;
                match spec_decode_many(s.subrange(9, s.len() as int), m) {
                    Some(inner) => spec_decode_cons(s, n, WireVal::List(inner.0), 9 + inner.1),
                    None => None,
                }
            } else {
                None
            }
        } else if tag == 7 {
            if s.len() >= 9 {
                spec_decode_cons(
                    s,
                    n,
                    WireVal::AgentCapability(spec_u64_from_le(s.subrange(1, 9))),
                    9,
                )
            } else {
                None
            }
        } else if tag == 8 {
            if s.len() >= 9 {
                spec_decode_cons(
                    s,
                    n,
                    WireVal::OperatorCapability(spec_u64_from_le(s.subrange(1, 9))),
                    9,
                )
            } else {
                None
            }
        } else {
            None
        }
    }
}

/// One value has been read, occupying `used` bytes; read the remaining
/// `n - 1` values after it.
pub open spec fn spec_decode_cons(s: Seq<u8>, n: nat, v: WireVal, used: nat) -> Option<
    (Seq<WireVal>, nat),
>
    recommends
        n >= 1,
        1 <= used <= s.len(),
    decreases s.len(), n, 0int,
        when 1 <= used <= s.len() && n >= 1
{
    match spec_decode_many(s.subrange(used as int, s.len() as int), (n - 1) as nat) {
        Some(rest) => Some((seq![v] + rest.0, used + rest.1)),
        None => None,
    }
}

/// Decode one value from the front of `s`.
pub open spec fn spec_decode_value(s: Seq<u8>) -> Option<(WireVal, nat)> {
    match spec_decode_many(s, 1) {
        Some(r) => if r.0.len() == 1 {
            Some((r.0[0], r.1))
        } else {
            None
        },
        None => None,
    }
}

/// Every encoding starts with its tag: it is never empty.
pub proof fn lemma_encode_nonempty(m: WireVal)
    ensures
        spec_encode(m).len() >= 1,
        spec_encode(m)[0] == spec_tag(m),
{
}

/// Each tag's decoding step: the encoding of one value, followed by
/// anything, decodes as that value followed by the rest.
#[verifier::rlimit(100)]
#[verifier::spinoff_prover]
proof fn lemma_decode_step(v: WireVal, more: Seq<u8>, n: nat)
    requires
        v.wf(),
        n >= 1,
    ensures
        spec_decode_many(spec_encode(v) + more, n) == spec_decode_cons(
            spec_encode(v) + more,
            n,
            v,
            spec_encode(v).len() as nat,
        ),
    decreases spec_encode(v).len(), 0int, 1int,
{
    let ev = spec_encode(v);
    let s = ev + more;
    lemma_encode_nonempty(v);
    assert(s[0] == ev[0]);
    match v {
        WireVal::Unit => {},
        WireVal::Bool(b) => {
            assert(s[1] == ev[1]);
        },
        WireVal::U32(n0) => {
            assert(s.subrange(1, 5) =~= spec_u32_le(n0));
            lemma_u32_le_round_trip(n0);
        },
        WireVal::U64(n0) => {
            assert(s.subrange(1, 9) =~= spec_u64_le(n0));
            lemma_u64_le_round_trip(n0);
        },
        WireVal::Text(cs) => {
            lemma_decode_step_text(cs, more, n);
        },
        WireVal::Bytes(bs) => {
            lemma_decode_step_bytes(bs, more, n);
        },
        WireVal::List(items) => {
            lemma_decode_step_list(items, more, n);
        },
        WireVal::AgentCapability(h) => {
            assert(s.subrange(1, 9) =~= spec_u64_le(h));
            lemma_u64_le_round_trip(h);
        },
        WireVal::OperatorCapability(h) => {
            assert(s.subrange(1, 9) =~= spec_u64_le(h));
            lemma_u64_le_round_trip(h);
        },
    }
}

/// The text step of the decoder, on its own for the prover's sake.
#[verifier::rlimit(100)]
#[verifier::spinoff_prover]
proof fn lemma_decode_step_text(cs: Seq<char>, more: Seq<u8>, n: nat)
    requires
        WireVal::Text(cs).wf(),
        n >= 1,
    ensures
        spec_decode_many(spec_encode(WireVal::Text(cs)) + more, n) == spec_decode_cons(
            spec_encode(WireVal::Text(cs)) + more,
            n,
            WireVal::Text(cs),
            spec_encode(WireVal::Text(cs)).len() as nat,
        ),
{
    let v = WireVal::Text(cs);
    let ev = spec_encode(v);
    let s = ev + more;
    let payload = encode_utf8(cs);
    let m = payload.len() as int;
    assert(ev =~= seq![4u8] + spec_u64_le(m as u64) + payload);
    assert(s[0] == 4u8);
    assert(s.subrange(1, 9) =~= spec_u64_le(m as u64));
    lemma_u64_le_round_trip(m as u64);
    assert(s.subrange(9, 9 + m) =~= payload);
    encode_utf8_valid_utf8(cs);
    encode_utf8_decode_utf8(cs);
}

/// The raw-bytes step of the decoder, on its own for the prover's sake.
#[verifier::rlimit(100)]
#[verifier::spinoff_prover]
proof fn lemma_decode_step_bytes(bs: Seq<u8>, more: Seq<u8>, n: nat)
    requires
        WireVal::Bytes(bs).wf(),
        n >= 1,
    ensures
        spec_decode_many(spec_encode(WireVal::Bytes(bs)) + more, n) == spec_decode_cons(
            spec_encode(WireVal::Bytes(bs)) + more,
            n,
            WireVal::Bytes(bs),
            spec_encode(WireVal::Bytes(bs)).len() as nat,
        ),
{
    let v = WireVal::Bytes(bs);
    let ev = spec_encode(v);
    let s = ev + more;
    let m = bs.len() as int;
    assert(ev =~= seq![5u8] + spec_u64_le(m as u64) + bs);
    assert(s[0] == 5u8);
    assert(s.subrange(1, 9) =~= spec_u64_le(m as u64));
    lemma_u64_le_round_trip(m as u64);
    assert(s.subrange(9, 9 + m) =~= bs);
}

/// The list step of the decoder: the element count read back from the
/// prefix, and the members decoded by the induction hypothesis.
#[verifier::rlimit(100)]
#[verifier::spinoff_prover]
proof fn lemma_decode_step_list(items: Seq<WireVal>, more: Seq<u8>, n: nat)
    requires
        WireVal::List(items).wf(),
        n >= 1,
    ensures
        spec_decode_many(spec_encode(WireVal::List(items)) + more, n) == spec_decode_cons(
            spec_encode(WireVal::List(items)) + more,
            n,
            WireVal::List(items),
            spec_encode(WireVal::List(items)).len() as nat,
        ),
    decreases spec_encode(WireVal::List(items)).len(), 0int, 0int,
{
    let v = WireVal::List(items);
    let ev = spec_encode(v);
    let s = ev + more;
    let eitems = spec_encode_seq(items);
    assert(ev =~= seq![6u8] + spec_u64_le(items.len() as u64) + eitems);
    assert(s[0] == 6u8);
    assert(s.subrange(1, 9) =~= spec_u64_le(items.len() as u64));
    lemma_u64_le_round_trip(items.len() as u64);
    assert(s.subrange(9, s.len() as int) =~= eitems + more);
    assert(forall|i: int| 0 <= i < items.len() ==> (#[trigger] items[i]).wf());
    lemma_encode_seq_len_ge(items);
    assert(spec_encode_seq(items).len() < spec_encode(v).len());
    lemma_decode_encode_many(items, more);
    assert(spec_decode_many(s.subrange(9, s.len() as int), items.len()) == Some(
        (items, eitems.len() as nat),
    ));
}

/// The round trip of a value sequence: decoding the concatenation of the
/// encodings, with anything after it, yields the values back and consumes
/// exactly their bytes.
pub proof fn lemma_decode_encode_many(ms: Seq<WireVal>, rest: Seq<u8>)
    requires
        forall|i: int| 0 <= i < ms.len() ==> (#[trigger] ms[i]).wf(),
    ensures
        spec_decode_many(spec_encode_seq(ms) + rest, ms.len()) == Some(
            (ms, spec_encode_seq(ms).len() as nat),
        ),
    decreases spec_encode_seq(ms).len(), ms.len(), 2int,
{
    if ms.len() == 0 {
        assert(spec_encode_seq(ms) + rest =~= rest);
        assert(ms =~= Seq::<WireVal>::empty());
    } else {
        let v = ms[0];
        let tail = ms.drop_first();
        let ev = spec_encode(v);
        let etail = spec_encode_seq(tail);
        let s = spec_encode_seq(ms) + rest;
        assert(ms[0].wf());
        assert(forall|i: int| 0 <= i < tail.len() ==> tail[i] == ms[i + 1]);
        assert(spec_encode_seq(ms) == ev + etail);
        assert(s =~= ev + (etail + rest));
        lemma_encode_nonempty(v);
        lemma_decode_step(v, etail + rest, ms.len());
        assert(s.subrange(ev.len() as int, s.len() as int) =~= etail + rest);
        assert(spec_encode_seq(tail).len() < spec_encode_seq(ms).len());
        lemma_decode_encode_many(tail, rest);
        assert(seq![v] + tail =~= ms);
        assert(spec_decode_cons(s, ms.len(), v, ev.len() as nat) == Some(
            (ms, spec_encode_seq(ms).len() as nat),
        ));
    }
}

/// The encoding of a sequence is at least one byte per value.
proof fn lemma_encode_seq_len_ge(ms: Seq<WireVal>)
    ensures
        spec_encode_seq(ms).len() >= ms.len(),
    decreases ms.len(),
{
    if ms.len() > 0 {
        lemma_encode_nonempty(ms[0]);
        lemma_encode_seq_len_ge(ms.drop_first());
    }
}

/// Every value of the wire codec round-trips: decoding its encoding, with
/// anything after it, returns the value itself and consumes exactly its
/// bytes.
pub proof fn lemma_codec_round_trip(m: WireVal, rest: Seq<u8>)
    requires
        m.wf(),
    ensures
        spec_decode_value(spec_encode(m) + rest) == Some((m, spec_encode(m).len() as nat)),
{
    let ms = seq![m];
    assert(ms[0] == m);
    assert(ms.drop_first() =~= Seq::<WireVal>::empty());
    assert(spec_encode_seq(ms) =~= spec_encode(m) + spec_encode_seq(Seq::<WireVal>::empty()));
    assert(spec_encode_seq(ms) =~= spec_encode(m));
    lemma_decode_encode_many(ms, rest);
}

/// Append the four little-endian bytes of `n`.
fn push_u32_le(out: &mut Vec<u8>, n: u32)
    ensures
        final(out)@ == old(out)@ + spec_u32_le(n),
{
    out.push((n % 256) as u8);
    out.push(((n / 256) % 256) as u8);
    out.push(((n / 65536) % 256) as u8);
    out.push(((n / 16777216) % 256) as u8);
    proof {
        assert(out@ =~= old(out)@ + spec_u32_le(n));
    }
}

/// Append the eight little-endian bytes of `n`.
fn push_u64_le(out: &mut Vec<u8>, n: u64)
    ensures
        final(out)@ == old(out)@ + spec_u64_le(n),
{
    push_u32_le(out, (n % 0x100000000) as u32);
    push_u32_le(out, (n / 0x100000000) as u32);
    proof {
        assert(out@ =~= old(out)@ + spec_u64_le(n));
    }
}

/// Append the encoding of `v` to `out`.
pub fn encode(v: &WireValue, out: &mut Vec<u8>)
    ensures
        final(out)@ == old(out)@ + spec_encode(wire_view(*v)),
    decreases spec_encode(wire_view(*v)).len(),
{
    match v {
        WireValue::Unit => {
            out.push(0u8);
            proof {
                assert(out@ =~= old(out)@ + spec_encode(wire_view(*v)));
            }
        },
        WireValue::Bool(b) => {
            out.push(1u8);
            out.push(if *b { 1u8 } else { 0u8 });
            proof {
                assert(out@ =~= old(out)@ + spec_encode(wire_view(*v)));
            }
        },
        WireValue::U32(n) => {
            out.push(2u8);
            push_u32_le(out, *n);
            proof {
                assert(out@ =~= old(out)@ + spec_encode(wire_view(*v)));
            }
        },
        WireValue::U64(n) => {
            out.push(3u8);
            push_u64_le(out, *n);
            proof {
                assert(out@ =~= old(out)@ + spec_encode(wire_view(*v)));
            }
        },
        WireValue::Text(s) => {
            out.push(4u8);
            let mut bs = s.as_str().as_bytes_vec();
            push_u64_le(out, bs.len() as u64);
            out.append(&mut bs);
            proof {
                assert(out@ =~= old(out)@ + spec_encode(wire_view(*v)));
            }
        },
        WireValue::Bytes(b) => {
            out.push(5u8);
            push_u64_le(out, b.len() as u64);
            out.extend_from_slice(b.as_slice());
            proof {
                assert(out@ =~= old(out)@ + spec_encode(wire_view(*v)));
            }
        },
        WireValue::List(items) => {
            out.push(6u8);
            push_u64_le(out, items.len() as u64);
            let ghost mid = out@;
            let n = items.len();
            let mut i: usize = 0;
            while i < n
                invariant
                    n == items@.len(),
                    i <= n,
                    *v == WireValue::List(*items),
                    out@ == mid + spec_encode_seq(wire_views(items@).take(i as int)),
                decreases n - i,
            {
                proof {
                    lemma_wire_views_len(items@);
                    lemma_wire_views_index(items@, i as int);
                    lemma_encode_seq_member_le(wire_views(items@), i as int);
                    assert(spec_encode(wire_view(items@[i as int])).len() < spec_encode(
                        wire_view(*v),
                    ).len());
                }
                encode(&items[i], out);
                proof {
                    lemma_wire_views_index(items@, i as int);
                    lemma_encode_seq_take_step(wire_views(items@), i as int);
                }
                i += 1;
            }
            proof {
                lemma_wire_views_len(items@);
                assert(wire_views(items@).take(n as int) =~= wire_views(items@));
                assert(out@ =~= old(out)@ + spec_encode(wire_view(*v)));
            }
        },
        WireValue::AgentCapability(h) => {
            out.push(7u8);
            push_u64_le(out, *h);
            proof {
                assert(out@ =~= old(out)@ + spec_encode(wire_view(*v)));
            }
        },
        WireValue::OperatorCapability(h) => {
            out.push(8u8);
            push_u64_le(out, *h);
            proof {
                assert(out@ =~= old(out)@ + spec_encode(wire_view(*v)));
            }
        },
    }
}

/// A value sequence's views are its values' views, pointwise.
proof fn lemma_wire_views_len(items: Seq<WireValue>)
    ensures
        wire_views(items).len() == items.len(),
    decreases items.len(),
{
    if items.len() > 0 {
        lemma_wire_views_len(items.drop_first());
    }
}

/// The view of the `i`-th value is the `i`-th view.
proof fn lemma_wire_views_index(items: Seq<WireValue>, i: int)
    requires
        0 <= i < items.len(),
    ensures
        wire_views(items).len() == items.len(),
        wire_views(items)[i] == wire_view(items[i]),
    decreases items.len(),
{
    lemma_wire_views_len(items);
    if i > 0 {
        lemma_wire_views_index(items.drop_first(), i - 1);
    }
}

/// Every member's encoding is within its sequence's encoding.
proof fn lemma_encode_seq_member_le(ws: Seq<WireVal>, i: int)
    requires
        0 <= i < ws.len(),
    ensures
        spec_encode(ws[i]).len() <= spec_encode_seq(ws).len(),
    decreases i,
{
    if i == 0 {
    } else {
        lemma_encode_seq_member_le(ws.drop_first(), i - 1);
        assert(ws.drop_first()[i - 1] == ws[i]);
    }
}

/// Encoding one more value appends its encoding.
proof fn lemma_encode_seq_take_step(ws: Seq<WireVal>, i: int)
    requires
        0 <= i < ws.len(),
    ensures
        spec_encode_seq(ws.take(i + 1)) == spec_encode_seq(ws.take(i)) + spec_encode(ws[i]),
    decreases i,
{
    if i == 0 {
        assert(ws.take(1).drop_first() =~= Seq::<WireVal>::empty());
        assert(ws.take(0) =~= Seq::<WireVal>::empty());
        assert(ws.take(1)[0] == ws[0]);
        assert(spec_encode_seq(Seq::<WireVal>::empty()) =~= Seq::<u8>::empty());
        assert(spec_encode_seq(ws.take(1)) =~= spec_encode(ws[0]) + Seq::<u8>::empty());
        assert(spec_encode_seq(ws.take(0)) + spec_encode(ws[0]) =~= spec_encode(ws[0]));
    } else {
        let ws0 = ws.drop_first();
        lemma_encode_seq_take_step(ws0, i - 1);
        assert(ws.take(i + 1).drop_first() =~= ws0.take(i));
        assert(ws.take(i).drop_first() =~= ws0.take(i - 1));
        assert(ws.take(i + 1)[0] == ws[0]);
        assert(ws.take(i)[0] == ws[0]);
        assert(ws0[i - 1] == ws[i]);
        assert(spec_encode_seq(ws.take(i + 1)) == spec_encode(ws[0]) + spec_encode_seq(ws0.take(i)));
        assert(spec_encode_seq(ws.take(i)) == spec_encode(ws[0]) + spec_encode_seq(ws0.take(i - 1)));
        assert(spec_encode(ws[0]) + (spec_encode_seq(ws0.take(i - 1)) + spec_encode(ws[i]))
            =~= (spec_encode(ws[0]) + spec_encode_seq(ws0.take(i - 1))) + spec_encode(ws[i]));
    }
}

/// The capability exchange expects the agent's root handle first on the
/// wire; any other value is a fatal protocol error.
pub fn expect_agent_capability(v: &WireValue) -> (r: Result<u64, ShadowError>)
    ensures
        wire_view(*v) matches WireVal::AgentCapability(h) ==> (r matches Ok(x) && x == h),
        !(wire_view(*v) is AgentCapability) ==> (r matches Err(e) && e.spec_kind()
            == ErrorKind::ParamInvalid),
{
    match v {
        WireValue::AgentCapability(h) => Ok(*h),
        _ => Err(ShadowError::ParamInvalid(String::from_str("expect client, but receive server"))),
    }
}

/// The capability exchange expects the operator's root handle on the wire;
/// any other value is a fatal protocol error.
pub fn expect_operator_capability(v: &WireValue) -> (r: Result<u64, ShadowError>)
    ensures
        wire_view(*v) matches WireVal::OperatorCapability(h) ==> (r matches Ok(x) && x == h),
        !(wire_view(*v) is OperatorCapability) ==> (r matches Err(e) && e.spec_kind()
            == ErrorKind::ParamInvalid),
{
    match v {
        WireValue::OperatorCapability(h) => Ok(*h),
        _ => Err(ShadowError::ParamInvalid(String::from_str("expect server, but receive client"))),
    }
}

} // verus!
