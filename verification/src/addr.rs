//! The address model: what the registry keys sessions by, what the HTTP
//! surface names agents by, and what the proxy subsystem listens on.

use vstd::prelude::*;
use crate::text::all_ascii;
use crate::text::ascii_to_string;
use crate::text::lemma_all_ascii_concat;
use crate::text::lemma_decimal_is_ascii;
use crate::text::lemma_hex_is_ascii;
use crate::text::push_decimal_u64;
use crate::text::push_hex_u16;
use crate::text::spec_decimal;
use crate::text::spec_hex;

verus! {

/// A host address: four dotted-decimal octets, or eight hexadecimal groups.
#[derive(Clone, Copy, PartialEq, Eq, Structural, Debug, Hash)]
pub enum IpAddress {
    V4 { a: u8, b: u8, c: u8, d: u8 },
    V6 { g0: u16, g1: u16, g2: u16, g3: u16, g4: u16, g5: u16, g6: u16, g7: u16 },
}

/// A socket address: host address and port. The registry key of a session,
/// and the listen key of a proxy.
#[derive(Clone, Copy, PartialEq, Eq, Structural, Debug, Hash)]
pub struct SocketAddress {
    pub ip: IpAddress,
    pub port: u16,
}


/// The textual rendering of an address: dotted decimal octets and the port
/// for the four-octet form; bracketed lowercase hexadecimal groups for the
/// eight-group form. This is the text the registry listings carry, and the
/// text an HTTP envelope echoes when it names an address.
pub open spec fn spec_render_addr(a: SocketAddress) -> Seq<u8> {
    match a.ip {
        IpAddress::V4 { a: x0, b: x1, c: x2, d: x3 } => spec_decimal(x0 as nat) + seq![46u8]
            + spec_decimal(x1 as nat) + seq![46u8] + spec_decimal(x2 as nat) + seq![46u8]
            + spec_decimal(x3 as nat) + seq![58u8] + spec_decimal(a.port as nat),
        IpAddress::V6 { g0, g1, g2, g3, g4, g5, g6, g7 } => seq![91u8] + spec_hex(g0 as nat)
            + seq![58u8] + spec_hex(g1 as nat) + seq![58u8] + spec_hex(g2 as nat) + seq![58u8]
            + spec_hex(g3 as nat) + seq![58u8] + spec_hex(g4 as nat) + seq![58u8] + spec_hex(
            g5 as nat,
        ) + seq![58u8] + spec_hex(g6 as nat) + seq![58u8] + spec_hex(g7 as nat) + seq![93u8, 58u8]
            + spec_decimal(a.port as nat),
    }
}

/// An address's rendering is ASCII throughout.
pub proof fn lemma_render_addr_ascii(a: SocketAddress)
    ensures
        all_ascii(spec_render_addr(a)),
{
    match a.ip {
        IpAddress::V4 { a: x0, b: x1, c: x2, d: x3 } => {
            lemma_decimal_is_ascii(x0 as nat);
            lemma_decimal_is_ascii(x1 as nat);
            lemma_decimal_is_ascii(x2 as nat);
            lemma_decimal_is_ascii(x3 as nat);
            lemma_decimal_is_ascii(a.port as nat);
            let p1 = spec_decimal(x0 as nat) + seq![46u8];
            lemma_all_ascii_concat(spec_decimal(x0 as nat), seq![46u8]);
            let p2 = p1 + spec_decimal(x1 as nat);
            lemma_all_ascii_concat(p1, spec_decimal(x1 as nat));
            let p3 = p2 + seq![46u8];
            lemma_all_ascii_concat(p2, seq![46u8]);
            let p4 = p3 + spec_decimal(x2 as nat);
            lemma_all_ascii_concat(p3, spec_decimal(x2 as nat));
            let p5 = p4 + seq![46u8];
            lemma_all_ascii_concat(p4, seq![46u8]);
            let p6 = p5 + spec_decimal(x3 as nat);
            lemma_all_ascii_concat(p5, spec_decimal(x3 as nat));
            let p7 = p6 + seq![58u8];
            lemma_all_ascii_concat(p6, seq![58u8]);
            lemma_all_ascii_concat(p7, spec_decimal(a.port as nat));
        },
        IpAddress::V6 { g0, g1, g2, g3, g4, g5, g6, g7 } => {
            lemma_hex_is_ascii(g0 as nat);
            lemma_hex_is_ascii(g1 as nat);
            lemma_hex_is_ascii(g2 as nat);
            lemma_hex_is_ascii(g3 as nat);
            lemma_hex_is_ascii(g4 as nat);
            lemma_hex_is_ascii(g5 as nat);
            lemma_hex_is_ascii(g6 as nat);
            lemma_hex_is_ascii(g7 as nat);
            lemma_decimal_is_ascii(a.port as nat);
            let q1 = seq![91u8] + spec_hex(g0 as nat);
            lemma_all_ascii_concat(seq![91u8], spec_hex(g0 as nat));
            let q2 = q1 + seq![58u8];
            lemma_all_ascii_concat(q1, seq![58u8]);
            let q3 = q2 + spec_hex(g1 as nat);
            lemma_all_ascii_concat(q2, spec_hex(g1 as nat));
            let q4 = q3 + seq![58u8];
            lemma_all_ascii_concat(q3, seq![58u8]);
            let q5 = q4 + spec_hex(g2 as nat);
            lemma_all_ascii_concat(q4, spec_hex(g2 as nat));
            let q6 = q5 + seq![58u8];
            lemma_all_ascii_concat(q5, seq![58u8]);
            let q7 = q6 + spec_hex(g3 as nat);
            lemma_all_ascii_concat(q6, spec_hex(g3 as nat));
            let q8 = q7 + seq![58u8];
            lemma_all_ascii_concat(q7, seq![58u8]);
            let q9 = q8 + spec_hex(g4 as nat);
            lemma_all_ascii_concat(q8, spec_hex(g4 as nat));
            let q10 = q9 + seq![58u8];
            lemma_all_ascii_concat(q9, seq![58u8]);
            let q11 = q10 + spec_hex(g5 as nat);
            lemma_all_ascii_concat(q10, spec_hex(g5 as nat));
            let q12 = q11 + seq![58u8];
            lemma_all_ascii_concat(q11, seq![58u8]);
            let q13 = q12 + spec_hex(g6 as nat);
            lemma_all_ascii_concat(q12, spec_hex(g6 as nat));
            let q14 = q13 + seq![58u8];
            lemma_all_ascii_concat(q13, seq![58u8]);
            let q15 = q14 + spec_hex(g7 as nat);
            lemma_all_ascii_concat(q14, spec_hex(g7 as nat));
            let q16 = q15 + seq![93u8, 58u8];
            lemma_all_ascii_concat(q15, seq![93u8, 58u8]);
            lemma_all_ascii_concat(q16, spec_decimal(a.port as nat));
        },
    }
}

/// Render an address as text.
pub fn render_socket_address(a: &SocketAddress) -> (r: String)
    ensures
        vstd::utf8::encode_utf8(r@) == spec_render_addr(*a),
{
    let mut bytes: Vec<u8> = Vec::new();
    match a.ip {
        IpAddress::V4 { a: x0, b: x1, c: x2, d: x3 } => {
            push_decimal_u64(&mut bytes, x0 as u64);
            bytes.push(46);
            push_decimal_u64(&mut bytes, x1 as u64);
            bytes.push(46);
            push_decimal_u64(&mut bytes, x2 as u64);
            bytes.push(46);
            push_decimal_u64(&mut bytes, x3 as u64);
            bytes.push(58);
            push_decimal_u64(&mut bytes, a.port as u64);
        },
        IpAddress::V6 { g0, g1, g2, g3, g4, g5, g6, g7 } => {
            bytes.push(91);
            push_hex_u16(&mut bytes, g0);
            bytes.push(58);
            push_hex_u16(&mut bytes, g1);
            bytes.push(58);
            push_hex_u16(&mut bytes, g2);
            bytes.push(58);
            push_hex_u16(&mut bytes, g3);
            bytes.push(58);
            push_hex_u16(&mut bytes, g4);
            bytes.push(58);
            push_hex_u16(&mut bytes, g5);
            bytes.push(58);
            push_hex_u16(&mut bytes, g6);
            bytes.push(58);
            push_hex_u16(&mut bytes, g7);
            bytes.push(93);
            bytes.push(58);
            push_decimal_u64(&mut bytes, a.port as u64);
        },
    }
    proof {
        assert(bytes@ =~= spec_render_addr(*a));
        lemma_render_addr_ascii(*a);
    }
    ascii_to_string(bytes)
}

} // verus!
