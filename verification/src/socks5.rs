//! SOCKS5 negotiation, as pure functions on the bytes read from the
//! front-end connection: the greeting, the username/password exchange, the
//! request, and the replies the operator writes back. The runtime only
//! moves bytes; every decision is made here.

use vstd::prelude::*;
use crate::addr::IpAddress;
use crate::addr::SocketAddress;
use crate::error::ErrorKind;
use crate::error::ShadowError;

verus! {

/// A well-formed greeting: version 5, a method count, and exactly that
/// many method bytes.
pub open spec fn spec_greeting_wf(b: Seq<u8>) -> bool {
    b.len() >= 2 && b[0] == 5 && b.len() == 2 + b[1]
}

/// Read the client greeting; a malformed greeting is a protocol error.
pub fn parse_greeting(buf: &[u8]) -> (r: Result<Vec<u8>, ShadowError>)
    ensures
        r is Ok <==> spec_greeting_wf(buf@),
        r matches Ok(m) ==> m@ == buf@.subrange(2, buf@.len() as int),
        r matches Err(e) ==> e.spec_kind() == ErrorKind::ParamInvalid,
{
    if buf.len() < 2 || buf[0] != 5 {
        return Err(ShadowError::ParamInvalid(String::from_str("bad greeting")));
    }
    let n = buf[1] as usize;
    if buf.len() != 2 + n {
        return Err(ShadowError::ParamInvalid(String::from_str("bad greeting length")));
    }
    let mut methods: Vec<u8> = Vec::new();
    let mut i: usize = 2;
    while i < buf.len()
        invariant
            2 <= i <= buf@.len(),
            methods@ == buf@.subrange(2, i as int),
        decreases buf@.len() - i,
    {
        methods.push(buf[i]);
        proof {
            assert(methods@ =~= buf@.subrange(2, i + 1));
        }
        i += 1;
    }
    Ok(methods)
}

/// The method the operator selects: username/password when offered,
/// otherwise the no-acceptable-methods sentinel.
pub fn select_method(methods: &[u8]) -> (r: u8)
    ensures
        r == 2 <==> methods@.contains(2),
        r == 2 || r == 255,
{
    let n = methods.len();
    let mut i: usize = 0;
    while i < n
        invariant
            n == methods@.len(),
            i <= n,
            forall|j: int| 0 <= j < i ==> methods@[j] != 2,
        decreases n - i,
    {
        if methods[i] == 2 {
            proof {
                assert(methods@.contains(2)) by {
                    assert(methods@[i as int] == 2);
                }
            }
            return 2;
        }
        i += 1;
    }
    proof {
        assert(!methods@.contains(2));
    }
    255
}

/// The two-byte method-selection reply.
pub fn method_reply(m: u8) -> (r: Vec<u8>)
    ensures
        r@ == seq![5u8, m],
{
    let mut out: Vec<u8> = Vec::new();
    out.push(5);
    out.push(m);
    proof {
        assert(out@ =~= seq![5u8, m]);
    }
    out
}

/// A well-formed username/password exchange: subnegotiation version 1, a
/// length-prefixed user, a length-prefixed password, nothing after.
pub open spec fn spec_userpass_wf(b: Seq<u8>) -> bool {
    &&& b.len() >= 2
    &&& b[0] == 1
    &&& b.len() >= 3 + b[1]
    &&& b.len() == 3 + b[1] + b[2 + b[1]]
}

/// Read the username and password of the RFC 1929 exchange.
pub fn parse_userpass(buf: &[u8]) -> (r: Result<(Vec<u8>, Vec<u8>), ShadowError>)
    ensures
        r is Ok <==> spec_userpass_wf(buf@),
        r matches Ok(up) ==> up.0@ == buf@.subrange(2, 2 + buf@[1]) && up.1@ == buf@.subrange(
            3 + buf@[1],
            buf@.len() as int,
        ),
        r matches Err(e) ==> e.spec_kind() == ErrorKind::ParamInvalid,
{
    if buf.len() < 2 || buf[0] != 1 {
        return Err(ShadowError::ParamInvalid(String::from_str("bad auth header")));
    }
    let ulen = buf[1] as usize;
    if buf.len() < 3 + ulen {
        return Err(ShadowError::ParamInvalid(String::from_str("bad auth user length")));
    }
    let plen = buf[2 + ulen] as usize;
    if buf.len() != 3 + ulen + plen {
        return Err(ShadowError::ParamInvalid(String::from_str("bad auth password length")));
    }
    let mut user: Vec<u8> = Vec::new();
    let uend: usize = 2 + ulen;
    let mut i: usize = 2;
    while i < uend
        invariant
            uend == 2 + ulen,
            2 <= i <= uend,
            uend <= buf@.len(),
            user@ == buf@.subrange(2, i as int),
        decreases uend - i,
    {
        user.push(buf[i]);
        proof {
            assert(user@ =~= buf@.subrange(2, i + 1));
        }
        i += 1;
    }
    let mut pass: Vec<u8> = Vec::new();
    let mut j: usize = 3 + ulen;
    while j < buf.len()
        invariant
            3 + ulen <= j <= buf@.len(),
            pass@ == buf@.subrange(3 + ulen, j as int),
        decreases buf@.len() - j,
    {
        pass.push(buf[j]);
        proof {
            assert(pass@ =~= buf@.subrange(3 + ulen, j + 1));
        }
        j += 1;
    }
    Ok((user, pass))
}

/// Whether the presented credentials are the configured ones.
pub fn check_auth(user: &[u8], pass: &[u8], cfg_user: &[u8], cfg_pass: &[u8]) -> (r: bool)
    ensures
        r == (user@ == cfg_user@ && pass@ == cfg_pass@),
{
    let u = crate::text::bytes_eq(user, cfg_user);
    let p = crate::text::bytes_eq(pass, cfg_pass);
    u && p
}

/// The authentication verdict reply: zero for success, one for refusal.
pub fn auth_reply(ok: bool) -> (r: Vec<u8>)
    ensures
        r@ == seq![
            1u8,
            if ok {
                0u8
            } else {
                1u8
            },
        ],
{
    let mut out: Vec<u8> = Vec::new();
    out.push(1);
    out.push(if ok { 0 } else { 1 });
    proof {
        assert(out@ =~= seq![
            1u8,
            if ok {
                0u8
            } else {
                1u8
            },
        ]);
    }
    out
}

/// Where a CONNECT request points: a literal address, or a name to
/// resolve with its port.
pub enum Socks5Target {
    Literal(SocketAddress),
    Domain(Vec<u8>, u16),
}

/// A well-formed request: version 5, a command, a reserved zero, and one
/// of the three address forms filling the rest exactly.
pub open spec fn spec_request_wf(b: Seq<u8>) -> bool {
    &&& b.len() >= 4
    &&& b[0] == 5
    &&& b[2] == 0
    &&& (if b[3] == 1 {
        b.len() == 10
    } else if b[3] == 3 {
        b.len() >= 5 && b.len() == 7 + b[4]
    } else if b[3] == 4 {
        b.len() == 22
    } else {
        false
    })
}

/// The big-endian pair at `i`.
pub open spec fn spec_be16(b: Seq<u8>, i: int) -> u16
    recommends
        0 <= i && i + 1 < b.len(),
{
    (b[i] * 256 + b[i + 1]) as u16
}

/// Read a CONNECT-style request: the command byte and the target it
/// names. The caller refuses every command but CONNECT.
pub fn parse_request(buf: &[u8]) -> (r: Result<(u8, Socks5Target), ShadowError>)
    ensures
        r is Ok <==> spec_request_wf(buf@),
        r matches Ok(p) ==> p.0 == buf@[1],
        r matches Ok(p) ==> (buf@[3] == 1 ==> (p.1 matches Socks5Target::Literal(a) && (
        a.ip matches IpAddress::V4 { a: x0, b: x1, c: x2, d: x3 } && x0 == buf@[4] && x1 == buf@[5]
            && x2 == buf@[6] && x3 == buf@[7]) && a.port == spec_be16(buf@, 8))),
        r matches Ok(p) ==> (buf@[3] == 3 ==> (p.1 matches Socks5Target::Domain(d, port) && d@
            == buf@.subrange(5, 5 + buf@[4]) && port == spec_be16(buf@, buf@.len() - 2))),
        r matches Ok(p) ==> (buf@[3] == 4 ==> (p.1 matches Socks5Target::Literal(a)
            && a.ip is V6 && a.port == spec_be16(buf@, 20))),
        r matches Err(e) ==> e.spec_kind() == ErrorKind::ParamInvalid,
{
    if buf.len() < 4 || buf[0] != 5 || buf[2] != 0 {
        return Err(ShadowError::ParamInvalid(String::from_str("bad request header")));
    }
    let cmd = buf[1];
    let atyp = buf[3];
    if atyp == 1 {
        if buf.len() != 10 {
            return Err(ShadowError::ParamInvalid(String::from_str("bad request length")));
        }
        let port: u16 = (buf[8] as u16) * 256 + (buf[9] as u16);
        let target = SocketAddress {
            ip: IpAddress::V4 { a: buf[4], b: buf[5], c: buf[6], d: buf[7] },
            port,
        };
        Ok((cmd, Socks5Target::Literal(target)))
    } else if atyp == 3 {
        if buf.len() < 5 {
            return Err(ShadowError::ParamInvalid(String::from_str("bad request length")));
        }
        let dlen = buf[4] as usize;
        if buf.len() != 7 + dlen {
            return Err(ShadowError::ParamInvalid(String::from_str("bad request length")));
        }
        let mut name: Vec<u8> = Vec::new();
        let dend: usize = 5 + dlen;
        let mut i: usize = 5;
        while i < dend
            invariant
                dend == 5 + dlen,
                5 <= i <= dend,
                dend <= buf@.len(),
                name@ == buf@.subrange(5, i as int),
            decreases dend - i,
        {
            name.push(buf[i]);
            proof {
                assert(name@ =~= buf@.subrange(5, i + 1));
            }
            i += 1;
        }
        let port: u16 = (buf[5 + dlen] as u16) * 256 + (buf[6 + dlen] as u16);
        Ok((cmd, Socks5Target::Domain(name, port)))
    } else if atyp == 4 {
        if buf.len() != 22 {
            return Err(ShadowError::ParamInvalid(String::from_str("bad request length")));
        }
        let g0: u16 = (buf[4] as u16) * 256 + (buf[5] as u16);
        let g1: u16 = (buf[6] as u16) * 256 + (buf[7] as u16);
        let g2: u16 = (buf[8] as u16) * 256 + (buf[9] as u16);
        let g3: u16 = (buf[10] as u16) * 256 + (buf[11] as u16);
        let g4: u16 = (buf[12] as u16) * 256 + (buf[13] as u16);
        let g5: u16 = (buf[14] as u16) * 256 + (buf[15] as u16);
        let g6: u16 = (buf[16] as u16) * 256 + (buf[17] as u16);
        let g7: u16 = (buf[18] as u16) * 256 + (buf[19] as u16);
        let port: u16 = (buf[20] as u16) * 256 + (buf[21] as u16);
        let target = SocketAddress { ip: IpAddress::V6 { g0, g1, g2, g3, g4, g5, g6, g7 }, port };
        Ok((cmd, Socks5Target::Literal(target)))
    } else {
        Err(ShadowError::ParamInvalid(String::from_str("bad address type")))
    }
}

/// The reply code a command earns: zero (granted) for CONNECT alone,
/// command-not-supported for the rest.
pub fn command_reply_code(cmd: u8) -> (r: u8)
    ensures
        cmd == 1 ==> r == 0,
        cmd != 1 ==> r == 7,
{
    if cmd == 1 {
        0
    } else {
        7
    }
}

/// The ten-byte request reply carrying a reply code and a zero bind
/// address. The success reply goes out before the tunnel starts.
pub fn request_reply(rep: u8) -> (r: Vec<u8>)
    ensures
        r@ == seq![5u8, rep, 0u8, 1u8, 0u8, 0u8, 0u8, 0u8, 0u8, 0u8],
{
    let mut out: Vec<u8> = Vec::new();
    out.push(5);
    out.push(rep);
    out.push(0);
    out.push(1);
    out.push(0);
    out.push(0);
    out.push(0);
    out.push(0);
    out.push(0);
    out.push(0);
    proof {
        assert(out@ =~= seq![5u8, rep, 0u8, 1u8, 0u8, 0u8, 0u8, 0u8, 0u8, 0u8]);
    }
    out
}

} // verus!
