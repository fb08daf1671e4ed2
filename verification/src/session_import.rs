//! Sessions written by GramJS: a version, then Base64 of the data centre, its address and port, and the
//! key.

use crate::base64_text;
use crate::failure;
use crate::failure::Failure;
use crate::text;
use vstd::prelude::*;
use vstd::slice::slice_subrange;
use vstd::utf8::decode_utf8;
use vstd::utf8::valid_utf8;

verus! {

/// The address of a server as a session gives it.
#[derive(Debug, PartialEq, Eq)]
pub enum ServerAddress<S> {
    /// The four bytes of an address, the first one highest.
    V4(u32),
    /// An address in words.
    Text(S),
}

/// The address of a server: its bytes as one number, the first one highest.
#[derive(Clone, Copy, Debug, PartialEq, Eq, Structural)]
pub enum IpAddress {
    V4(u32),
    V6(u128),
}

/// What a session holds.
#[derive(Debug)]
pub struct SessionFrame {
    pub dc_id: i32,
    pub address: ServerAddress<String>,
    pub port: u16,
    pub auth_key: Vec<u8>,
}

#[verifier::ext_equal]
pub struct FrameModel {
    pub dc_id: i32,
    pub address: ServerAddress<Seq<char>>,
    pub port: u16,
    pub auth_key: Seq<u8>,
}

/// A session that can be taken over.
#[derive(Debug)]
pub struct GramJsSession {
    pub dc_id: i32,
    pub address: IpAddress,
    pub port: u16,
    pub auth_key: Vec<u8>,
}

impl View for ServerAddress<String> {
    type V = ServerAddress<Seq<char>>;

    open spec fn view(&self) -> ServerAddress<Seq<char>> {
        match *self {
            ServerAddress::V4(a) => ServerAddress::V4(a),
            ServerAddress::Text(s) => ServerAddress::Text(s@),
        }
    }
}

impl View for SessionFrame {
    type V = FrameModel;

    open spec fn view(&self) -> FrameModel {
        FrameModel {
            dc_id: self.dc_id,
            address: self.address@,
            port: self.port,
            auth_key: self.auth_key@,
        }
    }
}

pub open spec fn frame_outcome(r: Result<SessionFrame, Failure>) -> Result<FrameModel, Seq<char>> {
    match r {
        Ok(frame) => Ok(frame@),
        Err(e) => Err(e@),
    }
}

/// How long the key is.
pub const KEY_BYTES: usize = 256;

/// The shortest session.
pub const LEAST_BYTES: usize = 263;

/// Two bytes as a number, the first one highest.
pub open spec fn two_bytes(b: Seq<u8>, at: int) -> u16 {
    (b[at] * 256 + b[at + 1]) as u16
}

/// Four bytes as a number, the first one highest.
pub open spec fn four_bytes(b: Seq<u8>, at: int) -> u32 {
    (b[at] * 16_777_216 + b[at + 1] * 65_536 + b[at + 2] * 256 + b[at + 3]) as u32
}

/// What `std::str::from_utf8` says of bytes that are not UTF-8.
pub uninterp spec fn utf8_problem(bytes: Seq<u8>) -> Seq<char>;

/// Reads a text with `std::str::from_utf8`: there is one exactly if the bytes are UTF-8, and it holds
/// the characters that they encode; the message of the error depends on the bytes alone.
#[verifier::external_body]
fn utf8_text(bytes: &[u8]) -> (r: Result<String, String>)
    ensures
        r is Ok <==> valid_utf8(bytes@),
        r is Ok ==> r->Ok_0@ == decode_utf8(bytes@),
        r is Err ==> r->Err_0@ == utf8_problem(bytes@),
{
    std::str::from_utf8(bytes).map(str::to_owned).map_err(|e| e.to_string())
}

/// What stands in the bytes of a session. In a compact one the address is four bytes.
pub open spec fn frame_of(b: Seq<u8>, compact: bool) -> Result<FrameModel, Seq<char>> {
    if b.len() < LEAST_BYTES {
        Err("GramJS StringSession is too short"@)
    } else if compact {
        if b.len() - 7 != KEY_BYTES {
            Err("GramJS authorization key must be 256 bytes"@)
        } else {
            Ok(
                FrameModel {
                    dc_id: b[0] as i32,
                    address: ServerAddress::V4(four_bytes(b, 1)),
                    port: two_bytes(b, 5),
                    auth_key: b.skip(7),
                },
            )
        }
    } else {
        let n = two_bytes(b, 1) as int;
        let address = b.subrange(3, 3 + n);
        if n == 0 || n > 64 || 3 + n + 2 + KEY_BYTES != b.len() {
            Err("invalid GramJS server address length"@)
        } else if !valid_utf8(address) {
            Err(failure::because("GramJS server address is not UTF-8"@, utf8_problem(address)))
        } else {
            Ok(
                FrameModel {
                    dc_id: b[0] as i32,
                    address: ServerAddress::Text(decode_utf8(address)),
                    port: two_bytes(b, 3 + n),
                    auth_key: b.skip(5 + n),
                },
            )
        }
    }
}

/// What stands in a session.
pub open spec fn framed(value: Seq<char>) -> Result<FrameModel, Seq<char>> {
    if value.len() == 0 || value[0] != '1' {
        Err("unsupported GramJS StringSession version"@)
    } else {
        let encoded = value.skip(1);
        match base64_text::decoded(encoded) {
            Ok(bytes) => frame_of(bytes, text::utf8_len(encoded) == 352),
            Err(e) => Err(failure::because("invalid GramJS StringSession base64"@, e)),
        }
    }
}

/// A session out of what stands in one, given what parsing its address in words brought.
pub open spec fn accepted(frame: FrameModel, ip: Result<IpAddress, Seq<char>>) -> Result<
    IpAddress,
    Seq<char>,
> {
    let address = match frame.address {
        ServerAddress::V4(a) => Ok(IpAddress::V4(a)),
        ServerAddress::Text(_) => match ip {
            Ok(a) => Ok(a),
            Err(e) => Err(
                failure::because("GramJS server address is not an IP address"@, e),
            ),
        },
    };
    match address {
        Ok(a) => if frame.dc_id == 0 || frame.port == 0 {
            Err("GramJS session contains an invalid DC or port"@)
        } else {
            Ok(a)
        },
        Err(e) => Err(e),
    }
}

/// The bytes of a session with an address in words.
pub open spec fn packed(dc: u8, address: Seq<u8>, port: u16, key: Seq<u8>) -> Seq<u8> {
    seq![dc, (address.len() / 256) as u8, (address.len() % 256) as u8] + address + seq![
        (port / 256) as u8,
        (port % 256) as u8,
    ] + key
}

/// The bytes of a session with an address of four bytes.
pub open spec fn packed_compact(dc: u8, address: Seq<u8>, port: u16, key: Seq<u8>) -> Seq<u8> {
    seq![dc] + address + seq![(port / 256) as u8, (port % 256) as u8] + key
}

/// What a session was made of is read back from it.
pub proof fn law_packed_session(dc: u8, address: Seq<u8>, port: u16, key: Seq<u8>)
    requires
        key.len() == KEY_BYTES,
    ensures
        2 <= address.len() <= 64 && valid_utf8(address) ==> frame_of(
            packed(dc, address, port, key),
            false,
        ) == Ok::<FrameModel, Seq<char>>(
            FrameModel {
                dc_id: dc as i32,
                address: ServerAddress::Text(decode_utf8(address)),
                port,
                auth_key: key,
            },
        ),
        address.len() == 4 ==> frame_of(packed_compact(dc, address, port, key), true) == Ok::<
            FrameModel,
            Seq<char>,
        >(
            FrameModel {
                dc_id: dc as i32,
                address: ServerAddress::V4(four_bytes(address, 0)),
                port,
                auth_key: key,
            },
        ),
{
    if 2 <= address.len() <= 64 {
        let b = packed(dc, address, port, key);
        let n = address.len() as int;
        assert(b[1] == (address.len() / 256) as u8);
        assert(b[2] == (address.len() % 256) as u8);
        assert(b.subrange(3, 3 + n) =~= address);
        assert(b[3 + n] == (port / 256) as u8);
        assert(b[3 + n + 1] == (port % 256) as u8);
        assert(b.skip(5 + n) =~= key);
    }
    if address.len() == 4 {
        let b = packed_compact(dc, address, port, key);
        assert(b[1] == address[0] && b[2] == address[1] && b[3] == address[2] && b[4]
            == address[3]);
        assert(b[5] == (port / 256) as u8);
        assert(b[6] == (port % 256) as u8);
        assert(b.skip(7) =~= key);
    }
}

fn bytes_of(b: &[u8], from: usize, to: usize) -> (r: Vec<u8>)
    requires
        from <= to <= b@.len(),
    ensures
        r@ == b@.subrange(from as int, to as int),
{
    let mut out: Vec<u8> = Vec::new();
    let mut i: usize = from;
    while i < to
        invariant
            from <= i <= to <= b@.len(),
            out@ =~= b@.subrange(from as int, i as int),
        decreases to - i,
    {
        out.push(b[i]);
        i = i + 1;
    }
    out
}

fn short_number(b: &[u8], at: usize) -> (r: u16)
    requires
        at + 1 < b@.len(),
    ensures
        r == two_bytes(b@, at as int),
{
    b[at] as u16 * 256 + b[at + 1] as u16
}

/// What stands in the bytes of a session, as `frame_of` says.
pub fn frame_bytes(bytes: &[u8], compact: bool) -> (r: Result<SessionFrame, Failure>)
    ensures
        frame_outcome(r) == frame_of(bytes@, compact),
{
    let n: usize = bytes.len();
    if n < LEAST_BYTES {
        return Err(Failure::new("GramJS StringSession is too short"));
    }
    let dc_id: i32 = bytes[0] as i32;
    if compact {
        let a: u32 = bytes[1] as u32 * 16_777_216 + bytes[2] as u32 * 65_536 + bytes[3] as u32
            * 256 + bytes[4] as u32;
        let port: u16 = short_number(bytes, 5);
        if n - 7 != KEY_BYTES {
            return Err(Failure::new("GramJS authorization key must be 256 bytes"));
        }
        proof {
            assert(bytes@.subrange(7, n as int) =~= bytes@.skip(7));
        }
        let auth_key = bytes_of(bytes, 7, n);
        return Ok(SessionFrame { dc_id, address: ServerAddress::V4(a), port, auth_key });
    }
    let len: usize = short_number(bytes, 1) as usize;
    if len == 0 || len > 64 || 3 + len + 2 + KEY_BYTES != n {
        return Err(Failure::new("invalid GramJS server address length"));
    }
    match utf8_text(slice_subrange(bytes, 3, 3 + len)) {
        Ok(address) => {
            let port: u16 = short_number(bytes, 3 + len);
            proof {
                assert(bytes@.subrange(5 + len as int, n as int) =~= bytes@.skip(5 + len as int));
            }
            let auth_key = bytes_of(bytes, 5 + len, n);
            Ok(SessionFrame { dc_id, address: ServerAddress::Text(address), port, auth_key })
        },
        Err(e) => Err(Failure::caused("GramJS server address is not UTF-8", e.as_str())),
    }
}

/// What stands in a session, as `framed` says.
pub fn frame_session(value: &str) -> (r: Result<SessionFrame, Failure>)
    ensures
        frame_outcome(r) == framed(value@),
{
    let v = text::chars(value);
    if v.len() == 0 || v[0] != '1' {
        return Err(Failure::new("unsupported GramJS StringSession version"));
    }
    let encoded = text::slice(&v, 1, v.len());
    proof {
        assert(v@.subrange(1, v@.len() as int) =~= v@.skip(1));
    }
    match base64_text::decode(encoded.as_str()) {
        Ok(bytes) => frame_bytes(bytes.as_slice(), text::byte_len(encoded.as_str()) == 352),
        Err(e) => Err(Failure::caused("invalid GramJS StringSession base64", e.as_str())),
    }
}

/// The session out of what stands in one. `ip` is what parsing its address brought, where that is in
/// words.
pub fn accept_session(frame: SessionFrame, ip: Result<IpAddress, String>) -> (r: Result<
    GramJsSession,
    Failure,
>)
    ensures
        match (
            r,
            accepted(
                frame@,
                match ip {
                    Ok(a) => Ok(a),
                    Err(e) => Err(e@),
                },
            ),
        ) {
            (Ok(s), Ok(address)) => s.dc_id == frame.dc_id && s.address == address && s.port
                == frame.port && s.auth_key@ == frame.auth_key@,
            (Err(a), Err(b)) => a@ == b,
            _ => false,
        },
{
    let address: IpAddress = match frame.address {
        ServerAddress::V4(a) => IpAddress::V4(a),
        ServerAddress::Text(_) => match ip {
            Ok(a) => a,
            Err(e) => {
                return Err(
                    Failure::caused("GramJS server address is not an IP address", e.as_str()),
                );
            },
        },
    };
    if frame.dc_id == 0 || frame.port == 0 {
        return Err(Failure::new("GramJS session contains an invalid DC or port"));
    }
    Ok(
        GramJsSession {
            dc_id: frame.dc_id,
            address,
            port: frame.port,
            auth_key: frame.auth_key,
        },
    )
}

/// The bytes of an address and of a port stand with the highest first.
pub proof fn law_byte_order(a: u8, b: u8, c: u8, d: u8)
    ensures
        two_bytes(seq![a, b], 0) == a * 256 + b,
        four_bytes(seq![a, b, c, d], 0) == a * 16_777_216 + b * 65_536 + c * 256 + d,
{
}

/// A session is accepted with its own data centre, port and address, unless one of them is none.
pub proof fn law_accepted_session(frame: FrameModel, ip: IpAddress, a: u32)
    ensures
        frame.dc_id != 0 && frame.port != 0 ==> accepted(frame, Ok(ip)) is Ok,
        frame.dc_id == 0 || frame.port == 0 ==> accepted(frame, Ok(ip)) is Err,
        frame.dc_id != 0 && frame.port != 0 && frame.address == ServerAddress::<Seq<char>>::V4(a)
            ==> accepted(frame, Ok(ip)) == Ok::<IpAddress, Seq<char>>(IpAddress::V4(a)),
        frame.dc_id != 0 && frame.port != 0 && frame.address is Text ==> accepted(frame, Ok(ip))
            == Ok::<IpAddress, Seq<char>>(ip),
{
}

/// Only sessions of the first version are read, and none that is too short.
pub proof fn law_refused_session(value: Seq<char>, bytes: Seq<u8>, compact: bool)
    ensures
        value.len() == 0 || value[0] != '1' ==> framed(value) is Err,
        bytes.len() < 263 ==> frame_of(bytes, compact) is Err,
        bytes.len() != 263 ==> frame_of(bytes, true) is Err,
{
}

/// A key has 256 bytes. The shortest session holds a number of one byte, an address of four, a port of two
/// and a key.
pub proof fn law_limits()
    ensures
        KEY_BYTES == 256,
        LEAST_BYTES == 1 + 4 + 2 + 256,
{
}

/// A session whose text has 352 bytes behind the version holds an address of four bytes; every other one holds
/// an address in words, of 1 to 64 bytes, and nothing but it, the port and the key.
pub proof fn law_session_forms(encoded: Seq<char>, bytes: Seq<u8>, b: Seq<u8>)
    requires
        base64_text::decoded(encoded) == Ok::<Seq<u8>, Seq<char>>(bytes),
        b.len() >= 263,
    ensures
        text::utf8_len(encoded) == 352 ==> framed(seq!['1'] + encoded) == frame_of(bytes, true),
        text::utf8_len(encoded) != 352 ==> framed(seq!['1'] + encoded) == frame_of(bytes, false),
        ({
            let n = b[1] * 256 + b[2];
            &&& 1 <= n <= 64 && b.len() == 3 + n + 2 + 256 && valid_utf8(b.subrange(3, 3 + n))
                ==> frame_of(b, false) == Ok::<FrameModel, Seq<char>>(
                FrameModel {
                    dc_id: b[0] as i32,
                    address: ServerAddress::Text(decode_utf8(b.subrange(3, 3 + n))),
                    port: two_bytes(b, 3 + n),
                    auth_key: b.subrange(5 + n, b.len() as int),
                },
            )
            &&& n == 0 || n > 64 || b.len() != 3 + n + 2 + 256 ==> frame_of(b, false) is Err
            &&& !valid_utf8(b.subrange(3, 3 + n)) ==> frame_of(b, false) is Err
        }),
{
    assert((seq!['1'] + encoded).skip(1) =~= encoded);
    let n = b[1] * 256 + b[2];
    assert(two_bytes(b, 1) == n);
    if 5 + n <= b.len() {
        assert(b.skip(5 + n) =~= b.subrange(5 + n, b.len() as int));
    }
}

} // verus!
