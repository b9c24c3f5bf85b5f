//! The wire encoding of the authorization request and the decoding of its
//! reply, in the protocol-buffers binary format.
//!
//! Request fields: 1 `method`, 2 `path`, 3 `scheme` (strings) and 4 `headers`
//! (a string-to-string map, one entry per occurrence, key 1 and value 2).
//! Reply fields: 1 `allow` (bool), 2 `user`, 3 `message` (strings).

use crate::headers::{pairs_view, HeaderMapping};
use vstd::prelude::*;
use vstd::utf8::*;

verus! {

/// Base-128 varint: seven bits per byte, least significant first, the high
/// bit set on every byte but the last.
pub open spec fn varint(n: nat) -> Seq<u8>
    decreases n,
{
    if n < 128 {
        seq![n as u8]
    } else {
        seq![(n % 128 + 128) as u8] + varint(n / 128)
    }
}

pub open spec fn tag(field: nat, wire_type: nat) -> Seq<u8> {
    varint(field * 8 + wire_type)
}

pub open spec fn length_delimited(field: nat, payload: Seq<u8>) -> Seq<u8> {
    tag(field, 2) + varint(payload.len()) + payload
}

pub open spec fn string_field(field: nat, s: Seq<char>) -> Seq<u8> {
    length_delimited(field, encode_utf8(s))
}

pub open spec fn map_entry(k: Seq<char>, v: Seq<char>) -> Seq<u8> {
    length_delimited(4, string_field(1, k) + string_field(2, v))
}

pub open spec fn entries_bytes(es: Seq<(Seq<char>, Seq<char>)>) -> Seq<u8>
    decreases es.len(),
{
    if es.len() == 0 {
        Seq::empty()
    } else {
        entries_bytes(es.drop_last()) + map_entry(es.last().0, es.last().1)
    }
}

/// The encoding of an authorization request: the three top-level strings,
/// always written (an absent one as empty), then one entry per header.
pub open spec fn request_bytes(
    method: Seq<char>,
    path: Seq<char>,
    scheme: Seq<char>,
    headers: Seq<(Seq<char>, Seq<char>)>,
) -> Seq<u8> {
    string_field(1, method) + string_field(2, path) + string_field(3, scheme) + entries_bytes(
        headers,
    )
}

/// Appends the varint of `n`.
pub fn write_varint(out: &mut Vec<u8>, n: u64)
    ensures
        final(out)@ == old(out)@ + varint(n as nat),
{
    let mut v: u64 = n;
    while v >= 128
        invariant
            out@ + varint(v as nat) == old(out)@ + varint(n as nat),
        decreases v,
    {
        let ghost before = out@;
        out.push((v % 128 + 128) as u8);
        assert(varint(v as nat) == seq![(v % 128 + 128) as u8] + varint((v / 128) as nat));
        assert(out@ + varint((v / 128) as nat) =~= before + varint(v as nat));
        v = v / 128;
    }
    out.push(v as u8);
    assert(varint(v as nat) == seq![v as u8]);
}

/// Appends `s` as a length-delimited field.
fn write_string_field(out: &mut Vec<u8>, field: u64, s: &str)
    requires
        1 <= field < 0x2000_0000,
    ensures
        final(out)@ == old(out)@ + string_field(field as nat, s@),
{
    let bytes = s.as_bytes();
    write_varint(out, field * 8 + 2);
    write_varint(out, bytes.len() as u64);
    let mut i: usize = 0;
    let ghost mid = out@;
    while i < bytes.len()
        invariant
            i <= bytes@.len(),
            bytes@ == encode_utf8(s@),
            out@ == mid + bytes@.subrange(0, i as int),
        decreases bytes@.len() - i,
    {
        out.push(bytes[i]);
        assert(bytes@.subrange(0, i + 1) =~= bytes@.subrange(0, i as int).push(bytes@[i as int]));
        i = i + 1;
    }
    assert(bytes@.subrange(0, bytes@.len() as int) =~= bytes@);
    assert(out@ =~= old(out)@ + string_field(field as nat, s@));
}

/// The encoding of one header entry.
fn map_entry_bytes(k: &str, v: &str) -> (r: Vec<u8>)
    ensures
        r@ == map_entry(k@, v@),
{
    let mut inner: Vec<u8> = Vec::new();
    write_string_field(&mut inner, 1, k);
    write_string_field(&mut inner, 2, v);
    let mut out: Vec<u8> = Vec::new();
    write_varint(&mut out, 4 * 8 + 2);
    write_varint(&mut out, inner.len() as u64);
    let ghost mid = out@;
    let mut i: usize = 0;
    while i < inner.len()
        invariant
            i <= inner@.len(),
            out@ == mid + inner@.subrange(0, i as int),
        decreases inner@.len() - i,
    {
        out.push(inner[i]);
        assert(inner@.subrange(0, i + 1) =~= inner@.subrange(0, i as int).push(inner@[i as int]));
        i = i + 1;
    }
    assert(inner@.subrange(0, inner@.len() as int) =~= inner@);
    assert(out@ =~= map_entry(k@, v@));
    out
}

/// Serializes an authorization request.
pub fn encode_request(method: &str, path: &str, scheme: &str, headers: &HeaderMapping) -> (r: Vec<
    u8,
>)
    ensures
        r@ == request_bytes(method@, path@, scheme@, headers.entries_view()),
{
    let mut out: Vec<u8> = Vec::new();
    write_string_field(&mut out, 1, method);
    write_string_field(&mut out, 2, path);
    write_string_field(&mut out, 3, scheme);
    let ghost top = out@;
    let es = headers.entries();
    let ghost ev = pairs_view(es@);
    let mut i: usize = 0;
    while i < es.len()
        invariant
            i <= es@.len(),
            ev == pairs_view(es@),
            out@ == top + entries_bytes(ev.subrange(0, i as int)),
        decreases es@.len() - i,
    {
        let entry = map_entry_bytes(es[i].0.as_str(), es[i].1.as_str());
        let ghost before = out@;
        let mut j: usize = 0;
        while j < entry.len()
            invariant
                j <= entry@.len(),
                out@ == before + entry@.subrange(0, j as int),
            decreases entry@.len() - j,
        {
            out.push(entry[j]);
            assert(entry@.subrange(0, j + 1) =~= entry@.subrange(0, j as int).push(
                entry@[j as int],
            ));
            j = j + 1;
        }
        assert(entry@.subrange(0, entry@.len() as int) =~= entry@);
        assert(ev.subrange(0, i + 1).drop_last() =~= ev.subrange(0, i as int));
        assert(out@ =~= top + entries_bytes(ev.subrange(0, i + 1)));
        i = i + 1;
    }
    assert(ev.subrange(0, es@.len() as int) =~= ev);
    out
}

/// The varint that starts at `pos`, read over at most `budget` bytes: its
/// value and the position just past it.
pub open spec fn varint_from(b: Seq<u8>, pos: int, budget: nat) -> Option<(nat, int)>
    decreases budget,
{
    if budget == 0 || pos < 0 || pos >= b.len() {
        None
    } else if b[pos] < 128 {
        Some((b[pos] as nat, pos + 1))
    } else {
        match varint_from(b, pos + 1, (budget - 1) as nat) {
            Some((v, q)) => Some((((b[pos] - 128) + 128 * v) as nat, q)),
            None => None,
        }
    }
}

/// A varint of at most ten bytes whose value fits in 64 bits.
pub open spec fn read_varint(b: Seq<u8>, pos: int) -> Option<(nat, int)> {
    match varint_from(b, pos, 10) {
        Some((v, q)) => if v <= u64::MAX {
            Some((v, q))
        } else {
            None
        },
        None => None,
    }
}

/// The decoded reply, as `(allow, user, message)`.
pub type ReplyFields = (bool, Seq<char>, Seq<char>);

/// Decodes the reply's fields from `pos` on, given what was decoded before.
/// A later occurrence of a field replaces an earlier one; fields of other
/// numbers are skipped; a known field with another wire type, a string that
/// is not UTF-8, a field number of zero or a truncated field is an error.
pub open spec fn parse_reply_from(b: Seq<u8>, pos: int, acc: ReplyFields) -> Option<ReplyFields>
    decreases b.len() - pos,
{
    if pos < 0 || pos > b.len() {
        None
    } else if pos == b.len() {
        Some(acc)
    } else {
        match read_varint(b, pos) {
            None => None,
            Some((key, p1)) => {
                let field = key / 8;
                let wt = key % 8;
                if p1 <= pos || p1 > b.len() || key > u32::MAX || field == 0 {
                    None
                } else if wt == 0 {
                    match read_varint(b, p1) {
                        None => None,
                        Some((v, p2)) => if p2 <= pos || p2 > b.len() || field == 2 || field
                            == 3 {
                            None
                        } else if field == 1 {
                            parse_reply_from(b, p2, (v != 0, acc.1, acc.2))
                        } else {
                            parse_reply_from(b, p2, acc)
                        },
                    }
                } else if wt == 2 {
                    match read_varint(b, p1) {
                        None => None,
                        Some((n, p2)) => if p2 <= pos || p2 > b.len() || n > b.len() - p2
                            || field == 1 {
                            None
                        } else {
                            let payload = b.subrange(p2, p2 + n);
                            if field == 2 || field == 3 {
                                if !valid_utf8(payload) {
                                    None
                                } else if field == 2 {
                                    parse_reply_from(
                                        b,
                                        p2 + n,
                                        (acc.0, decode_utf8(payload), acc.2),
                                    )
                                } else {
                                    parse_reply_from(
                                        b,
                                        p2 + n,
                                        (acc.0, acc.1, decode_utf8(payload)),
                                    )
                                }
                            } else {
                                parse_reply_from(b, p2 + n, acc)
                            }
                        },
                    }
                } else if (wt == 1 || wt == 5) && field > 3 {
                    let w: int = if wt == 1 {
                        8
                    } else {
                        4
                    };
                    if w > b.len() - p1 {
                        None
                    } else {
                        parse_reply_from(b, p1 + w, acc)
                    }
                } else {
                    None
                }
            },
        }
    }
}

/// The reply that `b` encodes, if `b` is a well-formed reply; an absent field
/// keeps its default (`false`, empty).
pub open spec fn parse_reply(b: Seq<u8>) -> Option<ReplyFields> {
    parse_reply_from(b, 0, (false, Seq::empty(), Seq::empty()))
}

/// `128` to the power `n`.
pub open spec fn pow128(n: nat) -> nat
    decreases n,
{
    if n == 0 {
        1
    } else {
        128 * pow128((n - 1) as nat)
    }
}

proof fn lemma_pow128_bound(n: nat)
    requires
        n <= 9,
    ensures
        1 <= pow128(n) <= 0x8000_0000_0000_0000,
{
    reveal_with_fuel(pow128, 10);
    assert(n == 0 || n == 1 || n == 2 || n == 3 || n == 4 || n == 5 || n == 6 || n == 7 || n == 8
        || n == 9);
}

/// Reads the varint at `pos`.
pub fn read_varint_at(b: &Vec<u8>, pos: usize) -> (r: Option<(u64, usize)>)
    ensures
        match r {
            Some((v, q)) => read_varint(b@, pos as int) == Some((v as nat, q as int)),
            None => read_varint(b@, pos as int) is None,
        },
{
    let mut acc: u128 = 0;
    let mut pow: u128 = 1;
    let mut p: usize = pos;
    let mut i: usize = 0;
    loop
        invariant
            i <= 10,
            p == pos + i,
            pow == pow128(i as nat),
            pow <= 128 * 0x8000_0000_0000_0000,
            acc < pow,
            varint_from(b@, pos as int, 10) == match varint_from(b@, p as int, (10 - i) as nat) {
                Some((v, q)) => Some(((acc + pow * v) as nat, q)),
                None => None,
            },
        decreases 10 - i,
    {
        if i == 10 || p >= b.len() {
            return None;
        }
        let byte = b[p];
        proof {
            lemma_pow128_bound(i as nat);
            assert(pow * byte <= pow * 255) by (nonlinear_arith)
                requires
                    byte <= 255,
                    pow >= 1,
            ;
        }
        if byte < 128 {
            let value: u128 = acc + pow * (byte as u128);
            if value > u64::MAX as u128 {
                return None;
            }
            return Some((value as u64, p + 1));
        }
        let d: u128 = (byte - 128) as u128;
        proof {
            let next = varint_from(b@, p + 1, (10 - i - 1) as nat);
            match next {
                Some((v, q)) => {
                    assert(acc + pow * ((byte - 128) + 128 * v) == (acc + pow * d) + (pow * 128)
                        * v) by (nonlinear_arith)
                        requires
                            d == byte - 128,
                    ;
                },
                None => {},
            }
            assert(acc + pow * d < pow * 128) by (nonlinear_arith)
                requires
                    acc < pow,
                    d < 128,
            ;
            assert(pow * d <= pow * 127) by (nonlinear_arith)
                requires
                    d < 128,
                    pow >= 1,
            ;
        }
        acc = acc + pow * d;
        pow = pow * 128;
        p = p + 1;
        i = i + 1;
    }
}

/// Relies on `String::from_utf8`: it succeeds exactly on valid UTF-8 and
/// then holds the characters that the bytes encode.
#[verifier::external_body]
fn string_from_utf8(bytes: Vec<u8>) -> (r: Option<String>)
    ensures
        match r {
            Some(s) => valid_utf8(bytes@) && s@ == decode_utf8(bytes@),
            None => !valid_utf8(bytes@),
        },
{
    String::from_utf8(bytes).ok()
}

/// A copy of `b[from..to]`.
fn copy_range(b: &Vec<u8>, from: usize, to: usize) -> (r: Vec<u8>)
    requires
        from <= to <= b@.len(),
    ensures
        r@ == b@.subrange(from as int, to as int),
{
    let mut r: Vec<u8> = Vec::new();
    let mut i: usize = from;
    while i < to
        invariant
            from <= i <= to,
            to <= b@.len(),
            r@ == b@.subrange(from as int, i as int),
        decreases to - i,
    {
        r.push(b[i]);
        assert(b@.subrange(from as int, i + 1) =~= b@.subrange(from as int, i as int).push(
            b@[i as int],
        ));
        i = i + 1;
    }
    r
}

/// The reply of the authorization service.
pub struct AuthorizationReply {
    pub allow: bool,
    pub user: String,
    pub message: String,
}

impl AuthorizationReply {
    pub open spec fn fields(&self) -> ReplyFields {
        (self.allow, self.user@, self.message@)
    }
}

/// The reply bytes are not a well-formed reply.
#[derive(Debug, PartialEq, Eq, Structural, Clone, Copy)]
pub enum DecodeError {
    Malformed,
}

/// Deserializes a reply.
pub fn decode_reply(b: &Vec<u8>) -> (r: Result<AuthorizationReply, DecodeError>)
    ensures
        match r {
            Ok(rep) => parse_reply(b@) == Some(rep.fields()),
            Err(_) => parse_reply(b@) is None,
        },
{
    let mut allow = false;
    let mut user = String::new();
    let mut message = String::new();
    let mut pos: usize = 0;
    assert(user@ =~= Seq::<char>::empty() && message@ =~= Seq::<char>::empty());
    while pos < b.len()
        invariant
            pos <= b@.len(),
            parse_reply(b@) == parse_reply_from(b@, pos as int, (allow, user@, message@)),
        decreases b@.len() - pos,
    {
        let ghost acc: ReplyFields = (allow, user@, message@);
        let (key, p1) = match read_varint_at(b, pos) {
            Some(kp) => kp,
            None => return Err(DecodeError::Malformed),
        };
        let field = key / 8;
        let wt = key % 8;
        if p1 <= pos || p1 > b.len() || key > u32::MAX as u64 || field == 0 {
            return Err(DecodeError::Malformed);
        }
        if wt == 0 {
            let (v, p2) = match read_varint_at(b, p1) {
                Some(vp) => vp,
                None => return Err(DecodeError::Malformed),
            };
            if p2 <= pos || p2 > b.len() || field == 2 || field == 3 {
                return Err(DecodeError::Malformed);
            }
            if field == 1 {
                allow = v != 0;
            }
            pos = p2;
        } else if wt == 2 {
            let (n, p2) = match read_varint_at(b, p1) {
                Some(vp) => vp,
                None => return Err(DecodeError::Malformed),
            };
            if p2 <= pos || p2 > b.len() || n > (b.len() - p2) as u64 || field == 1 {
                return Err(DecodeError::Malformed);
            }
            let end = p2 + n as usize;
            if field == 2 || field == 3 {
                let payload = copy_range(b, p2, end);
                match string_from_utf8(payload) {
                    Some(s) => {
                        if field == 2 {
                            user = s;
                        } else {
                            message = s;
                        }
                    },
                    None => return Err(DecodeError::Malformed),
                }
            }
            pos = end;
        } else if (wt == 1 || wt == 5) && field > 3 {
            let w: usize = if wt == 1 {
                8
            } else {
                4
            };
            if w > b.len() - p1 {
                return Err(DecodeError::Malformed);
            }
            pos = p1 + w;
        } else {
            return Err(DecodeError::Malformed);
        }
    }
    Ok(AuthorizationReply { allow, user, message })
}

} // verus!
