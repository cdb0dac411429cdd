//! The replication wire format: a `Query` is serialized to bytes before it
//! is appended to the log table, and the slave deserializes those bytes to
//! re-execute the write.  Every field is length-prefixed, so decoding
//! reproduces the original envelope exactly (see
//! [`lemma_query_round_trip`]).

use crate::envelope::{pairs_view, parts_view, Part, PartView, Query, QueryView};
use vstd::prelude::*;
use vstd::bytes::{
    lemma_auto_spec_u64_to_from_le_bytes, spec_u64_from_le_bytes, spec_u64_to_le_bytes,
    u64_from_le_bytes, u64_to_le_bytes,
};
use vstd::slice::{slice_subrange, slice_to_vec};
use vstd::utf8::{decode_utf8, encode_utf8, encode_utf8_decode_utf8, encode_utf8_valid_utf8, valid_utf8};

verus! {

/// A `u64` on the wire: eight bytes, little endian.
pub open spec fn enc_u64(x: u64) -> Seq<u8> {
    spec_u64_to_le_bytes(x)
}

/// Read one `u64` off the front; the remainder follows.
pub open spec fn dec_u64(b: Seq<u8>) -> Option<(u64, Seq<u8>)> {
    if b.len() >= 8 {
        Some((spec_u64_from_le_bytes(b.take(8)), b.skip(8)))
    } else {
        None
    }
}

proof fn lemma_dec_u64_enc(x: u64, rest: Seq<u8>)
    ensures
        dec_u64(enc_u64(x) + rest) == Some((x, rest)),
{
    lemma_auto_spec_u64_to_from_le_bytes();
    assert((enc_u64(x) + rest).take(8) =~= enc_u64(x));
    assert((enc_u64(x) + rest).skip(8) =~= rest);
}

/// A byte string on the wire: its length, then its bytes.
pub open spec fn enc_bytes(b: Seq<u8>) -> Seq<u8> {
    enc_u64(b.len() as u64) + b
}

/// Read one byte string off the front; the remainder follows.
pub open spec fn dec_bytes(s: Seq<u8>) -> Option<(Seq<u8>, Seq<u8>)> {
    match dec_u64(s) {
        None => None,
        Some((n, r)) => if n <= r.len() {
            Some((r.take(n as int), r.skip(n as int)))
        } else {
            None
        },
    }
}

proof fn lemma_dec_bytes_enc(b: Seq<u8>, rest: Seq<u8>)
    requires
        b.len() <= u64::MAX,
    ensures
        dec_bytes(enc_bytes(b) + rest) == Some((b, rest)),
{
    assert(enc_bytes(b) + rest =~= enc_u64(b.len() as u64) + (b + rest));
    lemma_dec_u64_enc(b.len() as u64, b + rest);
    assert((b + rest).take(b.len() as int) =~= b);
    assert((b + rest).skip(b.len() as int) =~= rest);
}

/// A character string on the wire: its UTF-8 bytes, length-prefixed.
pub open spec fn enc_str(s: Seq<char>) -> Seq<u8> {
    enc_bytes(encode_utf8(s))
}

/// Read one character string off the front; the remainder follows.
pub open spec fn dec_str(b: Seq<u8>) -> Option<(Seq<char>, Seq<u8>)> {
    match dec_bytes(b) {
        None => None,
        Some((x, r)) => if valid_utf8(x) {
            Some((decode_utf8(x), r))
        } else {
            None
        },
    }
}

proof fn lemma_dec_str_enc(s: Seq<char>, rest: Seq<u8>)
    requires
        encode_utf8(s).len() <= u64::MAX,
    ensures
        dec_str(enc_str(s) + rest) == Some((s, rest)),
{
    lemma_dec_bytes_enc(encode_utf8(s), rest);
    encode_utf8_valid_utf8(s);
    encode_utf8_decode_utf8(s);
}

/// An `i64` on the wire: a sign tag, then the magnitude (offset by one for
/// negative values, so every `i64` fits).
pub open spec fn enc_i64(x: i64) -> Seq<u8> {
    if x >= 0 {
        seq![1u8] + enc_u64(x as u64)
    } else {
        seq![0u8] + enc_u64((-1 - x) as u64)
    }
}

/// Read one `i64` off the front; the remainder follows.
pub open spec fn dec_i64(b: Seq<u8>) -> Option<(i64, Seq<u8>)> {
    if b.len() < 1 {
        None
    } else {
        match dec_u64(b.skip(1)) {
            None => None,
            Some((m, r)) => if m <= i64::MAX as u64 {
                if b[0] == 1 {
                    Some((m as i64, r))
                } else if b[0] == 0 {
                    Some(((-1 - m as i64) as i64, r))
                } else {
                    None
                }
            } else {
                None
            },
        }
    }
}

proof fn lemma_dec_i64_enc(x: i64, rest: Seq<u8>)
    ensures
        dec_i64(enc_i64(x) + rest) == Some((x, rest)),
{
    let b = enc_i64(x) + rest;
    if x >= 0 {
        assert(b.skip(1) =~= enc_u64(x as u64) + rest);
        lemma_dec_u64_enc(x as u64, rest);
    } else {
        assert(b.skip(1) =~= enc_u64((-1 - x) as u64) + rest);
        lemma_dec_u64_enc((-1 - x) as u64, rest);
    }
}

/// Relies on String::from_utf8: the string whose UTF-8 encoding is the
/// given bytes, or nothing when they are not valid UTF-8.
#[verifier::external_body]
fn string_from_utf8(v: Vec<u8>) -> (r: Option<String>)
    ensures
        r is Some <==> valid_utf8(v@),
        r matches Some(s) ==> encode_utf8(s@) == v@,
{
    String::from_utf8(v).ok()
}

fn write_u64(out: &mut Vec<u8>, x: u64)
    ensures
        final(out)@ == old(out)@ + enc_u64(x),
{
    let mut b = u64_to_le_bytes(x);
    out.append(&mut b);
}

fn write_bytes(out: &mut Vec<u8>, b: &[u8])
    ensures
        final(out)@ == old(out)@ + enc_bytes(b@),
{
    let ghost out0 = out@;
    write_u64(out, b.len() as u64);
    let mut bv = slice_to_vec(b);
    out.append(&mut bv);
    proof {
        assert(out@ =~= out0 + enc_bytes(b@));
    }
}

fn write_str(out: &mut Vec<u8>, s: &str)
    ensures
        final(out)@ == old(out)@ + enc_str(s@),
{
    write_bytes(out, s.as_bytes());
}

fn write_i64(out: &mut Vec<u8>, x: i64)
    ensures
        final(out)@ == old(out)@ + enc_i64(x),
{
    let ghost out0 = out@;
    if x >= 0 {
        out.push(1u8);
        write_u64(out, x as u64);
        proof {
            assert(out@ =~= out0 + enc_i64(x));
        }
    } else {
        let m: u64 = (-1 - x) as u64;
        out.push(0u8);
        write_u64(out, m);
        proof {
            assert(out@ =~= out0 + enc_i64(x));
        }
    }
}

fn read_u64(b: &Vec<u8>, pos: usize) -> (r: Option<(u64, usize)>)
    requires
        pos <= b@.len(),
    ensures
        r matches Some((x, p2)) ==> pos <= p2 <= b@.len() && dec_u64(b@.skip(pos as int)) == Some(
            (x, b@.skip(p2 as int)),
        ),
        r is None ==> dec_u64(b@.skip(pos as int)) is None,
{
    if b.len() - pos >= 8 {
        let sl = slice_subrange(b.as_slice(), pos, pos + 8);
        let x = u64_from_le_bytes(sl);
        proof {
            assert(b@.skip(pos as int).take(8) =~= b@.subrange(pos as int, pos as int + 8));
            assert(b@.skip(pos as int).skip(8) =~= b@.skip(pos as int + 8));
        }
        Some((x, pos + 8))
    } else {
        None
    }
}

fn read_bytes(b: &Vec<u8>, pos: usize) -> (r: Option<(Vec<u8>, usize)>)
    requires
        pos <= b@.len(),
    ensures
        r matches Some((v, p2)) ==> pos <= p2 <= b@.len() && dec_bytes(b@.skip(pos as int))
            == Some((v@, b@.skip(p2 as int))),
        r is None ==> dec_bytes(b@.skip(pos as int)) is None,
{
    match read_u64(b, pos) {
        None => None,
        Some((n, p1)) => {
            let rem = b.len() - p1;
            proof {
                assert(b@.skip(p1 as int).len() == b@.len() - p1);
            }
            if n <= rem as u64 {
                let nn = n as usize;
                let sl = slice_subrange(b.as_slice(), p1, p1 + nn);
                let v = slice_to_vec(sl);
                proof {
                    assert(b@.skip(p1 as int).take(n as int) =~= b@.subrange(
                        p1 as int,
                        p1 as int + n,
                    ));
                    assert(b@.skip(p1 as int).skip(n as int) =~= b@.skip(p1 as int + n));
                }
                Some((v, p1 + nn))
            } else {
                None
            }
        },
    }
}

fn read_string(b: &Vec<u8>, pos: usize) -> (r: Option<(String, usize)>)
    requires
        pos <= b@.len(),
    ensures
        r matches Some((s, p2)) ==> pos <= p2 <= b@.len() && dec_str(b@.skip(pos as int)) == Some(
            (s@, b@.skip(p2 as int)),
        ),
        r is None ==> dec_str(b@.skip(pos as int)) is None,
{
    match read_bytes(b, pos) {
        None => None,
        Some((v, p2)) => {
            let ghost vbytes = v@;
            match string_from_utf8(v) {
                None => None,
                Some(s) => {
                    proof {
                        encode_utf8_decode_utf8(s@);
                    }
                    Some((s, p2))
                },
            }
        },
    }
}

/// A key/value pair on the wire: the two strings in order.
pub open spec fn enc_pair(p: (Seq<char>, Seq<char>)) -> Seq<u8> {
    enc_str(p.0) + enc_str(p.1)
}

/// A run of pairs on the wire, without a count.
pub open spec fn enc_pair_items(s: Seq<(Seq<char>, Seq<char>)>) -> Seq<u8>
    decreases s.len(),
{
    if s.len() == 0 {
        Seq::empty()
    } else {
        enc_pair(s[0]) + enc_pair_items(s.drop_first())
    }
}

/// A key/value mapping on the wire: its size, then its pairs in order.
pub open spec fn enc_pairs(s: Seq<(Seq<char>, Seq<char>)>) -> Seq<u8> {
    enc_u64(s.len() as u64) + enc_pair_items(s)
}

/// Read one pair off the front; the remainder follows.
pub open spec fn dec_pair(b: Seq<u8>) -> Option<((Seq<char>, Seq<char>), Seq<u8>)> {
    match dec_str(b) {
        None => None,
        Some((k, r)) => match dec_str(r) {
            None => None,
            Some((v, r2)) => Some(((k, v), r2)),
        },
    }
}

/// Read `n` pairs off the front; the remainder follows.
pub open spec fn dec_pair_items(b: Seq<u8>, n: nat) -> Option<
    (Seq<(Seq<char>, Seq<char>)>, Seq<u8>),
>
    decreases n,
{
    if n == 0 {
        Some((Seq::empty(), b))
    } else {
        match dec_pair(b) {
            None => None,
            Some((p, r)) => match dec_pair_items(r, (n - 1) as nat) {
                None => None,
                Some((l, r2)) => Some((seq![p] + l, r2)),
            },
        }
    }
}

/// Read one mapping off the front; the remainder follows.
pub open spec fn dec_pairs(b: Seq<u8>) -> Option<(Seq<(Seq<char>, Seq<char>)>, Seq<u8>)> {
    match dec_u64(b) {
        None => None,
        Some((n, r)) => dec_pair_items(r, n as nat),
    }
}

/// The string's UTF-8 form fits behind a length prefix.
pub open spec fn bounded_str(s: Seq<char>) -> bool {
    encode_utf8(s).len() <= u64::MAX
}

/// Every string of the mapping, and its size, fit behind length prefixes.
pub open spec fn bounded_pairs(s: Seq<(Seq<char>, Seq<char>)>) -> bool {
    &&& s.len() <= u64::MAX
    &&& forall|i: int|
        0 <= i < s.len() ==> bounded_str(#[trigger] s[i].0) && bounded_str(s[i].1)
}

proof fn lemma_dec_pair_enc(p: (Seq<char>, Seq<char>), rest: Seq<u8>)
    requires
        bounded_str(p.0),
        bounded_str(p.1),
    ensures
        dec_pair(enc_pair(p) + rest) == Some((p, rest)),
{
    assert(enc_pair(p) + rest =~= enc_str(p.0) + (enc_str(p.1) + rest));
    lemma_dec_str_enc(p.0, enc_str(p.1) + rest);
    lemma_dec_str_enc(p.1, rest);
}

proof fn lemma_dec_pair_items_enc(s: Seq<(Seq<char>, Seq<char>)>, rest: Seq<u8>)
    requires
        forall|i: int|
            0 <= i < s.len() ==> bounded_str(#[trigger] s[i].0) && bounded_str(s[i].1),
    ensures
        dec_pair_items(enc_pair_items(s) + rest, s.len()) == Some((s, rest)),
    decreases s.len(),
{
    if s.len() == 0 {
        assert(enc_pair_items(s) + rest =~= rest);
        assert(dec_pair_items(rest, 0) == Some((Seq::<(Seq<char>, Seq<char>)>::empty(), rest)));
        assert(s =~= Seq::<(Seq<char>, Seq<char>)>::empty());
    } else {
        let tail = s.drop_first();
        assert(enc_pair_items(s) + rest =~= enc_pair(s[0]) + (enc_pair_items(tail) + rest));
        lemma_dec_pair_enc(s[0], enc_pair_items(tail) + rest);
        lemma_dec_pair_items_enc(tail, rest);
        assert(seq![s[0]] + tail =~= s);
    }
}

proof fn lemma_dec_pairs_enc(s: Seq<(Seq<char>, Seq<char>)>, rest: Seq<u8>)
    requires
        bounded_pairs(s),
    ensures
        dec_pairs(enc_pairs(s) + rest) == Some((s, rest)),
{
    assert(enc_pairs(s) + rest =~= enc_u64(s.len() as u64) + (enc_pair_items(s) + rest));
    lemma_dec_u64_enc(s.len() as u64, enc_pair_items(s) + rest);
    lemma_dec_pair_items_enc(s, rest);
}

proof fn lemma_enc_pair_items_push(s: Seq<(Seq<char>, Seq<char>)>, p: (Seq<char>, Seq<char>))
    ensures
        enc_pair_items(s.push(p)) == enc_pair_items(s) + enc_pair(p),
    decreases s.len(),
{
    if s.len() == 0 {
        assert(s.push(p)[0] == p);
        assert(s.push(p).drop_first() =~= s);
        assert(enc_pair_items(s) =~= Seq::<u8>::empty());
        assert(enc_pair_items(s.push(p)) =~= enc_pair_items(s) + enc_pair(p));
    } else {
        assert(s.push(p)[0] == s[0]);
        assert(s.push(p).drop_first() =~= s.drop_first().push(p));
        lemma_enc_pair_items_push(s.drop_first(), p);
        assert(enc_pair_items(s.push(p)) == enc_pair(s[0]) + enc_pair_items(
            s.drop_first().push(p),
        ));
        assert(enc_pair(s[0]) + (enc_pair_items(s.drop_first()) + enc_pair(p)) =~= (enc_pair(s[0])
            + enc_pair_items(s.drop_first())) + enc_pair(p));
    }
}

/// A part on the wire: its four strings, then its payload bytes.
pub open spec fn enc_part(p: PartView) -> Seq<u8> {
    enc_str(p.name) + enc_str(p.file_name) + enc_str(p.content_type) + enc_str(p.text) + enc_bytes(
        p.data,
    )
}

/// A run of parts on the wire, without a count.
pub open spec fn enc_part_items(s: Seq<PartView>) -> Seq<u8>
    decreases s.len(),
{
    if s.len() == 0 {
        Seq::empty()
    } else {
        enc_part(s[0]) + enc_part_items(s.drop_first())
    }
}

/// A part list on the wire: its size, then its parts in order.
pub open spec fn enc_parts(s: Seq<PartView>) -> Seq<u8> {
    enc_u64(s.len() as u64) + enc_part_items(s)
}

/// Read one part off the front; the remainder follows.
pub open spec fn dec_part(b: Seq<u8>) -> Option<(PartView, Seq<u8>)> {
    match dec_str(b) {
        None => None,
        Some((name, r)) => match dec_str(r) {
            None => None,
            Some((file_name, r)) => match dec_str(r) {
                None => None,
                Some((content_type, r)) => match dec_str(r) {
                    None => None,
                    Some((text, r)) => match dec_bytes(r) {
                        None => None,
                        Some((data, r)) => Some(
                            (PartView { name, file_name, content_type, text, data }, r),
                        ),
                    },
                },
            },
        },
    }
}

/// Read `n` parts off the front; the remainder follows.
pub open spec fn dec_part_items(b: Seq<u8>, n: nat) -> Option<(Seq<PartView>, Seq<u8>)>
    decreases n,
{
    if n == 0 {
        Some((Seq::empty(), b))
    } else {
        match dec_part(b) {
            None => None,
            Some((p, r)) => match dec_part_items(r, (n - 1) as nat) {
                None => None,
                Some((l, r2)) => Some((seq![p] + l, r2)),
            },
        }
    }
}

/// Read one part list off the front; the remainder follows.
pub open spec fn dec_parts(b: Seq<u8>) -> Option<(Seq<PartView>, Seq<u8>)> {
    match dec_u64(b) {
        None => None,
        Some((n, r)) => dec_part_items(r, n as nat),
    }
}

/// The part's strings and payload fit behind length prefixes.
pub open spec fn bounded_part(p: PartView) -> bool {
    &&& bounded_str(p.name)
    &&& bounded_str(p.file_name)
    &&& bounded_str(p.content_type)
    &&& bounded_str(p.text)
    &&& p.data.len() <= u64::MAX
}

/// Every part of the list, and its size, fit behind length prefixes.
pub open spec fn bounded_parts(s: Seq<PartView>) -> bool {
    &&& s.len() <= u64::MAX
    &&& forall|i: int| 0 <= i < s.len() ==> bounded_part(#[trigger] s[i])
}

proof fn lemma_dec_part_enc(p: PartView, rest: Seq<u8>)
    requires
        bounded_part(p),
    ensures
        dec_part(enc_part(p) + rest) == Some((p, rest)),
{
    let r4 = enc_bytes(p.data) + rest;
    let r3 = enc_str(p.text) + r4;
    let r2 = enc_str(p.content_type) + r3;
    let r1 = enc_str(p.file_name) + r2;
    assert(enc_part(p) + rest =~= enc_str(p.name) + r1);
    lemma_dec_str_enc(p.name, r1);
    assert(r1 =~= enc_str(p.file_name) + r2);
    lemma_dec_str_enc(p.file_name, r2);
    lemma_dec_str_enc(p.content_type, r3);
    lemma_dec_str_enc(p.text, r4);
    lemma_dec_bytes_enc(p.data, rest);
}

proof fn lemma_dec_part_items_enc(s: Seq<PartView>, rest: Seq<u8>)
    requires
        forall|i: int| 0 <= i < s.len() ==> bounded_part(#[trigger] s[i]),
    ensures
        dec_part_items(enc_part_items(s) + rest, s.len()) == Some((s, rest)),
    decreases s.len(),
{
    if s.len() == 0 {
        assert(enc_part_items(s) + rest =~= rest);
        assert(s =~= Seq::<PartView>::empty());
    } else {
        let tail = s.drop_first();
        assert(enc_part_items(s) + rest =~= enc_part(s[0]) + (enc_part_items(tail) + rest));
        lemma_dec_part_enc(s[0], enc_part_items(tail) + rest);
        lemma_dec_part_items_enc(tail, rest);
        assert(seq![s[0]] + tail =~= s);
    }
}

proof fn lemma_dec_parts_enc(s: Seq<PartView>, rest: Seq<u8>)
    requires
        bounded_parts(s),
    ensures
        dec_parts(enc_parts(s) + rest) == Some((s, rest)),
{
    assert(enc_parts(s) + rest =~= enc_u64(s.len() as u64) + (enc_part_items(s) + rest));
    lemma_dec_u64_enc(s.len() as u64, enc_part_items(s) + rest);
    lemma_dec_part_items_enc(s, rest);
}

proof fn lemma_enc_part_items_push(s: Seq<PartView>, p: PartView)
    ensures
        enc_part_items(s.push(p)) == enc_part_items(s) + enc_part(p),
    decreases s.len(),
{
    if s.len() == 0 {
        assert(s.push(p)[0] == p);
        assert(s.push(p).drop_first() =~= s);
        assert(enc_part_items(s) =~= Seq::<u8>::empty());
        assert(enc_part_items(s.push(p)) =~= enc_part_items(s) + enc_part(p));
    } else {
        assert(s.push(p)[0] == s[0]);
        assert(s.push(p).drop_first() =~= s.drop_first().push(p));
        lemma_enc_part_items_push(s.drop_first(), p);
        assert(enc_part_items(s.push(p)) == enc_part(s[0]) + enc_part_items(
            s.drop_first().push(p),
        ));
        assert(enc_part(s[0]) + (enc_part_items(s.drop_first()) + enc_part(p)) =~= (enc_part(s[0])
            + enc_part_items(s.drop_first())) + enc_part(p));
    }
}

/// A whole query on the wire: path, params, form, cookies, parts, script,
/// clock reading, in that order.
pub open spec fn spec_enc_query(q: QueryView) -> Seq<u8> {
    enc_str(q.path) + enc_pairs(q.params) + enc_pairs(q.form) + enc_pairs(q.cookies) + enc_parts(
        q.parts,
    ) + enc_str(q.sql) + enc_i64(q.now)
}

/// Read a whole query; every byte must be consumed.
pub open spec fn spec_dec_query(b: Seq<u8>) -> Option<QueryView> {
    match dec_str(b) {
        None => None,
        Some((path, r)) => match dec_pairs(r) {
            None => None,
            Some((params, r)) => match dec_pairs(r) {
                None => None,
                Some((form, r)) => match dec_pairs(r) {
                    None => None,
                    Some((cookies, r)) => match dec_parts(r) {
                        None => None,
                        Some((parts, r)) => match dec_str(r) {
                            None => None,
                            Some((sql, r)) => match dec_i64(r) {
                                None => None,
                                Some((now, r)) => if r.len() == 0 {
                                    Some(QueryView { path, params, form, cookies, parts, sql, now })
                                } else {
                                    None
                                },
                            },
                        },
                    },
                },
            },
        },
    }
}

/// Every piece of the query fits behind its length prefix.  Any envelope
/// that exists in memory satisfies this.
pub open spec fn bounded_query(q: QueryView) -> bool {
    &&& bounded_str(q.path)
    &&& bounded_pairs(q.params)
    &&& bounded_pairs(q.form)
    &&& bounded_pairs(q.cookies)
    &&& bounded_parts(q.parts)
    &&& bounded_str(q.sql)
}

/// Round trip: a query serialized for replication and deserialized on the
/// slave is reproduced exactly — same path, params, form, cookies, parts,
/// script, and clock reading.
#[verifier::rlimit(100)]
pub proof fn lemma_query_round_trip(q: QueryView)
    requires
        bounded_query(q),
    ensures
        spec_dec_query(spec_enc_query(q)) == Some(q),
{
    let r6 = enc_i64(q.now);
    let r5 = enc_str(q.sql) + r6;
    let r4 = enc_parts(q.parts) + r5;
    let r3 = enc_pairs(q.cookies) + r4;
    let r2 = enc_pairs(q.form) + r3;
    let r1 = enc_pairs(q.params) + r2;
    assert(spec_enc_query(q) =~= enc_str(q.path) + r1);
    lemma_dec_str_enc(q.path, r1);
    lemma_dec_pairs_enc(q.params, r2);
    lemma_dec_pairs_enc(q.form, r3);
    lemma_dec_pairs_enc(q.cookies, r4);
    lemma_dec_parts_enc(q.parts, r5);
    lemma_dec_str_enc(q.sql, r6);
    assert(r6 =~= enc_i64(q.now) + Seq::<u8>::empty());
    lemma_dec_i64_enc(q.now, Seq::empty());
}

fn read_i64(b: &Vec<u8>, pos: usize) -> (r: Option<(i64, usize)>)
    requires
        pos <= b@.len(),
    ensures
        r matches Some((x, p2)) ==> pos <= p2 <= b@.len() && dec_i64(b@.skip(pos as int)) == Some(
            (x, b@.skip(p2 as int)),
        ),
        r is None ==> dec_i64(b@.skip(pos as int)) is None,
{
    if pos >= b.len() {
        return None;
    }
    let tag = b[pos];
    proof {
        assert(b@.skip(pos as int)[0] == b@[pos as int]);
        assert(b@.skip(pos as int).skip(1) =~= b@.skip(pos as int + 1));
    }
    match read_u64(b, pos + 1) {
        None => None,
        Some((m, p2)) => {
            if m <= i64::MAX as u64 {
                if tag == 1 {
                    Some((m as i64, p2))
                } else if tag == 0 {
                    Some((-1 - (m as i64), p2))
                } else {
                    None
                }
            } else {
                None
            }
        },
    }
}

fn write_pair(out: &mut Vec<u8>, k: &String, v: &String)
    ensures
        final(out)@ == old(out)@ + enc_pair((k@, v@)),
{
    let ghost out0 = out@;
    write_str(out, k.as_str());
    write_str(out, v.as_str());
    proof {
        assert(out@ =~= out0 + enc_pair((k@, v@)));
    }
}

fn write_pairs(out: &mut Vec<u8>, pairs: &Vec<(String, String)>)
    ensures
        final(out)@ == old(out)@ + enc_pairs(pairs_view(pairs@)),
{
    let ghost out0 = out@;
    write_u64(out, pairs.len() as u64);
    let mut i: usize = 0;
    proof {
        assert(pairs_view(pairs@).take(0) =~= Seq::<(Seq<char>, Seq<char>)>::empty());
        assert(enc_pair_items(pairs_view(pairs@).take(0)) =~= Seq::<u8>::empty());
        assert(out@ =~= out0 + enc_u64(pairs_view(pairs@).len() as u64) + enc_pair_items(
            pairs_view(pairs@).take(0),
        ));
    }
    while i < pairs.len()
        invariant
            i <= pairs@.len(),
            out@ == out0 + enc_u64(pairs_view(pairs@).len() as u64) + enc_pair_items(
                pairs_view(pairs@).take(i as int),
            ),
        decreases pairs@.len() - i,
    {
        write_pair(out, &pairs[i].0, &pairs[i].1);
        proof {
            let pv = pairs_view(pairs@);
            assert(pv[i as int] == (pairs@[i as int].0@, pairs@[i as int].1@));
            assert(pv.take(i as int).push(pv[i as int]) =~= pv.take(i as int + 1));
            lemma_enc_pair_items_push(pv.take(i as int), pv[i as int]);
            assert(out@ =~= out0 + enc_u64(pv.len() as u64) + enc_pair_items(
                pv.take(i as int + 1),
            ));
        }
        i = i + 1;
    }
    proof {
        assert(pairs_view(pairs@).take(pairs@.len() as int) =~= pairs_view(pairs@));
        assert(out@ =~= out0 + enc_pairs(pairs_view(pairs@)));
    }
}

fn write_part(out: &mut Vec<u8>, p: &Part)
    ensures
        final(out)@ == old(out)@ + enc_part(p@),
{
    let ghost out0 = out@;
    write_str(out, p.name.as_str());
    write_str(out, p.file_name.as_str());
    write_str(out, p.content_type.as_str());
    write_str(out, p.text.as_str());
    write_bytes(out, p.data.as_slice());
    proof {
        assert(out@ =~= out0 + enc_part(p@));
    }
}

fn write_parts(out: &mut Vec<u8>, parts: &Vec<Part>)
    ensures
        final(out)@ == old(out)@ + enc_parts(parts_view(parts@)),
{
    let ghost out0 = out@;
    write_u64(out, parts.len() as u64);
    let mut i: usize = 0;
    proof {
        assert(parts_view(parts@).take(0) =~= Seq::<PartView>::empty());
        assert(enc_part_items(parts_view(parts@).take(0)) =~= Seq::<u8>::empty());
        assert(out@ =~= out0 + enc_u64(parts_view(parts@).len() as u64) + enc_part_items(
            parts_view(parts@).take(0),
        ));
    }
    while i < parts.len()
        invariant
            i <= parts@.len(),
            out@ == out0 + enc_u64(parts_view(parts@).len() as u64) + enc_part_items(
                parts_view(parts@).take(i as int),
            ),
        decreases parts@.len() - i,
    {
        write_part(out, &parts[i]);
        proof {
            let pv = parts_view(parts@);
            assert(pv[i as int] == parts@[i as int]@);
            assert(pv.take(i as int).push(pv[i as int]) =~= pv.take(i as int + 1));
            lemma_enc_part_items_push(pv.take(i as int), pv[i as int]);
            assert(out@ =~= out0 + enc_u64(pv.len() as u64) + enc_part_items(
                pv.take(i as int + 1),
            ));
        }
        i = i + 1;
    }
    proof {
        assert(parts_view(parts@).take(parts@.len() as int) =~= parts_view(parts@));
        assert(out@ =~= out0 + enc_parts(parts_view(parts@)));
    }
}

/// Serialize a query for the replication log.
pub fn encode_query(q: &Query) -> (b: Vec<u8>)
    ensures
        b@ == spec_enc_query(q@),
{
    let mut out: Vec<u8> = Vec::new();
    write_str(&mut out, q.path.as_str());
    write_pairs(&mut out, &q.params);
    write_pairs(&mut out, &q.form);
    write_pairs(&mut out, &q.cookies);
    write_parts(&mut out, &q.parts);
    write_str(&mut out, q.sql.as_str());
    write_i64(&mut out, q.now);
    proof {
        assert(out@ =~= spec_enc_query(q@));
    }
    out
}

fn read_pair(b: &Vec<u8>, pos: usize) -> (r: Option<((String, String), usize)>)
    requires
        pos <= b@.len(),
    ensures
        r matches Some((p, p2)) ==> pos <= p2 <= b@.len() && dec_pair(b@.skip(pos as int)) == Some(
            ((p.0@, p.1@), b@.skip(p2 as int)),
        ),
        r is None ==> dec_pair(b@.skip(pos as int)) is None,
{
    match read_string(b, pos) {
        None => None,
        Some((k, p1)) => match read_string(b, p1) {
            None => None,
            Some((v, p2)) => Some(((k, v), p2)),
        },
    }
}

/// `o` with `prefix` prepended to a decoded run of pairs.
spec fn prepend_pairs(
    prefix: Seq<(Seq<char>, Seq<char>)>,
    o: Option<(Seq<(Seq<char>, Seq<char>)>, Seq<u8>)>,
) -> Option<(Seq<(Seq<char>, Seq<char>)>, Seq<u8>)> {
    match o {
        None => None,
        Some((l, r)) => Some((prefix + l, r)),
    }
}

fn read_pairs(b: &Vec<u8>, pos: usize) -> (r: Option<(Vec<(String, String)>, usize)>)
    requires
        pos <= b@.len(),
    ensures
        r matches Some((v, p2)) ==> pos <= p2 <= b@.len() && dec_pairs(b@.skip(pos as int))
            == Some((pairs_view(v@), b@.skip(p2 as int))),
        r is None ==> dec_pairs(b@.skip(pos as int)) is None,
{
    match read_u64(b, pos) {
        None => None,
        Some((n, p1)) => {
            let mut acc: Vec<(String, String)> = Vec::new();
            let mut cur: usize = p1;
            let mut i: u64 = 0;
            proof {
                assert(pairs_view(acc@) =~= Seq::<(Seq<char>, Seq<char>)>::empty());
                assert(pairs_view(acc@) + pairs_view(acc@) =~= pairs_view(acc@));
            }
            while i < n
                invariant
                    i <= n,
                    pos <= cur <= b@.len(),
                    dec_pairs(b@.skip(pos as int)) == dec_pair_items(
                        b@.skip(p1 as int),
                        n as nat,
                    ),
                    dec_pair_items(b@.skip(p1 as int), n as nat) == prepend_pairs(
                        pairs_view(acc@),
                        dec_pair_items(b@.skip(cur as int), (n - i) as nat),
                    ),
                decreases n - i,
            {
                match read_pair(b, cur) {
                    None => {
                        return None;
                    },
                    Some((p, cur2)) => {
                        proof {
                            let pv = (p.0@, p.1@);
                            assert(pairs_view(acc@.push(p)) =~= pairs_view(acc@).push(pv));
                            match dec_pair_items(b@.skip(cur2 as int), (n - i - 1) as nat) {
                                Some((l, rr)) => {
                                    assert(pairs_view(acc@) + (seq![pv] + l) =~= pairs_view(
                                        acc@,
                                    ).push(pv) + l);
                                },
                                None => {},
                            }
                        }
                        acc.push(p);
                        cur = cur2;
                        i = i + 1;
                    },
                }
            }
            proof {
                assert(dec_pair_items(b@.skip(cur as int), 0) == Some(
                    (Seq::<(Seq<char>, Seq<char>)>::empty(), b@.skip(cur as int)),
                ));
                assert(pairs_view(acc@) + Seq::<(Seq<char>, Seq<char>)>::empty() =~= pairs_view(
                    acc@,
                ));
            }
            Some((acc, cur))
        },
    }
}

fn read_part(b: &Vec<u8>, pos: usize) -> (r: Option<(Part, usize)>)
    requires
        pos <= b@.len(),
    ensures
        r matches Some((p, p2)) ==> pos <= p2 <= b@.len() && dec_part(b@.skip(pos as int)) == Some(
            (p@, b@.skip(p2 as int)),
        ),
        r is None ==> dec_part(b@.skip(pos as int)) is None,
{
    match read_string(b, pos) {
        None => None,
        Some((name, p1)) => match read_string(b, p1) {
            None => None,
            Some((file_name, p2)) => match read_string(b, p2) {
                None => None,
                Some((content_type, p3)) => match read_string(b, p3) {
                    None => None,
                    Some((text, p4)) => match read_bytes(b, p4) {
                        None => None,
                        Some((data, p5)) => Some(
                            (Part { name, file_name, content_type, text, data }, p5),
                        ),
                    },
                },
            },
        },
    }
}

/// `o` with `prefix` prepended to a decoded run of parts.
spec fn prepend_parts(prefix: Seq<PartView>, o: Option<(Seq<PartView>, Seq<u8>)>) -> Option<
    (Seq<PartView>, Seq<u8>),
> {
    match o {
        None => None,
        Some((l, r)) => Some((prefix + l, r)),
    }
}

fn read_parts(b: &Vec<u8>, pos: usize) -> (r: Option<(Vec<Part>, usize)>)
    requires
        pos <= b@.len(),
    ensures
        r matches Some((v, p2)) ==> pos <= p2 <= b@.len() && dec_parts(b@.skip(pos as int))
            == Some((parts_view(v@), b@.skip(p2 as int))),
        r is None ==> dec_parts(b@.skip(pos as int)) is None,
{
    match read_u64(b, pos) {
        None => None,
        Some((n, p1)) => {
            let mut acc: Vec<Part> = Vec::new();
            let mut cur: usize = p1;
            let mut i: u64 = 0;
            proof {
                assert(parts_view(acc@) =~= Seq::<PartView>::empty());
                assert(parts_view(acc@) + parts_view(acc@) =~= parts_view(acc@));
            }
            while i < n
                invariant
                    i <= n,
                    pos <= cur <= b@.len(),
                    dec_parts(b@.skip(pos as int)) == dec_part_items(
                        b@.skip(p1 as int),
                        n as nat,
                    ),
                    dec_part_items(b@.skip(p1 as int), n as nat) == prepend_parts(
                        parts_view(acc@),
                        dec_part_items(b@.skip(cur as int), (n - i) as nat),
                    ),
                decreases n - i,
            {
                match read_part(b, cur) {
                    None => {
                        return None;
                    },
                    Some((p, cur2)) => {
                        proof {
                            let pv = p@;
                            assert(parts_view(acc@.push(p)) =~= parts_view(acc@).push(pv));
                            match dec_part_items(b@.skip(cur2 as int), (n - i - 1) as nat) {
                                Some((l, rr)) => {
                                    assert(parts_view(acc@) + (seq![pv] + l) =~= parts_view(
                                        acc@,
                                    ).push(pv) + l);
                                },
                                None => {},
                            }
                        }
                        acc.push(p);
                        cur = cur2;
                        i = i + 1;
                    },
                }
            }
            proof {
                assert(dec_part_items(b@.skip(cur as int), 0) == Some(
                    (Seq::<PartView>::empty(), b@.skip(cur as int)),
                ));
                assert(parts_view(acc@) + Seq::<PartView>::empty() =~= parts_view(acc@));
            }
            Some((acc, cur))
        },
    }
}

/// Deserialize a replication log entry back into the query it was made
/// from; nothing comes back when the bytes are not a whole, well-formed
/// entry.
pub fn decode_query(b: &Vec<u8>) -> (r: Option<Query>)
    ensures
        r matches Some(q) ==> spec_dec_query(b@) == Some(q@),
        r is None ==> spec_dec_query(b@) is None,
{
    proof {
        assert(b@.skip(0) =~= b@);
    }
    match read_string(b, 0) {
        None => None,
        Some((path, p1)) => match read_pairs(b, p1) {
            None => None,
            Some((params, p2)) => match read_pairs(b, p2) {
                None => None,
                Some((form, p3)) => match read_pairs(b, p3) {
                    None => None,
                    Some((cookies, p4)) => match read_parts(b, p4) {
                        None => None,
                        Some((parts, p5)) => match read_string(b, p5) {
                            None => None,
                            Some((sql, p6)) => match read_i64(b, p6) {
                                None => None,
                                Some((now, p7)) => {
                                    if p7 == b.len() {
                                        Some(Query { path, params, form, cookies, parts, sql, now })
                                    } else {
                                        None
                                    }
                                },
                            },
                        },
                    },
                },
            },
        },
    }
}

} // verus!
