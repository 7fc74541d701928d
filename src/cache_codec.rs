//! The cache file's binary format: a protobuf message holding a repeated
//! list of repository records, each with four string fields.
//!
//! ```text
//! message Repositories { repeated Repository repositories = 1; }
//! message Repository {
//!     string provider = 1; string owner = 2; string repo_name = 3; string ssh_url = 4;
//! }
//! ```
//!
//! Encoding follows protobuf's canonical form: empty strings are left out and
//! fields come in tag order. Decoding accepts that form, plus fields present
//! with an empty value.

use vstd::prelude::*;
use vstd::utf8::{decode_utf8, encode_utf8, valid_utf8};

use crate::repository::{views, Repository, RepositoryView};

verus! {

/// Key byte of field 1 with the length-delimited wire type.
pub const KEY_FIELD_1: u8 = 0x0a;

/// Key byte of field 2 with the length-delimited wire type.
pub const KEY_FIELD_2: u8 = 0x12;

/// Key byte of field 3 with the length-delimited wire type.
pub const KEY_FIELD_3: u8 = 0x1a;

/// Key byte of field 4 with the length-delimited wire type.
pub const KEY_FIELD_4: u8 = 0x22;

/// The LEB128 encoding of `v`: seven bits per byte, low bits first, the high
/// bit set on every byte but the last.
pub open spec fn varint(v: nat) -> Seq<u8>
    decreases v,
{
    if v < 128 {
        seq![v as u8]
    } else {
        seq![(v % 128 + 128) as u8] + varint(v / 128)
    }
}

/// Reads a LEB128 varint of at most `k` bytes off the front of `b`; the last
/// of `k` bytes may only carry one bit, so that ten bytes hold a `u64`.
/// Gives the value and the number of bytes read.
pub open spec fn read_varint(b: Seq<u8>, k: nat) -> Option<(nat, nat)>
    decreases k,
{
    if k == 0 || b.len() == 0 {
        None
    } else if b[0] < 128 {
        if k == 1 && b[0] >= 2 {
            None
        } else {
            Some((b[0] as nat, 1))
        }
    } else {
        match read_varint(b.drop_first(), (k - 1) as nat) {
            Some((v, n)) => Some((((b[0] - 128) + 128 * v) as nat, n + 1)),
            None => None,
        }
    }
}

/// A string field: key, byte length, UTF-8 bytes; nothing for an empty string.
#[verifier::opaque]
pub open spec fn field(key: u8, text: Seq<char>) -> Seq<u8> {
    if text.len() == 0 {
        Seq::empty()
    } else {
        seq![key] + varint(encode_utf8(text).len()) + encode_utf8(text)
    }
}

/// The body of one repository record.
#[verifier::opaque]
pub open spec fn record_body(r: RepositoryView) -> Seq<u8> {
    field(KEY_FIELD_1, r.provider) + field(KEY_FIELD_2, r.owner) + field(KEY_FIELD_3, r.repo_name)
        + field(KEY_FIELD_4, r.ssh_url)
}

/// One element of the repeated field: key, body length, body.
#[verifier::opaque]
pub open spec fn record(r: RepositoryView) -> Seq<u8> {
    seq![KEY_FIELD_1] + varint(record_body(r).len()) + record_body(r)
}

/// The encoding of a list of repositories.
pub open spec fn encode_repositories(s: Seq<RepositoryView>) -> Seq<u8>
    decreases s.len(),
{
    if s.len() == 0 {
        Seq::empty()
    } else {
        record(s[0]) + encode_repositories(s.drop_first())
    }
}

/// A record whose lengths all fit the ten-byte varints of the format.
pub open spec fn encodable(r: RepositoryView) -> bool {
    record_body(r).len() < 0x1_0000_0000_0000_0000
}

/// Reads the string field with key `key` off the front of `b`, or the empty
/// string without reading anything where `b` does not start with that key.
/// Gives the text and the number of bytes read.
#[verifier::opaque]
pub open spec fn read_field(b: Seq<u8>, key: u8) -> Option<(Seq<char>, nat)> {
    if b.len() > 0 && b[0] == key {
        match read_varint(b.drop_first(), 10) {
            Some((len, n)) => {
                let end: int = (1 + n + len) as int;
                if end <= b.len() && valid_utf8(b.subrange(1 + n as int, end)) {
                    Some((decode_utf8(b.subrange(1 + n as int, end)), end as nat))
                } else {
                    None
                }
            },
            None => None,
        }
    } else {
        Some((Seq::empty(), 0))
    }
}

/// Reads the body of a repository record, which must be read to its end.
#[verifier::opaque]
pub open spec fn read_record_body(b: Seq<u8>) -> Option<RepositoryView> {
    match read_field(b, KEY_FIELD_1) {
        None => None,
        Some((provider, n1)) => {
            let b1 = b.subrange(n1 as int, b.len() as int);
            match read_field(b1, KEY_FIELD_2) {
                None => None,
                Some((owner, n2)) => {
                    let b2 = b1.subrange(n2 as int, b1.len() as int);
                    match read_field(b2, KEY_FIELD_3) {
                        None => None,
                        Some((repo_name, n3)) => {
                            let b3 = b2.subrange(n3 as int, b2.len() as int);
                            match read_field(b3, KEY_FIELD_4) {
                                None => None,
                                Some((ssh_url, n4)) => if n4 == b3.len() {
                                    Some(RepositoryView { provider, owner, repo_name, ssh_url })
                                } else {
                                    None
                                },
                            }
                        },
                    }
                },
            }
        },
    }
}

/// Decodes a list of repositories; `None` where `b` is not one.
pub open spec fn decode_repositories(b: Seq<u8>) -> Option<Seq<RepositoryView>>
    decreases b.len(),
{
    if b.len() == 0 {
        Some(Seq::empty())
    } else if b[0] != KEY_FIELD_1 {
        None
    } else {
        match read_varint(b.drop_first(), 10) {
            None => None,
            Some((len, n)) => {
                let end: int = (1 + n + len) as int;
                if end > b.len() {
                    None
                } else {
                    match read_record_body(b.subrange(1 + n as int, end)) {
                        None => None,
                        Some(r) => match decode_repositories(b.subrange(end, b.len() as int)) {
                            None => None,
                            Some(rest) => Some(seq![r] + rest),
                        },
                    }
                }
            },
        }
    }
}

/// The largest value that a varint of `k` bytes may carry, plus one.
pub open spec fn varint_bound(k: nat) -> nat
    decreases k,
{
    if k <= 1 {
        2
    } else {
        128 * varint_bound((k - 1) as nat)
    }
}

proof fn lemma_read_varint_len(b: Seq<u8>, k: nat)
    ensures
        read_varint(b, k) matches Some((v, n)) ==> 1 <= n <= b.len() && n <= k,
    decreases k,
{
    if k > 0 && b.len() > 0 && b[0] >= 128 {
        lemma_read_varint_len(b.drop_first(), (k - 1) as nat);
    }
}

proof fn lemma_read_varint_bound(b: Seq<u8>, k: nat)
    ensures
        read_varint(b, k) matches Some((v, n)) ==> v < varint_bound(k),
    decreases k,
{
    if k > 0 && b.len() > 0 {
        if b[0] < 128 {
            if k >= 2 {
                lemma_varint_bound_positive((k - 1) as nat);
            }
        } else {
            lemma_read_varint_bound(b.drop_first(), (k - 1) as nat);
            if k >= 2 {
                if let Some((w, m)) = read_varint(b.drop_first(), (k - 1) as nat) {
                    let bk = varint_bound((k - 1) as nat);
                    let low = b[0] - 128;
                    assert(low + 128 * w < 128 * bk) by (nonlinear_arith)
                        requires
                            0 <= low < 128,
                            w < bk,
                    ;
                }
            }
        }
    }
}

proof fn lemma_varint_bound_positive(k: nat)
    ensures
        varint_bound(k) >= 2,
    decreases k,
{
    if k > 1 {
        lemma_varint_bound_positive((k - 1) as nat);
    }
}

/// The value of a varint of at most ten bytes fits a `u64`.
proof fn lemma_read_varint_u64_bound(b: Seq<u8>)
    ensures
        read_varint(b, 10) matches Some((v, n)) ==> v < 0x1_0000_0000_0000_0000,
{
    reveal_with_fuel(varint_bound, 10);
    assert(varint_bound(10) == 0x1_0000_0000_0000_0000);
    lemma_read_varint_bound(b, 10);
}

proof fn lemma_read_varint(v: nat, k: nat, rest: Seq<u8>)
    requires
        1 <= k,
        v < varint_bound(k),
    ensures
        read_varint(varint(v) + rest, k) == Some((v, varint(v).len())),
        varint(v).len() >= 1,
    decreases v,
{
    let b = varint(v) + rest;
    if v < 128 {
        assert(b[0] == v as u8);
    } else {
        assert(k >= 2);
        let q = v / 128;
        let bk = varint_bound((k - 1) as nat);
        assert(v < 128 * bk);
        assert(q < bk) by (nonlinear_arith)
            requires
                q == v / 128,
                v < 128 * bk,
        ;
        lemma_read_varint(q, (k - 1) as nat, rest);
        assert(b.drop_first() =~= varint(q) + rest);
        assert(b[0] == (v % 128 + 128) as u8);
        assert(v == v % 128 + 128 * q) by (nonlinear_arith)
            requires
                q == v / 128,
        ;
    }
}

proof fn lemma_read_varint_u64(v: nat, rest: Seq<u8>)
    requires
        v < 0x1_0000_0000_0000_0000,
    ensures
        read_varint(varint(v) + rest, 10) == Some((v, varint(v).len())),
        varint(v).len() >= 1,
{
    reveal_with_fuel(varint_bound, 10);
    assert(varint_bound(10) == 0x1_0000_0000_0000_0000);
    lemma_read_varint(v, 10, rest);
}

proof fn lemma_read_field(key: u8, text: Seq<char>, rest: Seq<u8>)
    requires
        field(key, text).len() < 0x1_0000_0000_0000_0000,
        text.len() == 0 ==> rest.len() == 0 || rest[0] != key,
    ensures
        read_field(field(key, text) + rest, key) == Some((text, field(key, text).len())),
{
    reveal(field);
    reveal(read_field);
    let f = field(key, text);
    let b = f + rest;
    if text.len() == 0 {
        assert(b =~= rest);
        assert(Seq::<char>::empty() =~= text);
    } else {
        let bytes = encode_utf8(text);
        let len = bytes.len();
        lemma_read_varint_u64(len, bytes + rest);
        assert(b.drop_first() =~= varint(len) + (bytes + rest));
        let n = varint(len).len();
        assert(b.subrange(1 + n as int, (1 + n + len) as int) =~= bytes);
        vstd::utf8::encode_utf8_valid_utf8(text);
        vstd::utf8::encode_utf8_decode_utf8(text);
    }
}

proof fn lemma_field_shape(key: u8, text: Seq<char>)
    ensures
        text.len() == 0 <==> field(key, text).len() == 0,
        text.len() > 0 ==> field(key, text)[0] == key,
{
    reveal(field);
}

proof fn lemma_read_record_body(r: RepositoryView)
    requires
        encodable(r),
    ensures
        read_record_body(record_body(r)) == Some(r),
{
    reveal(record_body);
    reveal(read_record_body);
    let f1 = field(KEY_FIELD_1, r.provider);
    let f2 = field(KEY_FIELD_2, r.owner);
    let f3 = field(KEY_FIELD_3, r.repo_name);
    let f4 = field(KEY_FIELD_4, r.ssh_url);
    let b = record_body(r);
    let rest1 = f2 + f3 + f4;
    let rest2 = f3 + f4;
    lemma_field_shape(KEY_FIELD_2, r.owner);
    lemma_field_shape(KEY_FIELD_3, r.repo_name);
    lemma_field_shape(KEY_FIELD_4, r.ssh_url);
    if f2.len() > 0 {
        assert(rest1[0] == KEY_FIELD_2);
    } else if f3.len() > 0 {
        assert(rest1 =~= rest2);
        assert(rest2[0] == KEY_FIELD_3);
    } else if f4.len() > 0 {
        assert(rest1 =~= f4);
    }
    if f3.len() > 0 {
        assert(rest2[0] == KEY_FIELD_3);
    } else if f4.len() > 0 {
        assert(rest2 =~= f4);
    }
    assert(b =~= f1 + rest1);
    lemma_read_field(KEY_FIELD_1, r.provider, rest1);
    let b1 = b.subrange(f1.len() as int, b.len() as int);
    assert(b1 =~= f2 + rest2);
    lemma_read_field(KEY_FIELD_2, r.owner, rest2);
    let b2 = b1.subrange(f2.len() as int, b1.len() as int);
    assert(b2 =~= f3 + f4);
    lemma_read_field(KEY_FIELD_3, r.repo_name, f4);
    let b3 = b2.subrange(f3.len() as int, b2.len() as int);
    assert(b3 =~= f4 + Seq::<u8>::empty());
    lemma_read_field(KEY_FIELD_4, r.ssh_url, Seq::empty());
}

#[verifier::rlimit(50)]
proof fn lemma_decode_record(r: RepositoryView, rest: Seq<u8>)
    requires
        encodable(r),
    ensures
        decode_repositories(record(r) + rest) == match decode_repositories(rest) {
            Some(t) => Some(seq![r] + t),
            None => None,
        },
{
    reveal(record);
    let body = record_body(r);
    let b = record(r) + rest;
    assert(b =~= seq![KEY_FIELD_1] + (varint(body.len()) + (body + rest)));
    lemma_read_varint_u64(body.len(), body + rest);
    assert(b.drop_first() =~= varint(body.len()) + (body + rest));
    let n = varint(body.len()).len();
    let end: int = (1 + n + body.len()) as int;
    assert(b.subrange(1 + n as int, end) =~= body);
    assert(b.subrange(end, b.len() as int) =~= rest);
    lemma_read_record_body(r);
}

/// Decoding the encoding of a list of repositories gives back the same list,
/// field for field and in the same order.
pub proof fn lemma_decode_encode(s: Seq<RepositoryView>)
    requires
        forall|i: int| 0 <= i < s.len() ==> #[trigger] encodable(s[i]),
    ensures
        decode_repositories(encode_repositories(s)) == Some(s),
    decreases s.len(),
{
    if s.len() == 0 {
        assert(Seq::<RepositoryView>::empty() =~= s);
    } else {
        let r = s[0];
        let tail = s.drop_first();
        assert forall|i: int| 0 <= i < tail.len() implies #[trigger] encodable(tail[i]) by {
            assert(encodable(s[i + 1]));
        }
        lemma_decode_encode(tail);
        assert(encodable(r));
        lemma_decode_record(r, encode_repositories(tail));
        assert(seq![r] + tail =~= s);
    }
}

/// The encoding of a non-empty list is not empty.
pub proof fn lemma_encode_nonempty(s: Seq<RepositoryView>)
    requires
        s.len() > 0,
    ensures
        encode_repositories(s).len() > 0,
{
    reveal(record);
}

proof fn lemma_encode_push(s: Seq<RepositoryView>, r: RepositoryView)
    ensures
        encode_repositories(s.push(r)) == encode_repositories(s) + record(r),
    decreases s.len(),
{
    let sp = s.push(r);
    if s.len() == 0 {
        assert(sp.drop_first() =~= Seq::<RepositoryView>::empty());
        assert(sp[0] == r);
        assert(encode_repositories(sp) == record(r) + encode_repositories(sp.drop_first()));
        assert(encode_repositories(sp.drop_first()) =~= Seq::<u8>::empty());
        assert(record(r) + Seq::<u8>::empty() =~= record(r));
        assert(Seq::<u8>::empty() + record(r) =~= record(r));
    } else {
        lemma_encode_push(s.drop_first(), r);
        assert(sp.drop_first() =~= s.drop_first().push(r));
        assert(sp[0] == s[0]);
        assert(encode_repositories(sp) == record(s[0]) + encode_repositories(sp.drop_first()));
        assert(record(s[0]) + (encode_repositories(s.drop_first()) + record(r)) =~= (record(s[0])
            + encode_repositories(s.drop_first())) + record(r));
    }
}

/// Relies on `prost::encoding::encode_varint`, which appends the LEB128
/// encoding of a value to the buffer.
#[verifier::external_body]
fn write_varint(buf: &mut Vec<u8>, v: u64)
    ensures
        final(buf)@ == old(buf)@ + varint(v as nat),
{
    prost::encoding::encode_varint(v, buf)
}

/// Relies on `prost::encoding::decode_varint`, which reads a LEB128 varint of
/// at most ten bytes off the front of a slice and on success leaves the rest.
/// Gives the value and the length of what is left.
#[verifier::external_body]
fn read_varint_prefix(bytes: &[u8]) -> (r: Option<(u64, usize)>)
    ensures
        match read_varint(bytes@, 10) {
            Some((v, n)) => r == Some((v as u64, (bytes@.len() - n) as usize)),
            None => r is None,
        },
{
    let mut rest = bytes;
    match prost::encoding::decode_varint(&mut rest) {
        Ok(v) => Some((v, rest.len())),
        Err(_) => None,
    }
}

/// Relies on `String::from_utf8`, which succeeds exactly on valid UTF-8.
#[verifier::external_body]
fn string_from_utf8(bytes: Vec<u8>) -> (r: Option<String>)
    ensures
        r is Some <==> valid_utf8(bytes@),
        r matches Some(s) ==> s@ == decode_utf8(bytes@),
{
    String::from_utf8(bytes).ok()
}

fn append_bytes(buf: &mut Vec<u8>, bytes: &[u8])
    ensures
        final(buf)@ == old(buf)@ + bytes@,
{
    let ghost start = buf@;
    for i in 0..bytes.len()
        invariant
            buf@ == start + bytes@.subrange(0, i as int),
    {
        buf.push(bytes[i]);
        proof {
            assert(start + bytes@.subrange(0, i + 1) =~= start + bytes@.subrange(0, i as int)
                + seq![bytes@[i as int]]);
        }
    }
    proof {
        assert(bytes@.subrange(0, bytes@.len() as int) =~= bytes@);
    }
}

fn copy_bytes(bytes: &[u8]) -> (r: Vec<u8>)
    ensures
        r@ == bytes@,
{
    let mut out: Vec<u8> = Vec::new();
    append_bytes(&mut out, bytes);
    proof {
        assert(Seq::<u8>::empty() + bytes@ =~= bytes@);
    }
    out
}

fn write_field(buf: &mut Vec<u8>, key: u8, text: &String)
    ensures
        final(buf)@ == old(buf)@ + field(key, text@),
{
    proof {
        reveal(field);
    }
    if text.as_str().is_empty() {
        proof {
            assert(old(buf)@ + Seq::<u8>::empty() =~= old(buf)@);
        }
        return;
    }
    let bytes = text.as_str().as_bytes();
    let ghost start = buf@;
    buf.push(key);
    write_varint(buf, bytes.len() as u64);
    append_bytes(buf, bytes);
    proof {
        assert(buf@ =~= start + field(key, text@));
    }
}

fn read_text_field(b: &[u8], key: u8) -> (r: Option<(String, usize)>)
    ensures
        match read_field(b@, key) {
            Some((text, n)) => r matches Some((s, m)) && s@ == text && m == n,
            None => r is None,
        },
        r matches Some((_, m)) ==> m <= b@.len(),
{
    proof {
        reveal(read_field);
    }
    if b.len() == 0 || b[0] != key {
        return Some((String::new(), 0));
    }
    let rest = &b[1..b.len()];
    proof {
        assert(rest@ =~= b@.drop_first());
        lemma_read_varint_len(rest@, 10);
        lemma_read_varint_u64_bound(rest@);
    }
    match read_varint_prefix(rest) {
        None => None,
        Some((len, left)) => {
            if len > left as u64 {
                return None;
            }
            let start = 1 + (rest.len() - left);
            let end = start + len as usize;
            let text = copy_bytes(&b[start..end]);
            match string_from_utf8(text) {
                None => None,
                Some(s) => Some((s, end)),
            }
        },
    }
}

fn read_record(b: &[u8]) -> (r: Option<Repository>)
    ensures
        match read_record_body(b@) {
            Some(v) => r matches Some(x) && x@ == v,
            None => r is None,
        },
{
    proof {
        reveal(read_record_body);
    }
    let (provider, n1) = match read_text_field(b, KEY_FIELD_1) {
        None => return None,
        Some(x) => x,
    };
    let b1 = &b[n1..b.len()];
    let (owner, n2) = match read_text_field(b1, KEY_FIELD_2) {
        None => return None,
        Some(x) => x,
    };
    let b2 = &b1[n2..b1.len()];
    let (repo_name, n3) = match read_text_field(b2, KEY_FIELD_3) {
        None => return None,
        Some(x) => x,
    };
    let b3 = &b2[n3..b2.len()];
    let (ssh_url, n4) = match read_text_field(b3, KEY_FIELD_4) {
        None => return None,
        Some(x) => x,
    };
    if n4 != b3.len() {
        return None;
    }
    Some(Repository { provider, owner, repo_name, ssh_url })
}

/// Encodes and decodes the cache file's content.
pub struct CacheCodec {}

impl CacheCodec {
    pub fn new() -> Self {
        CacheCodec {  }
    }

    /// Encodes a list of repositories, in its order.
    pub fn serialize_repositories(&self, repositories: &[Repository]) -> (r: Vec<u8>)
        ensures
            r@ == encode_repositories(views(repositories@)),
            forall|i: int|
                0 <= i < repositories@.len() ==> #[trigger] encodable(repositories@[i]@),
    {
        let mut out: Vec<u8> = Vec::new();
        for i in 0..repositories.len()
            invariant
                out@ == encode_repositories(views(repositories@.subrange(0, i as int))),
                forall|j: int| 0 <= j < i ==> #[trigger] encodable(repositories@[j]@),
        {
            let repo = &repositories[i];
            let mut body: Vec<u8> = Vec::new();
            write_field(&mut body, KEY_FIELD_1, &repo.provider);
            write_field(&mut body, KEY_FIELD_2, &repo.owner);
            write_field(&mut body, KEY_FIELD_3, &repo.repo_name);
            write_field(&mut body, KEY_FIELD_4, &repo.ssh_url);
            proof {
                reveal(record_body);
                reveal(record);
                assert(body@ =~= record_body(repo@));
            }
            let ghost before = out@;
            out.push(KEY_FIELD_1);
            write_varint(&mut out, body.len() as u64);
            append_bytes(&mut out, body.as_slice());
            proof {
                assert(out@ =~= before + record(repo@));
                let s = views(repositories@.subrange(0, i as int));
                assert(views(repositories@.subrange(0, i + 1)) =~= s.push(repo@));
                lemma_encode_push(s, repo@);
            }
        }
        proof {
            assert(repositories@.subrange(0, repositories@.len() as int) =~= repositories@);
        }
        out
    }

    /// Decodes the cache file's content; `None` where it is not a list of
    /// repositories in this format.
    pub fn deserialize_repositories(&self, content: Vec<u8>) -> (r: Option<Vec<Repository>>)
        ensures
            match decode_repositories(content@) {
                Some(s) => r matches Some(v) && views(v@) == s,
                None => r is None,
            },
    {
        let mut out: Vec<Repository> = Vec::new();
        let mut pos: usize = 0;
        let len = content.len();
        proof {
            assert(content@.subrange(0, len as int) =~= content@);
            assert(views(out@) =~= Seq::<RepositoryView>::empty());
            match decode_repositories(content@) {
                Some(all) => {
                    assert(Seq::<RepositoryView>::empty() + all =~= all);
                },
                None => {},
            }
        }
        while pos < len
            invariant
                len == content@.len(),
                pos <= len,
                decode_repositories(content@) == match decode_repositories(
                    content@.subrange(pos as int, len as int),
                ) {
                    Some(rest) => Some(views(out@) + rest),
                    None => None,
                },
            decreases len - pos,
        {
            let ghost b = content@.subrange(pos as int, len as int);
            if content[pos] != KEY_FIELD_1 {
                return None;
            }
            let rest = &content[pos + 1..len];
            proof {
                assert(rest@ =~= b.drop_first());
                lemma_read_varint_len(rest@, 10);
                lemma_read_varint_u64_bound(rest@);
            }
            let (body_len, left) = match read_varint_prefix(rest) {
                None => return None,
                Some(x) => x,
            };
            if body_len > left as u64 {
                return None;
            }
            let start = pos + 1 + (rest.len() - left);
            let end = start + body_len as usize;
            proof {
                assert(content@.subrange(start as int, end as int) =~= b.subrange(
                    (start - pos) as int,
                    (end - pos) as int,
                ));
                assert(content@.subrange(end as int, len as int) =~= b.subrange(
                    (end - pos) as int,
                    b.len() as int,
                ));
            }
            let repo = match read_record(&content[start..end]) {
                None => return None,
                Some(x) => x,
            };
            proof {
                let old_out = views(out@);
                assert(views(out@.push(repo)) =~= old_out.push(repo@));
                match decode_repositories(content@.subrange(end as int, len as int)) {
                    Some(tail) => {
                        assert(old_out + (seq![repo@] + tail) =~= old_out.push(repo@) + tail);
                    },
                    None => {},
                }
            }
            out.push(repo);
            pos = end;
        }
        proof {
            assert(views(out@) + Seq::<RepositoryView>::empty() =~= views(out@));
        }
        Some(out)
    }
}

} // verus!
