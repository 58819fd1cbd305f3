use vstd::prelude::*;
use vstd::utf8::encode_utf8;
use sha2::{Digest, Sha256};
use crate::text::{
    hex_of, to_hex, push_char, push_decimal, push_padded_decimal, decimal_of, padded_decimal_of, pow10,
    lemma_decimal_shape, lemma_decimal_injective, lemma_padded_len, lemma_padded_injective,
};

verus! {

/// The SHA-256 digest of a byte sequence.
pub uninterp spec fn sha256_of(data: Seq<u8>) -> Seq<u8>;

/// Relies on sha2's `Sha256::digest`: the 32-byte digest of the input, which
/// depends on the input bytes alone.
#[verifier::external_body]
fn sha256(data: &[u8]) -> (r: Vec<u8>)
    ensures
        r@ == sha256_of(data@),
        r@.len() == 32,
{
    Sha256::digest(data).to_vec()
}

/// The cache key segment of a canonical query text: the hex digest of its UTF-8 bytes.
pub open spec fn digest_key(text: Seq<char>) -> Seq<char> {
    hex_of(sha256_of(encode_utf8(text)))
}

/// Hashes the UTF-8 encoding of `text` and renders the digest in hex.
pub fn digest_text(text: &str) -> (r: String)
    ensures
        r@ == digest_key(text@),
        r@.len() == 64,
{
    let digest = sha256(text.as_bytes());
    to_hex(digest.as_slice())
}

/// Ten million: coordinates are held in units of 1e-7 degree.
pub const E7: u64 = 10_000_000;

/// Canonical text of a fixed-point value with seven decimals: an optional
/// minus sign, the integer part, a point, and exactly seven fraction digits.
pub open spec fn fixed7_text(v: int) -> Seq<char> {
    let a: nat = if v < 0 { (-v) as nat } else { v as nat };
    let sign: Seq<char> = if v < 0 { seq!['-'] } else { Seq::empty() };
    sign + decimal_of(a / (E7 as nat)) + seq!['.'] + padded_decimal_of(a % (E7 as nat), 7)
}

/// Formats a value given in units of 1e-7 as decimal text with seven fraction digits.
pub fn format_fixed7(v: i64) -> (r: String)
    ensures
        r@ == fixed7_text(v as int),
{
    let mut s = String::new();
    let a: u64 = if v < 0 {
        push_char(&mut s, '-');
        (-(v as i128)) as u64
    } else {
        v as u64
    };
    push_decimal(&mut s, a / E7);
    push_char(&mut s, '.');
    push_padded_decimal(&mut s, a % E7, 7);
    assert(s@ =~= fixed7_text(v as int));
    s
}

/// Distinct fixed-point values have distinct canonical texts: two coordinates
/// get the same text exactly when they are equal to seven decimals.
pub proof fn lemma_fixed7_injective(a: int, b: int)
    requires
        fixed7_text(a) == fixed7_text(b),
    ensures
        a == b,
{
    let e: nat = E7 as nat;
    let aa: nat = if a < 0 { (-a) as nat } else { a as nat };
    let ab: nat = if b < 0 { (-b) as nat } else { b as nat };
    let ta = fixed7_text(a);
    lemma_decimal_shape(aa / e);
    lemma_decimal_shape(ab / e);
    lemma_padded_len(aa % e, 7);
    lemma_padded_len(ab % e, 7);
    let da = decimal_of(aa / e);
    let db = decimal_of(ab / e);
    // the sign is decided by the first character: a digit or a minus sign
    if a < 0 && b >= 0 {
        assert(ta[0] == '-');
        assert(fixed7_text(b)[0] == db[0]);
    } else if a >= 0 && b < 0 {
        assert(fixed7_text(b)[0] == '-');
        assert(ta[0] == da[0]);
    }
    assert((a < 0) == (b < 0));
    let k: int = if a < 0 { 1 } else { 0 };
    assert(ta.len() == k + da.len() + 8);
    assert(fixed7_text(b).len() == k + db.len() + 8);
    assert(da.len() == db.len());
    assert(da =~= ta.subrange(k, k + da.len()));
    assert(db =~= fixed7_text(b).subrange(k, k + db.len()));
    let n = ta.len() as int;
    assert(padded_decimal_of(aa % e, 7) =~= ta.subrange(n - 7, n));
    assert(padded_decimal_of(ab % e, 7) =~= fixed7_text(b).subrange(n - 7, n));
    lemma_decimal_injective(aa / e, ab / e);
    assert(pow10(0) == 1);
    assert(pow10(1) == 10);
    assert(pow10(2) == 100);
    assert(pow10(3) == 1000);
    assert(pow10(4) == 10000);
    assert(pow10(5) == 100000);
    assert(pow10(6) == 1000000);
    assert(pow10(7) == e);
    lemma_padded_injective(aa % e, ab % e, 7);
    assert(aa == ab) by (nonlinear_arith)
        requires
            aa / e == ab / e,
            aa % e == ab % e,
            e > 0,
    ;
}

proof fn lemma_fixed7_point(v: int)
    ensures
        fixed7_text(v).len() >= 9,
        fixed7_text(v)[fixed7_text(v).len() - 8] == '.',
        forall|i: int| 0 <= i < fixed7_text(v).len() - 8 ==> #[trigger] fixed7_text(v)[i] != '.',
{
    let e: nat = E7 as nat;
    let a: nat = if v < 0 { (-v) as nat } else { v as nat };
    lemma_decimal_shape(a / e);
    lemma_padded_len(a % e, 7);
    let d = decimal_of(a / e);
    let k: int = if v < 0 { 1 } else { 0 };
    let t = fixed7_text(v);
    assert(t.len() == k + d.len() + 8);
    assert forall|i: int| 0 <= i < t.len() - 8 implies #[trigger] t[i] != '.' by {
        if i >= k {
            assert(t[i] == d[i - k]);
        }
    }
}

/// Coordinate pairs have the same canonical text exactly when both values
/// are equal to seven decimals.
pub proof fn lemma_coords_text_injective(lat1: int, lng1: int, lat2: int, lng2: int)
    ensures
        (fixed7_text(lat1) + fixed7_text(lng1) == fixed7_text(lat2) + fixed7_text(lng2))
            <==> (lat1 == lat2 && lng1 == lng2),
{
    let x1 = fixed7_text(lat1);
    let x2 = fixed7_text(lat2);
    let j1 = x1 + fixed7_text(lng1);
    let j2 = x2 + fixed7_text(lng2);
    if j1 == j2 {
        lemma_fixed7_point(lat1);
        lemma_fixed7_point(lat2);
        if x1.len() < x2.len() {
            assert(j1[x1.len() - 8] == '.');
            assert(j2[x1.len() - 8] == x2[x1.len() - 8]);
        } else if x2.len() < x1.len() {
            assert(j2[x2.len() - 8] == '.');
            assert(j1[x2.len() - 8] == x1[x2.len() - 8]);
        }
        assert(x1 =~= j1.subrange(0, x1.len() as int));
        assert(x2 =~= j2.subrange(0, x2.len() as int));
        assert(fixed7_text(lng1) =~= j1.subrange(x1.len() as int, j1.len() as int));
        assert(fixed7_text(lng2) =~= j2.subrange(x2.len() as int, j2.len() as int));
        lemma_fixed7_injective(lat1, lat2);
        lemma_fixed7_injective(lng1, lng2);
    }
}

/// A free-text address query.
pub struct Address {
    pub query: String,
}

impl Address {
    pub fn new(address: &String) -> (r: Self)
        ensures
            r.query@ == address@,
    {
        Address { query: address.clone() }
    }

    /// The key segment of this address: the digest of the raw query text.
    pub fn sha_hash(&self) -> (r: String)
        ensures
            r@ == digest_key(self.query@),
    {
        digest_text(self.query.as_str())
    }
}

/// A coordinate pair in canonical text form, seven decimals each.
pub struct Coords {
    pub lat: String,
    pub lng: String,
}

impl Coords {
    /// Canonicalizes a coordinate pair given in units of 1e-7 degree.
    pub fn new(lat_e7: i64, lng_e7: i64) -> (r: Self)
        ensures
            r.lat@ == fixed7_text(lat_e7 as int),
            r.lng@ == fixed7_text(lng_e7 as int),
    {
        Coords { lat: format_fixed7(lat_e7), lng: format_fixed7(lng_e7) }
    }

    /// The key segment of this pair: the digest of latitude text followed by longitude text.
    pub fn sha_hash(&self) -> (r: String)
        ensures
            r@ == digest_key(self.lat@ + self.lng@),
    {
        let joined = self.lat.clone().concat(self.lng.as_str());
        digest_text(joined.as_str())
    }
}

/// A lookup request: an address or a coordinate pair.
pub enum Query {
    Address(Address),
    Coordinates(Coords),
}

/// The canonical text of a query, the input of its digest.
pub open spec fn canonical_text(q: Query) -> Seq<char> {
    match q {
        Query::Address(a) => a.query@,
        Query::Coordinates(c) => c.lat@ + c.lng@,
    }
}

/// The key segment of a query.
pub open spec fn query_hash(q: Query) -> Seq<char> {
    digest_key(canonical_text(q))
}

impl Query {
    pub fn sha_hash(&self) -> (r: String)
        ensures
            r@ == query_hash(*self),
    {
        match self {
            Query::Address(a) => a.sha_hash(),
            Query::Coordinates(c) => c.sha_hash(),
        }
    }
}

/// The full cache key: the prefix, a slash, and the key segment.
pub open spec fn cache_key_of(prefix: Seq<char>, segment: Seq<char>) -> Seq<char> {
    prefix + seq!['/'] + segment
}

pub fn cache_key(prefix: &String, segment: &String) -> (r: String)
    ensures
        r@ == cache_key_of(prefix@, segment@),
{
    let mut s = prefix.clone();
    push_char(&mut s, '/');
    let r = s.concat(segment.as_str());
    assert(r@ =~= cache_key_of(prefix@, segment@));
    r
}

/// The cache key under which the result of a query is stored.
pub fn lookup_key(prefix: &String, q: &Query) -> (r: String)
    ensures
        r@ == cache_key_of(prefix@, query_hash(*q)),
{
    let segment = q.sha_hash();
    cache_key(prefix, &segment)
}

/// Queries with the same canonical text get the same cache key.
pub proof fn lemma_same_canonical_same_key(prefix: Seq<char>, q1: Query, q2: Query)
    requires
        canonical_text(q1) == canonical_text(q2),
    ensures
        query_hash(q1) == query_hash(q2),
        cache_key_of(prefix, query_hash(q1)) == cache_key_of(prefix, query_hash(q2)),
{
}

/// Two canonicalized coordinate pairs have the same canonical text exactly
/// when they are equal to seven decimals, and then they get the same key.
pub proof fn lemma_coords_identity(lat1: i64, lng1: i64, lat2: i64, lng2: i64, c1: Coords, c2: Coords)
    requires
        c1.lat@ == fixed7_text(lat1 as int),
        c1.lng@ == fixed7_text(lng1 as int),
        c2.lat@ == fixed7_text(lat2 as int),
        c2.lng@ == fixed7_text(lng2 as int),
    ensures
        (canonical_text(Query::Coordinates(c1)) == canonical_text(Query::Coordinates(c2)))
            <==> (lat1 == lat2 && lng1 == lng2),
        (lat1 == lat2 && lng1 == lng2)
            ==> query_hash(Query::Coordinates(c1)) == query_hash(Query::Coordinates(c2)),
{
    lemma_coords_text_injective(lat1 as int, lng1 as int, lat2 as int, lng2 as int);
}

} // verus!
