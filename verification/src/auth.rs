//! Password hashing helpers: Argon2id with a random 16-byte salt, stored as
//! `"<salt_hex>$<hash_hex>"`, and verification of a password against such
//! a string.
pub mod hex;

use vstd::prelude::*;
use vstd::string::*;
use vstd::utf8::*;
use crate::text::concat2;
use crate::auth::hex::{hex_text, hex_pairs, decode, push_hex, lemma_hex_round_trip, lemma_hex_digits};

verus! {

broadcast use vstd::string::group_string_axioms;

// ── Outside items ────────────────────────────────────────────────────────────

#[verifier::external_type_specification]
#[verifier::external_body]
pub struct ExArgon2Error(argon2::Error);

#[verifier::external_type_specification]
#[verifier::external_body]
pub struct ExRandomError(getrandom::Error);

/// Length of the random salt in bytes (16 bytes = 128 bits).
pub const SALT_LEN: usize = 16;
/// Length of the output hash in bytes.
pub const HASH_LEN: usize = 32;
/// Argon2 memory cost in KiB.
pub const M_COST: u32 = 19_456;
/// Argon2 number of passes.
pub const T_COST: u32 = 2;
/// Argon2 degree of parallelism.
pub const P_COST: u32 = 1;
/// Argon2 version number.
pub const ARGON2_VERSION: u32 = 0x13;

/// What `Argon2::hash_password_into` of the argon2 crate (no secret, no
/// associated data) writes into an `out_len`-byte buffer for the algorithm
/// named `algorithm`, the version, the memory, pass and lane costs, a
/// password and a salt.
pub uninterp spec fn argon2_digest(
    algorithm: Seq<char>,
    version: u32,
    m_cost: u32,
    t_cost: u32,
    p_cost: u32,
    out_len: int,
    password: Seq<u8>,
    salt: Seq<u8>,
) -> Seq<u8>;

/// The names `Algorithm::new` accepts.
pub open spec fn argon2_algorithm(name: Seq<char>) -> bool {
    name == "argon2d"@ || name == "argon2i"@ || name == "argon2id"@
}

/// The costs and output length `Params::new` accepts.
pub open spec fn argon2_params(m_cost: u32, t_cost: u32, p_cost: u32, output_len: int) -> bool {
    &&& m_cost >= 8
    &&& m_cost >= 8 * p_cost
    &&& t_cost >= 1
    &&& 1 <= p_cost <= 0xFF_FFFF
    &&& 4 <= output_len <= 0xFFFF_FFFF
}

/// The inputs `Argon2::hash_password_into` accepts when its parameters fix
/// the output length at `output_len`: the buffer must be that long, the salt
/// 8 to 2^32 - 1 bytes, the password at most 2^32 - 1 bytes.
pub open spec fn argon2_accepts(password_len: int, salt_len: int, out_len: int, output_len: int) -> bool {
    &&& out_len == output_len
    &&& 8 <= salt_len <= 0xFFFF_FFFF
    &&& password_len <= 0xFFFF_FFFF
}

/// The hash this library stores: Argon2id, version 0x13, m = 19 456 KiB,
/// t = 2, p = 1, 32 bytes.
pub open spec fn argon2id_digest(password: Seq<u8>, salt: Seq<u8>) -> Seq<u8> {
    argon2_digest("argon2id"@, ARGON2_VERSION, M_COST, T_COST, P_COST, HASH_LEN as int, password, salt)
}

/// Builds `Argon2::new(Algorithm::new(algorithm), Version::try_from(version),
/// Params::new(m_cost, t_cost, p_cost, Some(output_len)))` of the argon2
/// crate and calls its `hash_password_into` on a buffer of `out_len` bytes.
/// The three constructors succeed on the inputs `requires` admits.
/// Claimed: the hash succeeds exactly on the inputs `argon2_accepts`
/// describes (the length checks its source makes before hashing), and then
/// the buffer holds the digest, which depends on the arguments alone.
#[verifier::external_body]
fn argon2_hash(
    algorithm: &str,
    version: u32,
    m_cost: u32,
    t_cost: u32,
    p_cost: u32,
    output_len: usize,
    password: &[u8],
    salt: &[u8],
    out_len: usize,
) -> (r: Result<Vec<u8>, argon2::Error>)
    requires
        argon2_algorithm(algorithm@),
        version == 0x10 || version == 0x13,
        argon2_params(m_cost, t_cost, p_cost, output_len as int),
    ensures
        r is Ok <==> argon2_accepts(
            password@.len() as int,
            salt@.len() as int,
            out_len as int,
            output_len as int,
        ),
        r matches Ok(v) ==> v@ == argon2_digest(
            algorithm@,
            version,
            m_cost,
            t_cost,
            p_cost,
            out_len as int,
            password@,
            salt@,
        ) && v@.len() == out_len,
{
    let alg = argon2::Algorithm::new(algorithm).expect("valid algorithm");
    let ver = argon2::Version::try_from(version).expect("valid version");
    let params = argon2::Params::new(m_cost, t_cost, p_cost, Some(output_len)).expect("valid params");
    let mut out = vec![0u8; out_len];
    argon2::Argon2::new(alg, ver, params).hash_password_into(password, salt, &mut out).map(|_| out)
}

/// Runs the library's Argon2id configuration over `password` and `salt`
/// into a buffer of `out_len` bytes.
fn argon2id_hash(password: &[u8], salt: &[u8], out_len: usize) -> (r: Result<Vec<u8>, argon2::Error>)
    ensures
        r is Ok <==> argon2_accepts(
            password@.len() as int,
            salt@.len() as int,
            out_len as int,
            HASH_LEN as int,
        ),
        r matches Ok(v) ==> v@ == argon2id_digest(password@, salt@) && v@.len() == out_len,
{
    argon2_hash("argon2id", ARGON2_VERSION, M_COST, T_COST, P_COST, HASH_LEN, password, salt, out_len)
}

/// Calls `getrandom::getrandom` on a buffer of `n` bytes. Claimed: on
/// success the buffer, of length `n`, is returned; its contents are random
/// and nothing is claimed about them.
#[verifier::external_body]
pub(crate) fn random_bytes(n: usize) -> (r: Result<Vec<u8>, getrandom::Error>)
    ensures
        r matches Ok(v) ==> v@.len() == n,
{
    let mut buf = vec![0u8; n];
    getrandom::getrandom(&mut buf).map(|_| buf)
}

/// The text of a random-source error (its `Display` output).
#[verifier::external_body]
pub(crate) fn random_error_text(e: getrandom::Error) -> String {
    e.to_string()
}

/// The text of an Argon2 error (its `Display` output).
#[verifier::external_body]
fn argon2_error_text(e: argon2::Error) -> String {
    e.to_string()
}

// ── Specification ────────────────────────────────────────────────────────────

/// `m` starts with `p`.
pub open spec fn starts_with(m: Seq<char>, p: Seq<char>) -> bool {
    m.len() >= p.len() && m.subrange(0, p.len() as int) == p
}

/// The position of the first `c` in `s`, if any.
pub open spec fn first_index(s: Seq<char>, c: char) -> Option<int>
    decreases s.len(),
{
    if s.len() == 0 {
        None
    } else if s[0] == c {
        Some(0)
    } else {
        match first_index(s.drop_first(), c) {
            Some(i) => Some(i + 1),
            None => None,
        }
    }
}

/// `s` split around its first `$`.
pub open spec fn split_at_dollar(s: Seq<char>) -> Option<(Seq<char>, Seq<char>)> {
    match first_index(s, '$') {
        Some(i) => Some((s.subrange(0, i), s.subrange(i + 1, s.len() as int))),
        None => None,
    }
}

/// Whether `password` matches a stored `"<salt_hex>$<hash_hex>"` string:
/// both halves decode as hex, Argon2id accepts the inputs, and the digest
/// of the password with that salt equals the stored hash.
pub open spec fn verifies(password: Seq<char>, stored: Seq<char>) -> bool {
    match split_at_dollar(stored) {
        None => false,
        Some((a, b)) => match (hex_pairs(encode_utf8(a)), hex_pairs(encode_utf8(b))) {
            (Some(salt), Some(expected)) => argon2_accepts(
                encode_utf8(password).len() as int,
                salt.len() as int,
                expected.len() as int,
                HASH_LEN as int,
            ) && argon2id_digest(encode_utf8(password), salt) == expected,
            _ => false,
        },
    }
}

/// `stored` is what hashing `password` with the 16-byte `salt` writes.
pub open spec fn hashed_with(password: Seq<char>, salt: Seq<u8>, stored: Seq<char>) -> bool {
    let digest = argon2id_digest(encode_utf8(password), salt);
    &&& salt.len() == SALT_LEN
    &&& encode_utf8(password).len() <= 0xFFFF_FFFF
    &&& digest.len() == HASH_LEN
    &&& stored == hex_text(salt) + "$"@ + hex_text(digest)
}

/// `stored` is a hash of `password` under some salt.
pub open spec fn is_hash_of(password: Seq<char>, stored: Seq<char>) -> bool {
    exists|salt: Seq<u8>| #[trigger] hashed_with(password, salt, stored)
}

// ── Functions ────────────────────────────────────────────────────────────────

/// Hashes `password` under the given 16-byte salt into the stored form
/// `"salt_hex$hash_hex"`.
pub fn hash_with_salt(password: &str, salt: &[u8]) -> (r: Result<String, String>)
    requires
        salt@.len() == SALT_LEN,
    ensures
        r is Ok <==> encode_utf8(password@).len() <= 0xFFFF_FFFF,
        r matches Ok(s) ==> hashed_with(password@, salt@, s@),
        r matches Err(m) ==> starts_with(m@, "Hash error: "@),
{
    let hash = match argon2id_hash(password.as_bytes(), salt, HASH_LEN) {
        Ok(h) => h,
        Err(e) => {
            let t = argon2_error_text(e);
            let m = concat2("Hash error: ", t.as_str());
            assert(m@.subrange(0, "Hash error: "@.len() as int) =~= "Hash error: "@);
            return Err(m);
        },
    };
    let mut out = String::new();
    push_hex(&mut out, salt);
    out.append("$");
    push_hex(&mut out, hash.as_slice());
    assert(hashed_with(password@, salt@, out@)) by {
        assert(out@ =~= hex_text(salt@) + "$"@ + hex_text(hash@));
    }
    Ok(out)
}

/// Hash a plaintext password. Returns a `"salt_hex$hash_hex"` string that
/// should be stored verbatim; the salt is 16 random bytes.
pub fn hash_password(password: &str) -> (r: Result<String, String>)
    ensures
        r matches Ok(s) ==> is_hash_of(password@, s@),
        encode_utf8(password@).len() > 0xFFFF_FFFF ==> r is Err,
        r matches Err(m) ==> starts_with(m@, "RNG error: "@) || (starts_with(m@, "Hash error: "@)
            && encode_utf8(password@).len() > 0xFFFF_FFFF),
{
    let salt = match random_bytes(SALT_LEN) {
        Ok(s) => s,
        Err(e) => {
            let t = random_error_text(e);
            let m = concat2("RNG error: ", t.as_str());
            assert(m@.subrange(0, "RNG error: "@.len() as int) =~= "RNG error: "@);
            return Err(m);
        },
    };
    let r = hash_with_salt(password, salt.as_slice());
    assert(r matches Ok(s) ==> hashed_with(password@, salt@, s@));
    r
}

/// When the first `c` of `s` is at `i` (or `s` has none and `i` is its
/// length), `first_index` finds it there.
pub(crate) proof fn lemma_first_index(s: Seq<char>, c: char, i: int)
    requires
        0 <= i <= s.len(),
        forall|j: int| 0 <= j < i ==> s[j] != c,
        i < s.len() ==> s[i] == c,
    ensures
        first_index(s, c) == if i < s.len() {
            Some(i)
        } else {
            None::<int>
        },
    decreases i,
{
    if i > 0 {
        lemma_first_index(s.drop_first(), c, i - 1);
    }
}

/// Constant-time comparison of two byte strings.
fn constant_time_eq(a: &[u8], b: &[u8]) -> (r: bool)
    ensures
        r == (a@ == b@),
{
    if a.len() != b.len() {
        return false;
    }
    let mut acc: u8 = 0;
    let mut i: usize = 0;
    while i < a.len()
        invariant
            a@.len() == b@.len(),
            i <= a@.len(),
            (acc == 0) == (forall|j: int| 0 <= j < i ==> a@[j] == b@[j]),
        decreases a@.len() - i,
    {
        let x = a[i];
        let y = b[i];
        let next = acc | (x ^ y);
        assert((next == 0) == (acc == 0 && x == y)) by (bit_vector)
            requires
                next == acc | (x ^ y),
        ;
        acc = next;
        i = i + 1;
    }
    if acc == 0 {
        assert(a@ =~= b@);
    }
    acc == 0
}

/// Verify a plaintext password against a stored `"salt_hex$hash_hex"` string.
/// Returns `true` if the password is correct.
pub fn verify_password(password: &str, stored: &str) -> (r: bool)
    ensures
        r == verifies(password@, stored@),
{
    let n = stored.unicode_len();
    let mut i: usize = 0;
    while i < n && stored.get_char(i) != '$'
        invariant
            n == stored@.len(),
            i <= n,
            forall|j: int| 0 <= j < i ==> stored@[j] != '$',
        decreases n - i,
    {
        i = i + 1;
    }
    proof {
        lemma_first_index(stored@, '$', i as int);
    }
    if i == n {
        return false;
    }
    let salt_hex = stored.substring_char(0, i);
    let hash_hex = stored.substring_char(i + 1, n);
    let salt = match decode(salt_hex) {
        Ok(s) => s,
        Err(_) => return false,
    };
    let expected = match decode(hash_hex) {
        Ok(e) => e,
        Err(_) => return false,
    };
    match argon2id_hash(password.as_bytes(), salt.as_slice(), expected.len()) {
        Ok(actual) => constant_time_eq(actual.as_slice(), expected.as_slice()),
        Err(_) => false,
    }
}

/// A password verifies against every string that hashing it produces.
pub proof fn lemma_hash_then_verify(password: Seq<char>, stored: Seq<char>)
    requires
        is_hash_of(password, stored),
    ensures
        verifies(password, stored),
{
    let salt = choose|salt: Seq<u8>| #[trigger] hashed_with(password, salt, stored);
    let digest = argon2id_digest(encode_utf8(password), salt);
    let a = hex_text(salt);
    let b = hex_text(digest);
    lemma_hex_round_trip(salt);
    lemma_hex_round_trip(digest);
    reveal_strlit("$");
    assert(stored =~= a + seq!['$'] + b);
    assert forall|j: int| 0 <= j < a.len() implies stored[j] != '$' by {
        assert(stored[j] == a[j]);
        lemma_hex_digits(salt, j);
    }
    lemma_first_index(stored, '$', a.len() as int);
    assert(stored.subrange(0, a.len() as int) =~= a);
    assert(stored.subrange(a.len() as int + 1, stored.len() as int) =~= b);
}

} // verus!
