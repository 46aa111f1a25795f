//! Logic of the account and song server: password and email rules, email
//! encryption at rest, lookup hashes, bearer tokens and login decisions.
pub mod hex;

use vstd::prelude::*;
use vstd::string::*;
use vstd::utf8::*;
use crate::text::{concat2, owned, push_decimal, decimal, trim, trim_str, to_lowercase, unicode_lowercase};
use crate::auth::{random_bytes, random_error_text, starts_with, first_index};
use crate::auth::hex::{hex_text, push_hex, lemma_hex_round_trip, lemma_hex_digits, lemma_pairs_all_hex};
use crate::server::hex::{decode, decoded};

verus! {

broadcast use vstd::string::group_string_axioms;

// ── Password and email rules ─────────────────────────────────────────────────

/// Whether a character has the Unicode `Uppercase` property (what
/// `char::is_uppercase` of std tests).
pub uninterp spec fn unicode_uppercase(c: char) -> bool;

/// Calls `char::is_uppercase` of std. Claimed: the result is the character's
/// Unicode `Uppercase` property, which among ASCII characters holds exactly
/// for `A`–`Z`.
#[verifier::external_body]
fn is_uppercase(c: char) -> (r: bool)
    ensures
        r == unicode_uppercase(c),
        c <= '\u{7f}' ==> (r <==> ('A' <= c && c <= 'Z')),
{
    c.is_uppercase()
}

/// An ASCII decimal digit.
pub open spec fn is_ascii_digit(c: char) -> bool {
    '0' <= c && c <= '9'
}

/// An ASCII character that is neither a letter nor a digit.
pub open spec fn is_ascii_symbol(c: char) -> bool {
    c <= '\u{7f}' && !(('0' <= c && c <= '9') || ('A' <= c && c <= 'Z') || ('a' <= c && c <= 'z'))
}

/// The first rule a password breaks, as its message, or `None` when it has
/// at least 8 characters, an uppercase letter, an ASCII digit and an ASCII
/// symbol.
pub open spec fn password_problem(p: Seq<char>) -> Option<Seq<char>> {
    if p.len() < 8 {
        Some("Password must be at least 8 characters long."@)
    } else if !(exists|i: int| 0 <= i < p.len() && unicode_uppercase(#[trigger] p[i])) {
        Some("Password must contain at least one uppercase letter."@)
    } else if !(exists|i: int| 0 <= i < p.len() && is_ascii_digit(#[trigger] p[i])) {
        Some("Password must contain at least one number."@)
    } else if !(exists|i: int| 0 <= i < p.len() && is_ascii_symbol(#[trigger] p[i])) {
        Some("Password must contain at least one symbol (e.g. !@#$%)."@)
    } else {
        None
    }
}

/// Returns `Err` with a human-readable message if the password does not meet
/// the minimum requirements: 8+ chars, ≥1 uppercase, ≥1 digit, ≥1 symbol.
pub fn validate_password_strength(password: &str) -> (r: Result<(), String>)
    ensures
        match r {
            Ok(_) => password_problem(password@) is None,
            Err(m) => password_problem(password@) == Some(m@),
        },
{
    let n = password.unicode_len();
    if n < 8 {
        return Err(owned("Password must be at least 8 characters long."));
    }
    let mut upper = false;
    let mut digit = false;
    let mut symbol = false;
    let mut i: usize = 0;
    while i < n
        invariant
            n == password@.len(),
            i <= n,
            upper == (exists|j: int| 0 <= j < i && unicode_uppercase(#[trigger] password@[j])),
            digit == (exists|j: int| 0 <= j < i && is_ascii_digit(#[trigger] password@[j])),
            symbol == (exists|j: int| 0 <= j < i && is_ascii_symbol(#[trigger] password@[j])),
        decreases n - i,
    {
        let c = password.get_char(i);
        if is_uppercase(c) {
            upper = true;
        }
        if '0' <= c && c <= '9' {
            digit = true;
        }
        if c <= '\u{7f}' && !(('0' <= c && c <= '9') || ('A' <= c && c <= 'Z') || ('a' <= c && c
            <= 'z')) {
            symbol = true;
        }
        assert(upper == (exists|j: int| 0 <= j < i + 1 && unicode_uppercase(#[trigger] password@[j]))) by {
            if unicode_uppercase(password@[i as int]) {
                assert(password@[i as int] == c);
            }
        }
        assert(digit == (exists|j: int| 0 <= j < i + 1 && is_ascii_digit(#[trigger] password@[j])));
        assert(symbol == (exists|j: int| 0 <= j < i + 1 && is_ascii_symbol(#[trigger] password@[j])));
        i = i + 1;
    }
    if !upper {
        return Err(owned("Password must contain at least one uppercase letter."));
    }
    if !digit {
        return Err(owned("Password must contain at least one number."));
    }
    if !symbol {
        return Err(owned("Password must contain at least one symbol (e.g. !@#$%)."));
    }
    Ok(())
}

/// A password is accepted exactly when it has at least 8 characters, an
/// uppercase letter, one of the ten ASCII digits `0`–`9` and an ASCII
/// character that is neither a letter nor a digit; a password of 8 or more
/// characters with an uppercase letter but none of `0`–`9` is refused for
/// its missing number.
pub proof fn lemma_password_rules(p: Seq<char>)
    ensures
        password_problem(p) is None <==> {
            &&& p.len() >= 8
            &&& exists|i: int| 0 <= i < p.len() && unicode_uppercase(#[trigger] p[i])
            &&& exists|i: int| 0 <= i < p.len() && '0' <= #[trigger] p[i] <= '9'
            &&& exists|i: int|
                0 <= i < p.len() && #[trigger] p[i] <= '\u{7f}' && !(('0' <= p[i] && p[i] <= '9')
                    || ('A' <= p[i] && p[i] <= 'Z') || ('a' <= p[i] && p[i] <= 'z'))
        },
        p.len() >= 8 && (exists|i: int| 0 <= i < p.len() && unicode_uppercase(#[trigger] p[i]))
            && (forall|i: int| 0 <= i < p.len() ==> !('0' <= #[trigger] p[i] <= '9'))
            ==> password_problem(p) == Some("Password must contain at least one number."@),
{
    if exists|i: int| 0 <= i < p.len() && '0' <= #[trigger] p[i] <= '9' {
        let i = choose|i: int| 0 <= i < p.len() && '0' <= #[trigger] p[i] <= '9';
        assert(is_ascii_digit(p[i]));
    }
    if exists|i: int| 0 <= i < p.len() && is_ascii_digit(#[trigger] p[i]) {
        let i = choose|i: int| 0 <= i < p.len() && is_ascii_digit(#[trigger] p[i]);
        assert('0' <= p[i] <= '9');
    }
    if exists|i: int|
        0 <= i < p.len() && #[trigger] p[i] <= '\u{7f}' && !(('0' <= p[i] && p[i] <= '9') || ('A'
            <= p[i] && p[i] <= 'Z') || ('a' <= p[i] && p[i] <= 'z')) {
        let i = choose|i: int|
            0 <= i < p.len() && #[trigger] p[i] <= '\u{7f}' && !(('0' <= p[i] && p[i] <= '9') || (
            'A' <= p[i] && p[i] <= 'Z') || ('a' <= p[i] && p[i] <= 'z'));
        assert(is_ascii_symbol(p[i]));
    }
    if exists|i: int| 0 <= i < p.len() && is_ascii_symbol(#[trigger] p[i]) {
        let i = choose|i: int| 0 <= i < p.len() && is_ascii_symbol(#[trigger] p[i]);
        assert(p[i] <= '\u{7f}');
    }
}

/// Whether `s` holds the character `c`.
pub open spec fn has_char(s: Seq<char>, c: char) -> bool {
    exists|i: int| 0 <= i < s.len() && s[i] == c
}

/// Whether `s` contains the character `c`.
pub fn contains_char(s: &str, c: char) -> (r: bool)
    ensures
        r == has_char(s@, c),
{
    let n = s.unicode_len();
    let mut i: usize = 0;
    while i < n
        invariant
            n == s@.len(),
            i <= n,
            forall|j: int| 0 <= j < i ==> s@[j] != c,
        decreases n - i,
    {
        if s.get_char(i) == c {
            return true;
        }
        i = i + 1;
    }
    false
}

/// Basic email format check: the address must contain `@` and `.`.
pub fn validate_email(email: &str) -> (r: Result<(), String>)
    ensures
        r is Ok <==> has_char(email@, '@') && has_char(email@, '.'),
        r matches Err(m) ==> m@ == "Invalid email address."@,
{
    if contains_char(email, '@') && contains_char(email, '.') {
        Ok(())
    } else {
        Err(owned("Invalid email address."))
    }
}

/// The form in which an email address is looked up and stored: without
/// surrounding whitespace, in lowercase.
pub fn normalize_email(raw: &str) -> (r: String)
    ensures
        r@ == unicode_lowercase(trim(raw@)),
{
    to_lowercase(trim_str(raw))
}

// ── Lookup hash ──────────────────────────────────────────────────────────────

/// The SHA-256 digest of some bytes.
pub uninterp spec fn sha256(data: Seq<u8>) -> Seq<u8>;

/// Calls `Sha256::digest` of the sha2 crate. Claimed: the result is the
/// 32-byte SHA-256 digest of the input, a function of the input alone.
#[verifier::external_body]
fn sha256_digest(data: &[u8]) -> (r: Vec<u8>)
    ensures
        r@ == sha256(data@),
        r@.len() == 32,
{
    <sha2::Sha256 as sha2::Digest>::digest(data).to_vec()
}

/// SHA-256 of the email address, hex-encoded, used as a lookup key.
pub fn email_sha256(email: &str) -> (r: String)
    ensures
        r@ == hex_text(sha256(email.spec_bytes())),
{
    let d = sha256_digest(email.as_bytes());
    crate::server::hex::encode(d.as_slice())
}

// ── Email encryption at rest ─────────────────────────────────────────────────

#[verifier::external_type_specification]
#[verifier::external_body]
pub struct ExAeadError(aes_gcm::Error);

#[verifier::external_type_specification]
#[verifier::external_body]
pub struct ExFromUtf8Error(std::string::FromUtf8Error);

/// The largest plaintext, in bytes, that AES-GCM accepts.
pub open spec fn aes_gcm_max_plaintext() -> int {
    0x10_0000_0000
}

/// What AES-256-GCM encryption (no associated data) produces for a key, a
/// nonce and a plaintext: the ciphertext followed by the 16-byte tag.
pub uninterp spec fn aes256gcm_seal(key: Seq<u8>, nonce: Seq<u8>, plaintext: Seq<u8>) -> Seq<u8>;

/// Calls `Aead::encrypt` of aes-gcm for `Aes256Gcm` with the given key and
/// nonce. Claimed: it succeeds exactly when the plaintext is at most 2^36
/// bytes (the only check its source makes), and then returns the sealed
/// message for this key, nonce and plaintext, which no other plaintext of
/// at most 2^36 bytes seals to under the same key and nonce (counter-mode
/// encryption is injective in the plaintext).
#[verifier::external_body]
fn aes_seal(key: &[u8], nonce: &[u8], plaintext: &[u8]) -> (r: Result<Vec<u8>, aes_gcm::Error>)
    requires
        key@.len() == 32,
        nonce@.len() == 12,
    ensures
        r is Ok <==> plaintext@.len() <= aes_gcm_max_plaintext(),
        r matches Ok(c) ==> c@ == aes256gcm_seal(key@, nonce@, plaintext@),
        r matches Ok(c) ==> forall|q: Seq<u8>|
            q.len() <= aes_gcm_max_plaintext() && #[trigger] aes256gcm_seal(key@, nonce@, q) == c@
                ==> q == plaintext@,
{
    let cipher = <aes_gcm::Aes256Gcm as aes_gcm::aead::KeyInit>::new(
        aes_gcm::Key::<aes_gcm::Aes256Gcm>::from_slice(key),
    );
    aes_gcm::aead::Aead::encrypt(&cipher, aes_gcm::Nonce::from_slice(nonce), plaintext)
}

/// Calls `Aead::decrypt` of aes-gcm for `Aes256Gcm` with the given key and
/// nonce. Claimed: a message sealed under this key and nonce opens to the
/// plaintext sealed; what it opens to is the message without its 16-byte
/// tag, at most 2^36 + 16 bytes long (decryption checks the message body
/// against that bound); when it is at most 2^36 bytes, the message is its
/// seal (the tag is checked).
/// Nothing is said of what a longer opened plaintext is: encryption never
/// produces such messages.
#[verifier::external_body]
fn aes_open(key: &[u8], nonce: &[u8], ciphertext: &[u8]) -> (r: Result<Vec<u8>, aes_gcm::Error>)
    requires
        key@.len() == 32,
        nonce@.len() == 12,
    ensures
        (exists|p: Seq<u8>|
            p.len() <= aes_gcm_max_plaintext() && ciphertext@ == #[trigger] aes256gcm_seal(
                key@,
                nonce@,
                p,
            )) ==> r is Ok,
        r matches Ok(v) ==> forall|p: Seq<u8>|
            p.len() <= aes_gcm_max_plaintext() && ciphertext@ == #[trigger] aes256gcm_seal(
                key@,
                nonce@,
                p,
            ) ==> v@ == p,
        r matches Ok(v) ==> v@.len() <= aes_gcm_max_plaintext() + 16,
        r matches Ok(v) ==> v@.len() + 16 == ciphertext@.len(),
        r matches Ok(v) ==> (v@.len() <= aes_gcm_max_plaintext() ==> ciphertext@
            == aes256gcm_seal(key@, nonce@, v@)),
{
    let cipher = <aes_gcm::Aes256Gcm as aes_gcm::aead::KeyInit>::new(
        aes_gcm::Key::<aes_gcm::Aes256Gcm>::from_slice(key),
    );
    aes_gcm::aead::Aead::decrypt(&cipher, aes_gcm::Nonce::from_slice(nonce), ciphertext)
}

/// The text of an AEAD error: its `Display` output, which the aead crate
/// writes as the fixed string "aead::Error".
#[verifier::external_body]
fn aead_error_text(e: aes_gcm::Error) -> (r: String)
    ensures
        r@ == "aead::Error"@,
{
    e.to_string()
}

/// Calls `String::from_utf8` of std. Claimed: it succeeds exactly on valid
/// UTF-8, and the string then holds the characters those bytes encode.
#[verifier::external_body]
fn string_from_utf8(bytes: Vec<u8>) -> (r: Result<String, std::string::FromUtf8Error>)
    ensures
        r is Ok <==> valid_utf8(bytes@),
        r matches Ok(s) ==> encode_utf8(s@) == bytes@,
{
    String::from_utf8(bytes)
}

/// The text of a UTF-8 error (its `Display` output).
#[verifier::external_body]
fn utf8_error_text(e: std::string::FromUtf8Error) -> String {
    e.to_string()
}

/// An AES-256-GCM key used to encrypt email addresses at rest.
pub struct EmailCipher {
    key: Vec<u8>,
}

impl EmailCipher {
    #[verifier::type_invariant]
    spec fn inv(self) -> bool {
        self.key@.len() == 32
    }

    /// The key bytes.
    pub closed spec fn key_bytes(self) -> Seq<u8> {
        self.key@
    }

    /// A cipher for a 32-byte key; `None` for a key of any other length.
    pub fn from_key(key: &[u8]) -> (r: Option<EmailCipher>)
        ensures
            r is Some <==> key@.len() == 32,
            r matches Some(c) ==> c.key_bytes() == key@,
    {
        if key.len() == 32 {
            let mut k: Vec<u8> = Vec::new();
            let mut i: usize = 0;
            while i < key.len()
                invariant
                    key@.len() == 32,
                    i <= key@.len(),
                    k@ == key@.take(i as int),
                decreases key@.len() - i,
            {
                k.push(key[i]);
                assert(k@ =~= key@.take(i + 1));
                i = i + 1;
            }
            assert(k@ =~= key@);
            Some(EmailCipher { key: k })
        } else {
            None
        }
    }
}

/// `stored` is what encrypting `plaintext` under `key` with the 12-byte
/// `nonce` writes: `"<nonce_hex>:<ciphertext_hex>"`.
pub open spec fn encrypted_with(key: Seq<u8>, nonce: Seq<u8>, plaintext: Seq<char>, stored: Seq<char>) -> bool {
    &&& nonce.len() == 12
    &&& encode_utf8(plaintext).len() <= aes_gcm_max_plaintext()
    &&& forall|q: Seq<u8>|
        q.len() <= aes_gcm_max_plaintext() && #[trigger] aes256gcm_seal(key, nonce, q)
            == aes256gcm_seal(key, nonce, encode_utf8(plaintext)) ==> q == encode_utf8(plaintext)
    &&& stored == hex_text(nonce) + ":"@ + hex_text(aes256gcm_seal(key, nonce, encode_utf8(plaintext)))
}

/// `stored` is an encryption of `plaintext` under `key` with some nonce.
pub open spec fn is_encryption_of(key: Seq<u8>, plaintext: Seq<char>, stored: Seq<char>) -> bool {
    exists|nonce: Seq<u8>| #[trigger] encrypted_with(key, nonce, plaintext, stored)
}

/// Encrypts `plaintext` under the cipher's key with the given 12-byte nonce
/// into the stored form `"<nonce_hex>:<ciphertext_hex>"`.
pub fn encrypt_with_nonce(cipher: &EmailCipher, nonce: &[u8], plaintext: &str) -> (r: Result<String, String>)
    requires
        nonce@.len() == 12,
    ensures
        r is Ok <==> plaintext.spec_bytes().len() <= aes_gcm_max_plaintext(),
        r matches Ok(s) ==> encrypted_with(cipher.key_bytes(), nonce@, plaintext@, s@),
        r matches Err(m) ==> m@ == "Encrypt error: aead::Error"@,
{
    proof {
        use_type_invariant(cipher);
    }
    let ciphertext = match aes_seal(cipher.key.as_slice(), nonce, plaintext.as_bytes()) {
        Ok(c) => c,
        Err(e) => {
            let t = aead_error_text(e);
            let m = concat2("Encrypt error: ", t.as_str());
            proof {
                reveal_strlit("Encrypt error: ");
                reveal_strlit("aead::Error");
                reveal_strlit("Encrypt error: aead::Error");
            }
            assert(m@ =~= "Encrypt error: aead::Error"@);
            return Err(m);
        },
    };
    let mut out = String::new();
    push_hex(&mut out, nonce);
    out.append(":");
    push_hex(&mut out, ciphertext.as_slice());
    assert(encrypted_with(cipher.key_bytes(), nonce@, plaintext@, out@)) by {
        assert(out@ =~= hex_text(nonce@) + ":"@ + hex_text(ciphertext@));
    }
    Ok(out)
}

/// Encrypt a plaintext string with AES-256-GCM under a random 12-byte nonce.
/// Returns `"<nonce_hex>:<ciphertext_hex>"`.
pub fn encrypt(cipher: &EmailCipher, plaintext: &str) -> (r: Result<String, String>)
    ensures
        r matches Ok(s) ==> is_encryption_of(cipher.key_bytes(), plaintext@, s@),
        plaintext.spec_bytes().len() > aes_gcm_max_plaintext() ==> r is Err,
        r matches Err(m) ==> starts_with(m@, "RNG error: "@) || (m@ == "Encrypt error: aead::Error"@
            && plaintext.spec_bytes().len() > aes_gcm_max_plaintext()),
{
    let nonce = match random_bytes(12) {
        Ok(n) => n,
        Err(e) => {
            let t = random_error_text(e);
            let m = concat2("RNG error: ", t.as_str());
            assert(m@.subrange(0, "RNG error: "@.len() as int) =~= "RNG error: "@);
            return Err(m);
        },
    };
    let r = encrypt_with_nonce(cipher, nonce.as_slice(), plaintext);
    assert(r matches Ok(s) ==> encrypted_with(cipher.key_bytes(), nonce@, plaintext@, s@));
    r
}

/// The message for a stored value without a `:`.
pub open spec fn format_message() -> Seq<char> {
    "Invalid encrypted format"@
}

/// What decrypting a stored value gives.
pub enum Decrypted {
    /// The plaintext.
    Text(Seq<char>),
    /// Refused, with this message.
    Refused(Seq<char>),
    /// The opened bytes are not UTF-8 (the message is the text of std's
    /// UTF-8 error).
    NotUtf8,
    /// The message, of this many bytes, is no seal under the key of a
    /// plaintext AES-GCM encrypts: it is refused as
    /// "Decrypt error: aead::Error" unless it opens to a plaintext longer
    /// than 2^36 bytes, which only a message of 2^36 + 17 to 2^36 + 32 bytes
    /// can do.
    Unsealed(nat),
}

/// What decrypting `stored` under `key` gives (see `Decrypted`).
pub open spec fn decryption(key: Seq<u8>, stored: Seq<char>) -> Decrypted {
    match first_index(stored, ':') {
        None => Decrypted::Refused(format_message()),
        Some(i) => {
            let nonce_hex = stored.subrange(0, i);
            let ct_hex = stored.subrange(i + 1, stored.len() as int);
            match (decoded(encode_utf8(nonce_hex)), decoded(encode_utf8(ct_hex))) {
                (Err(m), _) => Decrypted::Refused(m),
                (Ok(_), Err(m)) => Decrypted::Refused(m),
                (Ok(nonce), Ok(ct)) => if nonce.len() != 12 {
                    Decrypted::Refused(
                        "Invalid nonce length: expected 12 bytes, got "@ + decimal(nonce.len()),
                    )
                } else if exists|p: Seq<u8>|
                    p.len() <= aes_gcm_max_plaintext() && ct == #[trigger] aes256gcm_seal(
                        key,
                        nonce,
                        p,
                    ) {
                    let p = choose|p: Seq<u8>|
                        p.len() <= aes_gcm_max_plaintext() && ct == #[trigger] aes256gcm_seal(
                            key,
                            nonce,
                            p,
                        );
                    if valid_utf8(p) {
                        Decrypted::Text(decode_utf8(p))
                    } else {
                        Decrypted::NotUtf8
                    }
                } else {
                    Decrypted::Unsealed(ct.len())
                },
            }
        },
    }
}

/// Decrypt a `"<nonce_hex>:<ciphertext_hex>"` string produced by `encrypt`.
pub fn decrypt(cipher: &EmailCipher, stored: &str) -> (r: Result<String, String>)
    ensures
        match decryption(cipher.key_bytes(), stored@) {
            Decrypted::Text(p) => r matches Ok(s) && s@ == p,
            Decrypted::Refused(m) => r matches Err(e) && e@ == m,
            Decrypted::NotUtf8 => r is Err,
            Decrypted::Unsealed(n) => {
                &&& (n <= aes_gcm_max_plaintext() + 16 || n > aes_gcm_max_plaintext() + 32) ==> (r matches Err(
                    e,
                ) && e@ == "Decrypt error: aead::Error"@)
                &&& r matches Ok(s) ==> aes_gcm_max_plaintext() < encode_utf8(s@).len() && n
                    == encode_utf8(s@).len() + 16
            },
        },
{
    proof {
        use_type_invariant(cipher);
    }
    let n = stored.unicode_len();
    let mut i: usize = 0;
    while i < n && stored.get_char(i) != ':'
        invariant
            n == stored@.len(),
            i <= n,
            forall|j: int| 0 <= j < i ==> stored@[j] != ':',
        decreases n - i,
    {
        i = i + 1;
    }
    proof {
        crate::auth::lemma_first_index(stored@, ':', i as int);
    }
    if i == n {
        return Err(owned("Invalid encrypted format"));
    }
    let nonce_hex = stored.substring_char(0, i);
    let ct_hex = stored.substring_char(i + 1, n);
    let nonce = match decode(nonce_hex) {
        Ok(v) => v,
        Err(m) => return Err(m),
    };
    let ciphertext = match decode(ct_hex) {
        Ok(v) => v,
        Err(m) => return Err(m),
    };
    if nonce.len() != 12 {
        let mut m = owned("Invalid nonce length: expected 12 bytes, got ");
        push_decimal(&mut m, nonce.len() as u64);
        return Err(m);
    }
    let plain = match aes_open(cipher.key.as_slice(), nonce.as_slice(), ciphertext.as_slice()) {
        Ok(p) => p,
        Err(e) => {
            let t = aead_error_text(e);
            let m = concat2("Decrypt error: ", t.as_str());
            proof {
                reveal_strlit("Decrypt error: ");
                reveal_strlit("aead::Error");
                reveal_strlit("Decrypt error: aead::Error");
            }
            assert(m@ =~= "Decrypt error: aead::Error"@);
            return Err(m);
        },
    };
    let ghost pv = plain@;
    proof {
        if exists|p: Seq<u8>|
            p.len() <= aes_gcm_max_plaintext() && ciphertext@ == #[trigger] aes256gcm_seal(
                cipher.key@,
                nonce@,
                p,
            ) {
            let p = choose|p: Seq<u8>|
                p.len() <= aes_gcm_max_plaintext() && ciphertext@ == #[trigger] aes256gcm_seal(
                    cipher.key@,
                    nonce@,
                    p,
                );
            assert(pv == p);
        } else {
            if pv.len() <= aes_gcm_max_plaintext() {
                assert(ciphertext@ == aes256gcm_seal(cipher.key@, nonce@, pv));
            }
        }
    }
    match string_from_utf8(plain) {
        Ok(s) => {
            proof {
                decode_utf8_encode_utf8(pv);
                encode_utf8_decode_utf8(s@);
            }
            Ok(s)
        },
        Err(e) => Err(utf8_error_text(e)),
    }
}

/// The bytes of hex text decode back to the bytes it was written from.
proof fn lemma_hex_decodes(b: Seq<u8>)
    ensures
        decoded(encode_utf8(hex_text(b))) == Ok::<Seq<u8>, Seq<char>>(b),
{
    lemma_hex_round_trip(b);
    lemma_pairs_all_hex(encode_utf8(hex_text(b)));
}

/// Decrypting what `encrypt` wrote under the same key gives back the plaintext.
pub proof fn lemma_encrypt_then_decrypt(key: Seq<u8>, plaintext: Seq<char>, stored: Seq<char>)
    requires
        is_encryption_of(key, plaintext, stored),
    ensures
        decryption(key, stored) == Decrypted::Text(plaintext),
{
    let nonce = choose|nonce: Seq<u8>| #[trigger] encrypted_with(key, nonce, plaintext, stored);
    let pb = encode_utf8(plaintext);
    let ct = aes256gcm_seal(key, nonce, pb);
    let a = hex_text(nonce);
    let b = hex_text(ct);
    lemma_hex_round_trip(nonce);
    lemma_hex_round_trip(ct);
    reveal_strlit(":");
    assert(stored =~= a + seq![':'] + b);
    assert forall|j: int| 0 <= j < a.len() implies stored[j] != ':' by {
        assert(stored[j] == a[j]);
        lemma_hex_digits(nonce, j);
    }
    crate::auth::lemma_first_index(stored, ':', a.len() as int);
    assert(stored.subrange(0, a.len() as int) =~= a);
    assert(stored.subrange(a.len() as int + 1, stored.len() as int) =~= b);
    lemma_hex_decodes(nonce);
    lemma_hex_decodes(ct);
    assert(pb.len() <= aes_gcm_max_plaintext() && ct == aes256gcm_seal(key, nonce, pb));
    let p = choose|p: Seq<u8>|
        p.len() <= aes_gcm_max_plaintext() && ct == #[trigger] aes256gcm_seal(key, nonce, p);
    encode_utf8_valid_utf8(plaintext);
    encode_utf8_decode_utf8(plaintext);
}

// ── Requests ─────────────────────────────────────────────────────────────────

/// The token in an `Authorization` header value of the form `Bearer <token>`.
pub fn bearer_token(header: &str) -> (r: Option<&str>)
    ensures
        r is Some <==> starts_with(header@, "Bearer "@),
        r matches Some(t) ==> t@ == header@.skip(7),
{
    proof {
        reveal_strlit("Bearer ");
    }
    let prefix = "Bearer ";
    let n = header.unicode_len();
    if n < 7 {
        return None;
    }
    let mut i: usize = 0;
    while i < 7
        invariant
            n == header@.len(),
            7 <= n,
            prefix@ == "Bearer "@,
            prefix@.len() == 7,
            i <= 7,
            forall|j: int| 0 <= j < i ==> header@[j] == prefix@[j],
        decreases 7 - i,
    {
        if header.get_char(i) != prefix.get_char(i) {
            assert(header@.subrange(0, 7)[i as int] != prefix@[i as int]);
            return None;
        }
        i = i + 1;
    }
    assert(header@.subrange(0, 7) =~= prefix@);
    let t = header.substring_char(7, n);
    assert(t@ =~= header@.skip(7));
    Some(t)
}

/// How long a login token stays valid: 30 days (30 × 24 × 3600 seconds).
pub open spec fn token_lifetime() -> int {
    2_592_000int
}

/// The expiry (Unix seconds) of a token issued at `now_secs`: 30 days later.
pub fn token_expiry(now_secs: u64) -> (r: u64)
    requires
        now_secs + token_lifetime() <= u64::MAX,
    ensures
        r == now_secs + token_lifetime(),
{
    now_secs + 30 * 24 * 3600
}

/// Why a login is refused.
#[derive(Debug, Clone, Copy, PartialEq, Eq, Structural)]
pub enum LoginRejection {
    /// The account's email address has not been verified yet.
    NotVerified,
    /// The password does not match.
    InvalidCredentials,
}

impl LoginRejection {
    /// The message sent back with the refusal.
    pub fn message(self) -> (r: String)
        ensures
            r@ == match self {
                LoginRejection::NotVerified => "Please verify your email address before logging in."@,
                LoginRejection::InvalidCredentials => "Invalid credentials."@,
            },
    {
        match self {
            LoginRejection::NotVerified => owned("Please verify your email address before logging in."),
            LoginRejection::InvalidCredentials => owned("Invalid credentials."),
        }
    }
}

/// The decision on a login for a found account: refused while the email is
/// unverified (flag 0), refused when the password does not verify against
/// the stored hash, accepted otherwise.
pub fn check_login(email_verified: i64, password: &str, password_hash: &str) -> (r: Result<(), LoginRejection>)
    ensures
        r == if email_verified == 0 {
            Err(LoginRejection::NotVerified)
        } else if !crate::auth::verifies(password@, password_hash@) {
            Err(LoginRejection::InvalidCredentials)
        } else {
            Ok::<(), LoginRejection>(())
        },
{
    if email_verified == 0 {
        return Err(LoginRejection::NotVerified);
    }
    if !crate::auth::verify_password(password, password_hash) {
        return Err(LoginRejection::InvalidCredentials);
    }
    Ok(())
}

/// How a registration is stored and answered.
pub struct RegistrationPlan {
    /// The `email_verified` flag stored with the new account.
    pub verified_flag: i64,
    /// Whether the verification token is stored (and mailed) with the account.
    pub keep_token: bool,
    /// The message sent back to the new user.
    pub message: String,
}

/// Whether email can be sent: all four SMTP settings are present.
pub open spec fn smtp_ready(host: bool, username: bool, password: bool, from: bool) -> bool {
    host && username && password && from
}

/// The registration plan when email can (`smtp_available`) or cannot be
/// sent: with email, the account starts unverified, keeps its token and the
/// user is asked to check their mail; without, it is verified at once.
pub fn registration_plan(smtp_available: bool) -> (r: RegistrationPlan)
    ensures
        r.verified_flag == (if smtp_available { 0int } else { 1int }),
        r.keep_token == smtp_available,
        r.message@ == (if smtp_available {
            "Registration successful. Please check your email to verify your account."@
        } else {
            "Registration successful. You can now log in."@
        }),
{
    if smtp_available {
        RegistrationPlan {
            verified_flag: 0,
            keep_token: true,
            message: owned("Registration successful. Please check your email to verify your account."),
        }
    } else {
        RegistrationPlan {
            verified_flag: 1,
            keep_token: false,
            message: owned("Registration successful. You can now log in."),
        }
    }
}

/// Whether email can be sent: all four SMTP settings are present.
pub fn smtp_available(host: bool, username: bool, password: bool, from: bool) -> (r: bool)
    ensures
        r == smtp_ready(host, username, password, from),
{
    host && username && password && from
}

} // verus!
