//! Credential material: random identifiers, and secrets of which only a
//! bcrypt hash is ever kept.

use vstd::prelude::*;
use vstd::string::*;

verus! {

/// The work factor used where the caller names none.
pub const DEFAULT_COST: u32 = 12;

/// The smallest work factor bcrypt accepts.
pub const MIN_COST: u32 = 4;

/// The largest work factor bcrypt accepts.
pub const MAX_COST: u32 = 31;

/// The error type of the `bcrypt` crate, carried through unread.
#[verifier::external_type_specification]
#[verifier::external_body]
pub struct ExBcryptError(bcrypt::BcryptError);

/// What `bcrypt::verify` answers for a password and a stored hash: `Some` of
/// its verdict, or `None` where it rejects the hash as malformed.
pub uninterp spec fn bcrypt_verify_result(password: Seq<char>, hash: Seq<char>) -> Option<bool>;

/// `hash` is a bcrypt hash that `password` verifies against.
pub open spec fn password_matches(password: Seq<char>, hash: Seq<char>) -> bool {
    bcrypt_verify_result(password, hash) == Some(true)
}

/// The character that writes a number below ten.
pub open spec fn decimal_digit(n: int) -> char {
    if n == 0 {
        '0'
    } else if n == 1 {
        '1'
    } else if n == 2 {
        '2'
    } else if n == 3 {
        '3'
    } else if n == 4 {
        '4'
    } else if n == 5 {
        '5'
    } else if n == 6 {
        '6'
    } else if n == 7 {
        '7'
    } else if n == 8 {
        '8'
    } else {
        '9'
    }
}

/// A character of the alphabet in which bcrypt writes salt and digest: a
/// dot, a slash, a letter or a digit.
pub open spec fn is_bcrypt_digit(c: char) -> bool {
    c == '.' || c == '/' || ('A' <= c && c <= 'Z') || ('a' <= c && c <= 'z') || ('0' <= c && c
        <= '9')
}

/// `hash` is a bcrypt hash string made at the work factor `cost`: 60
/// characters that open with the version `2b` and the work factor in two
/// decimal digits, each set off by `$`, before the salt and the digest in
/// bcrypt's own alphabet.
pub open spec fn hashed_at(hash: Seq<char>, cost: u32) -> bool {
    &&& hash.len() == 60
    &&& hash[0] == '$'
    &&& hash[1] == '2'
    &&& hash[2] == 'b'
    &&& hash[3] == '$'
    &&& hash[4] == decimal_digit(cost as int / 10)
    &&& hash[5] == decimal_digit(cost as int % 10)
    &&& hash[6] == '$'
    &&& forall|i: int| 7 <= i < 60 ==> is_bcrypt_digit(#[trigger] hash[i])
}

/// A lower-case hexadecimal digit.
pub open spec fn is_lower_hex(c: char) -> bool {
    c == '0' || c == '1' || c == '2' || c == '3' || c == '4' || c == '5' || c == '6' || c == '7'
        || c == '8' || c == '9' || c == 'a' || c == 'b' || c == 'c' || c == 'd' || c == 'e' || c
        == 'f'
}

/// The digit that marks the variant of a random UUID.
pub open spec fn is_variant_digit(c: char) -> bool {
    c == '8' || c == '9' || c == 'a' || c == 'b'
}

/// The 32-digit form of a random (version 4) UUID.
pub open spec fn is_simple_uuid(text: Seq<char>) -> bool {
    &&& text.len() == 32
    &&& forall|i: int| 0 <= i < 32 ==> is_lower_hex(#[trigger] text[i])
    &&& text[12] == '4'
    &&& is_variant_digit(text[16])
}

/// A position of the 36-character form that holds a hyphen.
pub open spec fn is_hyphen_position(i: int) -> bool {
    i == 8 || i == 13 || i == 18 || i == 23
}

/// The 36-character form of a random (version 4) UUID: five groups of
/// lower-case hexadecimal digits, separated by hyphens.
pub open spec fn is_hyphenated_uuid(text: Seq<char>) -> bool {
    &&& text.len() == 36
    &&& forall|i: int|
        0 <= i < 36 ==> if is_hyphen_position(i) {
            #[trigger] text[i] == '-'
        } else {
            is_lower_hex(text[i])
        }
    &&& text[14] == '4'
    &&& is_variant_digit(text[19])
}

/// The character that writes a number below sixteen in lower-case
/// hexadecimal.
pub open spec fn hex_digit(n: u8) -> char {
    if n == 0 {
        '0'
    } else if n == 1 {
        '1'
    } else if n == 2 {
        '2'
    } else if n == 3 {
        '3'
    } else if n == 4 {
        '4'
    } else if n == 5 {
        '5'
    } else if n == 6 {
        '6'
    } else if n == 7 {
        '7'
    } else if n == 8 {
        '8'
    } else if n == 9 {
        '9'
    } else if n == 10 {
        'a'
    } else if n == 11 {
        'b'
    } else if n == 12 {
        'c'
    } else if n == 13 {
        'd'
    } else if n == 14 {
        'e'
    } else {
        'f'
    }
}

/// The byte at `i` of the random UUID made of `bytes`: the byte as drawn,
/// but for the version in the high half of byte 6 and the variant in the
/// two top bits of byte 8.
pub open spec fn uuid_byte(bytes: Seq<u8>, i: int) -> u8 {
    if i == 6 {
        (bytes[i] & 0x0f) | 0x40
    } else if i == 8 {
        (bytes[i] & 0x3f) | 0x80
    } else {
        bytes[i]
    }
}

/// The digit at `j` of the 32 digits of the random UUID made of `bytes`:
/// two digits for each byte, the high half first.
pub open spec fn uuid_digit(bytes: Seq<u8>, j: int) -> char {
    if j % 2 == 0 {
        hex_digit(uuid_byte(bytes, j / 2) >> 4)
    } else {
        hex_digit(uuid_byte(bytes, j / 2) & 0x0f)
    }
}

/// The 32-digit text of the random UUID made of `bytes`.
pub open spec fn simple_text(bytes: Seq<u8>) -> Seq<char> {
    Seq::new(32, |j: int| uuid_digit(bytes, j))
}

/// How many hyphens stand before position `i` of the 36-character form.
pub open spec fn hyphens_before(i: int) -> int {
    if i < 8 {
        0
    } else if i < 13 {
        1
    } else if i < 18 {
        2
    } else if i < 23 {
        3
    } else {
        4
    }
}

/// The 36-character text of the random UUID made of `bytes`: its 32
/// digits, with hyphens after the 8th, 12th, 16th and 20th.
pub open spec fn hyphenated_text(bytes: Seq<u8>) -> Seq<char> {
    Seq::new(
        36,
        |i: int|
            if is_hyphen_position(i) {
                '-'
            } else {
                uuid_digit(bytes, i - hyphens_before(i))
            },
    )
}

/// Whatever the bytes, the high half of byte 6 is the version 4 and the
/// high half of byte 8 is a variant digit.
pub proof fn lemma_version_and_variant(bytes: Seq<u8>)
    ensures
        uuid_digit(bytes, 12) == '4',
        is_variant_digit(uuid_digit(bytes, 16)),
        forall|j: int| is_lower_hex(#[trigger] uuid_digit(bytes, j)),
{
    let six = bytes[6];
    let eight = bytes[8];
    assert(((six & 0x0f) | 0x40) >> 4 == 4) by (bit_vector);
    let high = ((eight & 0x3f) | 0x80) >> 4;
    assert(high == 8 || high == 9 || high == 10 || high == 11) by (bit_vector)
        requires
            high == ((eight & 0x3f) | 0x80) >> 4,
    ;
}

/// The texts made of any bytes have the form of a random UUID.
pub proof fn lemma_texts_are_uuids(bytes: Seq<u8>)
    ensures
        is_simple_uuid(simple_text(bytes)),
        is_hyphenated_uuid(hyphenated_text(bytes)),
{
    lemma_version_and_variant(bytes);
}

/// `needle` occurs in `hay` as a run of neighbouring characters.
pub open spec fn contains_text(hay: Seq<char>, needle: Seq<char>) -> bool {
    exists|at: int|
        0 <= at && at + needle.len() <= hay.len() && #[trigger] hay.subrange(
            at,
            at + needle.len(),
        ) == needle
}

/// No character of the text is a hyphen.
pub open spec fn hyphen_free(text: Seq<char>) -> bool {
    forall|i: int| 0 <= i < text.len() ==> #[trigger] text[i] != '-'
}

/// A text without a hyphen holds no text with one.
pub proof fn lemma_hyphen_keeps_out(hay: Seq<char>, needle: Seq<char>, at: int)
    requires
        hyphen_free(hay),
        0 <= at < needle.len(),
        needle[at] == '-',
    ensures
        !contains_text(hay, needle),
{
    if contains_text(hay, needle) {
        let start = choose|start: int|
            0 <= start && start + needle.len() <= hay.len() && #[trigger] hay.subrange(
                start,
                start + needle.len(),
            ) == needle;
        assert(hay.subrange(start, start + needle.len())[at] == hay[start + at]);
    }
}

/// A bcrypt hash holds no hyphen, so it holds no random UUID in its
/// 36-character form; and neither does a generated username.
pub proof fn lemma_secret_is_not_held(hash: Seq<char>, cost: u32, name: Seq<char>, secret: Seq<char>)
    requires
        is_hyphenated_uuid(secret),
    ensures
        hashed_at(hash, cost) ==> hyphen_free(hash) && !contains_text(hash, secret),
        is_generated_username(name) ==> hyphen_free(name) && !contains_text(name, secret),
{
    assert(is_hyphen_position(8));
    assert(secret[8] == '-');
    if hashed_at(hash, cost) {
        assert forall|i: int| 0 <= i < hash.len() implies #[trigger] hash[i] != '-' by {
            if i >= 7 {
                assert(is_bcrypt_digit(hash[i]));
            }
        }
        lemma_hyphen_keeps_out(hash, secret, 8);
    }
    if is_generated_username(name) {
        reveal_strlit("device_");
        let digits = choose|digits: Seq<char>|
            is_simple_uuid(digits) && name == username_prefix() + digits;
        assert forall|i: int| 0 <= i < name.len() implies #[trigger] name[i] != '-' by {
            if i >= 7 {
                assert(name[i] == digits[i - 7]);
                assert(is_lower_hex(digits[i - 7]));
            }
        }
        lemma_hyphen_keeps_out(name, secret, 8);
    }
}

/// The prefix that marks a username as machine-generated.
pub open spec fn username_prefix() -> Seq<char> {
    "device_"@
}

/// A machine-generated username: the prefix, then a random UUID's 32 digits.
pub open spec fn is_generated_username(name: Seq<char>) -> bool {
    exists|digits: Seq<char>| is_simple_uuid(digits) && name == username_prefix() + digits
}

/// The error type of the `getrandom` crate, carried through unread.
#[verifier::external_type_specification]
#[verifier::external_body]
pub struct ExRandomError(getrandom::Error);

/// Draws 16 bytes with `getrandom::fill`, which reports it as an error
/// where the operating system hands out none. Trusted: nothing is claimed
/// of the bytes.
#[verifier::external_body]
fn random_bytes() -> (drawn: Result<[u8; 16], getrandom::Error>) {
    let mut bytes: [u8; 16] = [0u8; 16];
    match getrandom::fill(&mut bytes) {
        Ok(()) => Ok(bytes),
        Err(e) => Err(e),
    }
}

/// Makes the bytes a random UUID with `uuid::Builder::from_random_bytes`
/// and renders it with the crate's `Display`. Trusted: the builder sets the
/// version and the variant and leaves the other bits, and the text is the
/// lower-case hyphenated form of the 16 bytes.
#[verifier::external_body]
fn uuid_hyphenated(bytes: [u8; 16]) -> (text: String)
    ensures
        text@ == hyphenated_text(bytes@),
{
    uuid::Builder::from_random_bytes(bytes).into_uuid().to_string()
}

/// Makes the bytes a random UUID with `uuid::Builder::from_random_bytes`
/// and renders it through `Uuid::simple`. Trusted: the builder sets the
/// version and the variant and leaves the other bits, and the text is the
/// 32 lower-case hexadecimal digits of the 16 bytes.
#[verifier::external_body]
fn uuid_simple(bytes: [u8; 16]) -> (text: String)
    ensures
        text@ == simple_text(bytes@),
{
    uuid::Builder::from_random_bytes(bytes).into_uuid().simple().to_string()
}

/// Turns a failure to draw random bytes into the error that hashing
/// reports for it, with `bcrypt`'s own `From<getrandom::Error>`. Trusted:
/// nothing is claimed of the error.
#[verifier::external_body]
fn randomness_error(e: getrandom::Error) -> (error: bcrypt::BcryptError) {
    bcrypt::BcryptError::from(e)
}

/// Calls `bcrypt::hash`, which salts from the operating system's randomness
/// and fails where that hands out no bytes. Trusted: a work factor outside
/// 4..=31 is refused; a hash that comes back is written in the crate's
/// version `2b` format with the work factor that was asked for, and
/// `bcrypt::verify` accepts `password` against it.
#[verifier::external_body]
fn bcrypt_hash(password: &str, cost: u32) -> (hashed: Result<String, bcrypt::BcryptError>)
    ensures
        !(MIN_COST <= cost <= MAX_COST) ==> hashed is Err,
        hashed matches Ok(hash) ==> hashed_at(hash@, cost) && password_matches(password@, hash@),
{
    bcrypt::hash(password, cost)
}

/// Calls `bcrypt::verify`. Trusted: the answer depends on the two texts
/// alone; a malformed hash comes back as `None`.
#[verifier::external_body]
fn bcrypt_verify(password: &str, hash: &str) -> (outcome: Option<bool>)
    ensures
        outcome == bcrypt_verify_result(password@, hash@),
{
    match bcrypt::verify(password, hash) {
        Ok(verdict) => Some(verdict),
        Err(_) => None,
    }
}

/// A secret as issued: the plaintext, handed out once, and the hash that is
/// stored in its place.
pub struct Password {
    pub plain: String,
    pub hash: String,
}

impl Password {
    /// The hash is a 60-character bcrypt hash of the plaintext.
    pub open spec fn matches(&self) -> bool {
        self.hash@.len() == 60 && password_matches(self.plain@, self.hash@)
    }

    /// What hashing `plain` at `cost` may hand back: an error, which is all
    /// that a work factor outside 4..=31 gets, or a hash made at `cost`
    /// that `plain` verifies against.
    pub open spec fn hashing_gave(
        plain: Seq<char>,
        cost: u32,
        hashed: Result<String, bcrypt::BcryptError>,
    ) -> bool {
        match hashed {
            Ok(hash) => MIN_COST <= cost <= MAX_COST && hashed_at(hash@, cost) && password_matches(
                plain,
                hash@,
            ),
            Err(_) => true,
        }
    }

    /// `issued` pairs `plain` with what hashing it gave: the hash where
    /// there is one, and the hasher's own error where there is none.
    pub open spec fn assembled(
        plain: Seq<char>,
        hashed: Result<String, bcrypt::BcryptError>,
        issued: Result<Password, bcrypt::BcryptError>,
    ) -> bool {
        match hashed {
            Ok(hash) => issued matches Ok(password) && password.plain@ == plain && password.hash@
                == hash@,
            Err(e) => issued matches Err(got) && got == e,
        }
    }

    /// A fresh random secret, hashed at the default work factor. Drawing
    /// the secret or hashing it may fail; a password that comes back is a
    /// random UUID in text, with a hash of it made at [`DEFAULT_COST`] that
    /// does not hold the secret.
    pub fn new() -> (issued: Result<Self, bcrypt::BcryptError>)
        ensures
            issued matches Ok(password) ==> is_hyphenated_uuid(password.plain@)
                && password.matches() && hashed_at(password.hash@, DEFAULT_COST)
                && !contains_text(password.hash@, password.plain@),
    {
        Password::with_cost(DEFAULT_COST)
    }

    /// A fresh random secret, hashed at the given work factor. A work
    /// factor outside 4..=31 fails, and drawing the secret or hashing it may
    /// fail; a password that comes back is a random UUID in text, with a
    /// hash of it made at `cost` that does not hold the secret.
    pub fn with_cost(cost: u32) -> (issued: Result<Self, bcrypt::BcryptError>)
        ensures
            !(MIN_COST <= cost <= MAX_COST) ==> issued is Err,
            issued matches Ok(password) ==> is_hyphenated_uuid(password.plain@)
                && password.matches() && hashed_at(password.hash@, cost) && !contains_text(
                password.hash@,
                password.plain@,
            ),
    {
        match random_bytes() {
            Ok(bytes) => {
                match Password::from_plain(token_from_bytes(bytes), cost) {
                    Ok(password) => {
                        proof {
                            lemma_secret_is_not_held(
                                password.hash@,
                                cost,
                                Seq::empty(),
                                password.plain@,
                            );
                        }
                        Ok(password)
                    },
                    Err(e) => Err(e),
                }
            },
            Err(e) => Err(randomness_error(e)),
        }
    }

    /// Hashes a given plaintext at the given work factor: the result is
    /// `plain` paired with whatever hashing it at `cost` gave. So a work
    /// factor outside 4..=31 fails, and a password that comes back keeps the
    /// plaintext, with a hash of it made at `cost`.
    pub fn from_plain(plain: String, cost: u32) -> (issued: Result<Self, bcrypt::BcryptError>)
        ensures
            exists|hashed: Result<String, bcrypt::BcryptError>| #[trigger]
                Password::hashing_gave(plain@, cost, hashed) && Password::assembled(
                    plain@,
                    hashed,
                    issued,
                ),
            !(MIN_COST <= cost <= MAX_COST) ==> issued is Err,
            issued matches Ok(password) ==> password.plain@ == plain@ && password.matches()
                && hashed_at(password.hash@, cost),
    {
        let hashed = bcrypt_hash(plain.as_str(), cost);
        let ghost given = hashed;
        let issued = Password::from_hashed(plain, hashed);
        assert(Password::hashing_gave(plain@, cost, given) && Password::assembled(
            plain@,
            given,
            issued,
        ));
        issued
    }

    /// Pairs a plaintext with what hashing it gave: the hash where there is
    /// one, the hasher's error, unchanged, where there is none.
    pub fn from_hashed(plain: String, hashed: Result<String, bcrypt::BcryptError>) -> (issued:
        Result<Self, bcrypt::BcryptError>)
        ensures
            Password::assembled(plain@, hashed, issued),
    {
        match hashed {
            Ok(hash) => Ok(Password { plain, hash }),
            Err(e) => Err(e),
        }
    }
}

/// What is issued to one device: a username and a secret.
pub struct Credentials {
    pub username: String,
    pub password: Password,
}

impl Credentials {
    /// The credentials are as the issuer makes them: a generated username,
    /// a random secret, and a hash that the secret verifies against; and
    /// neither the username nor the hash holds the secret.
    pub open spec fn sound(&self) -> bool {
        &&& is_generated_username(self.username@)
        &&& is_hyphenated_uuid(self.password.plain@)
        &&& self.password.matches()
        &&& !contains_text(self.password.hash@, self.password.plain@)
        &&& !contains_text(self.username@, self.password.plain@)
    }

    /// Generates a username and a secret, hashed at the given work factor.
    /// A work factor outside 4..=31 fails, and drawing or hashing may fail;
    /// credentials that come back are sound, with the hash made at `cost`.
    pub fn generate(cost: u32) -> (issued: Result<Self, bcrypt::BcryptError>)
        ensures
            !(MIN_COST <= cost <= MAX_COST) ==> issued is Err,
            issued matches Ok(credentials) ==> credentials.sound() && hashed_at(
                credentials.password.hash@,
                cost,
            ),
    {
        let password = match Password::with_cost(cost) {
            Ok(password) => password,
            Err(e) => {
                return Err(e);
            },
        };
        match random_bytes() {
            Ok(bytes) => {
                let username = username_from_bytes(bytes);
                proof {
                    lemma_secret_is_not_held(password.hash@, cost, username@, password.plain@);
                }
                Ok(Credentials { username, password })
            },
            Err(e) => Err(randomness_error(e)),
        }
    }
}

/// Reads the verdict of a verification: only a definite match is accepted.
pub fn is_accepted(outcome: Option<bool>) -> (accepted: bool)
    ensures
        accepted == (outcome == Some(true)),
{
    match outcome {
        Some(verdict) => verdict,
        None => false,
    }
}

/// Checks a presented secret against a stored hash.
pub fn verify_password(attempt: &str, hash: &str) -> (accepted: bool)
    ensures
        accepted == password_matches(attempt@, hash@),
{
    is_accepted(bcrypt_verify(attempt, hash))
}

/// The enrollment token made of 16 drawn bytes: the random UUID of these
/// bytes in its 36-character form.
pub fn token_from_bytes(bytes: [u8; 16]) -> (token: String)
    ensures
        token@ == hyphenated_text(bytes@),
        is_hyphenated_uuid(token@),
{
    proof {
        lemma_texts_are_uuids(bytes@);
    }
    uuid_hyphenated(bytes)
}

/// A fresh enrollment token, or none where no random bytes can be drawn.
pub fn generate_token() -> (token: Option<String>)
    ensures
        token matches Some(text) ==> is_hyphenated_uuid(text@),
{
    match random_bytes() {
        Ok(bytes) => Some(token_from_bytes(bytes)),
        Err(_) => None,
    }
}

/// The username made of the prefix and the given digits.
pub fn username_from(digits: &str) -> (name: String)
    ensures
        name@ == username_prefix() + digits@,
{
    let mut name = String::from_str("device_");
    name.append(digits);
    name
}

/// The username made of 16 drawn bytes: the prefix, then the 32 digits of
/// the random UUID of these bytes.
pub fn username_from_bytes(bytes: [u8; 16]) -> (name: String)
    ensures
        name@ == username_prefix() + simple_text(bytes@),
        is_generated_username(name@),
        name@.len() == 39,
{
    proof {
        lemma_texts_are_uuids(bytes@);
        reveal_strlit("device_");
    }
    let digits = uuid_simple(bytes);
    username_from(digits.as_str())
}

/// A fresh machine-generated username, or none where no random bytes can
/// be drawn.
pub fn generate_username() -> (name: Option<String>)
    ensures
        name matches Some(text) ==> is_generated_username(text@) && text@.len() == 39,
{
    match random_bytes() {
        Ok(bytes) => Some(username_from_bytes(bytes)),
        Err(_) => None,
    }
}

} // verus!
