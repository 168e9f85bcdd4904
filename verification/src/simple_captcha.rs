//! One challenge: a picture, its fingerprint, and a salted commitment to the
//! code that the picture shows.

use rand::distributions::Alphanumeric;
use rand::{thread_rng, Rng};
use std::time::{SystemTime, UNIX_EPOCH};
use vstd::prelude::*;
use vstd::string::*;

use crate::digest::{fingerprint, fingerprint_of};

verus! {

/// Number of characters in the salt of a new challenge.
pub const SALT_LENGTH: usize = 30;

/// Number of characters in the code of a challenge.
pub const CODE_LENGTH: usize = 6;

/// The characters that a code is drawn from: capital letters and digits that
/// are hard to take for one another in a distorted picture.
pub open spec fn code_alphabet() -> Seq<char> {
    "ABCDEFGHKLMNPQRTUVW2346789"@
}

/// Whether `chars` is a code: of the fixed length and over the alphabet.
pub open spec fn valid_code(chars: Seq<char>) -> bool {
    chars.len() == CODE_LENGTH && forall|i: int|
        0 <= i < chars.len() ==> code_alphabet().contains(#[trigger] chars[i])
}

/// The alphabet of the codes, one character after the other.
pub fn code_letters() -> (letters: Vec<char>)
    ensures
        letters@ == code_alphabet(),
{
    let alphabet = "ABCDEFGHKLMNPQRTUVW2346789";
    let len = alphabet.unicode_len();
    let mut letters: Vec<char> = Vec::new();
    let mut i: usize = 0;
    while i < len
        invariant
            alphabet@ == code_alphabet(),
            len == alphabet@.len(),
            i <= len,
            letters@ == alphabet@.subrange(0, i as int),
        decreases len - i,
    {
        letters.push(alphabet.get_char(i));
        assert(alphabet@.subrange(0, i + 1) == alphabet@.subrange(0, i as int).push(
            alphabet@[i as int],
        ));
        i += 1;
    }
    assert(alphabet@.subrange(0, len as int) == alphabet@);
    letters
}

fn in_alphabet(c: char) -> (found: bool)
    ensures
        found == code_alphabet().contains(c),
{
    let alphabet = "ABCDEFGHKLMNPQRTUVW2346789";
    let len = alphabet.unicode_len();
    let mut i: usize = 0;
    while i < len
        invariant
            alphabet@ == code_alphabet(),
            len == alphabet@.len(),
            i <= len,
            forall|j: int| 0 <= j < i ==> alphabet@[j] != c,
        decreases len - i,
    {
        if alphabet.get_char(i) == c {
            return true;
        }
        i += 1;
    }
    false
}

/// Tells whether `chars` is a code: six characters of the alphabet.
pub fn is_valid_code(chars: &str) -> (valid: bool)
    ensures
        valid == valid_code(chars@),
{
    if chars.unicode_len() != CODE_LENGTH {
        return false;
    }
    let mut i: usize = 0;
    while i < CODE_LENGTH
        invariant
            chars@.len() == CODE_LENGTH,
            i <= CODE_LENGTH,
            forall|j: int| 0 <= j < i ==> code_alphabet().contains(#[trigger] chars@[j]),
        decreases CODE_LENGTH - i,
    {
        if !in_alphabet(chars.get_char(i)) {
            return false;
        }
        i += 1;
    }
    true
}

/// The upper-case form of a text, as `str::to_uppercase` gives it.
pub uninterp spec fn uppercase(text: Seq<char>) -> Seq<char>;

/// Calls `str::to_uppercase`. The result is taken to depend on the characters
/// of `text` alone; the Unicode case mapping itself is not defined here.
#[verifier::external_body]
fn to_upper(text: &str) -> (out: String)
    ensures
        out@ == uppercase(text@),
{
    text.to_uppercase()
}

/// Whether `c` is an ASCII letter or digit.
pub open spec fn is_alphanumeric(c: char) -> bool {
    ('0' <= c <= '9') || ('A' <= c <= 'Z') || ('a' <= c <= 'z')
}

/// Draws `len` characters with `rand::distributions::Alphanumeric` from
/// `rand::thread_rng`. That distribution picks each character among the ASCII
/// letters and digits, and the sampling iterator never ends, so `take` yields
/// exactly `len` of them. Nothing is claimed of which characters come.
#[verifier::external_body]
pub(crate) fn random_alphanumeric(len: usize) -> (out: String)
    ensures
        out@.len() == len,
        forall|i: int| 0 <= i < out@.len() ==> is_alphanumeric(#[trigger] out@[i]),
{
    thread_rng().sample_iter(&Alphanumeric).take(len).map(char::from).collect()
}

/// Reads `SystemTime::now` and gives it in milliseconds since the Unix epoch,
/// zero for a clock set before the epoch. Nothing is claimed of the value.
#[verifier::external_body]
pub(crate) fn unix_millis() -> (now: u64) {
    SystemTime::now().duration_since(UNIX_EPOCH).unwrap_or_default().as_millis() as u64
}

/// The commitment to `code` under `salt`: the fingerprint of the salt
/// followed by the code in upper case.
pub open spec fn commitment(salt: Seq<char>, code: Seq<char>) -> Seq<char> {
    fingerprint(salt + uppercase(code))
}

/// What a challenge holds, as plain values.
pub struct CaptchaModel {
    pub image_base64: Seq<char>,
    pub image_hash: Seq<char>,
    pub code_salt: Seq<char>,
    pub code: Seq<char>,
    pub timestamp: u64,
}

/// The challenge that is made of a picture, the code it shows, a salt and a
/// time of issue. The code enters the commitment and nothing else.
pub open spec fn sealed(
    image_base64: Seq<char>,
    chars: Seq<char>,
    code_salt: Seq<char>,
    timestamp: u64,
) -> CaptchaModel {
    CaptchaModel {
        image_base64,
        image_hash: fingerprint(image_base64),
        code_salt,
        code: commitment(code_salt, chars),
        timestamp,
    }
}

/// Whether `answer` opens the commitment of `captcha`.
pub open spec fn accepts(captcha: CaptchaModel, answer: Seq<char>) -> bool {
    captcha.code == commitment(captcha.code_salt, answer)
}

/// A challenge as issued. `image_hash` is the public handle, `code` the
/// commitment to the code shown in the picture, and `timestamp` the time of
/// issue in milliseconds since the Unix epoch.
#[derive(Debug)]
pub struct SimpleCaptcha {
    pub image_base64: String,
    pub image_hash: String,
    pub code_salt: String,
    pub code: String,
    pub timestamp: u64,
}

impl View for SimpleCaptcha {
    type V = CaptchaModel;

    open spec fn view(&self) -> CaptchaModel {
        CaptchaModel {
            image_base64: self.image_base64@,
            image_hash: self.image_hash@,
            code_salt: self.code_salt@,
            code: self.code@,
            timestamp: self.timestamp,
        }
    }
}

impl Clone for SimpleCaptcha {
    fn clone(&self) -> (copy: SimpleCaptcha)
        ensures
            copy@ == self@,
    {
        SimpleCaptcha {
            image_base64: self.image_base64.clone(),
            image_hash: self.image_hash.clone(),
            code_salt: self.code_salt.clone(),
            code: self.code.clone(),
            timestamp: self.timestamp,
        }
    }
}

impl SimpleCaptcha {
    /// Makes the challenge for a rendered picture and the code it shows, with a
    /// fresh random salt and the current time.
    pub fn new(chars: &str, image_base64: String) -> (captcha: SimpleCaptcha)
        ensures
            captcha@ == sealed(image_base64@, chars@, captcha@.code_salt, captcha@.timestamp),
            captcha@.code_salt.len() == SALT_LENGTH,
            forall|i: int|
                0 <= i < captcha@.code_salt.len() ==> is_alphanumeric(
                    #[trigger] captcha@.code_salt[i],
                ),
    {
        let code_salt = random_alphanumeric(SALT_LENGTH);
        let timestamp = unix_millis();
        SimpleCaptcha::from_parts(image_base64, chars, code_salt, timestamp)
    }

    /// Makes the challenge for a rendered picture and the code it shows, under
    /// the given salt and time of issue.
    pub fn from_parts(
        image_base64: String,
        chars: &str,
        code_salt: String,
        timestamp: u64,
    ) -> (captcha: SimpleCaptcha)
        ensures
            captcha@ == sealed(image_base64@, chars@, code_salt@, timestamp),
    {
        let image_hash = fingerprint_of(image_base64.as_str());
        let salted = code_salt.clone().concat(to_upper(chars).as_str());
        let code = fingerprint_of(salted.as_str());
        SimpleCaptcha { image_base64, image_hash, code_salt, code, timestamp }
    }

    /// Tells whether `code`, in any letter case, opens the commitment.
    pub fn check(self, code: String) -> (ok: bool)
        ensures
            ok == accepts(self@, code@),
    {
        let salted = self.code_salt.concat(to_upper(code.as_str()).as_str());
        let code_hash = fingerprint_of(salted.as_str());
        self.code == code_hash
    }
}

/// Two answers with the same upper-case form are accepted alike, so the code
/// that a challenge was made of is accepted in every letter case.
pub proof fn lemma_check_ignores_case(captcha: CaptchaModel, first: Seq<char>, second: Seq<char>)
    requires
        uppercase(first) == uppercase(second),
    ensures
        accepts(captcha, first) == accepts(captcha, second),
{
}

/// A challenge accepts every answer whose upper-case form is that of the code
/// it was made of.
pub proof fn lemma_sealed_accepts_code(
    image_base64: Seq<char>,
    chars: Seq<char>,
    code_salt: Seq<char>,
    timestamp: u64,
    answer: Seq<char>,
)
    requires
        uppercase(answer) == uppercase(chars),
    ensures
        accepts(sealed(image_base64, chars, code_salt, timestamp), answer),
{
}

/// The code reaches a challenge through its commitment only: two codes with
/// the same commitment under the salt give the same challenge, and any two
/// codes give challenges that agree in every other field.
pub proof fn lemma_code_only_in_commitment(
    image_base64: Seq<char>,
    code_salt: Seq<char>,
    timestamp: u64,
    first: Seq<char>,
    second: Seq<char>,
)
    ensures
        sealed(image_base64, first, code_salt, timestamp) == (CaptchaModel {
            code: commitment(code_salt, first),
            ..sealed(image_base64, second, code_salt, timestamp)
        }),
        commitment(code_salt, first) == commitment(code_salt, second) ==> sealed(
            image_base64,
            first,
            code_salt,
            timestamp,
        ) == sealed(image_base64, second, code_salt, timestamp),
{
}

} // verus!
