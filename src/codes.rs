use vstd::prelude::*;

use crate::error::AppError;
use crate::flows::{message_of, Failure};
use crate::text::push_char;
use rand::Rng;

verus! {

/// A character allowed in a short code: an ASCII letter or digit, `_` or `-`.
pub open spec fn is_code_char(c: char) -> bool {
    ('a' <= c && c <= 'z') || ('A' <= c && c <= 'Z') || ('0' <= c && c <= '9') || c == '_' || c
        == '-'
}

/// A well-formed short code: 1 to 32 code characters.
pub open spec fn valid_code_format(s: Seq<char>) -> bool {
    1 <= s.len() <= 32 && forall|i: int| 0 <= i < s.len() ==> is_code_char(#[trigger] s[i])
}

/// The words that may not be used as codes, in lower case.
pub open spec fn reserved_words() -> Seq<Seq<char>> {
    seq![
        seq!['a', 'p', 'i'],
        seq!['h', 'e', 'a', 'l', 't', 'h'],
        seq!['a', 'd', 'm', 'i', 'n'],
        seq!['s', 't', 'a', 't', 'i', 'c'],
        seq!['a', 's', 's', 'e', 't', 's'],
    ]
}

/// `c` lower-cased by ASCII rules is `w`.
pub open spec fn lowers_to(c: char, w: char) -> bool {
    if 'A' <= c && c <= 'Z' {
        w as u32 == c as u32 + 32
    } else {
        w == c
    }
}

/// `s` lower-cased by ASCII rules is `w`.
pub open spec fn lowers_to_word(s: Seq<char>, w: Seq<char>) -> bool {
    s.len() == w.len() && forall|i: int| 0 <= i < s.len() ==> lowers_to(#[trigger] s[i], w[i])
}

/// The lower-cased form of `s` is one of the reserved words.
pub open spec fn is_reserved(s: Seq<char>) -> bool {
    exists|k: int| 0 <= k < reserved_words().len() && lowers_to_word(s, #[trigger] reserved_words()[k])
}

/// A code that a user may ask for.
pub open spec fn acceptable_code(s: Seq<char>) -> bool {
    valid_code_format(s) && !is_reserved(s)
}

/// Why a requested code was refused.
#[derive(Debug)]
pub enum CodeRejection {
    BadFormat,
    Reserved,
}

/// Checks that every character of `code` is a code character and that there
/// are between 1 and 32 of them.
pub fn has_code_format(code: &str) -> (r: bool)
    ensures
        r == valid_code_format(code@),
{
    let n = code.unicode_len();
    if n < 1 || n > 32 {
        return false;
    }
    let mut i: usize = 0;
    while i < n
        invariant
            n == code@.len(),
            i <= n,
            forall|j: int| 0 <= j < i ==> is_code_char(#[trigger] code@[j]),
        decreases n - i,
    {
        let c = code.get_char(i);
        if !(('a' <= c && c <= 'z') || ('A' <= c && c <= 'Z') || ('0' <= c && c <= '9') || c
            == '_' || c == '-') {
            return false;
        }
        i = i + 1;
    }
    true
}

/// Compares `code` with the lower-case word `word`, ignoring ASCII case in `code`.
fn equals_lowered(code: &str, word: &str) -> (r: bool)
    ensures
        r == lowers_to_word(code@, word@),
{
    let n = code.unicode_len();
    if n != word.unicode_len() {
        return false;
    }
    let mut i: usize = 0;
    while i < n
        invariant
            n == code@.len(),
            n == word@.len(),
            i <= n,
            forall|j: int| 0 <= j < i ==> lowers_to(#[trigger] code@[j], word@[j]),
        decreases n - i,
    {
        let c = code.get_char(i);
        let w = word.get_char(i);
        let same = if 'A' <= c && c <= 'Z' {
            (w as u32) == (c as u32) + 32
        } else {
            w == c
        };
        if !same {
            return false;
        }
        i = i + 1;
    }
    true
}

/// Whether the lower-cased `code` is a reserved word.
pub fn is_reserved_code(code: &str) -> (r: bool)
    ensures
        r == is_reserved(code@),
{
    proof {
        reveal_strlit("api");
        reveal_strlit("health");
        reveal_strlit("admin");
        reveal_strlit("static");
        reveal_strlit("assets");
        assert(reserved_words()[0] == "api"@);
        assert(reserved_words()[1] == "health"@);
        assert(reserved_words()[2] == "admin"@);
        assert(reserved_words()[3] == "static"@);
        assert(reserved_words()[4] == "assets"@);
    }
    equals_lowered(code, "api") || equals_lowered(code, "health") || equals_lowered(code, "admin")
        || equals_lowered(code, "static") || equals_lowered(code, "assets")
}

/// Classifies a requested code: accepted, malformed, or reserved.
pub fn check_custom_code(code: &str) -> (r: Result<(), CodeRejection>)
    ensures
        r matches Ok(_) <==> acceptable_code(code@),
        r matches Err(CodeRejection::BadFormat) <==> !valid_code_format(code@),
        r matches Err(CodeRejection::Reserved) <==> valid_code_format(code@) && is_reserved(
            code@,
        ),
{
    if !has_code_format(code) {
        return Err(CodeRejection::BadFormat);
    }
    if is_reserved_code(code) {
        return Err(CodeRejection::Reserved);
    }
    Ok(())
}

/// Validates a user-supplied short code; a refused code is reported as
/// invalid input, with the reason in the message.
pub fn validate_custom_code(code: &str) -> (r: Result<(), AppError>)
    ensures
        r is Ok <==> acceptable_code(code@),
        !valid_code_format(code@) ==> (r matches Err(AppError::InvalidInput(m))
            && m@ == message_of(Failure::InvalidCode(CodeRejection::BadFormat))),
        valid_code_format(code@) && is_reserved(code@) ==> (r matches Err(AppError::InvalidInput(m))
            && m@ == message_of(Failure::InvalidCode(CodeRejection::Reserved))),
{
    match check_custom_code(code) {
        Ok(()) => Ok(()),
        Err(why) => Err(Failure::InvalidCode(why).into_app_error()),
    }
}

/// `p` is a prefix of `s`.
pub open spec fn starts_with(s: Seq<char>, p: Seq<char>) -> bool {
    p.len() <= s.len() && s.subrange(0, p.len() as int) == p
}

pub open spec fn http_scheme() -> Seq<char> {
    seq!['h', 't', 't', 'p', ':', '/', '/']
}

pub open spec fn https_scheme() -> Seq<char> {
    seq!['h', 't', 't', 'p', 's', ':', '/', '/']
}

/// A URL that may be shortened: non-empty, with an `http://` or `https://` scheme.
pub open spec fn valid_url(u: Seq<char>) -> bool {
    u.len() > 0 && (starts_with(u, http_scheme()) || starts_with(u, https_scheme()))
}

/// Whether `s` begins with `p`.
pub fn has_prefix(s: &str, p: &str) -> (r: bool)
    ensures
        r == starts_with(s@, p@),
{
    let n = p.unicode_len();
    if n > s.unicode_len() {
        return false;
    }
    let mut i: usize = 0;
    while i < n
        invariant
            n == p@.len(),
            n <= s@.len(),
            i <= n,
            forall|j: int| 0 <= j < i ==> s@[j] == p@[j],
        decreases n - i,
    {
        if s.get_char(i) != p.get_char(i) {
            assert(s@.subrange(0, n as int)[i as int] != p@[i as int]);
            return false;
        }
        i = i + 1;
    }
    assert(s@.subrange(0, n as int) =~= p@);
    true
}

/// Validates the URL of a link to be created.
pub fn validate_url(url: &String) -> (r: Result<(), AppError>)
    ensures
        r is Ok <==> valid_url(url@),
        url@.len() == 0 ==> (r matches Err(AppError::InvalidInput(m)) && m@ == message_of(Failure::EmptyUrl)),
        url@.len() > 0 && !valid_url(url@) ==> (r matches Err(AppError::InvalidInput(m))
            && m@ == message_of(Failure::BadScheme)),
{
    let u = url.as_str();
    if u.unicode_len() == 0 {
        return Err(Failure::EmptyUrl.into_app_error());
    }
    proof {
        reveal_strlit("http://");
        reveal_strlit("https://");
        assert("http://"@ =~= http_scheme());
        assert("https://"@ =~= https_scheme());
    }
    if !has_prefix(u, "http://") && !has_prefix(u, "https://") {
        return Err(Failure::BadScheme.into_app_error());
    }
    Ok(())
}

/// The base62 digit of value `d` in the standard alphabet: `0-9`, then `A-Z`, then `a-z`.
pub open spec fn base62_digit(d: nat) -> char {
    if d < 10 {
        (('0' as u32) + d) as char
    } else if d < 36 {
        (('A' as u32) + (d - 10)) as char
    } else {
        (('a' as u32) + (d - 36)) as char
    }
}

/// The base62 numeral of `n`, most significant digit first, with no leading zeros.
pub open spec fn base62_text(n: nat) -> Seq<char>
    decreases n,
{
    if n < 62 {
        seq![base62_digit(n)]
    } else {
        base62_text(n / 62).push(base62_digit(n % 62))
    }
}

proof fn lemma_base62_text_is_code(n: nat)
    ensures
        base62_text(n).len() >= 1,
        forall|i: int| 0 <= i < base62_text(n).len() ==> is_code_char(#[trigger] base62_text(n)[i]),
    decreases n,
{
    if n >= 62 {
        lemma_base62_text_is_code(n / 62);
    }
}

/// Relies on base62::encode: the numeral of `n` in the standard base62 alphabet.
#[verifier::external_body]
fn base62_encode(n: u128) -> (r: String)
    ensures
        r@ == base62_text(n as nat),
{
    base62::encode(n)
}

/// Relies on uuid::Uuid::new_v4 and Uuid::as_u128: the bits of a fresh random
/// UUID. Nothing is promised of them; the call panics only when the operating
/// system's random source fails.
#[verifier::external_body]
fn random_uuid_bits() -> u128 {
    uuid::Uuid::new_v4().as_u128()
}

/// The number of characters of a generated short code.
pub const SHORT_CODE_LEN: usize = 12;

/// `s` brought to exactly `SHORT_CODE_LEN` characters: its last ones when
/// longer, with leading `0`s when shorter.
pub open spec fn fixed_width(s: Seq<char>) -> Seq<char> {
    if s.len() >= SHORT_CODE_LEN {
        s.subrange(s.len() - SHORT_CODE_LEN, s.len() as int)
    } else {
        Seq::new((SHORT_CODE_LEN - s.len()) as nat, |i: int| '0') + s
    }
}

proof fn lemma_long_code_not_reserved(s: Seq<char>)
    requires
        s.len() == SHORT_CODE_LEN,
    ensures
        !is_reserved(s),
{
    assert forall|k: int| 0 <= k < reserved_words().len() implies !lowers_to_word(s, #[trigger] reserved_words()[k]) by {
        assert(reserved_words()[k].len() <= 6);
    }
}

/// The short code derived from a random number: the last `SHORT_CODE_LEN`
/// digits of its base62 numeral, padded with leading `0`s when it has fewer.
pub fn short_code_from(n: u128) -> (r: String)
    ensures
        r@ == fixed_width(base62_text(n as nat)),
        r@.len() == SHORT_CODE_LEN,
        acceptable_code(r@),
{
    let full = base62_encode(n);
    let s = full.as_str();
    let len = s.unicode_len();
    let mut out = String::new();
    proof {
        lemma_base62_text_is_code(n as nat);
    }
    let mut start: usize = 0;
    if len < SHORT_CODE_LEN {
        let pad = SHORT_CODE_LEN - len;
        let mut j: usize = 0;
        while j < pad
            invariant
                pad <= SHORT_CODE_LEN,
                j <= pad,
                out@ == Seq::new(j as nat, |i: int| '0'),
            decreases pad - j,
        {
            push_char(&mut out, '0');
            j = j + 1;
            assert(out@ =~= Seq::new(j as nat, |i: int| '0'));
        }
    } else {
        start = len - SHORT_CODE_LEN;
    }
    let ghost prefix = out@;
    let mut i: usize = start;
    assert(out@ =~= prefix + s@.subrange(start as int, i as int));
    while i < len
        invariant
            len == s@.len(),
            start <= i <= len,
            out@ == prefix + s@.subrange(start as int, i as int),
        decreases len - i,
    {
        push_char(&mut out, s.get_char(i));
        i = i + 1;
        assert(out@ =~= prefix + s@.subrange(start as int, i as int));
    }
    proof {
        if len < SHORT_CODE_LEN {
            assert(s@.subrange(0, len as int) =~= s@);
        }
        assert(out@ =~= fixed_width(base62_text(n as nat)));
        assert forall|k: int| 0 <= k < out@.len() implies is_code_char(#[trigger] out@[k]) by {
            if k < prefix.len() {
                assert(out@[k] == '0');
            } else {
                assert(out@[k] == s@[start + k - prefix.len()]);
            }
        }
        lemma_long_code_not_reserved(out@);
    }
    out
}

/// A fresh random short code of `SHORT_CODE_LEN` characters, from the bits
/// of a random UUID. It is well formed and no reserved word; it is not
/// checked against the codes already stored.
pub fn generate_short_code() -> (r: String)
    ensures
        r@.len() == SHORT_CODE_LEN,
        acceptable_code(r@),
        exists|n: u128| r@ == fixed_width(base62_text(n as nat)),
{
    let n = random_uuid_bits();
    short_code_from(n)
}

/// The character of an admin setup token for value `d`: `0-9`, then `a-z`, then `A-Z`.
pub open spec fn token_digit(d: u8) -> char {
    if d < 10 {
        (('0' as u32) + d) as char
    } else if d < 36 {
        (('a' as u32) + (d - 10)) as char
    } else {
        (('A' as u32) + (d - 36)) as char
    }
}

/// The token spelled by `digits`.
pub open spec fn token_text(digits: Seq<u8>) -> Seq<char> {
    digits.map_values(|d: u8| token_digit(d))
}

/// The number of characters of an admin setup token.
pub const ADMIN_TOKEN_LEN: usize = 32;

/// Relies on rand::thread_rng and Rng::gen_range: a random number below
/// `bound`. `gen_range` panics on an empty range, which `requires` leaves out;
/// `thread_rng` panics only when the operating system's random source fails.
#[verifier::external_body]
fn random_below(bound: u8) -> (r: u8)
    requires
        bound > 0,
    ensures
        r < bound,
{
    rand::thread_rng().gen_range(0..bound)
}

/// The admin setup token spelled by `digits`, one character per value.
pub fn admin_token_from(digits: &Vec<u8>) -> (r: String)
    requires
        forall|i: int| 0 <= i < digits.len() ==> digits[i] < 62,
    ensures
        r@ == token_text(digits@),
{
    let mut out = String::new();
    let mut i: usize = 0;
    while i < digits.len()
        invariant
            i <= digits.len(),
            forall|j: int| 0 <= j < digits.len() ==> digits[j] < 62,
            out@ =~= digits@.subrange(0, i as int).map_values(|d: u8| token_digit(d)),
        decreases digits.len() - i,
    {
        let d = digits[i];
        let c = if d < 10 {
            (('0' as u8) + d) as char
        } else if d < 36 {
            (('a' as u8) + (d - 10)) as char
        } else {
            (('A' as u8) + (d - 36)) as char
        };
        assert(c == token_digit(d));
        push_char(&mut out, c);
        i = i + 1;
        assert(digits@.subrange(0, i as int) =~= digits@.subrange(0, i - 1).push(d));
    }
    assert(digits@.subrange(0, digits.len() as int) =~= digits@);
    out
}

/// A fresh random admin setup token of 32 letters and digits.
pub fn generate_admin_token() -> (r: String)
    ensures
        r@.len() == ADMIN_TOKEN_LEN,
        exists|digits: Seq<u8>| (forall|i: int| 0 <= i < digits.len() ==> digits[i] < 62)
            && r@ == #[trigger] token_text(digits),
{
    let mut digits: Vec<u8> = Vec::new();
    while digits.len() < ADMIN_TOKEN_LEN
        invariant
            digits.len() <= ADMIN_TOKEN_LEN,
            forall|j: int| 0 <= j < digits.len() ==> digits[j] < 62,
        decreases ADMIN_TOKEN_LEN - digits.len(),
    {
        digits.push(random_below(62));
    }
    let r = admin_token_from(&digits);
    assert(r@ == token_text(digits@));
    r
}

/// The setup token to issue at start-up: a fresh one while no user exists,
/// none otherwise.
pub fn setup_token_for(user_count: i64) -> (r: Option<String>)
    ensures
        r is Some <==> user_count == 0,
        r matches Some(t) ==> t@.len() == ADMIN_TOKEN_LEN && exists|digits: Seq<u8>|
            (forall|i: int| 0 <= i < digits.len() ==> digits[i] < 62) && t@ == #[trigger] token_text(digits),
{
    if user_count == 0 {
        Some(generate_admin_token())
    } else {
        None
    }
}

} // verus!
