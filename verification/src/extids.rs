//! External identifiers: what each kind looks like and the form in which it
//! is stored.
//!
//! Every validator takes the text as it was supplied and returns the stored
//! form, or fails: with `MalformedExternalId` where the shape is wrong, with
//! `MalformedChecksum` where the shape is right and the check character is not.

use vstd::prelude::*;
use vstd::string::*;
use vstd::utf8::is_ascii_chars;
use crate::errors::{EntityType, ErrorView, ExtIdKind, FatcatError};

verus! {

pub open spec fn is_digit(c: char) -> bool {
    '0' <= c <= '9'
}

pub open spec fn is_lower_hex(c: char) -> bool {
    '0' <= c <= '9' || 'a' <= c <= 'f'
}

/// The ASCII white space characters: tab to carriage return, and space.
pub open spec fn is_space(c: char) -> bool {
    '\u{9}' <= c <= '\u{d}' || c == ' '
}

/// Value of a decimal digit.
pub open spec fn digit_value(c: char) -> int {
    c as int - 48
}

/// Lower case of an ASCII letter; any other character is itself.
pub open spec fn lower_char(c: char) -> char {
    if 'A' <= c <= 'Z' {
        ((c as u8) + 32) as char
    } else {
        c
    }
}

/// A text with each ASCII capital replaced by its small letter.
pub open spec fn lower_text(s: Seq<char>) -> Seq<char> {
    Seq::new(s.len(), |i: int| lower_char(s[i]))
}

pub open spec fn all_digits(s: Seq<char>) -> bool {
    forall|i: int| 0 <= i < s.len() ==> is_digit(#[trigger] s[i])
}

pub open spec fn all_lower_hex(s: Seq<char>) -> bool {
    forall|i: int| 0 <= i < s.len() ==> is_lower_hex(#[trigger] s[i])
}

/// A DOI: ASCII, begins with `10.`, holds a `/`, holds no white space.
pub open spec fn is_doi(s: Seq<char>) -> bool {
    &&& is_ascii_chars(s)
    &&& s.len() >= 3
    &&& s[0] == '1'
    &&& s[1] == '0'
    &&& s[2] == '.'
    &&& exists|i: int| 0 <= i < s.len() && s[i] == '/'
    &&& forall|i: int| 0 <= i < s.len() ==> !is_space(#[trigger] s[i])
}

/// A PubMed id, and equally a CORE id: one decimal digit or more.
pub open spec fn is_number_id(s: Seq<char>) -> bool {
    s.len() >= 1 && all_digits(s)
}

/// A PubMed Central id: `PMC` and one decimal digit or more.
pub open spec fn is_pmcid(s: Seq<char>) -> bool {
    s.len() >= 4 && s[0] == 'P' && s[1] == 'M' && s[2] == 'C' && all_digits(s.subrange(3, s.len() as int))
}

/// A Wikidata item id: `Q` and one decimal digit or more.
pub open spec fn is_wikidata_qid(s: Seq<char>) -> bool {
    s.len() >= 2 && s[0] == 'Q' && all_digits(s.subrange(1, s.len() as int))
}

/// A digest in lower-case hexadecimal of the given length.
pub open spec fn is_hex_digest(s: Seq<char>, len: nat) -> bool {
    s.len() == len && all_lower_hex(s)
}

/// The bytes of an ASCII text, one for one with its characters.
fn ascii_bytes(s: &str) -> (b: Vec<u8>)
    requires
        is_ascii_chars(s@),
    ensures
        b@.len() == s@.len(),
        forall|i: int| 0 <= i < s@.len() ==> #[trigger] b@[i] as int == s@[i] as int && b@[i] < 128,
{
    let b = s.as_bytes_vec();
    proof {
        assert(is_ascii(s));
        is_ascii_spec_bytes(s);
    }
    assert forall|i: int| 0 <= i < s@.len() implies #[trigger] b@[i] as int == s@[i] as int && b@[i]
        < 128 by {
        assert('\0' <= s@[i] <= '\u{7f}');
    }
    b
}

/// True when every byte from `from` on is a decimal digit.
fn digits_from(b: &Vec<u8>, from: usize) -> (r: bool)
    requires
        from <= b@.len(),
    ensures
        r <==> forall|i: int| from <= i < b@.len() ==> 48 <= #[trigger] b@[i] <= 57,
{
    let mut i: usize = from;
    while i < b.len()
        invariant
            from <= i <= b@.len(),
            forall|j: int| from <= j < i ==> 48 <= #[trigger] b@[j] <= 57,
        decreases b@.len() - i,
    {
        if !(48 <= b[i] && b[i] <= 57) {
            return false;
        }
        i += 1;
    }
    true
}

/// A text in lower case: each ASCII capital of `s` replaced by its small letter.
pub(crate) fn ascii_lower(s: &str) -> (r: String)
    requires
        is_ascii_chars(s@),
    ensures
        r@ == lower_text(s@),
{
    let small: &'static str = "abcdefghijklmnopqrstuvwxyz";
    proof {
        reveal_strlit("abcdefghijklmnopqrstuvwxyz");
    }
    let b = ascii_bytes(s);
    let mut out = String::new();
    let mut i: usize = 0;
    while i < b.len()
        invariant
            i <= b@.len(),
            b@.len() == s@.len(),
            is_ascii_chars(s@),
            is_ascii_chars(small@),
            small@ == "abcdefghijklmnopqrstuvwxyz"@,
            forall|j: int| 0 <= j < s@.len() ==> #[trigger] b@[j] as int == s@[j] as int && b@[j] < 128,
            out@.len() == i,
            forall|j: int| 0 <= j < i ==> out@[j] == lower_char(#[trigger] s@[j]),
        decreases b@.len() - i,
    {
        let c = b[i];
        if 65 <= c && c <= 90 {
            let k: usize = (c - 65) as usize;
            proof {
                reveal_strlit("abcdefghijklmnopqrstuvwxyz");
            }
            let sym = small.substring_ascii(k, k + 1);
            proof {
                assert(sym@[0] == small@[k as int]);
                assert(small@[k as int] as int == k + 97);
                assert(sym@[0] == lower_char(s@[i as int]));
            }
            out.append(sym);
        } else {
            let sym = s.substring_ascii(i, i + 1);
            assert(sym@[0] == s@[i as int]);
            out.append(sym);
        }
        i += 1;
    }
    assert(out@ =~= lower_text(s@));
    out
}

/// Checks a DOI and returns it in lower case.
pub fn check_doi(s: &str) -> (r: Result<String, FatcatError>)
    ensures
        match r {
            Ok(c) => is_doi(s@) && c@ == lower_text(s@),
            Err(e) => !is_doi(s@) && e@ == ErrorView::MalformedExternalId(ExtIdKind::Doi),
        },
{
    if !s.is_ascii() {
        return Err(FatcatError::MalformedExternalId(ExtIdKind::Doi));
    }
    let b = ascii_bytes(s);
    if b.len() < 3 || b[0] != 49 || b[1] != 48 || b[2] != 46 {
        return Err(FatcatError::MalformedExternalId(ExtIdKind::Doi));
    }
    let mut slash = false;
    let mut i: usize = 0;
    while i < b.len()
        invariant
            i <= b@.len(),
            b@.len() == s@.len(),
            forall|j: int| 0 <= j < s@.len() ==> #[trigger] b@[j] as int == s@[j] as int && b@[j] < 128,
            slash <==> exists|j: int| 0 <= j < i && s@[j] == '/',
            forall|j: int| 0 <= j < i ==> !is_space(#[trigger] s@[j]),
        decreases b@.len() - i,
    {
        let c = b[i];
        if (9 <= c && c <= 13) || c == 32 {
            assert(is_space(s@[i as int]));
            return Err(FatcatError::MalformedExternalId(ExtIdKind::Doi));
        }
        if c == 47 {
            assert(s@[i as int] == '/');
            slash = true;
        }
        i += 1;
    }
    if !slash {
        return Err(FatcatError::MalformedExternalId(ExtIdKind::Doi));
    }
    Ok(ascii_lower(s))
}

/// Checks an identifier that is a plain decimal number (a PubMed id or a CORE id).
pub fn check_number_id(s: &str, kind: ExtIdKind) -> (r: Result<String, FatcatError>)
    ensures
        match r {
            Ok(c) => is_number_id(s@) && c@ == s@,
            Err(e) => !is_number_id(s@) && e@ == ErrorView::MalformedExternalId(kind),
        },
{
    if !s.is_ascii() {
        proof {
            if is_number_id(s@) {
                assert forall|i: int| 0 <= i < s@.len() implies '\0' <= #[trigger] s@[i] <= '\u{7f}' by {
                    assert(is_digit(s@[i]));
                }
            }
        }
        return Err(FatcatError::MalformedExternalId(kind));
    }
    let b = ascii_bytes(s);
    if b.len() < 1 || !digits_from(&b, 0) {
        proof {
            if is_number_id(s@) {
                assert forall|i: int| 0 <= i < b@.len() implies 48 <= #[trigger] b@[i] <= 57 by {
                    assert(is_digit(s@[i]));
                }
            }
        }
        return Err(FatcatError::MalformedExternalId(kind));
    }
    assert forall|i: int| 0 <= i < s@.len() implies is_digit(#[trigger] s@[i]) by {
        assert(48 <= b@[i] <= 57);
    }
    Ok(s.to_owned())
}


/// Checks an identifier made of a fixed ASCII prefix and one decimal digit or more.
fn check_prefixed_number(s: &str, prefix: &str, kind: ExtIdKind) -> (r: Result<String, FatcatError>)
    requires
        is_ascii_chars(prefix@),
        prefix@.len() >= 1,
    ensures
        match r {
            Ok(c) => c@ == s@,
            Err(e) => e@ == ErrorView::MalformedExternalId(kind),
        },
        r is Ok <==> (s@.len() > prefix@.len() && s@.subrange(0, prefix@.len() as int) == prefix@
            && all_digits(s@.subrange(prefix@.len() as int, s@.len() as int))),
{
    let ghost ok = s@.len() > prefix@.len() && s@.subrange(0, prefix@.len() as int) == prefix@
        && all_digits(s@.subrange(prefix@.len() as int, s@.len() as int));
    let p = ascii_bytes(prefix);
    let n = p.len();
    if !s.is_ascii() {
        proof {
            if ok {
                assert forall|i: int| 0 <= i < s@.len() implies '\0' <= #[trigger] s@[i] <= '\u{7f}' by {
                    if i < n {
                        assert(s@.subrange(0, n as int)[i] == prefix@[i]);
                    } else {
                        assert(is_digit(s@.subrange(n as int, s@.len() as int)[i - n]));
                    }
                }
            }
        }
        return Err(FatcatError::MalformedExternalId(kind));
    }
    let b = ascii_bytes(s);
    if b.len() <= n {
        return Err(FatcatError::MalformedExternalId(kind));
    }
    let mut i: usize = 0;
    while i < n
        invariant
            i <= n,
            n == p@.len(),
            n == prefix@.len(),
            n < b@.len(),
            b@.len() == s@.len(),
            forall|j: int| 0 <= j < s@.len() ==> #[trigger] b@[j] as int == s@[j] as int && b@[j] < 128,
            forall|j: int|
                0 <= j < prefix@.len() ==> #[trigger] p@[j] as int == prefix@[j] as int && p@[j] < 128,
            forall|j: int| 0 <= j < i ==> s@[j] == prefix@[j],
        decreases n - i,
    {
        if b[i] != p[i] {
            proof {
                assert(s@.subrange(0, n as int)[i as int] == s@[i as int]);
                assert(s@[i as int] != prefix@[i as int]);
            }
            return Err(FatcatError::MalformedExternalId(kind));
        }
        i += 1;
    }
    assert(s@.subrange(0, n as int) =~= prefix@);
    if !digits_from(&b, n) {
        proof {
            if ok {
                assert forall|j: int| n <= j < b@.len() implies 48 <= #[trigger] b@[j] <= 57 by {
                    assert(is_digit(s@.subrange(n as int, s@.len() as int)[j - n]));
                }
            }
        }
        return Err(FatcatError::MalformedExternalId(kind));
    }
    assert forall|j: int| 0 <= j < s@.len() - n implies is_digit(
        #[trigger] s@.subrange(n as int, s@.len() as int)[j],
    ) by {
        assert(48 <= b@[j + n] <= 57);
    }
    Ok(s.to_owned())
}

/// Checks a PubMed Central id.
pub fn check_pmcid(s: &str) -> (r: Result<String, FatcatError>)
    ensures
        match r {
            Ok(c) => is_pmcid(s@) && c@ == s@,
            Err(e) => !is_pmcid(s@) && e@ == ErrorView::MalformedExternalId(ExtIdKind::Pmcid),
        },
{
    proof {
        reveal_strlit("PMC");
        if s@.len() >= 3 {
            let pre = s@.subrange(0, 3);
            assert(pre == "PMC"@ <==> (s@[0] == 'P' && s@[1] == 'M' && s@[2] == 'C')) by {
                if s@[0] == 'P' && s@[1] == 'M' && s@[2] == 'C' {
                    assert(pre =~= "PMC"@);
                } else {
                    assert(pre[0] == s@[0] && pre[1] == s@[1] && pre[2] == s@[2]);
                }
            }
        }
    }
    check_prefixed_number(s, "PMC", ExtIdKind::Pmcid)
}

/// Checks a Wikidata item id.
pub fn check_wikidata_qid(s: &str) -> (r: Result<String, FatcatError>)
    ensures
        match r {
            Ok(c) => is_wikidata_qid(s@) && c@ == s@,
            Err(e) => !is_wikidata_qid(s@) && e@ == ErrorView::MalformedExternalId(
                ExtIdKind::WikidataQid,
            ),
        },
{
    proof {
        reveal_strlit("Q");
        if s@.len() >= 1 {
            let pre = s@.subrange(0, 1);
            assert(pre == "Q"@ <==> s@[0] == 'Q') by {
                if s@[0] == 'Q' {
                    assert(pre =~= "Q"@);
                } else {
                    assert(pre[0] == s@[0]);
                }
            }
        }
    }
    check_prefixed_number(s, "Q", ExtIdKind::WikidataQid)
}

/// Checks a digest of `len` lower-case hexadecimal characters.
pub fn check_hex_digest(s: &str, len: usize, kind: ExtIdKind) -> (r: Result<String, FatcatError>)
    ensures
        match r {
            Ok(c) => is_hex_digest(s@, len as nat) && c@ == s@,
            Err(e) => !is_hex_digest(s@, len as nat) && e@ == ErrorView::MalformedExternalId(kind),
        },
{
    if !s.is_ascii() {
        proof {
            if all_lower_hex(s@) {
                assert forall|i: int| 0 <= i < s@.len() implies '\0' <= #[trigger] s@[i] <= '\u{7f}' by {
                    assert(is_lower_hex(s@[i]));
                }
            }
        }
        return Err(FatcatError::MalformedExternalId(kind));
    }
    let b = ascii_bytes(s);
    if b.len() != len {
        return Err(FatcatError::MalformedExternalId(kind));
    }
    let mut i: usize = 0;
    while i < b.len()
        invariant
            i <= b@.len(),
            b@.len() == s@.len(),
            forall|j: int| 0 <= j < s@.len() ==> #[trigger] b@[j] as int == s@[j] as int && b@[j] < 128,
            forall|j: int| 0 <= j < i ==> is_lower_hex(#[trigger] s@[j]),
        decreases b@.len() - i,
    {
        let c = b[i];
        if !((48 <= c && c <= 57) || (97 <= c && c <= 102)) {
            assert(!is_lower_hex(s@[i as int]));
            return Err(FatcatError::MalformedExternalId(kind));
        }
        i += 1;
    }
    Ok(s.to_owned())
}

/// Value of a check character: `X` stands for ten.
pub open spec fn check_char_value(c: char) -> int {
    if c == 'X' {
        10
    } else {
        digit_value(c)
    }
}

pub open spec fn is_check_char(c: char) -> bool {
    is_digit(c) || c == 'X'
}

/// Shape of an ORCID: four groups of four, joined by hyphens; the last
/// character is the check character.
pub open spec fn orcid_shape(s: Seq<char>) -> bool {
    &&& s.len() == 19
    &&& s[4] == '-'
    &&& s[9] == '-'
    &&& s[14] == '-'
    &&& forall|k: int| 0 <= k < 15 ==> is_digit(s[#[trigger] orcid_pos(k)])
    &&& is_check_char(s[18])
}

/// Where the `k`-th protected digit of an ORCID stands: each hyphen is skipped.
pub open spec fn orcid_pos(k: int) -> int {
    k + k / 4
}

proof fn lemma_iso7064_step(total: int, t: int, d: int)
    requires
        t == total % 11,
    ensures
        ((t + d) * 2) % 11 == ((total + d) * 2) % 11,
{
    let q = total / 11;
    vstd::arithmetic::div_mod::lemma_fundamental_div_mod(total, 11);
    assert((total + d) * 2 == 11 * (2 * q) + (t + d) * 2);
    vstd::arithmetic::div_mod::lemma_mod_multiples_vanish(2 * q, (t + d) * 2, 11);
}

/// The fifteen digits of an ORCID that the check character protects.
pub open spec fn orcid_digits(s: Seq<char>) -> Seq<int> {
    Seq::new(15, |k: int| digit_value(s[orcid_pos(k)]))
}

/// ISO 7064 mod 11-2: the running total over a sequence of digits.
pub open spec fn iso7064_total(ds: Seq<int>) -> int
    decreases ds.len(),
{
    if ds.len() == 0 {
        0
    } else {
        (iso7064_total(ds.drop_last()) + ds.last()) * 2
    }
}

/// ISO 7064 mod 11-2: the check value of a sequence of digits.
pub open spec fn iso7064_check(ds: Seq<int>) -> int {
    (12 - iso7064_total(ds) % 11) % 11
}

pub open spec fn is_orcid(s: Seq<char>) -> bool {
    orcid_shape(s) && iso7064_check(orcid_digits(s)) == check_char_value(s[18])
}

/// Shape of an ISSN-L: two groups of four joined by a hyphen; the last
/// character is the check character.
pub open spec fn issnl_shape(s: Seq<char>) -> bool {
    &&& s.len() == 9
    &&& s[4] == '-'
    &&& is_digit(s[0]) && is_digit(s[1]) && is_digit(s[2]) && is_digit(s[3])
    &&& is_digit(s[5]) && is_digit(s[6]) && is_digit(s[7])
    &&& is_check_char(s[8])
}

/// The weighted sum of the seven digits of an ISSN-L, weights eight down to two.
pub open spec fn issnl_sum(s: Seq<char>) -> int {
    8 * digit_value(s[0]) + 7 * digit_value(s[1]) + 6 * digit_value(s[2]) + 5 * digit_value(s[3])
        + 4 * digit_value(s[5]) + 3 * digit_value(s[6]) + 2 * digit_value(s[7])
}

pub open spec fn is_issnl(s: Seq<char>) -> bool {
    issnl_shape(s) && (11 - issnl_sum(s) % 11) % 11 == check_char_value(s[8])
}

pub open spec fn isbn13_shape(s: Seq<char>) -> bool {
    s.len() == 13 && all_digits(s)
}

/// The weighted sum of the first twelve digits of an ISBN-13, weights one and
/// three in turn.
pub open spec fn isbn13_sum(s: Seq<char>) -> int {
    digit_value(s[0]) + 3 * digit_value(s[1]) + digit_value(s[2]) + 3 * digit_value(s[3])
        + digit_value(s[4]) + 3 * digit_value(s[5]) + digit_value(s[6]) + 3 * digit_value(s[7])
        + digit_value(s[8]) + 3 * digit_value(s[9]) + digit_value(s[10]) + 3 * digit_value(s[11])
}

pub open spec fn is_isbn13(s: Seq<char>) -> bool {
    isbn13_shape(s) && (10 - isbn13_sum(s) % 10) % 10 == digit_value(s[12])
}

fn is_digit_byte(c: u8) -> (r: bool)
    ensures
        r <==> 48 <= c <= 57,
{
    48 <= c && c <= 57
}

/// Checks an ORCID: its shape, then its check character.
pub fn check_orcid(s: &str) -> (r: Result<String, FatcatError>)
    ensures
        match r {
            Ok(c) => is_orcid(s@) && c@ == s@,
            Err(e) => !is_orcid(s@) && (if orcid_shape(s@) {
                e@ == ErrorView::MalformedChecksum(ExtIdKind::Orcid)
            } else {
                e@ == ErrorView::MalformedExternalId(ExtIdKind::Orcid)
            }),
        },
{
    if !s.is_ascii() {
        proof {
            if orcid_shape(s@) {
                assert forall|i: int| 0 <= i < s@.len() implies '\0' <= #[trigger] s@[i] <= '\u{7f}' by {
                    if i != 4 && i != 9 && i != 14 && i != 18 {
                        let k = i - i / 5;
                        assert(orcid_pos(k) == i);
                    }
                }
            }
        }
        return Err(FatcatError::MalformedExternalId(ExtIdKind::Orcid));
    }
    let b = ascii_bytes(s);
    if b.len() != 19 || b[4] != 45 || b[9] != 45 || b[14] != 45 || !(is_digit_byte(b[18]) || b[18]
        == 88) {
        return Err(FatcatError::MalformedExternalId(ExtIdKind::Orcid));
    }
    let mut t: u32 = 0;
    let mut k: usize = 0;
    while k < 15
        invariant
            k <= 15,
            b@.len() == 19,
            s@.len() == 19,
            forall|j: int| 0 <= j < 19 ==> #[trigger] b@[j] as int == s@[j] as int && b@[j] < 128,
            forall|j: int| 0 <= j < k ==> is_digit(s@[#[trigger] orcid_pos(j)]),
            0 <= t < 11,
            t as int == iso7064_total(orcid_digits(s@).subrange(0, k as int)) % 11,
        decreases 15 - k,
    {
        let c = b[k + k / 4];
        if !is_digit_byte(c) {
            assert(!is_digit(s@[orcid_pos(k as int)]));
            return Err(FatcatError::MalformedExternalId(ExtIdKind::Orcid));
        }
        proof {
            let prev = orcid_digits(s@).subrange(0, k as int);
            let next = orcid_digits(s@).subrange(0, k + 1);
            assert(next.drop_last() =~= prev);
            assert(next.last() == digit_value(s@[orcid_pos(k as int)]));
            assert(iso7064_total(next) == (iso7064_total(prev) + (c as int - 48)) * 2);
            lemma_iso7064_step(iso7064_total(prev), t as int, c as int - 48);
        }
        t = ((t + (c - 48) as u32) * 2) % 11;
        k += 1;
    }
    assert(orcid_digits(s@).subrange(0, 15) =~= orcid_digits(s@));
    assert(orcid_shape(s@));
    let want: u32 = (12 - t) % 11;
    let have: u32 = if b[18] == 88 {
        10
    } else {
        (b[18] - 48) as u32
    };
    assert(have as int == check_char_value(s@[18]));
    if want != have {
        return Err(FatcatError::MalformedChecksum(ExtIdKind::Orcid));
    }
    Ok(s.to_owned())
}

/// Checks an ISSN-L: its shape, then its check character.
pub fn check_issnl(s: &str) -> (r: Result<String, FatcatError>)
    ensures
        match r {
            Ok(c) => is_issnl(s@) && c@ == s@,
            Err(e) => !is_issnl(s@) && (if issnl_shape(s@) {
                e@ == ErrorView::MalformedChecksum(ExtIdKind::Issnl)
            } else {
                e@ == ErrorView::MalformedExternalId(ExtIdKind::Issnl)
            }),
        },
{
    if !s.is_ascii() {
        proof {
            if issnl_shape(s@) {
                assert forall|i: int| 0 <= i < s@.len() implies '\0' <= #[trigger] s@[i] <= '\u{7f}' by {}
            }
        }
        return Err(FatcatError::MalformedExternalId(ExtIdKind::Issnl));
    }
    let b = ascii_bytes(s);
    if b.len() != 9 || b[4] != 45 || !is_digit_byte(b[0]) || !is_digit_byte(b[1]) || !is_digit_byte(
        b[2],
    ) || !is_digit_byte(b[3]) || !is_digit_byte(b[5]) || !is_digit_byte(b[6]) || !is_digit_byte(b[7])
        || !(is_digit_byte(b[8]) || b[8] == 88) {
        return Err(FatcatError::MalformedExternalId(ExtIdKind::Issnl));
    }
    assert(issnl_shape(s@));
    let sum: u32 = 8 * (b[0] - 48) as u32 + 7 * (b[1] - 48) as u32 + 6 * (b[2] - 48) as u32 + 5 * (
    b[3] - 48) as u32 + 4 * (b[5] - 48) as u32 + 3 * (b[6] - 48) as u32 + 2 * (b[7] - 48) as u32;
    assert(sum as int == issnl_sum(s@));
    let want: u32 = (11 - sum % 11) % 11;
    let have: u32 = if b[8] == 88 {
        10
    } else {
        (b[8] - 48) as u32
    };
    assert(have as int == check_char_value(s@[8]));
    if want != have {
        return Err(FatcatError::MalformedChecksum(ExtIdKind::Issnl));
    }
    Ok(s.to_owned())
}

/// Checks an ISBN-13: thirteen digits, then the check digit.
pub fn check_isbn13(s: &str) -> (r: Result<String, FatcatError>)
    ensures
        match r {
            Ok(c) => is_isbn13(s@) && c@ == s@,
            Err(e) => !is_isbn13(s@) && (if isbn13_shape(s@) {
                e@ == ErrorView::MalformedChecksum(ExtIdKind::Isbn13)
            } else {
                e@ == ErrorView::MalformedExternalId(ExtIdKind::Isbn13)
            }),
        },
{
    if !s.is_ascii() {
        proof {
            if isbn13_shape(s@) {
                assert forall|i: int| 0 <= i < s@.len() implies '\0' <= #[trigger] s@[i] <= '\u{7f}' by {
                    assert(is_digit(s@[i]));
                }
            }
        }
        return Err(FatcatError::MalformedExternalId(ExtIdKind::Isbn13));
    }
    let b = ascii_bytes(s);
    if b.len() != 13 || !digits_from(&b, 0) {
        proof {
            if isbn13_shape(s@) {
                assert forall|i: int| 0 <= i < b@.len() implies 48 <= #[trigger] b@[i] <= 57 by {
                    assert(is_digit(s@[i]));
                }
            }
        }
        return Err(FatcatError::MalformedExternalId(ExtIdKind::Isbn13));
    }
    assert forall|i: int| 0 <= i < 13 implies is_digit(#[trigger] s@[i]) by {
        assert(48 <= b@[i] <= 57);
    }
    assert(48 <= b@[0] <= 57 && 48 <= b@[1] <= 57 && 48 <= b@[2] <= 57 && 48 <= b@[3] <= 57 && 48
        <= b@[4] <= 57 && 48 <= b@[5] <= 57 && 48 <= b@[6] <= 57 && 48 <= b@[7] <= 57 && 48 <= b@[8]
        <= 57 && 48 <= b@[9] <= 57 && 48 <= b@[10] <= 57 && 48 <= b@[11] <= 57 && 48 <= b@[12] <= 57);
    let sum: u32 = (b[0] - 48) as u32 + 3 * (b[1] - 48) as u32 + (b[2] - 48) as u32 + 3 * (b[3]
        - 48) as u32 + (b[4] - 48) as u32 + 3 * (b[5] - 48) as u32 + (b[6] - 48) as u32 + 3 * (b[7]
        - 48) as u32 + (b[8] - 48) as u32 + 3 * (b[9] - 48) as u32 + (b[10] - 48) as u32 + 3 * (
    b[11] - 48) as u32;
    assert(sum as int == isbn13_sum(s@));
    let want: u32 = (10 - sum % 10) % 10;
    if want != (b[12] - 48) as u32 {
        return Err(FatcatError::MalformedChecksum(ExtIdKind::Isbn13));
    }
    Ok(s.to_owned())
}


/// The verdict on a text offered as an external identifier of a kind: the
/// form in which it is stored, or the error that rejects it.
pub open spec fn ext_id_verdict(kind: ExtIdKind, s: Seq<char>) -> Result<Seq<char>, ErrorView> {
    let malformed = Err::<Seq<char>, ErrorView>(ErrorView::MalformedExternalId(kind));
    let checksum = Err::<Seq<char>, ErrorView>(ErrorView::MalformedChecksum(kind));
    match kind {
        ExtIdKind::Doi => if is_doi(s) {
            Ok(lower_text(s))
        } else {
            malformed
        },
        ExtIdKind::Pmid | ExtIdKind::CoreId => if is_number_id(s) {
            Ok(s)
        } else {
            malformed
        },
        ExtIdKind::Pmcid => if is_pmcid(s) {
            Ok(s)
        } else {
            malformed
        },
        ExtIdKind::WikidataQid => if is_wikidata_qid(s) {
            Ok(s)
        } else {
            malformed
        },
        ExtIdKind::Md5 => if is_hex_digest(s, 32) {
            Ok(s)
        } else {
            malformed
        },
        ExtIdKind::Sha1 => if is_hex_digest(s, 40) {
            Ok(s)
        } else {
            malformed
        },
        ExtIdKind::Sha256 => if is_hex_digest(s, 64) {
            Ok(s)
        } else {
            malformed
        },
        ExtIdKind::Orcid => if is_orcid(s) {
            Ok(s)
        } else if orcid_shape(s) {
            checksum
        } else {
            malformed
        },
        ExtIdKind::Issnl => if is_issnl(s) {
            Ok(s)
        } else if issnl_shape(s) {
            checksum
        } else {
            malformed
        },
        ExtIdKind::Isbn13 => if is_isbn13(s) {
            Ok(s)
        } else if isbn13_shape(s) {
            checksum
        } else {
            malformed
        },
    }
}

/// Checks a text as an external identifier of the given kind and returns the
/// form in which it is stored.
pub fn validate_ext_id(kind: ExtIdKind, s: &str) -> (r: Result<String, FatcatError>)
    ensures
        match r {
            Ok(c) => ext_id_verdict(kind, s@) == Ok::<Seq<char>, ErrorView>(c@),
            Err(e) => ext_id_verdict(kind, s@) == Err::<Seq<char>, ErrorView>(e@),
        },
{
    match kind {
        ExtIdKind::Doi => check_doi(s),
        ExtIdKind::Pmid => check_number_id(s, ExtIdKind::Pmid),
        ExtIdKind::CoreId => check_number_id(s, ExtIdKind::CoreId),
        ExtIdKind::Pmcid => check_pmcid(s),
        ExtIdKind::WikidataQid => check_wikidata_qid(s),
        ExtIdKind::Md5 => check_hex_digest(s, 32, ExtIdKind::Md5),
        ExtIdKind::Sha1 => check_hex_digest(s, 40, ExtIdKind::Sha1),
        ExtIdKind::Sha256 => check_hex_digest(s, 64, ExtIdKind::Sha256),
        ExtIdKind::Orcid => check_orcid(s),
        ExtIdKind::Issnl => check_issnl(s),
        ExtIdKind::Isbn13 => check_isbn13(s),
    }
}

/// A stored form is itself valid and is stored unchanged: validating twice
/// gives what validating once gave.
pub proof fn lemma_stored_form_is_fixed(kind: ExtIdKind, s: Seq<char>)
    requires
        ext_id_verdict(kind, s) is Ok,
    ensures
        ext_id_verdict(kind, ext_id_verdict(kind, s)->Ok_0) == ext_id_verdict(kind, s),
{
    if kind == ExtIdKind::Doi {
        let t = lower_text(s);
        let i = choose|i: int| 0 <= i < s.len() && s[i] == '/';
        assert(t[i] == '/');
        assert forall|j: int| 0 <= j < t.len() implies '\0' <= #[trigger] t[j] <= '\u{7f}' && !is_space(
            t[j],
        ) && lower_char(t[j]) == t[j] by {
            assert('\0' <= s[j] <= '\u{7f}');
            assert(!is_space(s[j]));
        }
        assert(lower_text(t) =~= t);
    }
}

/// Which kinds of external identifier a revision of each entity type may carry.
pub open spec fn kind_applies(t: EntityType, k: ExtIdKind) -> bool {
    match t {
        EntityType::Release => k == ExtIdKind::Doi || k == ExtIdKind::WikidataQid || k
            == ExtIdKind::Isbn13 || k == ExtIdKind::Pmid || k == ExtIdKind::Pmcid || k
            == ExtIdKind::CoreId,
        EntityType::File => k == ExtIdKind::Md5 || k == ExtIdKind::Sha1 || k == ExtIdKind::Sha256,
        EntityType::Container => k == ExtIdKind::Issnl || k == ExtIdKind::WikidataQid,
        EntityType::Creator => k == ExtIdKind::Orcid || k == ExtIdKind::WikidataQid,
        _ => false,
    }
}

/// Whether a revision of entity type `t` may carry an external identifier of kind `k`.
pub fn ext_id_kind_applies(t: EntityType, k: ExtIdKind) -> (b: bool)
    ensures
        b == kind_applies(t, k),
{
    match t {
        EntityType::Release => k == ExtIdKind::Doi || k == ExtIdKind::WikidataQid || k
            == ExtIdKind::Isbn13 || k == ExtIdKind::Pmid || k == ExtIdKind::Pmcid || k
            == ExtIdKind::CoreId,
        EntityType::File => k == ExtIdKind::Md5 || k == ExtIdKind::Sha1 || k == ExtIdKind::Sha256,
        EntityType::Container => k == ExtIdKind::Issnl || k == ExtIdKind::WikidataQid,
        EntityType::Creator => k == ExtIdKind::Orcid || k == ExtIdKind::WikidataQid,
        _ => false,
    }
}

} // verus!
