//! Catalog identifiers: the 26-character base-32 text of a 128-bit UUID.
//!
//! The 128 bits are read from the most significant end in groups of five;
//! the last group holds the three lowest bits followed by two zero bits.
//! Each group is written with one symbol of Crockford's alphabet, so every
//! UUID has exactly one text and no text stands for two UUIDs.

use vstd::prelude::*;
use vstd::string::*;
use crate::errors::{ErrorView, FatcatError};
use vstd::utf8::is_ascii_chars;

verus! {

/// Crockford's base-32 symbols, by value.
pub open spec fn fcid_alphabet() -> Seq<char> {
    "0123456789ABCDEFGHJKMNPQRSTVWXYZ"@
}

/// 32 to the power `n`.
pub open spec fn pow32(n: nat) -> nat
    decreases n,
{
    if n == 0 {
        1
    } else {
        32 * pow32((n - 1) as nat)
    }
}

/// The `n` lowest base-32 digits of `v`, most significant first.
pub open spec fn digits32(v: nat, n: nat) -> Seq<int>
    decreases n,
{
    if n == 0 {
        Seq::empty()
    } else {
        digits32(v / 32, (n - 1) as nat).push((v % 32) as int)
    }
}

/// The number that a sequence of base-32 digits, most significant first, stands for.
pub open spec fn value32(ds: Seq<int>) -> int
    decreases ds.len(),
{
    if ds.len() == 0 {
        0
    } else {
        value32(ds.drop_last()) * 32 + ds.last()
    }
}

/// The 26 five-bit groups of a UUID.
pub open spec fn fcid_digits(u: u128) -> Seq<int> {
    digits32((u / 8) as nat, 25).push(((u % 8) * 4) as int)
}

/// The text of a UUID as a catalog identifier.
pub open spec fn fcid_text(u: u128) -> Seq<char> {
    Seq::new(26, |i: int| fcid_alphabet()[fcid_digits(u)[i]])
}

/// A text is a catalog identifier when it is the text of some UUID.
pub open spec fn is_fcid(s: Seq<char>) -> bool {
    exists|u: u128| fcid_text(u) == s
}

/// The UUID that a text stands for, if it is a catalog identifier.
pub open spec fn fcid_value(s: Seq<char>) -> Option<u128> {
    if is_fcid(s) {
        Some(choose|u: u128| fcid_text(u) == s)
    } else {
        None
    }
}

/// Value of a symbol: its place in the alphabet.
pub open spec fn spec_symbol_value(c: char) -> Option<int> {
    if exists|d: int| 0 <= d < 32 && fcid_alphabet()[d] == c {
        Some(choose|d: int| 0 <= d < 32 && fcid_alphabet()[d] == c)
    } else {
        None
    }
}

proof fn lemma_alphabet()
    ensures
        fcid_alphabet().len() == 32,
        is_ascii_chars(fcid_alphabet()),
        forall|i: int, j: int|
            0 <= i < 32 && 0 <= j < 32 && fcid_alphabet()[i] == fcid_alphabet()[j] ==> i == j,
        forall|i: int|
            0 <= i < 32 ==> {
                let c = #[trigger] fcid_alphabet()[i];
                ('0' <= c <= '9' && i == c as int - 48) || ('A' <= c <= 'H' && i == c as int - 55)
                    || ('J' <= c <= 'K' && i == c as int - 56) || ('M' <= c <= 'N' && i == c as int
                    - 57) || ('P' <= c <= 'T' && i == c as int - 58) || ('V' <= c <= 'Z' && i
                    == c as int - 59)
            },
{
    reveal_strlit("0123456789ABCDEFGHJKMNPQRSTVWXYZ");
    let a = fcid_alphabet();
    assert(a.len() == 32);
    assert forall|i: int| 0 <= i < 32 implies {
        let c = #[trigger] a[i];
        ('0' <= c <= '9' && i == c as int - 48) || ('A' <= c <= 'H' && i == c as int - 55) || ('J'
            <= c <= 'K' && i == c as int - 56) || ('M' <= c <= 'N' && i == c as int - 57) || ('P'
            <= c <= 'T' && i == c as int - 58) || ('V' <= c <= 'Z' && i == c as int - 59)
    } by {
        if i < 8 {
            assert(a[0] == '0' && a[1] == '1' && a[2] == '2' && a[3] == '3' && a[4] == '4' && a[5]
                == '5' && a[6] == '6' && a[7] == '7');
        } else if i < 16 {
            assert(a[8] == '8' && a[9] == '9' && a[10] == 'A' && a[11] == 'B' && a[12] == 'C'
                && a[13] == 'D' && a[14] == 'E' && a[15] == 'F');
        } else if i < 24 {
            assert(a[16] == 'G' && a[17] == 'H' && a[18] == 'J' && a[19] == 'K' && a[20] == 'M'
                && a[21] == 'N' && a[22] == 'P' && a[23] == 'Q');
        } else {
            assert(a[24] == 'R' && a[25] == 'S' && a[26] == 'T' && a[27] == 'V' && a[28] == 'W'
                && a[29] == 'X' && a[30] == 'Y' && a[31] == 'Z');
        }
    }
    assert forall|i: int, j: int| 0 <= i < 32 && 0 <= j < 32 && a[i] == a[j] implies i == j by {
        let c = a[i];
        let d = a[j];
    }
}

/// Value of one symbol of the alphabet, or `None` for any other character.
pub fn symbol_value(c: char) -> (r: Option<u8>)
    ensures
        match r {
            Some(d) => spec_symbol_value(c) == Some(d as int) && d < 32 && fcid_alphabet()[d as int]
                == c,
            None => spec_symbol_value(c) is None && forall|d: int|
                0 <= d < 32 ==> fcid_alphabet()[d] != c,
        },
{
    proof {
        lemma_alphabet();
    }
    let n: u32 = c as u32;
    let r: Option<u8> = if 48 <= n && n <= 57 {
        Some((n - 48) as u8)
    } else if 65 <= n && n <= 72 {
        Some((n - 55) as u8)
    } else if 74 <= n && n <= 75 {
        Some((n - 56) as u8)
    } else if 77 <= n && n <= 78 {
        Some((n - 57) as u8)
    } else if 80 <= n && n <= 84 {
        Some((n - 58) as u8)
    } else if 86 <= n && n <= 90 {
        Some((n - 59) as u8)
    } else {
        None
    };
    proof {
        reveal_strlit("0123456789ABCDEFGHJKMNPQRSTVWXYZ");
        match r {
            Some(d) => {
                assert(fcid_alphabet()[d as int] == c);
            },
            None => {
                assert forall|d: int| 0 <= d < 32 implies fcid_alphabet()[d] != c by {
                    let x = fcid_alphabet()[d];
                }
            },
        }
    }
    r
}


proof fn lemma_pow32_25()
    ensures
        pow32(25) == 0x2000_0000_0000_0000_0000_0000_0000_0000,
{
    reveal_with_fuel(pow32, 26);
}

proof fn lemma_digits32_shape(v: nat, n: nat)
    ensures
        digits32(v, n).len() == n,
        forall|i: int| 0 <= i < n ==> 0 <= #[trigger] digits32(v, n)[i] < 32,
    decreases n,
{
    if n > 0 {
        lemma_digits32_shape(v / 32, (n - 1) as nat);
    }
}

proof fn lemma_value32_bounds(ds: Seq<int>)
    requires
        forall|i: int| 0 <= i < ds.len() ==> 0 <= #[trigger] ds[i] < 32,
    ensures
        0 <= value32(ds) < pow32(ds.len()),
    decreases ds.len(),
{
    if ds.len() > 0 {
        lemma_value32_bounds(ds.drop_last());
    }
}

proof fn lemma_value_of_digits(v: nat, n: nat)
    requires
        v < pow32(n),
    ensures
        value32(digits32(v, n)) == v,
    decreases n,
{
    if n > 0 {
        lemma_digits32_shape(v / 32, (n - 1) as nat);
        lemma_value_of_digits(v / 32, (n - 1) as nat);
        assert(digits32(v, n).drop_last() =~= digits32(v / 32, (n - 1) as nat));
    }
}

proof fn lemma_digits_of_value(ds: Seq<int>)
    requires
        forall|i: int| 0 <= i < ds.len() ==> 0 <= #[trigger] ds[i] < 32,
    ensures
        digits32(value32(ds) as nat, ds.len()) == ds,
    decreases ds.len(),
{
    if ds.len() > 0 {
        let init = ds.drop_last();
        lemma_value32_bounds(init);
        lemma_digits_of_value(init);
        let v = value32(ds) as nat;
        assert(v / 32 == value32(init));
        assert(v % 32 == ds.last());
        assert(digits32(v, ds.len()) =~= ds);
    } else {
        assert(digits32(value32(ds) as nat, ds.len()) =~= ds);
    }
}

proof fn lemma_fcid_digits(u: u128)
    ensures
        fcid_digits(u).len() == 26,
        forall|i: int| 0 <= i < 26 ==> 0 <= #[trigger] fcid_digits(u)[i] < 32,
        fcid_digits(u)[25] % 4 == 0,
        fcid_digits(u)[25] == (u % 8) * 4,
        fcid_digits(u).subrange(0, 25) == digits32((u / 8) as nat, 25),
        fcid_text(u).len() == 26,
{
    lemma_digits32_shape((u / 8) as nat, 25);
    assert(fcid_digits(u).subrange(0, 25) =~= digits32((u / 8) as nat, 25));
}

/// The text whose symbols have the values `ds` is the text of the UUID that
/// `ds` spells.
proof fn lemma_text_of_digits(ds: Seq<int>, s: Seq<char>)
    requires
        ds.len() == 26,
        s.len() == 26,
        forall|i: int| 0 <= i < 26 ==> 0 <= #[trigger] ds[i] < 32 && fcid_alphabet()[ds[i]] == s[i],
        ds[25] % 4 == 0,
    ensures
        0 <= value32(ds.subrange(0, 25)) * 8 + ds[25] / 4 <= u128::MAX,
        fcid_text((value32(ds.subrange(0, 25)) * 8 + ds[25] / 4) as u128) == s,
{
    let head = ds.subrange(0, 25);
    lemma_value32_bounds(head);
    lemma_pow32_25();
    let u = (value32(head) * 8 + ds[25] / 4) as u128;
    assert(u / 8 == value32(head));
    assert((u % 8) * 4 == ds[25]);
    lemma_digits_of_value(head);
    assert(fcid_digits(u) =~= ds);
    assert(fcid_text(u) =~= s);
}

/// No two UUIDs share a text.
pub proof fn lemma_fcid_text_injective(a: u128, b: u128)
    requires
        fcid_text(a) == fcid_text(b),
    ensures
        a == b,
{
    lemma_alphabet();
    lemma_fcid_digits(a);
    lemma_fcid_digits(b);
    lemma_pow32_25();
    assert forall|i: int| 0 <= i < 26 implies fcid_digits(a)[i] == fcid_digits(b)[i] by {
        let x = fcid_digits(a)[i];
        let y = fcid_digits(b)[i];
        assert(fcid_text(a)[i] == fcid_alphabet()[x]);
        assert(fcid_text(b)[i] == fcid_alphabet()[y]);
    }
    assert(fcid_digits(a) =~= fcid_digits(b));
    lemma_value_of_digits((a / 8) as nat, 25);
    lemma_value_of_digits((b / 8) as nat, 25);
    assert(a / 8 == b / 8);
    assert(a % 8 == b % 8);
}

/// Writing a UUID as text and reading the text gives the UUID back.
pub proof fn lemma_fcid_value_of_text(u: u128)
    ensures
        fcid_value(fcid_text(u)) == Some(u),
{
    let s = fcid_text(u);
    assert(is_fcid(s));
    let w = choose|w: u128| fcid_text(w) == s;
    lemma_fcid_text_injective(w, u);
}

/// Reading a catalog identifier and writing the UUID gives the same text back.
pub proof fn lemma_fcid_text_of_value(s: Seq<char>)
    requires
        is_fcid(s),
    ensures
        fcid_value(s) is Some,
        fcid_text(fcid_value(s)->0) == s,
{
}

/// A text is a catalog identifier exactly when it has 26 characters, each a
/// symbol of the alphabet, and the last symbol's two lowest bits are zero.
pub proof fn lemma_fcid_shape(s: Seq<char>)
    ensures
        is_fcid(s) <==> (s.len() == 26 && (forall|i: int|
            0 <= i < 26 ==> (#[trigger] spec_symbol_value(s[i])) is Some) && spec_symbol_value(
            s[25],
        )->0 % 4 == 0),
{
    lemma_alphabet();
    if is_fcid(s) {
        let u = choose|u: u128| fcid_text(u) == s;
        lemma_fcid_digits(u);
        assert forall|i: int| 0 <= i < 26 implies (#[trigger] spec_symbol_value(s[i])) is Some by {
            assert(fcid_alphabet()[fcid_digits(u)[i]] == s[i]);
        }
        assert(fcid_alphabet()[fcid_digits(u)[25]] == s[25]);
    }
    if s.len() == 26 && (forall|i: int|
        0 <= i < 26 ==> (#[trigger] spec_symbol_value(s[i])) is Some) && spec_symbol_value(
        s[25],
    )->0 % 4 == 0 {
        let ds = Seq::new(26, |i: int| spec_symbol_value(s[i])->0);
        assert forall|i: int| 0 <= i < 26 implies 0 <= #[trigger] ds[i] < 32 && fcid_alphabet()[ds[i]]
            == s[i] by {
            assert(spec_symbol_value(s[i]) is Some);
        }
        lemma_text_of_digits(ds, s);
    }
}

/// A catalog identifier: a UUID that is written in base 32.
#[derive(Clone, Copy, Debug, PartialEq, Eq, Structural)]
pub struct FatcatId(pub u128);

/// The 26 five-bit groups of `u`, in the order in which they are written.
fn digit_vec(u: u128) -> (ds: Vec<u8>)
    ensures
        ds@.len() == 26,
        forall|i: int| 0 <= i < 26 ==> ds@[i] as int == #[trigger] fcid_digits(u)[i],
{
    let mut ds: Vec<u8> = Vec::new();
    let mut k: usize = 0;
    while k < 26
        invariant
            k <= 26,
            ds@.len() == k,
        decreases 26 - k,
    {
        ds.push(0u8);
        k += 1;
    }
    ds.set(25, ((u % 8) * 4) as u8);
    let ghost v0: nat = (u / 8) as nat;
    let mut v: u128 = u / 8;
    let mut i: usize = 25;
    proof {
        lemma_fcid_digits(u);
        lemma_digits32_shape(v0, 25);
    }
    while i > 0
        invariant
            i <= 25,
            ds@.len() == 26,
            v0 == (u / 8) as nat,
            digits32(v0, 25).len() == 25,
            ds@[25] as int == fcid_digits(u)[25],
            digits32(v as nat, i as nat).len() == i,
            forall|j: int| 0 <= j < i ==> digits32(v0, 25)[j] == #[trigger] digits32(v as nat, i as nat)[j],
            forall|j: int| i <= j < 25 ==> ds@[j] as int == #[trigger] digits32(v0, 25)[j],
        decreases i,
    {
        proof {
            lemma_digits32_shape((v / 32) as nat, (i - 1) as nat);
            assert(digits32(v as nat, i as nat)[i - 1] == (v % 32) as int);
            assert forall|j: int| 0 <= j < i - 1 implies digits32(v0, 25)[j] == #[trigger] digits32(
                (v / 32) as nat,
                (i - 1) as nat,
            )[j] by {
                assert(digits32(v as nat, i as nat)[j] == digits32((v / 32) as nat, (i - 1) as nat)[j]);
            }
        }
        ds.set(i - 1, (v % 32) as u8);
        v = v / 32;
        i -= 1;
    }
    ds
}

impl FatcatId {
    /// The identifier of a UUID.
    pub fn from_uuid(uuid: u128) -> (id: FatcatId)
        ensures
            id.0 == uuid,
    {
        FatcatId(uuid)
    }

    /// The UUID of this identifier.
    pub fn to_uuid(&self) -> (uuid: u128)
        ensures
            uuid == self.0,
    {
        self.0
    }

    /// The identifier's text.
    pub fn to_string(&self) -> (s: String)
        ensures
            s@ == fcid_text(self.0),
            fcid_value(s@) == Some(self.0),
    {
        let ds = digit_vec(self.0);
        let alphabet: &'static str = "0123456789ABCDEFGHJKMNPQRSTVWXYZ";
        let mut out = String::new();
        let mut i: usize = 0;
        proof {
            lemma_alphabet();
            lemma_fcid_digits(self.0);
        }
        while i < 26
            invariant
                i <= 26,
                ds@.len() == 26,
                alphabet@ == fcid_alphabet(),
                alphabet@.len() == 32,
                is_ascii_chars(alphabet@),
                forall|j: int| 0 <= j < 26 ==> ds@[j] as int == #[trigger] fcid_digits(self.0)[j],
                forall|j: int| 0 <= j < 26 ==> 0 <= #[trigger] fcid_digits(self.0)[j] < 32,
                out@.len() == i,
                forall|j: int| 0 <= j < i ==> out@[j] == fcid_text(self.0)[j],
            decreases 26 - i,
        {
            let d: usize = ds[i] as usize;
            assert(d as int == fcid_digits(self.0)[i as int]);
            let sym = alphabet.substring_ascii(d, d + 1);
            assert(sym@.len() == 1 && sym@[0] == alphabet@[d as int]);
            out.append(sym);
            i += 1;
        }
        proof {
            assert(out@ =~= fcid_text(self.0));
            lemma_fcid_value_of_text(self.0);
        }
        out
    }

    /// Reads an identifier from its text. Fails on a wrong length, on a
    /// character outside the alphabet, and on a last symbol whose padding
    /// bits are not zero.
    pub fn from_str(s: &str) -> (r: Result<FatcatId, FatcatError>)
        ensures
            match r {
                Ok(id) => fcid_value(s@) == Some(id.0) && fcid_text(id.0) == s@,
                Err(e) => fcid_value(s@) is None && e@ == ErrorView::MalformedFatcatId,
            },
    {
        proof {
            lemma_fcid_shape(s@);
            lemma_alphabet();
        }
        if s.unicode_len() != 26 {
            return Err(FatcatError::MalformedFatcatId);
        }
        let mut acc: u128 = 0;
        let mut i: usize = 0;
        let ghost mut ds: Seq<int> = Seq::empty();
        while i < 25
            invariant
                i <= 25,
                s@.len() == 26,
                ds.len() == i,
                forall|j: int|
                    0 <= j < i ==> 0 <= #[trigger] ds[j] < 32 && fcid_alphabet()[ds[j]] == s@[j],
                acc == value32(ds),
                acc < pow32(i as nat),
            decreases 25 - i,
        {
            let c = s.get_char(i);
            match symbol_value(c) {
                None => {
                    proof {
                        lemma_fcid_shape(s@);
                        assert(spec_symbol_value(s@[i as int]) is None);
                    }
                    return Err(FatcatError::MalformedFatcatId);
                },
                Some(d) => {
                    proof {
                        lemma_pow32_25();
                        lemma_pow32_monotonic((i + 1) as nat, 25);
                        assert(ds.push(d as int).drop_last() =~= ds);
                        ds = ds.push(d as int);
                    }
                    acc = acc * 32 + d as u128;
                },
            }
            i += 1;
        }
        let c = s.get_char(25);
        match symbol_value(c) {
            None => {
                assert(spec_symbol_value(s@[25]) is None);
                Err(FatcatError::MalformedFatcatId)
            },
            Some(d) => {
                if d % 4 != 0 {
                    Err(FatcatError::MalformedFatcatId)
                } else {
                    proof {
                        let all = ds.push(d as int);
                        assert(all.subrange(0, 25) =~= ds);
                        lemma_text_of_digits(all, s@);
                        lemma_pow32_25();
                    }
                    let u: u128 = acc * 8 + (d / 4) as u128;
                    proof {
                        lemma_fcid_value_of_text(u);
                    }
                    Ok(FatcatId(u))
                }
            },
        }
    }
}

proof fn lemma_pow32_monotonic(a: nat, b: nat)
    requires
        a <= b,
    ensures
        pow32(a) <= pow32(b),
    decreases b,
{
    if a < b {
        lemma_pow32_monotonic(a, (b - 1) as nat);
    }
}

} // verus!
