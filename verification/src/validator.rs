//! Normalization and validation of raw card-id strings.
//!
//! A raw card id is accepted exactly when, after uppercasing and
//! removal of all whitespace, it consists of exactly 16 characters
//! from `0-9A-F`.

use vstd::prelude::*;

verus! {

/// A character with the Unicode `White_Space` property; these are the
/// characters that normalization strips.
pub open spec fn is_whitespace_char(c: char) -> bool {
    let u = c as u32;
    (9 <= u && u <= 13) || u == 32 || u == 0x85 || u == 0xA0 || u == 0x1680 || (0x2000 <= u
        && u <= 0x200A) || u == 0x2028 || u == 0x2029 || u == 0x202F || u == 0x205F || u == 0x3000
}

/// An ASCII lowercase letter.
pub open spec fn is_lower_alpha(c: char) -> bool {
    97 <= c as u32 && c as u32 <= 122
}

/// Uppercases an ASCII letter; every other character is unchanged.
pub open spec fn upper_char(c: char) -> char {
    if is_lower_alpha(c) {
        (((c as u32) - 32) as char)
    } else {
        c
    }
}

/// A hexadecimal digit in canonical (uppercase) form: `0-9` or `A-F`.
pub open spec fn is_hex_digit_char(c: char) -> bool {
    (48 <= c as u32 && c as u32 <= 57) || (65 <= c as u32 && c as u32 <= 70)
}

/// The canonical form of a raw card id: each character uppercased,
/// whitespace removed.
pub open spec fn normalize_seq(s: Seq<char>) -> Seq<char>
    decreases s.len(),
{
    if s.len() == 0 {
        Seq::empty()
    } else {
        let rest = normalize_seq(s.drop_last());
        let u = upper_char(s.last());
        if is_whitespace_char(u) {
            rest
        } else {
            rest.push(u)
        }
    }
}

/// A canonical card id: exactly 16 characters, each in `0-9A-F`.
pub open spec fn valid_card_seq(s: Seq<char>) -> bool {
    s.len() == 16 && (forall|i: int| 0 <= i < s.len() ==> is_hex_digit_char(#[trigger] s[i]))
}

/// Relies on `String::push` of std: appends the given character to the
/// end of the string.
pub assume_specification[ String::push ](s: &mut String, ch: char)
    ensures
        final(s)@ == old(s)@.push(ch),
;

fn char_is_whitespace(c: char) -> (r: bool)
    ensures
        r == is_whitespace_char(c),
{
    let u = c as u32;
    (9 <= u && u <= 13) || u == 32 || u == 0x85 || u == 0xA0 || u == 0x1680 || (0x2000 <= u
        && u <= 0x200A) || u == 0x2028 || u == 0x2029 || u == 0x202F || u == 0x205F || u == 0x3000
}

/// Uppercases the input and removes all whitespace characters.
pub fn normalize(raw: &str) -> (r: String)
    ensures
        r@ == normalize_seq(raw@),
{
    let len = raw.unicode_len();
    let mut out = String::new();
    let mut i: usize = 0;
    while i < len
        invariant
            len == raw@.len(),
            i <= len,
            out@ == normalize_seq(raw@.subrange(0, i as int)),
        decreases len - i,
    {
        let c = raw.get_char(i);
        let u: u32 = c as u32;
        let uc: char = if 97 <= u && u <= 122 {
            (((u - 32) as u8) as char)
        } else {
            c
        };
        assert(uc == upper_char(c));
        if !char_is_whitespace(uc) {
            out.push(uc);
        }
        proof {
            let pre = raw@.subrange(0, i as int);
            let ext = raw@.subrange(0, i + 1);
            assert(ext.drop_last() =~= pre);
            assert(ext.last() == raw@[i as int]);
        }
        i += 1;
    }
    proof {
        assert(raw@.subrange(0, len as int) =~= raw@);
    }
    out
}

/// Accepts exactly the canonical card ids: 16 characters, each a digit
/// or an uppercase hexadecimal letter.
pub fn validate(s: &str) -> (r: bool)
    ensures
        r == valid_card_seq(s@),
{
    let len = s.unicode_len();
    if len != 16 {
        return false;
    }
    let mut i: usize = 0;
    while i < 16
        invariant
            s@.len() == 16,
            i <= 16,
            forall|j: int| 0 <= j < i ==> is_hex_digit_char(#[trigger] s@[j]),
        decreases 16 - i,
    {
        let c = s.get_char(i);
        let u: u32 = c as u32;
        if !((48 <= u && u <= 57) || (65 <= u && u <= 70)) {
            return false;
        }
        i += 1;
    }
    true
}

/// Law: for every input, the normalized string is uppercase (no ASCII
/// lowercase letter remains) and contains no whitespace character.
pub proof fn lemma_normalize_clean(s: Seq<char>)
    ensures
        forall|i: int|
            0 <= i < normalize_seq(s).len() ==> !is_whitespace_char(
                #[trigger] normalize_seq(s)[i],
            ) && !is_lower_alpha(normalize_seq(s)[i]),
    decreases s.len(),
{
    if s.len() == 0 {
    } else {
        lemma_normalize_clean(s.drop_last());
        let rest = normalize_seq(s.drop_last());
        let u = upper_char(s.last());
        assert(!is_lower_alpha(u));
        if !is_whitespace_char(u) {
            assert forall|i: int| 0 <= i < normalize_seq(s).len() implies !is_whitespace_char(
                #[trigger] normalize_seq(s)[i],
            ) && !is_lower_alpha(normalize_seq(s)[i]) by {
                if i < rest.len() {
                    assert(normalize_seq(s)[i] == rest[i]);
                } else {
                    assert(normalize_seq(s)[i] == u);
                }
            }
        }
    }
}

} // verus!
