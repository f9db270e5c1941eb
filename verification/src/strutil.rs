//! Verified string helpers: character-level comparison, prefix tests,
//! numeric parsing of identifiers, and path normalization.

use vstd::prelude::*;

verus! {

broadcast use vstd::string::group_string_axioms;

/// A character is an ASCII decimal digit.
pub open spec fn is_digit(c: char) -> bool {
    48 <= c as u32 <= 57
}

/// Every character of the sequence is an ASCII decimal digit.
pub open spec fn all_digits(s: Seq<char>) -> bool {
    forall|i: int| 0 <= i < s.len() ==> is_digit(#[trigger] s[i])
}

/// The non-negative integer denoted by a sequence of decimal digits.
pub open spec fn digits_val(s: Seq<char>) -> nat
    decreases s.len(),
{
    if s.len() == 0 {
        0
    } else {
        (digits_val(s.drop_last()) * 10 + ((s.last() as u32) as int - 48)) as nat
    }
}

/// The sequence denotes a non-negative integer that fits in a `u64`.
pub open spec fn is_numeric_id(s: Seq<char>) -> bool {
    s.len() > 0 && all_digits(s) && digits_val(s) <= u64::MAX
}

/// Appending digits never decreases the denoted value.
proof fn lemma_digits_val_prefix_le(s: Seq<char>, i: int)
    requires
        0 <= i <= s.len(),
        all_digits(s),
    ensures
        digits_val(s.subrange(0, i)) <= digits_val(s),
    decreases s.len() - i,
{
    if i == s.len() {
        assert(s.subrange(0, i) =~= s);
    } else {
        lemma_digits_val_prefix_le(s, i + 1);
        let t = s.subrange(0, i + 1);
        assert(t.drop_last() =~= s.subrange(0, i));
        assert(t.last() == s[i]);
        assert(digits_val(s.subrange(0, i)) <= digits_val(t));
    }
}

/// Parses a string as a non-negative integer, exactly when it is nonempty,
/// all decimal digits, and its value fits in a `u64`.
pub fn parse_u64(s: &str) -> (r: Option<u64>)
    ensures
        match r {
            Some(v) => is_numeric_id(s@) && v == digits_val(s@),
            None => !is_numeric_id(s@),
        },
{
    let len = s.unicode_len();
    if len == 0 {
        return None;
    }
    let mut v: u64 = 0;
    let mut i: usize = 0;
    while i < len
        invariant
            0 < len == s@.len(),
            0 <= i <= len,
            all_digits(s@.subrange(0, i as int)),
            v == digits_val(s@.subrange(0, i as int)),
        decreases len - i,
    {
        let c = s.get_char(i);
        let cu = c as u32;
        if cu < 48 || cu > 57 {
            assert(!all_digits(s@));
            return None;
        }
        let d: u64 = (cu - 48) as u64;
        let ghost pre = s@.subrange(0, i as int);
        let ghost ext = s@.subrange(0, i as int + 1);
        proof {
            assert(ext.drop_last() =~= pre);
            assert(ext.last() == s@[i as int]);
        }
        let m = match v.checked_mul(10) {
            Some(m) => m,
            None => {
                proof {
                    if all_digits(s@) {
                        lemma_digits_val_prefix_le(s@, i as int + 1);
                    }
                }
                return None;
            },
        };
        let w = match m.checked_add(d) {
            Some(w) => w,
            None => {
                proof {
                    if all_digits(s@) {
                        lemma_digits_val_prefix_le(s@, i as int + 1);
                    }
                }
                return None;
            },
        };
        v = w;
        i = i + 1;
    }
    proof {
        assert(s@.subrange(0, len as int) =~= s@);
    }
    Some(v)
}

/// Strict lexicographic order on character sequences, by code point.
pub open spec fn chars_lt(a: Seq<char>, b: Seq<char>) -> bool
    decreases a.len(),
{
    if b.len() == 0 {
        false
    } else if a.len() == 0 {
        true
    } else if (a[0] as u32) < (b[0] as u32) {
        true
    } else if a[0] == b[0] {
        chars_lt(a.skip(1), b.skip(1))
    } else {
        false
    }
}

/// Lexicographic order is asymmetric.
pub proof fn lemma_chars_lt_asym(a: Seq<char>, b: Seq<char>)
    requires
        chars_lt(a, b),
    ensures
        !chars_lt(b, a),
    decreases a.len(),
{
    if b.len() == 0 {
    } else if a.len() == 0 {
    } else if (a[0] as u32) < (b[0] as u32) {
    } else if a[0] == b[0] {
        lemma_chars_lt_asym(a.skip(1), b.skip(1));
    }
}

/// Compares two strings lexicographically by code point.
pub fn str_lt(a: &str, b: &str) -> (r: bool)
    ensures
        r == chars_lt(a@, b@),
{
    let alen = a.unicode_len();
    let blen = b.unicode_len();
    let mut i: usize = 0;
    proof {
        assert(a@.skip(0) =~= a@);
        assert(b@.skip(0) =~= b@);
    }
    loop
        invariant
            alen == a@.len(),
            blen == b@.len(),
            0 <= i <= alen,
            0 <= i <= blen,
            chars_lt(a@, b@) == chars_lt(a@.skip(i as int), b@.skip(i as int)),
        decreases alen - i,
    {
        if i >= blen {
            assert(b@.skip(i as int).len() == 0);
            return false;
        }
        if i >= alen {
            assert(a@.skip(i as int).len() == 0);
            return true;
        }
        let ca = a.get_char(i);
        let cb = b.get_char(i);
        proof {
            assert(a@.skip(i as int)[0] == a@[i as int]);
            assert(b@.skip(i as int)[0] == b@[i as int]);
            assert(a@.skip(i as int).skip(1) =~= a@.skip(i as int + 1));
            assert(b@.skip(i as int).skip(1) =~= b@.skip(i as int + 1));
        }
        if (ca as u32) < (cb as u32) {
            return true;
        }
        if ca != cb {
            return false;
        }
        i = i + 1;
    }
}

/// The characters of `pat` occur in `s` starting at position `i`.
pub open spec fn has_at(s: Seq<char>, i: int, pat: Seq<char>) -> bool {
    i + pat.len() <= s.len() && s.subrange(i, i + pat.len() as int) == pat
}

/// Tests whether `pat` occurs in `s` at character position `i`.
pub fn starts_with_from(s: &str, i: usize, pat: &str) -> (r: bool)
    requires
        i <= s@.len(),
    ensures
        r == has_at(s@, i as int, pat@),
{
    let slen = s.unicode_len();
    let plen = pat.unicode_len();
    if plen > slen - i {
        return false;
    }
    let mut j: usize = 0;
    while j < plen
        invariant
            slen == s@.len(),
            plen == pat@.len(),
            i + plen <= slen,
            0 <= j <= plen,
            forall|k: int| 0 <= k < j ==> s@[i + k] == pat@[k],
        decreases plen - j,
    {
        let cs = s.get_char(i + j);
        let cp = pat.get_char(j);
        if cs != cp {
            assert(s@.subrange(i as int, i + plen as int)[j as int] != pat@[j as int]);
            return false;
        }
        j = j + 1;
    }
    proof {
        assert(s@.subrange(i as int, i + plen as int) =~= pat@);
    }
    true
}

/// Tests whether two strings hold the same characters.
pub fn str_eq(a: &str, b: &str) -> (r: bool)
    ensures
        r == (a@ == b@),
{
    let alen = a.unicode_len();
    let blen = b.unicode_len();
    if alen != blen {
        return false;
    }
    let r = starts_with_from(a, 0, b);
    proof {
        assert(a@.subrange(0, blen as int) =~= a@);
    }
    r
}

/// Tests whether the string contains the character.
pub fn str_contains_char(s: &str, c: char) -> (r: bool)
    ensures
        r == s@.contains(c),
{
    let len = s.unicode_len();
    let mut i: usize = 0;
    while i < len
        invariant
            len == s@.len(),
            0 <= i <= len,
            forall|k: int| 0 <= k < i ==> s@[k] != c,
        decreases len - i,
    {
        if s.get_char(i) == c {
            return true;
        }
        i = i + 1;
    }
    false
}

/// The sequence with a single trailing `/` removed, if one is present.
pub open spec fn trim_one(s: Seq<char>) -> Seq<char> {
    if s.len() > 0 && s.last() == '/' {
        s.drop_last()
    } else {
        s
    }
}

/// Removes a single trailing `/`, if one is present.
pub fn trim_one_slash(s: &str) -> (r: &str)
    ensures
        r@ == trim_one(s@),
{
    let len = s.unicode_len();
    if len > 0 && s.get_char(len - 1) == '/' {
        let t = s.substring_char(0, len - 1);
        proof {
            assert(t@ =~= s@.drop_last());
        }
        t
    } else {
        s
    }
}

/// The character sequence that `str::to_lowercase` produces from `s`.
pub uninterp spec fn lower_of(s: Seq<char>) -> Seq<char>;

/// Relies on str::to_lowercase: the result depends on the input characters alone.
#[verifier::external_body]
pub(crate) fn lowercase(s: &str) -> (r: String)
    ensures
        r@ == lower_of(s@),
{
    s.to_lowercase()
}

/// The normal form of a path for matching: lower-cased, with a single
/// trailing path separator removed.
pub open spec fn norm(s: Seq<char>) -> Seq<char> {
    trim_one(lower_of(s))
}

/// Normalizes a path for matching: lower-cases it and removes a single
/// trailing path separator.
pub fn normalize_path(s: &str) -> (r: String)
    ensures
        r@ == norm(s@),
{
    let low = lowercase(s);
    let trimmed = trim_one_slash(low.as_str());
    String::from_str(trimmed)
}

} // verus!
