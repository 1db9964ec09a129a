//! Verified text utilities: character search, splitting on a separator,
//! and decimal parsing of `u8` values, with exact specifications.

use vstd::prelude::*;
use vstd::string::StrSliceExecFns;
use vstd::string::StringExecFns;

verus! {

/// The views of a sequence of strings.
pub open spec fn seq_views(ss: Seq<String>) -> Seq<Seq<char>> {
    Seq::new(ss.len(), |i: int| ss[i]@)
}

/// Whether `c` occurs in `s`.
pub open spec fn spec_has_char(s: Seq<char>, c: char) -> bool {
    exists|i: int| 0 <= i < s.len() && s[i] == c
}

/// Splitting on every occurrence of `sep`, as `str::split` does: the
/// result always has at least one piece, an empty input gives one empty
/// piece, and each separator ends the piece before it.
pub open spec fn split_seq(s: Seq<char>, sep: char) -> Seq<Seq<char>>
    decreases s.len(),
{
    if s.len() == 0 {
        seq![Seq::<char>::empty()]
    } else if s[0] == sep {
        seq![Seq::<char>::empty()] + split_seq(s.drop_first(), sep)
    } else {
        let rest = split_seq(s.drop_first(), sep);
        rest.update(0, seq![s[0]] + rest[0])
    }
}

pub proof fn lemma_split_seq_len(s: Seq<char>, sep: char)
    ensures
        split_seq(s, sep).len() >= 1,
    decreases s.len(),
{
    if s.len() == 0 {
    } else {
        lemma_split_seq_len(s.drop_first(), sep);
    }
}

/// On a separator-free input, splitting gives the input as the one piece.
pub proof fn lemma_split_seq_no_sep(s: Seq<char>, sep: char)
    requires
        !spec_has_char(s, sep),
    ensures
        split_seq(s, sep) =~~= seq![s],
    decreases s.len(),
{
    if s.len() == 0 {
        assert(s =~= Seq::<char>::empty());
    } else {
        assert(s[0] != sep);
        assert(!spec_has_char(s.drop_first(), sep)) by {
            assert(forall|i: int|
                0 <= i < s.drop_first().len() ==> s.drop_first()[i] == s[i + 1]);
        }
        lemma_split_seq_no_sep(s.drop_first(), sep);
        assert(seq![s[0]] + s.drop_first() =~= s);
    }
}

/// Splitting at the first separator: the piece before it, then the split
/// of what follows it.
pub proof fn lemma_split_seq_first_sep(s: Seq<char>, sep: char, i: int)
    requires
        0 <= i < s.len(),
        s[i] == sep,
        forall|j: int| 0 <= j < i ==> s[j] != sep,
    ensures
        split_seq(s, sep) =~~= seq![s.subrange(0, i)] + split_seq(
            s.subrange(i + 1, s.len() as int),
            sep,
        ),
    decreases i,
{
    if i == 0 {
        assert(s.subrange(0, 0) =~= Seq::<char>::empty());
        assert(s.subrange(1, s.len() as int) =~= s.drop_first());
    } else {
        let t = s.drop_first();
        assert(t[i - 1] == sep);
        assert(forall|j: int| 0 <= j < i - 1 ==> t[j] == s[j + 1]);
        lemma_split_seq_first_sep(t, sep, i - 1);
        lemma_split_seq_len(t.subrange(i, t.len() as int), sep);
        assert(t.subrange(0, i - 1) =~= s.subrange(1, i));
        assert(t.subrange(i, t.len() as int) =~= s.subrange(i + 1, s.len() as int));
        assert(seq![s[0]] + s.subrange(1, i) =~= s.subrange(0, i));
    }
}

/// The position of the first occurrence of `c` in `s`, if any.
pub fn find_char(s: &str, c: char) -> (r: Option<usize>)
    ensures
        match r {
            Some(i) => i < s@.len() && s@[i as int] == c && forall|j: int|
                0 <= j < i ==> s@[j] != c,
            None => !spec_has_char(s@, c),
        },
{
    let n = s.unicode_len();
    let mut i: usize = 0;
    while i < n
        invariant
            i <= n,
            n == s@.len(),
            forall|j: int| 0 <= j < i ==> s@[j] != c,
        decreases n - i,
    {
        if s.get_char(i) == c {
            return Some(i);
        }
        i += 1;
    }
    None
}

/// Whether `c` occurs in `s`.
pub fn has_char(s: &str, c: char) -> (r: bool)
    ensures
        r == spec_has_char(s@, c),
{
    find_char(s, c).is_some()
}

/// Splits `s` on every occurrence of `sep`, as `str::split` does.
pub fn split_on(s: &str, sep: char) -> (r: Vec<String>)
    ensures
        seq_views(r@) =~~= split_seq(s@, sep),
        r@.len() >= 1,
    decreases s@.len(),
{
    match find_char(s, sep) {
        None => {
            proof {
                lemma_split_seq_no_sep(s@, sep);
            }
            let mut out: Vec<String> = Vec::new();
            out.push(String::from_str(s));
            assert(seq_views(out@) =~~= seq![s@]);
            out
        },
        Some(i) => {
            let n = s.unicode_len();
            let head = String::from_str(s.substring_char(0, i));
            let rest = s.substring_char(i + 1, n);
            let mut out: Vec<String> = Vec::new();
            out.push(head);
            let mut tail = split_on(rest, sep);
            out.append(&mut tail);
            proof {
                lemma_split_seq_first_sep(s@, sep, i as int);
            }
            assert(seq_views(out@) =~~= seq![s@.subrange(0, i as int)] + split_seq(
                s@.subrange(i + 1, s@.len() as int),
                sep,
            ));
            out
        },
    }
}

/// Whether the two string slices hold the same characters.
pub fn str_eq(a: &str, b: &str) -> (r: bool)
    ensures
        r == (a@ == b@),
{
    let na = a.unicode_len();
    let nb = b.unicode_len();
    if na != nb {
        return false;
    }
    let mut i: usize = 0;
    while i < na
        invariant
            i <= na,
            na == a@.len(),
            na == b@.len(),
            forall|j: int| 0 <= j < i ==> a@[j] == b@[j],
        decreases na - i,
    {
        if a.get_char(i) != b.get_char(i) {
            return false;
        }
        i += 1;
    }
    assert(a@ =~= b@);
    true
}

/// Whether some element of `v` holds the characters of `s`.
pub fn contains_str(v: &Vec<String>, s: &str) -> (r: bool)
    ensures
        r == seq_views(v@).contains(s@),
{
    let n = v.len();
    let mut i: usize = 0;
    while i < n
        invariant
            i <= n,
            n == v@.len(),
            forall|j: int| 0 <= j < i ==> v@[j]@ != s@,
        decreases n - i,
    {
        if str_eq(v[i].as_str(), s) {
            assert(seq_views(v@)[i as int] == s@);
            return true;
        }
        i += 1;
    }
    assert(forall|j: int| 0 <= j < seq_views(v@).len() ==> seq_views(v@)[j] != s@);
    false
}

/// Whether `c` is a decimal digit.
pub open spec fn is_digit(c: char) -> bool {
    48 <= c as u32 <= 57
}

pub open spec fn all_digits(s: Seq<char>) -> bool {
    forall|i: int| 0 <= i < s.len() ==> is_digit(#[trigger] s[i])
}

/// The value of a sequence of decimal digits, most significant first.
pub open spec fn dec_val(s: Seq<char>) -> int
    decreases s.len(),
{
    if s.len() == 0 {
        0
    } else {
        dec_val(s.drop_last()) * 10 + (s.last() as u32 - 48)
    }
}

pub proof fn lemma_dec_val_nonneg(s: Seq<char>)
    requires
        all_digits(s),
    ensures
        dec_val(s) >= 0,
    decreases s.len(),
{
    if s.len() > 0 {
        assert(all_digits(s.drop_last()));
        lemma_dec_val_nonneg(s.drop_last());
    }
}

/// The digit part of a numeral: everything after an optional leading '+'.
pub open spec fn digits_of(s: Seq<char>) -> Seq<char> {
    if s.len() > 0 && s[0] == '+' {
        s.drop_first()
    } else {
        s
    }
}

/// Whether `s` parses as a `u8` the way `str::parse::<u8>` accepts it:
/// an optional leading '+', then at least one decimal digit, with a value
/// of at most 255.
pub open spec fn is_u8_numeral(s: Seq<char>) -> bool {
    let d = digits_of(s);
    d.len() > 0 && all_digits(d) && dec_val(d) <= 255
}

/// The value of a `u8` numeral.
pub open spec fn u8_numeral_val(s: Seq<char>) -> int {
    dec_val(digits_of(s))
}

/// Parses a `u8` as `str::parse::<u8>` does: `Some` exactly on an optional
/// leading '+' followed by decimal digits whose value fits.
pub fn parse_u8(s: &str) -> (r: Option<u8>)
    ensures
        match r {
            Some(v) => is_u8_numeral(s@) && v as int == u8_numeral_val(s@),
            None => !is_u8_numeral(s@),
        },
{
    let n = s.unicode_len();
    let start: usize = if n > 0 && s.get_char(0) == '+' {
        1
    } else {
        0
    };
    proof {
        assert(digits_of(s@) =~= s@.subrange(start as int, n as int));
    }
    if start >= n {
        return None;
    }
    let mut i: usize = start;
    let mut val: u32 = 0;
    while i < n
        invariant
            start <= i <= n,
            n == s@.len(),
            digits_of(s@) == s@.subrange(start as int, n as int),
            all_digits(s@.subrange(start as int, i as int)),
            val <= 255 ==> val == dec_val(s@.subrange(start as int, i as int)),
            val > 255 ==> val == 256 && dec_val(s@.subrange(start as int, i as int)) > 255,
        decreases n - i,
    {
        let c = s.get_char(i);
        let cu = c as u32;
        proof {
            assert(s@.subrange(start as int, i + 1).drop_last() =~= s@.subrange(
                start as int,
                i as int,
            ));
            assert(s@.subrange(start as int, i + 1).last() == s@[i as int]);
        }
        if cu < 48 || cu > 57 {
            proof {
                assert(digits_of(s@)[i - start] == s@[i as int]);
                assert(!all_digits(digits_of(s@)));
            }
            return None;
        }
        let d = cu - 48;
        if val <= 255 {
            let nv = val * 10 + d;
            val = if nv > 255 {
                256
            } else {
                nv
            };
        }
        i += 1;
    }
    proof {
        assert(s@.subrange(start as int, n as int) =~= digits_of(s@));
    }
    if val <= 255 {
        Some(val as u8)
    } else {
        None
    }
}

} // verus!
