//! Verified string primitives used by the scope matcher and the event
//! pipeline: equality, substring search, path components and decimal
//! formatting, all specified over `Seq<char>` views.

use vstd::prelude::*;

verus! {

/// Character-wise equality of two string slices.
pub fn str_eq(a: &str, b: &str) -> (r: bool)
    ensures
        r == (a@ == b@),
{
    let alen = a.unicode_len();
    let blen = b.unicode_len();
    if alen != blen {
        return false;
    }
    let mut i: usize = 0;
    while i < alen
        invariant
            alen == a@.len(),
            alen == b@.len(),
            i <= alen,
            forall|k: int| 0 <= k < i ==> a@[k] == b@[k],
        decreases alen - i,
    {
        if a.get_char(i) != b.get_char(i) {
            return false;
        }
        i = i + 1;
    }
    proof {
        assert(a@ =~= b@);
    }
    true
}

/// True when `needle` occurs in `hay` as a contiguous subsequence.
pub open spec fn contains_sub(hay: Seq<char>, needle: Seq<char>) -> bool {
    exists|k: int|
        0 <= k && k + needle.len() <= hay.len() && #[trigger] hay.subrange(k, k + needle.len())
            == needle
}

/// Literal substring search: true when `needle` occurs in `hay`.
pub fn contains_str(hay: &str, needle: &str) -> (r: bool)
    ensures
        r == contains_sub(hay@, needle@),
{
    let hlen = hay.unicode_len();
    let nlen = needle.unicode_len();
    if nlen > hlen {
        return false;
    }
    if nlen == 0 {
        proof {
            assert(hay@.subrange(0, 0 + needle@.len() as int) =~= needle@);
        }
        return true;
    }
    let mut k: usize = 0;
    while k <= hlen - nlen
        invariant
            hlen == hay@.len(),
            nlen == needle@.len(),
            0 < nlen <= hlen,
            k <= hlen - nlen + 1,
            forall|j: int| 0 <= j < k ==> #[trigger] hay@.subrange(j, j + nlen) != needle@,
        decreases hlen - nlen + 1 - k,
    {
        let window = hay.substring_char(k, k + nlen);
        if str_eq(window, needle) {
            return true;
        }
        k = k + 1;
    }
    proof {
        assert forall|j: int| 0 <= j && j + needle@.len() <= hay@.len() implies #[trigger] hay@
            .subrange(j, j + needle@.len()) != needle@ by {
            assert(j < k);
        }
    }
    false
}

/// True when `c` occurs in `s`.
pub fn contains_char(s: &str, c: char) -> (r: bool)
    ensures
        r == s@.contains(c),
{
    let len = s.unicode_len();
    let mut i: usize = 0;
    while i < len
        invariant
            len == s@.len(),
            i <= len,
            forall|k: int| 0 <= k < i ==> s@[k] != c,
        decreases len - i,
    {
        if s.get_char(i) == c {
            return true;
        }
        i = i + 1;
    }
    false
}

/// The final path component: everything after the last `/`, or the whole
/// string when it has no `/`.
pub open spec fn file_name_of(p: Seq<char>) -> Seq<char>
    decreases p.len(),
{
    if p.len() == 0 {
        p
    } else if p.last() == '/' {
        Seq::empty()
    } else {
        file_name_of(p.drop_last()).push(p.last())
    }
}

/// Extracts the final path component of `p`.
pub fn file_name(p: &str) -> (r: &str)
    ensures
        r@ == file_name_of(p@),
{
    let len = p.unicode_len();
    let mut start: usize = 0;
    let mut j: usize = 0;
    while j < len
        invariant
            len == p@.len(),
            j <= len,
            start <= j,
            start > 0 ==> p@[start - 1] == '/',
            forall|k: int| start <= k < j ==> p@[k] != '/',
        decreases len - j,
    {
        if p.get_char(j) == '/' {
            start = j + 1;
        }
        j = j + 1;
    }
    let r = p.substring_char(start, len);
    proof {
        lemma_file_name_after_slash(p@, start as int);
        assert(r@ =~= p@.subrange(start as int, len as int));
    }
    r
}

/// `file_name_of(p)` is the suffix of `p` that starts right after its last
/// `/` (at position `i - 1`), or the whole of `p` when it has none.
proof fn lemma_file_name_after_slash(p: Seq<char>, i: int)
    requires
        0 <= i <= p.len(),
        forall|k: int| i <= k < p.len() ==> p[k] != '/',
        i > 0 ==> p[i - 1] == '/',
    ensures
        file_name_of(p) == p.subrange(i, p.len() as int),
    decreases p.len(),
{
    if p.len() == 0 {
        assert(file_name_of(p) =~= p.subrange(i, p.len() as int));
    } else if p.last() == '/' {
        assert(i == p.len());
        assert(file_name_of(p) =~= p.subrange(i, p.len() as int));
    } else {
        assert(i < p.len());
        lemma_file_name_after_slash(p.drop_last(), i);
        assert(p.drop_last().subrange(i, p.len() - 1) =~= p.subrange(i, p.len() - 1));
        assert(file_name_of(p) =~= p.subrange(i, p.len() as int));
    }
}

/// The last character of `value` removed; the empty string stays empty.
pub fn pop(value: &str) -> (r: &str)
    ensures
        value@.len() == 0 ==> r@ == value@,
        value@.len() > 0 ==> r@ == value@.drop_last(),
{
    let len = value.unicode_len();
    if len == 0 {
        value
    } else {
        let r = value.substring_char(0, len - 1);
        proof {
            assert(r@ =~= value@.drop_last());
        }
        r
    }
}

/// The character for one decimal digit.
pub open spec fn digit_char(d: nat) -> char {
    if d == 0 {
        '0'
    } else if d == 1 {
        '1'
    } else if d == 2 {
        '2'
    } else if d == 3 {
        '3'
    } else if d == 4 {
        '4'
    } else if d == 5 {
        '5'
    } else if d == 6 {
        '6'
    } else if d == 7 {
        '7'
    } else if d == 8 {
        '8'
    } else {
        '9'
    }
}

/// The decimal digits of `n`, most significant first, with no leading zeros
/// (a single `'0'` for zero).
pub open spec fn dec_digits(n: nat) -> Seq<char>
    decreases n,
{
    if n < 10 {
        seq![digit_char(n)]
    } else {
        dec_digits(n / 10).push(digit_char(n % 10))
    }
}

fn digit_str(d: u8) -> (r: &'static str)
    requires
        d < 10,
    ensures
        r@ == seq![digit_char(d as nat)],
{
    proof {
        reveal_strlit("0");
        reveal_strlit("1");
        reveal_strlit("2");
        reveal_strlit("3");
        reveal_strlit("4");
        reveal_strlit("5");
        reveal_strlit("6");
        reveal_strlit("7");
        reveal_strlit("8");
        reveal_strlit("9");
    }
    let r = match d {
        0 => "0",
        1 => "1",
        2 => "2",
        3 => "3",
        4 => "4",
        5 => "5",
        6 => "6",
        7 => "7",
        8 => "8",
        _ => "9",
    };
    proof {
        assert(r@ =~= seq![digit_char(d as nat)]);
    }
    r
}

/// Renders `n` in decimal.
pub fn u128_to_string(n: u128) -> (r: String)
    ensures
        r@ == dec_digits(n as nat),
    decreases n,
{
    if n < 10 {
        String::from_str(digit_str(n as u8))
    } else {
        let mut s = u128_to_string(n / 10);
        s.append(digit_str((n % 10) as u8));
        proof {
            assert(s@ =~= dec_digits(n as nat));
        }
        s
    }
}

} // verus!
