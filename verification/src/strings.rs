use vstd::prelude::*;
use vstd::string::*;

use crate::text::{chars_of, string_from_chars};

verus! {

/// The character of a decimal digit.
pub open spec fn digit_char(d: nat) -> char {
    if d == 0 {
        '0'
    } else if d == 1 {
        '1'
    } else if d == 2 {
        '2'
    } else if d == 3 {
        '3'
    } else if d == 4 {
        '4'
    } else if d == 5 {
        '5'
    } else if d == 6 {
        '6'
    } else if d == 7 {
        '7'
    } else if d == 8 {
        '8'
    } else {
        '9'
    }
}

/// The decimal notation of `n`, as `Display` writes an unsigned integer.
pub open spec fn decimal(n: nat) -> Seq<char>
    decreases n,
{
    if n < 10 {
        seq![digit_char(n)]
    } else {
        decimal(n / 10) + seq![digit_char(n % 10)]
    }
}

fn digit(d: u64) -> (c: char)
    requires
        d < 10,
    ensures
        c == digit_char(d as nat),
{
    if d == 0 {
        '0'
    } else if d == 1 {
        '1'
    } else if d == 2 {
        '2'
    } else if d == 3 {
        '3'
    } else if d == 4 {
        '4'
    } else if d == 5 {
        '5'
    } else if d == 6 {
        '6'
    } else if d == 7 {
        '7'
    } else if d == 8 {
        '8'
    } else {
        '9'
    }
}

/// The decimal digits of `n`, as characters.
pub fn decimal_chars(n: u64) -> (r: Vec<char>)
    ensures
        r@ == decimal(n as nat),
    decreases n,
{
    if n < 10 {
        let mut r: Vec<char> = Vec::new();
        r.push(digit(n));
        r
    } else {
        let mut r = decimal_chars(n / 10);
        r.push(digit(n % 10));
        r
    }
}

/// The decimal notation of `n`.
pub fn decimal_string(n: u64) -> (r: String)
    ensures
        r@ == decimal(n as nat),
{
    string_from_chars(&decimal_chars(n))
}

/// The decimal notations of the bytes of `bytes`, separated by commas.
pub open spec fn comma_separated_decimals(bytes: Seq<u8>) -> Seq<char>
    decreases bytes.len(),
{
    if bytes.len() == 0 {
        Seq::empty()
    } else if bytes.len() == 1 {
        decimal(bytes[0] as nat)
    } else {
        comma_separated_decimals(bytes.drop_last()) + seq![','] + decimal(bytes.last() as nat)
    }
}

/// The bytes of `bytes` written in decimal and joined with commas, as in
/// `bytes.iter().map(|n| n.to_string()).collect::<Vec<String>>().join(",")`.
pub fn join_decimals(bytes: &Vec<u8>) -> (r: String)
    ensures
        r@ == comma_separated_decimals(bytes@),
{
    let mut out: Vec<char> = Vec::new();
    let mut i: usize = 0;
    while i < bytes.len()
        invariant
            i <= bytes@.len(),
            out@ == comma_separated_decimals(bytes@.take(i as int)),
        decreases bytes@.len() - i,
    {
        let ghost before = out@;
        if i > 0 {
            out.push(',');
        }
        let d = decimal_chars(bytes[i] as u64);
        let mut k: usize = 0;
        let ghost mid = out@;
        while k < d.len()
            invariant
                k <= d@.len(),
                out@ == mid + d@.take(k as int),
            decreases d@.len() - k,
        {
            out.push(d[k]);
            k = k + 1;
            assert(out@ =~= mid + d@.take(k as int));
        }
        proof {
            assert(d@.take(d@.len() as int) =~= d@);
            let t1 = bytes@.take(i + 1);
            assert(t1.drop_last() =~= bytes@.take(i as int));
            assert(t1.last() == bytes@[i as int]);
            if i == 0 {
                assert(t1.len() == 1);
                assert(before =~= Seq::<char>::empty());
                assert(out@ =~= decimal(bytes@[0] as nat));
            } else {
                assert(out@ =~= before + seq![','] + decimal(bytes@[i as int] as nat));
            }
        }
        i = i + 1;
    }
    assert(bytes@.take(bytes@.len() as int) =~= bytes@);
    string_from_chars(&out)
}

/// `pat` occurs in `s` at position `i`.
pub open spec fn chars_occur_at(s: Seq<char>, pat: Seq<char>, i: int) -> bool {
    &&& 0 <= i
    &&& i + pat.len() <= s.len()
    &&& s.subrange(i, i + pat.len()) == pat
}

/// The first position, at or after `from`, at which `pat` occurs in `s`.
pub open spec fn find_chars_from(s: Seq<char>, pat: Seq<char>, from: int) -> Option<int>
    decreases s.len() + 1 - from,
{
    if from < 0 || from + pat.len() > s.len() {
        None
    } else if chars_occur_at(s, pat, from) {
        Some(from)
    } else {
        find_chars_from(s, pat, from + 1)
    }
}

/// The pieces of `s` between the non-overlapping occurrences of `sep`, as `str::split` gives
/// them.
pub open spec fn split_parts(s: Seq<char>, sep: Seq<char>) -> Seq<Seq<char>>
    decreases s.len(),
{
    if sep.len() == 0 {
        seq![s]
    } else {
        match find_chars_from(s, sep, 0) {
            None => seq![s],
            Some(i) => {
                proof {
                    lemma_find_some(s, sep, 0);
                }
                seq![s.take(i)] + split_parts(s.skip(i + sep.len()), sep)
            },
        }
    }
}

/// `s` starts with `p`.
pub open spec fn starts_with(s: Seq<char>, p: Seq<char>) -> bool {
    p.len() <= s.len() && s.take(p.len() as int) == p
}

pub proof fn lemma_find_some(s: Seq<char>, pat: Seq<char>, from: int)
    ensures
        find_chars_from(s, pat, from) matches Some(i) ==> from <= i && chars_occur_at(s, pat, i),
    decreases s.len() + 1 - from,
{
    if from < 0 || from + pat.len() > s.len() {
    } else if chars_occur_at(s, pat, from) {
    } else {
        lemma_find_some(s, pat, from + 1);
    }
}

/// The first position, at or after `from`, at which `pat` occurs in `s`.
pub fn find_chars(s: &Vec<char>, pat: &Vec<char>, from: usize) -> (r: Option<usize>)
    ensures
        match r {
            None => find_chars_from(s@, pat@, from as int) is None,
            Some(i) => find_chars_from(s@, pat@, from as int) == Some(i as int) && chars_occur_at(
                s@,
                pat@,
                i as int,
            ) && from <= i,
        },
{
    proof {
        lemma_find_some(s@, pat@, from as int);
    }
    let n = s.len();
    let plen = pat.len();
    if plen > n || from > n - plen {
        return None;
    }
    let mut i: usize = from;
    while i <= n - plen
        invariant
            n == s@.len(),
            plen == pat@.len(),
            plen <= n,
            from <= i <= n - plen + 1,
            find_chars_from(s@, pat@, from as int) == find_chars_from(s@, pat@, i as int),
        decreases n - i,
    {
        let mut j: usize = 0;
        let mut matched = true;
        while j < plen
            invariant
                n == s@.len(),
                plen == pat@.len(),
                i + plen <= n,
                j <= plen,
                matched <==> (forall|k: int| 0 <= k < j ==> s@[i + k] == pat@[k]),
            decreases plen - j,
        {
            if s[i + j] != pat[j] {
                matched = false;
            }
            j = j + 1;
        }
        if matched {
            assert(s@.subrange(i as int, i + plen) =~= pat@);
            return Some(i);
        }
        assert(!chars_occur_at(s@, pat@, i as int)) by {
            if chars_occur_at(s@, pat@, i as int) {
                assert forall|k: int| 0 <= k < plen implies s@[i + k] == pat@[k] by {
                    assert(s@.subrange(i as int, i + plen)[k] == s@[i + k]);
                }
            }
        }
        i = i + 1;
    }
    None
}

/// A copy of the characters of `s` from `a` to `b`.
pub fn slice_chars(s: &Vec<char>, a: usize, b: usize) -> (r: Vec<char>)
    requires
        a <= b <= s@.len(),
    ensures
        r@ == s@.subrange(a as int, b as int),
{
    let mut r: Vec<char> = Vec::new();
    let mut i: usize = a;
    while i < b
        invariant
            a <= i <= b,
            b <= s@.len(),
            r@ == s@.subrange(a as int, i as int),
        decreases b - i,
    {
        r.push(s[i]);
        i = i + 1;
        assert(r@ =~= s@.subrange(a as int, i as int));
    }
    r
}

/// The pieces of `s` between the occurrences of `sep`, as `str::split` gives them.
pub fn split_chars(s: &Vec<char>, sep: &Vec<char>) -> (r: Vec<Vec<char>>)
    requires
        sep@.len() > 0,
    ensures
        r@.map_values(|v: Vec<char>| v@) == split_parts(s@, sep@),
{
    let n = s.len();
    let mut parts: Vec<Vec<char>> = Vec::new();
    let mut start: usize = 0;
    assert(s@.skip(0) =~= s@);
    loop
        invariant
            n == s@.len(),
            sep@.len() > 0,
            start <= n,
            parts@.map_values(|v: Vec<char>| v@) + split_parts(s@.skip(start as int), sep@)
                == split_parts(s@, sep@),
        decreases n - start,
    {
        let ghost rest = s@.skip(start as int);
        let ghost before = parts@.map_values(|v: Vec<char>| v@);
        match find_chars(s, sep, start) {
            None => {
                proof {
                    lemma_find_shift(s@, sep@, start as int);
                }
                let last = slice_chars(s, start, n);
                parts.push(last);
                assert(last@ =~= rest);
                assert(parts@.map_values(|v: Vec<char>| v@) =~= before + seq![rest]);
                return parts;
            },
            Some(i) => {
                proof {
                    lemma_find_shift(s@, sep@, start as int);
                }
                let piece = slice_chars(s, start, i);
                parts.push(piece);
                assert(piece@ =~= rest.take(i - start));
                assert(rest.skip(i - start + sep@.len()) =~= s@.skip(i + sep@.len()));
                assert(parts@.map_values(|v: Vec<char>| v@) =~= before + seq![rest.take(i - start)]);
                start = i + sep.len();
            },
        }
    }
}

proof fn lemma_find_shift(s: Seq<char>, pat: Seq<char>, start: int)
    requires
        0 <= start <= s.len(),
    ensures
        match find_chars_from(s, pat, start) {
            None => find_chars_from(s.skip(start), pat, 0) is None,
            Some(i) => find_chars_from(s.skip(start), pat, 0) == Some(i - start),
        },
{
    lemma_find_shift_from(s, pat, start, start);
}

proof fn lemma_find_shift_from(s: Seq<char>, pat: Seq<char>, start: int, k: int)
    requires
        0 <= start <= k,
        start <= s.len(),
    ensures
        match find_chars_from(s, pat, k) {
            None => find_chars_from(s.skip(start), pat, k - start) is None,
            Some(i) => find_chars_from(s.skip(start), pat, k - start) == Some(i - start),
        },
    decreases s.len() + 1 - k,
{
    let t = s.skip(start);
    if k + pat.len() > s.len() {
    } else {
        assert(chars_occur_at(s, pat, k) == chars_occur_at(t, pat, k - start)) by {
            assert(s.subrange(k, k + pat.len()) =~= t.subrange(k - start, k - start + pat.len()));
        }
        if !chars_occur_at(s, pat, k) {
            lemma_find_shift_from(s, pat, start, k + 1);
        }
    }
}

/// Whether `s` starts with `p`.
pub fn str_starts_with(s: &str, p: &str) -> (r: bool)
    ensures
        r == starts_with(s@, p@),
{
    let sv = chars_of(s);
    let pv = chars_of(p);
    if pv.len() > sv.len() {
        return false;
    }
    let mut i: usize = 0;
    while i < pv.len()
        invariant
            sv@ == s@,
            pv@ == p@,
            pv@.len() <= sv@.len(),
            i <= pv@.len(),
            forall|k: int| 0 <= k < i ==> sv@[k] == pv@[k],
        decreases pv@.len() - i,
    {
        if sv[i] != pv[i] {
            assert(sv@.take(pv@.len() as int)[i as int] != pv@[i as int]);
            assert(sv@.take(pv@.len() as int) != pv@);
            return false;
        }
        i = i + 1;
    }
    assert(sv@.take(pv@.len() as int) =~= pv@);
    true
}

} // verus!
