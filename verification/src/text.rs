use vstd::prelude::*;
use vstd::string::*;
use vstd::utf8::*;

verus! {

broadcast use vstd::utf8::char_is_scalar;

/// Number of bytes in the UTF-8 encoding of `c`.
pub open spec fn utf8_width(c: char) -> int {
    encode_scalar(c as u32).len() as int
}

/// Byte offset, in the UTF-8 encoding of `chars`, at which the character at position `p` starts.
pub open spec fn utf8_offset(chars: Seq<char>, p: int) -> int {
    encode_utf8(chars.take(p)).len() as int
}

/// Byte offset `o` of the UTF-8 encoding of `chars` falls between two characters.
pub open spec fn is_char_offset(chars: Seq<char>, o: int) -> bool {
    exists|p: int| 0 <= p <= chars.len() && #[trigger] utf8_offset(chars, p) == o
}

/// The character position at which byte offset `o` stands, when it stands between characters.
pub open spec fn char_pos_of_offset(chars: Seq<char>, o: int) -> int {
    choose|p: int| 0 <= p <= chars.len() && #[trigger] utf8_offset(chars, p) == o
}

/// What `str::replace` produces: every non-overlapping occurrence of `from`, taken from left
/// to right, is replaced by `to`.
pub open spec fn replace_all(s: Seq<char>, from: Seq<char>, to: Seq<char>) -> Seq<char>
    decreases s.len(),
{
    if from.len() == 0 || s.len() < from.len() {
        s
    } else if s.subrange(0, from.len() as int) == from {
        to + replace_all(s.subrange(from.len() as int, s.len() as int), from, to)
    } else {
        seq![s[0]] + replace_all(s.drop_first(), from, to)
    }
}

pub proof fn lemma_encode_scalar_width(c: char)
    ensures
        1 <= utf8_width(c) <= 4,
{
}

pub proof fn lemma_encode_utf8_append(a: Seq<char>, b: Seq<char>)
    ensures
        encode_utf8(a + b) == encode_utf8(a) + encode_utf8(b),
    decreases a.len(),
{
    if a.len() == 0 {
        assert(a + b =~= b);
        assert(encode_utf8(a) =~= Seq::<u8>::empty());
        assert(encode_utf8(a) + encode_utf8(b) =~= encode_utf8(b));
    } else {
        assert((a + b).drop_first() =~= a.drop_first() + b);
        lemma_encode_utf8_append(a.drop_first(), b);
        assert((a + b)[0] == a[0]);
        assert(encode_utf8(a + b) =~= encode_scalar(a[0] as u32) + (encode_utf8(a.drop_first())
            + encode_utf8(b)));
    }
}

pub proof fn lemma_utf8_offset_step(chars: Seq<char>, p: int)
    requires
        0 <= p < chars.len(),
    ensures
        utf8_offset(chars, p + 1) == utf8_offset(chars, p) + utf8_width(chars[p]),
{
    assert(chars.take(p + 1) =~= chars.take(p) + seq![chars[p]]);
    lemma_encode_utf8_append(chars.take(p), seq![chars[p]]);
    assert(seq![chars[p]].drop_first() =~= Seq::<char>::empty());
    reveal_with_fuel(encode_utf8, 2);
    assert(encode_utf8(seq![chars[p]]) =~= encode_scalar(chars[p] as u32));
}

pub proof fn lemma_utf8_offset_zero(chars: Seq<char>)
    ensures
        utf8_offset(chars, 0) == 0,
{
    assert(chars.take(0) =~= Seq::<char>::empty());
}

pub proof fn lemma_utf8_offset_full(chars: Seq<char>)
    ensures
        utf8_offset(chars, chars.len() as int) == encode_utf8(chars).len(),
{
    assert(chars.take(chars.len() as int) =~= chars);
}

/// The byte offset grows strictly with the character position.
pub proof fn lemma_utf8_offset_strict(chars: Seq<char>, p: int, q: int)
    requires
        0 <= p < q <= chars.len(),
    ensures
        utf8_offset(chars, p) < utf8_offset(chars, q),
        q - p <= utf8_offset(chars, q) - utf8_offset(chars, p),
    decreases q - p,
{
    lemma_utf8_offset_step(chars, q - 1);
    lemma_encode_scalar_width(chars[q - 1]);
    if p < q - 1 {
        lemma_utf8_offset_strict(chars, p, q - 1);
    }
}

pub proof fn lemma_char_pos_unique(chars: Seq<char>, o: int, p: int)
    requires
        0 <= p <= chars.len(),
        utf8_offset(chars, p) == o,
    ensures
        is_char_offset(chars, o),
        char_pos_of_offset(chars, o) == p,
{
    assert(is_char_offset(chars, o));
    let q = char_pos_of_offset(chars, o);
    if q < p {
        lemma_utf8_offset_strict(chars, q, p);
    } else if p < q {
        lemma_utf8_offset_strict(chars, p, q);
    }
}

/// The number of bytes that `c` takes in UTF-8.
pub fn char_utf8_width(c: char) -> (n: usize)
    ensures
        n as int == utf8_width(c),
{
    let v = c as u32;
    if v <= 0x7F {
        1
    } else if v <= 0x7FF {
        2
    } else if v <= 0xFFFF {
        3
    } else {
        4
    }
}

/// The characters of `s`, one by one.
pub fn chars_of(s: &str) -> (v: Vec<char>)
    ensures
        v@ == s@,
{
    let n = s.unicode_len();
    let mut v: Vec<char> = Vec::new();
    let mut i: usize = 0;
    while i < n
        invariant
            n == s@.len(),
            i <= n,
            v@ == s@.take(i as int),
        decreases n - i,
    {
        let c = s.get_char(i);
        v.push(c);
        i = i + 1;
        assert(v@ =~= s@.take(i as int));
    }
    assert(s@.take(n as int) =~= s@);
    v
}

/// `String::from_iter` of std over the characters: the string made of `chars`, in order.
#[verifier::external_body]
pub(crate) fn string_from_chars(chars: &Vec<char>) -> (s: String)
    ensures
        s@ == chars@,
{
    String::from_iter(chars.iter())
}

/// The character position of byte offset `o` in `s`, when `o` falls between two characters.
pub fn char_pos_of_byte_offset(s: &str, o: usize) -> (r: Option<usize>)
    ensures
        match r {
            Some(p) => 0 <= p <= s@.len() && utf8_offset(s@, p as int) == o && is_char_offset(
                s@,
                o as int,
            ) && char_pos_of_offset(s@, o as int) == p,
            None => !is_char_offset(s@, o as int),
        },
{
    let n = s.unicode_len();
    let total = s.as_bytes().len();
    proof {
        lemma_utf8_offset_full(s@);
        lemma_utf8_offset_zero(s@);
    }
    let mut p: usize = 0;
    let mut acc: usize = 0;
    while p < n && acc < o
        invariant
            n == s@.len(),
            total == encode_utf8(s@).len(),
            utf8_offset(s@, n as int) == total,
            p <= n,
            acc as int == utf8_offset(s@, p as int),
            forall|q: int| 0 <= q < p ==> #[trigger] utf8_offset(s@, q) < o,
        decreases n - p,
    {
        let w = char_utf8_width(s.get_char(p));
        proof {
            lemma_utf8_offset_step(s@, p as int);
            if p + 1 < n {
                lemma_utf8_offset_strict(s@, p + 1, n as int);
            }
        }
        acc = acc + w;
        p = p + 1;
    }
    if acc == o {
        proof {
            lemma_char_pos_unique(s@, o as int, p as int);
        }
        Some(p)
    } else {
        assert(!is_char_offset(s@, o as int)) by {
            if is_char_offset(s@, o as int) {
                let q = choose|q: int| 0 <= q <= s@.len() && #[trigger] utf8_offset(s@, q) == o;
                if q > p {
                    lemma_utf8_offset_strict(s@, p as int, q);
                }
            }
        }
        None
    }
}

/// Replaces every non-overlapping occurrence of `from` in `s` by `to`, left to right.
pub fn replace_chars(s: &Vec<char>, from: &Vec<char>, to: &Vec<char>) -> (r: Vec<char>)
    requires
        from@.len() > 0,
    ensures
        r@ == replace_all(s@, from@, to@),
{
    let n = s.len();
    let flen = from.len();
    let mut out: Vec<char> = Vec::new();
    let mut i: usize = 0;
    assert(s@.subrange(0, n as int) =~= s@);
    while i < n
        invariant
            n == s@.len(),
            flen == from@.len(),
            flen > 0,
            i <= n,
            out@ + replace_all(s@.subrange(i as int, n as int), from@, to@) == replace_all(
                s@,
                from@,
                to@,
            ),
        decreases n - i,
    {
        let ghost rest = s@.subrange(i as int, n as int);
        let mut matched = flen <= n - i;
        if matched {
            let mut j: usize = 0;
            while j < flen
                invariant
                    n == s@.len(),
                    flen == from@.len(),
                    i + flen <= n,
                    j <= flen,
                    matched <==> (forall|k: int| 0 <= k < j ==> s@[i + k] == from@[k]),
                decreases flen - j,
            {
                if s[i + j] != from[j] {
                    matched = false;
                }
                j = j + 1;
            }
        }
        if matched {
            assert(rest.subrange(0, flen as int) =~= from@);
            assert(rest.subrange(flen as int, rest.len() as int) =~= s@.subrange(
                i + flen,
                n as int,
            ));
            let ghost before = out@;
            let mut k: usize = 0;
            while k < to.len()
                invariant
                    out@ == before + to@.take(k as int),
                    k <= to@.len(),
                decreases to@.len() - k,
            {
                out.push(to[k]);
                k = k + 1;
                assert(out@ =~= before + to@.take(k as int));
            }
            assert(to@.take(to@.len() as int) =~= to@);
            assert(before + (to@ + replace_all(s@.subrange(i + flen, n as int), from@, to@))
                =~= out@ + replace_all(s@.subrange(i + flen, n as int), from@, to@));
            i = i + flen;
        } else {
            proof {
                assert(rest.drop_first() =~= s@.subrange(i + 1, n as int));
                if rest.len() >= flen {
                    assert(rest.subrange(0, flen as int) != from@) by {
                        if rest.subrange(0, flen as int) =~= from@ {
                            assert forall|k: int| 0 <= k < flen implies s@[i + k] == from@[k] by {
                                assert(rest.subrange(0, flen as int)[k] == s@[i + k]);
                            }
                        }
                    }
                } else {
                    assert(rest.drop_first().len() < flen);
                    assert(rest =~= seq![rest[0]] + rest.drop_first());
                }
            }
            let ghost before = out@;
            out.push(s[i]);
            assert(out@ + replace_all(rest.drop_first(), from@, to@) =~= before + (seq![rest[0]]
                + replace_all(rest.drop_first(), from@, to@)));
            i = i + 1;
        }
    }
    assert(s@.subrange(n as int, n as int) =~= Seq::<char>::empty());
    assert(out@ + Seq::<char>::empty() =~= out@);
    out
}

/// `str::replace` on a character sequence, for a non-empty pattern.
pub fn replace_str(s: &str, from: &str, to: &str) -> (r: String)
    requires
        from@.len() > 0,
    ensures
        r@ == replace_all(s@, from@, to@),
{
    let sv = chars_of(s);
    let fv = chars_of(from);
    let tv = chars_of(to);
    let rv = replace_chars(&sv, &fv, &tv);
    string_from_chars(&rv)
}

} // verus!
