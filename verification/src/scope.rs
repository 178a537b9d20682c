use vstd::prelude::*;
use vstd::string::*;
use vstd::utf8::*;

verus! {

/// `pat` occurs in `text` starting at byte `i`.
pub open spec fn occurs_at(text: Seq<u8>, pat: Seq<u8>, i: int) -> bool {
    &&& 0 <= i
    &&& i + pat.len() <= text.len()
    &&& text.subrange(i, i + pat.len()) == pat
}

/// The first byte position, at or after `from`, where `pat` occurs in `text`.
pub open spec fn first_occurrence_from(text: Seq<u8>, pat: Seq<u8>, from: int) -> Option<int>
    decreases text.len() + 1 - from,
{
    if from < 0 || from + pat.len() > text.len() {
        None
    } else if occurs_at(text, pat, from) {
        Some(from)
    } else {
        first_occurrence_from(text, pat, from + 1)
    }
}

/// What `str::find` gives back: the byte offset of the first occurrence of `pat` in `text`.
pub open spec fn first_occurrence(text: Seq<u8>, pat: Seq<u8>) -> Option<int> {
    first_occurrence_from(text, pat, 0)
}

/// How a character moves the nesting depth of curly-brace scopes.
pub open spec fn brace_delta(c: char) -> int {
    if c == '{' {
        1
    } else if c == '}' {
        -1
    } else {
        0
    }
}

/// The number of `{` minus the number of `}` in `s`.
pub open spec fn brace_balance(s: Seq<char>) -> int
    decreases s.len(),
{
    if s.len() == 0 {
        0
    } else {
        brace_balance(s.drop_last()) + brace_delta(s.last())
    }
}

/// Position `n` closes the scope opened at `start`: the depth, counted from 1 right after
/// `start`, falls to 0 on the character at `n`.
pub open spec fn closes_scope(chars: Seq<char>, start: int, n: int) -> bool {
    &&& 0 <= start < n < chars.len()
    &&& 1 + brace_balance(chars.subrange(start + 1, n + 1)) == 0
}

/// `n` is the first position after `start` that closes the scope opened at `start`.
pub open spec fn is_scope_close(chars: Seq<char>, start: int, n: int) -> bool {
    &&& closes_scope(chars, start, n)
    &&& forall|m: int| start < m < n ==> !#[trigger] closes_scope(chars, start, m)
}

/// Why no scope could be delimited in a text.
#[derive(Clone, Copy, Debug, PartialEq, Eq)]
pub enum ScopeError {
    /// The text does not contain the scope opener.
    OpenerNotFound,
    /// The scope that the opener starts is never closed.
    MalformedScopes,
}

impl ScopeError {
    /// The message that describes the error.
    pub fn message(&self) -> (m: String)
        ensures
            m@ == (match self {
                ScopeError::OpenerNotFound => "Given scope opener not found in the given parameter"@,
                ScopeError::MalformedScopes => "Malformed scopes"@,
            }),
    {
        match self {
            ScopeError::OpenerNotFound => String::from_str(
                "Given scope opener not found in the given parameter",
            ),
            ScopeError::MalformedScopes => String::from_str("Malformed scopes"),
        }
    }
}

/// Byte-wise search, as `str::find` does it: the first offset where `pat` occurs in `text`.
pub fn find_bytes(text: &[u8], pat: &[u8]) -> (r: Option<usize>)
    ensures
        match r {
            None => first_occurrence(text@, pat@) is None,
            Some(i) => first_occurrence(text@, pat@) == Some(i as int) && occurs_at(
                text@,
                pat@,
                i as int,
            ),
        },
{
    let tlen = text.len();
    let plen = pat.len();
    if plen > tlen {
        return None;
    }
    let mut i: usize = 0;
    while i <= tlen - plen
        invariant
            tlen == text@.len(),
            plen == pat@.len(),
            plen <= tlen,
            i <= tlen - plen + 1,
            first_occurrence(text@, pat@) == first_occurrence_from(text@, pat@, i as int),
        decreases tlen - i,
    {
        let mut j: usize = 0;
        let mut matched = true;
        while j < plen
            invariant
                tlen == text@.len(),
                plen == pat@.len(),
                i + plen <= tlen,
                j <= plen,
                matched <==> (forall|k: int| 0 <= k < j ==> text@[i + k] == pat@[k]),
            decreases plen - j,
        {
            if text[i + j] != pat[j] {
                matched = false;
            }
            j = j + 1;
        }
        if matched {
            assert(text@.subrange(i as int, i + plen) =~= pat@);
            return Some(i);
        }
        assert(!occurs_at(text@, pat@, i as int)) by {
            if occurs_at(text@, pat@, i as int) {
                assert forall|k: int| 0 <= k < plen implies text@[i + k] == pat@[k] by {
                    assert(text@.subrange(i as int, i + plen)[k] == text@[i + k]);
                }
            }
        }
        i = i + 1;
    }
    None
}

proof fn lemma_balance_push(s: Seq<char>, a: int, n: int)
    requires
        0 <= a <= n < s.len(),
    ensures
        brace_balance(s.subrange(a, n + 1)) == brace_balance(s.subrange(a, n)) + brace_delta(s[n]),
{
    assert(s.subrange(a, n + 1).drop_last() =~= s.subrange(a, n));
}

/// Finds the scope that `scope_opener` opens in `text`.
///
/// The opener is searched for as `str::find` does, so its position is a byte offset; the
/// first result is the byte offset of the opener's last byte. From there the characters
/// that follow are scanned, counting nested `{` and `}`, and the second result is the
/// character position of the `}` that brings the depth back to zero.
pub fn get_scope_open_and_close_char_indexes(
    text: &String,
    scope_opener: &String,
) -> (r: Result<(usize, usize), ScopeError>)
    requires
        scope_opener@.len() > 0,
    ensures
        match first_occurrence(encode_utf8(text@), encode_utf8(scope_opener@)) {
            None => r == Err::<(usize, usize), ScopeError>(ScopeError::OpenerNotFound),
            Some(b) => {
                let start = b + encode_utf8(scope_opener@).len() - 1;
                match r {
                    Ok((o, c)) => o == start && is_scope_close(text@, start, c as int),
                    Err(e) => e == ScopeError::MalformedScopes && forall|n: int|
                        !#[trigger] closes_scope(text@, start, n),
                }
            },
        },
{
    let text_str = text.as_str();
    let opener_str = scope_opener.as_str();
    let text_bytes = text_str.as_bytes();
    let opener_bytes = opener_str.as_bytes();
    proof {
        encode_utf8_nonempty(scope_opener@);
    }
    let found = find_bytes(text_bytes, opener_bytes);
    let b = match found {
        None => {
            return Err(ScopeError::OpenerNotFound);
        },
        Some(b) => b,
    };
    let opener_len = opener_bytes.len();
    let text_len = text_bytes.len();
    assert(b + opener_len <= text_len);
    let start: usize = b + opener_len - 1;
    let ghost chars = text@;
    let n_chars = text_str.unicode_len();
    let mut index: usize = start;
    let mut scope_count: usize = 1;
    if start >= n_chars {
        assert forall|n: int| !#[trigger] closes_scope(chars, start as int, n) by {}
        return Err(ScopeError::MalformedScopes);
    }
    assert(chars.subrange(start + 1, start + 1) =~= Seq::<char>::empty());
    while scope_count > 0
        invariant
            n_chars == chars.len(),
            chars == text@,
            text_str@ == chars,
            start < n_chars,
            start <= index < n_chars,
            scope_count <= index - start + 1,
            scope_count as int == 1 + brace_balance(chars.subrange(start + 1, index + 1)),
            forall|m: int| start < m < index ==> !#[trigger] closes_scope(chars, start as int, m),
            index > start ==> (closes_scope(chars, start as int, index as int) <==> scope_count == 0),
            first_occurrence(encode_utf8(text@), encode_utf8(scope_opener@)) == Some(b as int),
            start as int == b + encode_utf8(scope_opener@).len() - 1,
        decreases n_chars - index,
    {
        index = index + 1;
        if index >= n_chars {
            assert forall|n: int| !#[trigger] closes_scope(chars, start as int, n) by {}
            return Err(ScopeError::MalformedScopes);
        }
        let c = text_str.get_char(index);
        proof {
            lemma_balance_push(chars, start + 1, index as int);
        }
        if c == '{' {
            scope_count = scope_count + 1;
        } else if c == '}' {
            scope_count = scope_count - 1;
        }
    }
    Ok((start, index))
}

proof fn encode_utf8_nonempty(s: Seq<char>)
    requires
        s.len() > 0,
    ensures
        encode_utf8(s).len() > 0,
{
    assert(encode_scalar(s[0] as u32).len() > 0);
}

} // verus!
