use vstd::prelude::*;
use vstd::string::*;

use crate::laws::{lacks_char, lemma_find_first, lemma_split_absent};
use crate::plugin::{admin_interface_script_spec, allowed_origins_spec, app_interface_script_spec};
use crate::scaffold::{count_char, identifier_is_valid};
use crate::strings::{chars_occur_at, comma_separated_decimals, decimal, split_parts};

verus! {

/// The number that a text of decimal digits stands for, reading each digit by its code point.
pub open spec fn decimal_value(s: Seq<char>) -> int
    decreases s.len(),
{
    if s.len() == 0 {
        0
    } else {
        decimal_value(s.drop_last()) * 10 + (s.last() as int - 48)
    }
}

/// Every character of `s` is one of the digits `0` to `9`.
pub open spec fn all_digits(s: Seq<char>) -> bool {
    forall|i: int| 0 <= i < s.len() ==> 48 <= #[trigger] (s[i] as int) <= 57
}

proof fn lemma_digit_code(d: nat)
    requires
        d < 10,
    ensures
        crate::strings::digit_char(d) as int == 48 + d,
{
    if d == 0 {
        assert('0' as int == 48);
    } else if d == 1 {
        assert('1' as int == 49);
    } else if d == 2 {
        assert('2' as int == 50);
    } else if d == 3 {
        assert('3' as int == 51);
    } else if d == 4 {
        assert('4' as int == 52);
    } else if d == 5 {
        assert('5' as int == 53);
    } else if d == 6 {
        assert('6' as int == 54);
    } else if d == 7 {
        assert('7' as int == 55);
    } else if d == 8 {
        assert('8' as int == 56);
    } else {
        assert('9' as int == 57);
    }
}

/// The decimal notation of a number is a non-empty text of digits that reads back as that
/// number, without leading zero: what `Display` writes for an unsigned integer.
pub proof fn law_decimal_reads_back(n: nat)
    ensures
        decimal(n).len() > 0,
        all_digits(decimal(n)),
        decimal_value(decimal(n)) == n,
        decimal(n).len() > 1 ==> decimal(n)[0] != '0',
    decreases n,
{
    let d = n % 10;
    assert(d < 10);
    lemma_digit_code(d);
    if n < 10 {
        assert(d == n);
        assert(decimal(n) =~= seq![crate::strings::digit_char(n)]);
        assert(decimal(n).drop_last() =~= Seq::<char>::empty());
        assert(decimal_value(decimal(n)) == decimal_value(decimal(n).drop_last()) * 10 + (
        decimal(n).last() as int - 48));
    } else {
        law_decimal_reads_back(n / 10);
        let a = decimal(n / 10);
        let s = decimal(n);
        assert(s =~= a + seq![crate::strings::digit_char(d)]);
        assert(s.drop_last() =~= a);
        assert forall|i: int| 0 <= i < s.len() implies 48 <= #[trigger] (s[i] as int) <= 57 by {
            if i < a.len() {
                assert(s[i] == a[i]);
                assert(48 <= (a[i] as int) <= 57);
            }
        }
        assert(s[0] == a[0]);
        assert(n == (n / 10) * 10 + d);
        assert(decimal_value(s) == decimal_value(a) * 10 + (s.last() as int - 48));
        if n / 10 < 10 {
            lemma_digit_code(n / 10);
            assert(a =~= seq![crate::strings::digit_char(n / 10)]);
        } else {
            law_decimal_reads_back(n / 100);
            assert(a.len() > 1);
        }
    }
}

proof fn lemma_count_char_append(a: Seq<char>, b: Seq<char>, c: char)
    ensures
        count_char(a + b, c) == count_char(a, c) + count_char(b, c),
    decreases b.len(),
{
    if b.len() == 0 {
        assert(a + b =~= a);
    } else {
        lemma_count_char_append(a, b.drop_last(), c);
        assert((a + b).drop_last() =~= a + b.drop_last());
        assert((a + b).last() == b.last());
    }
}

proof fn lemma_count_char_absent(s: Seq<char>, c: char)
    requires
        lacks_char(s, c),
    ensures
        count_char(s, c) == 0,
    decreases s.len(),
{
    if s.len() > 0 {
        assert(lacks_char(s.drop_last(), c)) by {
            assert forall|i: int| 0 <= i < s.drop_last().len() implies s.drop_last()[i] != c by {
                assert(s.drop_last()[i] == s[i]);
            }
        }
        lemma_count_char_absent(s.drop_last(), c);
    }
}

/// Splitting a text at a one-character separator gives one piece more than the text has
/// occurrences of that character.
proof fn lemma_split_count(s: Seq<char>, c: char)
    ensures
        split_parts(s, seq![c]).len() == count_char(s, c) + 1,
    decreases s.len(),
{
    let sep = seq![c];
    if lacks_char(s, c) {
        lemma_split_absent(s, sep);
        lemma_count_char_absent(s, c);
    } else {
        let w = choose|i: int| 0 <= i < s.len() && s[i] == c;
        let i = first_at(s, c, w);
        let a = s.take(i);
        let b = s.skip(i + 1);
        assert forall|j: int| 0 <= j < i implies !chars_occur_at(s, sep, j) by {
            if chars_occur_at(s, sep, j) {
                assert(s.subrange(j, j + 1)[0] == s[j]);
            }
        }
        assert(s.subrange(i, i + 1) =~= sep);
        lemma_find_first(s, sep, 0, i);
        assert(split_parts(s, sep) =~= seq![a] + split_parts(b, sep));
        lemma_split_count(b, c);
        assert(lacks_char(a, c)) by {
            assert forall|j: int| 0 <= j < a.len() implies a[j] != c by {
                assert(a[j] == s[j]);
            }
        }
        lemma_count_char_absent(a, c);
        assert(s =~= a + (seq![c] + b));
        lemma_count_char_append(a, seq![c] + b, c);
        lemma_count_char_append(seq![c], b, c);
        assert(seq![c].drop_last() =~= Seq::<char>::empty());
        assert(seq![c].last() == c);
        assert(count_char(Seq::<char>::empty(), c) == 0);
        assert(count_char(seq![c], c) == count_char(seq![c].drop_last(), c) + 1);
        assert(split_parts(s, sep).len() == 1 + split_parts(b, sep).len());
    }
}

/// Splitting at a one-character separator cuts the text at the first occurrence of it.
proof fn lemma_split_at_first(s: Seq<char>, c: char, i: int)
    requires
        0 <= i < s.len(),
        s[i] == c,
        forall|j: int| 0 <= j < i ==> s[j] != c,
    ensures
        split_parts(s, seq![c]) == seq![s.take(i)] + split_parts(s.skip(i + 1), seq![c]),
{
    let sep = seq![c];
    assert forall|j: int| 0 <= j < i implies !chars_occur_at(s, sep, j) by {
        if chars_occur_at(s, sep, j) {
            assert(s.subrange(j, j + 1)[0] == s[j]);
        }
    }
    assert(s.subrange(i, i + 1) =~= sep);
    lemma_find_first(s, sep, 0, i);
}

/// Splitting a text that ends with the separator and a piece free of it gives the pieces of
/// what comes before, then that last piece.
proof fn lemma_split_last(x: Seq<char>, y: Seq<char>, c: char)
    requires
        lacks_char(y, c),
    ensures
        split_parts(x + seq![c] + y, seq![c]) == split_parts(x, seq![c]).push(y),
    decreases x.len(),
{
    let s = x + seq![c] + y;
    if lacks_char(x, c) {
        lemma_split_at_first(s, c, x.len() as int);
        assert(s.take(x.len() as int) =~= x);
        assert(s.skip(x.len() + 1int) =~= y);
        lemma_split_absent(y, seq![c]);
        lemma_split_absent(x, seq![c]);
    } else {
        let w = choose|i: int| 0 <= i < x.len() && x[i] == c;
        let i = first_at(x, c, w);
        lemma_split_at_first(x, c, i);
        assert forall|j: int| 0 <= j < i implies s[j] != c by {
            assert(s[j] == x[j]);
        }
        lemma_split_at_first(s, c, i);
        assert(s.take(i) =~= x.take(i));
        assert(s.skip(i + 1) =~= x.skip(i + 1) + seq![c] + y);
        lemma_split_last(x.skip(i + 1), y, c);
    }
}

/// The first position at or before `w` where `c` occurs, `c` occurring at `w`.
proof fn first_at(s: Seq<char>, c: char, w: int) -> (i: int)
    requires
        0 <= w < s.len(),
        s[w] == c,
    ensures
        0 <= i <= w,
        s[i] == c,
        forall|j: int| 0 <= j < i ==> s[j] != c,
    decreases w,
{
    if exists|j: int| 0 <= j < w && s[j] == c {
        let j = choose|j: int| 0 <= j < w && s[j] == c;
        first_at(s, c, j)
    } else {
        w
    }
}

/// A bundle identifier is accepted exactly when it holds no `-` nor `_` and splits into three
/// segments at its points, whatever its length.
pub proof fn law_identifier_validity(identifier: Seq<char>)
    ensures
        identifier_is_valid(identifier) <==> (!identifier.contains('-') && !identifier.contains('_')
            && split_parts(identifier, "."@).len() == 3),
{
    reveal_strlit(".");
    assert("."@ =~= seq!['.']);
    lemma_split_count(identifier, '.');
}

/// Out of development, every window accepts the origin of its app's UI (`http://happ.{id}`
/// where custom schemes are served over `http`, else `happ://{id}`), an app window accepts
/// only that one, and the main window accepts the app window's origins plus the two origins
/// of the Tauri app itself; in development every origin is accepted.
pub proof fn law_allowed_origins(app_id: Seq<char>, http_scheme: bool)
    ensures
        allowed_origins_spec(app_id, true, true, http_scheme) is None,
        allowed_origins_spec(app_id, false, true, http_scheme) is None,
        ({
            let own = if http_scheme {
                "http://happ."@ + app_id
            } else {
                "happ://"@ + app_id
            };
            &&& allowed_origins_spec(app_id, false, false, http_scheme) == Some(set![own])
            &&& allowed_origins_spec(app_id, true, false, http_scheme) == Some(
                set![own].insert("http://tauri.localhost"@).insert("tauri://localhost"@),
            )
        }),
{
    let own = if http_scheme {
        "http://happ."@ + app_id
    } else {
        "happ://"@ + app_id
    };
    assert(allowed_origins_spec(app_id, true, false, http_scheme)->0 =~= set![own].insert(
        "http://tauri.localhost"@,
    ).insert("tauri://localhost"@));
}

/// The token written into a window's script reads back as the token: cut at its commas, the
/// pieces are texts of digits, one per byte, in order, each reading back as its byte.
pub proof fn law_token_text_reads_back(token: Seq<u8>)
    requires
        token.len() > 0,
    ensures
        ({
            let pieces = split_parts(comma_separated_decimals(token), seq![',']);
            &&& pieces.len() == token.len()
            &&& forall|i: int|
                0 <= i < token.len() ==> all_digits(#[trigger] pieces[i]) && decimal_value(pieces[i])
                    == token[i] as int
        }),
    decreases token.len(),
{
    let last = decimal(token.last() as nat);
    law_decimal_reads_back(token.last() as nat);
    assert(lacks_char(last, ',')) by {
        assert forall|i: int| 0 <= i < last.len() implies last[i] != ',' by {
            assert(48 <= (last[i] as int) <= 57);
            assert(',' as int == 44);
        }
    }
    if token.len() == 1 {
        assert(comma_separated_decimals(token) == last);
        lemma_split_absent(last, seq![',']);
    } else {
        let rest = token.drop_last();
        law_token_text_reads_back(rest);
        assert(comma_separated_decimals(token) == comma_separated_decimals(rest) + seq![','] + last);
        lemma_split_last(comma_separated_decimals(rest), last, ',');
        let pieces = split_parts(comma_separated_decimals(token), seq![',']);
        assert forall|i: int| 0 <= i < token.len() implies all_digits(#[trigger] pieces[i])
            && decimal_value(pieces[i]) == token[i] as int by {
            if i < rest.len() {
                assert(token[i] == rest[i]);
            }
        }
    }
}

/// The script given to a window that opens an app carries the port of the app interface as a
/// text of digits that reads back as that port, the token as comma-separated digit texts that
/// read back as its bytes, and the app id; the script of the admin interface carries its port
/// the same way.
pub proof fn law_init_scripts_carry_port_and_token(port: u16, token: Seq<u8>, app_id: Seq<char>)
    ensures
        exists|p: Seq<char>, t: Seq<char>|
            {
                &&& app_interface_script_spec(port, token, app_id)
                    == "\n            if (!window.__HC_LAUNCHER_ENV__) window.__HC_LAUNCHER_ENV__ = {};\n            window.__HC_LAUNCHER_ENV__.APP_INTERFACE_PORT = "@
                    + p + ";\n            window.__HC_LAUNCHER_ENV__.APP_INTERFACE_TOKEN = ["@ + t
                    + "];\n            window.__HC_LAUNCHER_ENV__.INSTALLED_APP_ID = \""@ + app_id
                    + "\";\n        "@
                &&& all_digits(p) && p.len() > 0 && decimal_value(p) == port as int
                &&& token.len() == 0 ==> t.len() == 0
                &&& token.len() > 0 ==> ({
                    let pieces = split_parts(t, seq![',']);
                    &&& pieces.len() == token.len()
                    &&& forall|i: int|
                        0 <= i < token.len() ==> all_digits(#[trigger] pieces[i]) && decimal_value(
                            pieces[i],
                        ) == token[i] as int
                })
            },
        exists|p: Seq<char>|
            {
                &&& admin_interface_script_spec(port)
                    == "\n            if (!window.__HC_LAUNCHER_ENV__) window.__HC_LAUNCHER_ENV__ = {};\n            window.__HC_LAUNCHER_ENV__.ADMIN_INTERFACE_PORT = "@
                    + p + ";\n                        \n                    "@
                &&& all_digits(p) && p.len() > 0 && decimal_value(p) == port as int
            },
{
    let p = decimal(port as nat);
    let t = comma_separated_decimals(token);
    law_decimal_reads_back(port as nat);
    if token.len() > 0 {
        law_token_text_reads_back(token);
    } else {
        assert(t.len() == 0);
    }
    assert(app_interface_script_spec(port, token, app_id)
        == "\n            if (!window.__HC_LAUNCHER_ENV__) window.__HC_LAUNCHER_ENV__ = {};\n            window.__HC_LAUNCHER_ENV__.APP_INTERFACE_PORT = "@
        + p + ";\n            window.__HC_LAUNCHER_ENV__.APP_INTERFACE_TOKEN = ["@ + t
        + "];\n            window.__HC_LAUNCHER_ENV__.INSTALLED_APP_ID = \""@ + app_id
        + "\";\n        "@);
    assert(admin_interface_script_spec(port)
        == "\n            if (!window.__HC_LAUNCHER_ENV__) window.__HC_LAUNCHER_ENV__ = {};\n            window.__HC_LAUNCHER_ENV__.ADMIN_INTERFACE_PORT = "@
        + p + ";\n                        \n                    "@);
}

} // verus!
