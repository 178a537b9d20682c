use vstd::prelude::*;
use vstd::string::*;

verus! {

/// Joins `p` onto `base` as `PathBuf::push` does on Unix-like systems, where paths are
/// separated by `/` and absolute paths start with `/`: an absolute `p` replaces `base`;
/// otherwise a `/` is put between them unless `base` is empty or already ends with one.
/// Windows separators (`\`) and drive prefixes are not recognised: the paths this library
/// handles are `/`-separated.
pub open spec fn path_join(base: Seq<char>, p: Seq<char>) -> Seq<char> {
    if p.len() > 0 && p[0] == '/' {
        p
    } else if base.len() == 0 || base.last() == '/' {
        base + p
    } else {
        base + seq!['/'] + p
    }
}

/// `base.join(p)` for `/`-separated paths, as on Unix-like systems.
pub fn join(base: &str, p: &str) -> (r: String)
    ensures
        r@ == path_join(base@, p@),
{
    let np = p.unicode_len();
    let nb = base.unicode_len();
    if np > 0 && p.get_char(0) == '/' {
        return String::from_str(p);
    }
    let mut r = String::from_str(base);
    if nb == 0 || base.get_char(nb - 1) == '/' {
        r.append(p);
    } else {
        r.append("/");
        r.append(p);
        proof {
            reveal_strlit("/");
            assert("/"@ =~= seq!['/']);
        }
    }
    r
}

} // verus!
