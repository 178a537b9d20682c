use vstd::prelude::*;
use vstd::string::*;
use vstd::utf8::*;

use crate::scope::{
    closes_scope, first_occurrence, get_scope_open_and_close_char_indexes, is_scope_close,
    ScopeError,
};
use crate::text::{
    char_pos_of_byte_offset, char_pos_of_offset, is_char_offset, lemma_utf8_offset_strict,
    replace_all, replace_str, utf8_offset,
};

verus! {

/// The text that opens the default development shell of a flake.
pub open spec fn dev_shell_opener() -> Seq<char> {
    "devShells.default = pkgs.mkShell {"@
}

/// The line of the default flake that adds a Rust toolchain to the development shell.
pub open spec fn rust_dev_package_line() -> Seq<char> {
    "            rust # For Rust development, with the WASM target included for zome builds"@
}

/// The development shell list entry that the default shell starts with.
pub open spec fn inputs_from_opener() -> Seq<char> {
    "inputsFrom = ["@
}

/// The list entry of the default shell once the Tauri development shell is added to it.
pub open spec fn inputs_from_with_tauri_dev() -> Seq<char> {
    "inputsFrom = [\n              inputs'.p2p-shipyard.devShells.holochainTauriDev"@
}

/// The list entry of the Android shell once the Tauri Android development shell is added to it.
pub open spec fn inputs_from_with_tauri_android_dev() -> Seq<char> {
    "inputsFrom = [\n              inputs'.p2p-shipyard.devShells.holochainTauriAndroidDev"@
}

/// The position at which the scan for the start of the default shell's line continues,
/// moving back over spaces and tabs; `None` where the scan would leave the text.
pub open spec fn trim_back(chars: Seq<char>, p: int) -> Option<int>
    decreases p,
{
    if p < 0 || p >= chars.len() {
        None
    } else if chars[p] == ' ' || chars[p] == '\t' {
        if p == 0 {
            None
        } else {
            trim_back(chars, p - 1)
        }
    } else {
        Some(p)
    }
}

/// The position of the `}` that closes the scope opened at `start`, if any.
pub open spec fn scope_close(chars: Seq<char>, start: int) -> Option<int> {
    if exists|n: int| is_scope_close(chars, start, n) {
        Some(choose|n: int| is_scope_close(chars, start, n))
    } else {
        None
    }
}

/// Byte offset of the default shell's opener in the flake.
pub open spec fn dev_shell_opener_offset(content: Seq<char>) -> Option<int> {
    first_occurrence(encode_utf8(content), encode_utf8(dev_shell_opener()))
}

/// The offset of the opener's last byte, from which the scope is scanned.
pub open spec fn dev_shell_scope_start(b: int) -> int {
    b + encode_utf8(dev_shell_opener()).len() - 1
}

/// The inputs on which adding the development shells runs to its end: where the default
/// shell is found, the line that opens it does not start the text, the scan back over blanks
/// stays in the text, and the two cut points fall between characters in the right order.
pub open spec fn dev_shells_edit_defined(content: Seq<char>) -> bool {
    match dev_shell_opener_offset(content) {
        None => true,
        Some(b) => match scope_close(content, dev_shell_scope_start(b)) {
            None => true,
            Some(c) => {
                &&& b >= 1
                &&& match trim_back(content, b - 1) {
                    None => false,
                    Some(o) => {
                        &&& o <= c + 2
                        &&& is_char_offset(content, o)
                        &&& is_char_offset(content, c + 2)
                    },
                }
            },
        },
    }
}

/// The default development shell with the Tauri development shell added to its inputs.
pub open spec fn default_dev_shell(shell: Seq<char>) -> Seq<char> {
    replace_all(shell, inputs_from_opener(), inputs_from_with_tauri_dev())
}

/// The Android development shell derived from the default one.
pub open spec fn android_dev_shell(shell: Seq<char>) -> Seq<char> {
    let s1 = replace_all(shell, "holonix.devShells.default"@, "holonix.devShells.def2ault"@);
    let s2 = replace_all(s1, "default"@, "androidDev"@);
    let s3 = replace_all(s2, inputs_from_opener(), inputs_from_with_tauri_android_dev());
    replace_all(s3, "holonix.devShells.def2ault"@, "holonix.devShells.default"@)
}

/// The flake with the default development shell extended and an Android one added after it.
pub open spec fn with_tauri_dev_shells(content: Seq<char>) -> Result<Seq<char>, ScopeError> {
    match dev_shell_opener_offset(content) {
        None => Err(ScopeError::OpenerNotFound),
        Some(b) => match scope_close(content, dev_shell_scope_start(b)) {
            None => Err(ScopeError::MalformedScopes),
            Some(c) => {
                let o = trim_back(content, b - 1)->0;
                let po = char_pos_of_offset(content, o);
                let pc = char_pos_of_offset(content, c + 2);
                let shell = content.subrange(po, pc);
                Ok(
                    content.subrange(0, po) + default_dev_shell(shell) + android_dev_shell(shell)
                        + content.subrange(pc, content.len() as int),
                )
            },
        },
    }
}

proof fn lemma_scope_close_unique(chars: Seq<char>, start: int, n: int)
    requires
        is_scope_close(chars, start, n),
    ensures
        scope_close(chars, start) == Some(n),
{
    let m = choose|m: int| is_scope_close(chars, start, m);
    assert(is_scope_close(chars, start, m));
    if m < n {
        assert(!closes_scope(chars, start, m));
    } else if n < m {
        assert(!closes_scope(chars, start, n));
    }
}

proof fn lemma_char_pos_monotone(chars: Seq<char>, o1: int, o2: int)
    requires
        is_char_offset(chars, o1),
        is_char_offset(chars, o2),
        o1 <= o2,
    ensures
        0 <= char_pos_of_offset(chars, o1) <= char_pos_of_offset(chars, o2) <= chars.len(),
        utf8_offset(chars, char_pos_of_offset(chars, o1)) == o1,
        utf8_offset(chars, char_pos_of_offset(chars, o2)) == o2,
{
    let p1 = char_pos_of_offset(chars, o1);
    let p2 = char_pos_of_offset(chars, o2);
    if p2 < p1 {
        lemma_utf8_offset_strict(chars, p2, p1);
    }
}

/// Removes the Rust toolchain line from the default development shell of a flake.
pub fn remove_rust_dev_package(flake_nix_content: &String) -> (r: String)
    ensures
        r@ == replace_all(flake_nix_content@, rust_dev_package_line(), Seq::<char>::empty()),
{
    proof {
        reveal_strlit(
            "            rust # For Rust development, with the WASM target included for zome builds",
        );
        reveal_strlit("");
        assert(""@ =~= Seq::<char>::empty());
    }
    replace_str(
        flake_nix_content.as_str(),
        "            rust # For Rust development, with the WASM target included for zome builds",
        "",
    )
}

/// Whether adding the development shells runs to its end on this flake; where it does not,
/// the edit cannot be made on the flake's text.
pub fn dev_shells_edit_is_defined(flake_nix_content: &String) -> (r: bool)
    ensures
        r == dev_shells_edit_defined(flake_nix_content@),
{
    let ghost content = flake_nix_content@;
    let opener = String::from_str("devShells.default = pkgs.mkShell {");
    proof {
        reveal_strlit("devShells.default = pkgs.mkShell {");
    }
    let (open0, close0) = match get_scope_open_and_close_char_indexes(flake_nix_content, &opener) {
        Ok(x) => x,
        Err(_) => {
            proof {
                if dev_shell_opener_offset(content) is Some {
                    let b = dev_shell_opener_offset(content)->0;
                    if exists|n: int| is_scope_close(content, dev_shell_scope_start(b), n) {
                        let n = choose|n: int| is_scope_close(content, dev_shell_scope_start(b), n);
                        assert(closes_scope(content, dev_shell_scope_start(b), n));
                    }
                }
            }
            return true;
        },
    };
    let ghost b = dev_shell_opener_offset(content)->0;
    proof {
        lemma_scope_close_unique(content, dev_shell_scope_start(b), close0 as int);
    }
    let opener_len = opener.as_str().as_bytes().len();
    if open0 < opener_len {
        return false;
    }
    let s = flake_nix_content.as_str();
    let n = s.unicode_len();
    let mut p: usize = open0 - opener_len;
    assert(p == b - 1);
    loop
        invariant
            s@ == content,
            content == flake_nix_content@,
            n == content.len(),
            trim_back(content, p as int) == trim_back(content, b - 1),
            dev_shell_opener_offset(content) == Some(b),
            scope_close(content, dev_shell_scope_start(b)) == Some(close0 as int),
            b >= 1,
        ensures
            trim_back(content, b - 1) == Some(p as int),
        decreases p,
    {
        if p >= n {
            return false;
        }
        let c = s.get_char(p);
        if c == ' ' || c == '\t' {
            if p == 0 {
                return false;
            }
            p = p - 1;
        } else {
            break;
        }
    }
    let total = s.as_bytes().len();
    proof {
        crate::text::lemma_utf8_offset_full(content);
    }
    let close: usize = match close0.checked_add(2) {
        Some(c2) => c2,
        None => {
            proof {
                assert(!is_char_offset(content, close0 + 2)) by {
                    if is_char_offset(content, close0 + 2) {
                        let w = choose|q: int|
                            0 <= q <= content.len() && #[trigger] utf8_offset(content, q) == close0
                                + 2;
                        if w < content.len() {
                            lemma_utf8_offset_strict(content, w, content.len() as int);
                        }
                    }
                }
            }
            return false;
        },
    };
    if p > close {
        return false;
    }
    let a = char_pos_of_byte_offset(s, p);
    let c = char_pos_of_byte_offset(s, close);
    a.is_some() && c.is_some()
}

/// Adds the Holochain Tauri development shell to the default development shell of a flake,
/// and adds an Android development shell, a copy of the default one that includes the
/// Holochain Tauri Android development shell, right after it.
pub fn add_tauri_dev_shells(flake_nix_content: &String) -> (r: Result<String, ScopeError>)
    requires
        dev_shells_edit_defined(flake_nix_content@),
    ensures
        match (r, with_tauri_dev_shells(flake_nix_content@)) {
            (Ok(s), Ok(t)) => s@ == t,
            (Err(e), Err(f)) => e == f,
            _ => false,
        },
{
    let ghost content = flake_nix_content@;
    let opener = String::from_str("devShells.default = pkgs.mkShell {");
    proof {
        reveal_strlit("devShells.default = pkgs.mkShell {");
    }
    let (open0, close0) = match get_scope_open_and_close_char_indexes(flake_nix_content, &opener) {
        Ok(x) => x,
        Err(e) => {
            return Err(e);
        },
    };
    let ghost b = dev_shell_opener_offset(content)->0;
    proof {
        lemma_scope_close_unique(content, dev_shell_scope_start(b), close0 as int);
    }
    let opener_len = opener.as_str().as_bytes().len();
    let mut open: usize = open0 - opener_len;
    let s = flake_nix_content.as_str();
    let n = s.unicode_len();
    let ghost target = trim_back(content, b - 1);
    loop
        invariant
            s@ == content,
            n == content.len(),
            trim_back(content, open as int) == target,
            target is Some,
        ensures
            target == Some(open as int),
        decreases open,
    {
        let c = s.get_char(open);
        if c == ' ' || c == '\t' {
            open = open - 1;
        } else {
            break;
        }
    }
    let total = s.as_bytes().len();
    proof {
        let w = choose|p: int| 0 <= p <= content.len() && #[trigger] utf8_offset(content, p) == close0 + 2;
        crate::text::lemma_utf8_offset_full(content);
        if w < content.len() {
            lemma_utf8_offset_strict(content, w, content.len() as int);
        }
    }
    let close: usize = close0 + 2;
    let po = match char_pos_of_byte_offset(s, open) {
        Some(p) => p,
        None => {
            return Err(ScopeError::MalformedScopes);
        },
    };
    let pc = match char_pos_of_byte_offset(s, close) {
        Some(p) => p,
        None => {
            return Err(ScopeError::MalformedScopes);
        },
    };
    proof {
        lemma_char_pos_monotone(content, open as int, close as int);
    }
    let before = s.substring_char(0, po);
    let shell = s.substring_char(po, pc);
    let after = s.substring_char(pc, n);
    proof {
        reveal_strlit("inputsFrom = [");
        reveal_strlit("holonix.devShells.default");
        reveal_strlit("holonix.devShells.def2ault");
        reveal_strlit("default");
    }
    let default_shell = replace_str(
        shell,
        "inputsFrom = [",
        "inputsFrom = [\n              inputs'.p2p-shipyard.devShells.holochainTauriDev",
    );
    let a1 = replace_str(shell, "holonix.devShells.default", "holonix.devShells.def2ault");
    let a2 = replace_str(a1.as_str(), "default", "androidDev");
    let a3 = replace_str(
        a2.as_str(),
        "inputsFrom = [",
        "inputsFrom = [\n              inputs'.p2p-shipyard.devShells.holochainTauriAndroidDev",
    );
    let android_shell = replace_str(
        a3.as_str(),
        "holonix.devShells.def2ault",
        "holonix.devShells.default",
    );
    let mut result = String::from_str(before);
    result.append(default_shell.as_str());
    result.append(android_shell.as_str());
    result.append(after);
    Ok(result)
}

} // verus!
