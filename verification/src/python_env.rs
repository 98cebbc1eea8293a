//! The Python environment ComfyUI runs in: where the venv's tools live and
//! which module names may be probed with `python -c "import ..."`.
use vstd::prelude::*;
use crate::paths::{joined_path, parent_path, path_join, path_parent};
use crate::text::{chars_of, is_alnum, trim, trim_chars};

verus! {

/// The uv binary for a venv: `bin/uv(.exe)` in the directory that holds the
/// venv (or in the venv path itself when it has no parent).
pub open spec fn uv_bin_spec(venv_path: Seq<char>, windows: bool) -> Seq<char> {
    let base = match parent_path(venv_path) {
        Some(p) => p,
        None => venv_path,
    };
    joined_path(joined_path(base, "bin"@), if windows { "uv.exe"@ } else { "uv"@ })
}

/// Resolve the uv binary path from the venv path (layout `{base}/bin/uv` next
/// to `{base}/venv/`); `windows` selects the platform's file name.
pub fn resolve_uv_bin(venv_path: &str, windows: bool) -> (r: String)
    ensures
        r@ == uv_bin_spec(venv_path@, windows),
{
    let base = match path_parent(venv_path) {
        Some(p) => p,
        None => {
            let c = chars_of(venv_path);
            crate::text::string_of(&c)
        },
    };
    let bin = path_join(base.as_str(), "bin");
    if windows {
        path_join(bin.as_str(), "uv.exe")
    } else {
        path_join(bin.as_str(), "uv")
    }
}

/// Public accessor for `resolve_uv_bin`, used by the browser-mode server.
pub fn resolve_uv_bin_pub(venv_path: &str, windows: bool) -> (r: String)
    ensures
        r@ == uv_bin_spec(venv_path@, windows),
{
    resolve_uv_bin(venv_path, windows)
}

/// The venv's Python executable: `Scripts/python.exe` on Windows,
/// `bin/python` elsewhere.
pub fn resolve_venv_python_bin(venv_path: &str, windows: bool) -> (r: String)
    ensures
        r@ == (if windows {
            joined_path(joined_path(venv_path@, "Scripts"@), "python.exe"@)
        } else {
            joined_path(joined_path(venv_path@, "bin"@), "python"@)
        }),
{
    if windows {
        let s = path_join(venv_path, "Scripts");
        path_join(s.as_str(), "python.exe")
    } else {
        let b = path_join(venv_path, "bin");
        path_join(b.as_str(), "python")
    }
}

/// A dotted Python module name: trimmed, non-empty, made of ASCII letters,
/// digits, `_` and `.`, with no leading, trailing or doubled `.`.
pub open spec fn valid_module_name(module: Seq<char>) -> bool {
    let m = trim(module);
    &&& m.len() > 0
    &&& m[0] != '.'
    &&& m.last() != '.'
    &&& forall|i: int| 0 <= i < m.len() - 1 ==> !(m[i] == '.' && #[trigger] m[i + 1] == '.')
    &&& forall|i: int| 0 <= i < m.len() ==> (is_alnum(#[trigger] m[i]) || m[i] == '_' || m[i] == '.')
}

/// Validate a Python module name for `python -c "import <module>"`.
pub fn is_valid_python_module_name(module: &str) -> (r: bool)
    ensures
        r == valid_module_name(module@),
{
    let raw = chars_of(module);
    let m = trim_chars(&raw);
    let n = m.len();
    if n == 0 || m[0] == '.' || m[n - 1] == '.' {
        return false;
    }
    let mut i: usize = 0;
    while i < n
        invariant
            n == m.len(),
            m@ == trim(module@),
            n > 0,
            i <= n,
            forall|j: int| 0 <= j < i && j < n - 1 ==> !(m@[j] == '.' && #[trigger] m@[j + 1] == '.'),
            forall|j: int| 0 <= j < i ==> (is_alnum(#[trigger] m@[j]) || m@[j] == '_' || m@[j] == '.'),
        decreases n - i,
    {
        let c = m[i];
        if !(crate::text::char_is_alnum(c) || c == '_' || c == '.') {
            return false;
        }
        if i + 1 < n && c == '.' && m[i + 1] == '.' {
            return false;
        }
        i += 1;
    }
    true
}

} // verus!
