//! File-system paths as text, and the user directories that the `dirs`
//! crate reports.
use vstd::prelude::*;
use crate::text::{chars_of, push_char, push_chars, string_of};

verus! {

/// `base` joined with `rest` as `Path::join` does on Unix: an absolute
/// `rest` replaces `base`; otherwise a `/` is put between them unless
/// `base` is empty or already ends with one.
pub open spec fn path_join(base: Seq<char>, rest: Seq<char>) -> Seq<char> {
    if rest.len() > 0 && rest[0] == '/' {
        rest
    } else if base.len() == 0 || base.last() == '/' {
        base + rest
    } else {
        base + seq!['/'] + rest
    }
}

/// `base` joined with `rest` (`Path::join`, Unix).
pub fn join_path(base: &str, rest: &str) -> (res: String)
    ensures
        res@ == path_join(base@, rest@),
{
    let b = chars_of(base);
    let r = chars_of(rest);
    if r.len() > 0 && r[0] == '/' {
        return string_of(&r);
    }
    let mut s = string_of(&b);
    if b.len() > 0 && b[b.len() - 1] != '/' {
        push_char(&mut s, '/');
    }
    push_chars(&mut s, &r);
    s
}

/// The user's home directory (`dirs::home_dir`), as text.
///
/// What it returns depends on the environment (`HOME`, then the password
/// database), so nothing is stated of it.
#[verifier::external_body]
pub(crate) fn home_dir() -> (res: Option<String>) {
    dirs::home_dir().map(|p| p.to_string_lossy().into_owned())
}

/// The user's data directory (`dirs::data_dir`), as text.
///
/// What it returns depends on the environment (`XDG_DATA_HOME`, `HOME`),
/// so nothing is stated of it.
#[verifier::external_body]
pub(crate) fn data_dir() -> (res: Option<String>) {
    dirs::data_dir().map(|p| p.to_string_lossy().into_owned())
}

/// The user's configuration directory (`dirs::config_dir`), as text.
///
/// What it returns depends on the environment (`XDG_CONFIG_HOME`,
/// `HOME`), so nothing is stated of it.
#[verifier::external_body]
pub(crate) fn config_dir() -> (res: Option<String>) {
    dirs::config_dir().map(|p| p.to_string_lossy().into_owned())
}

} // verus!
