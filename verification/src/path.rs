//! Paths as `/`-separated strings: absoluteness, joining, and the expansion
//! of a leading `~` into a home directory.

use crate::text::opt_view;
use vstd::prelude::*;

verus! {

/// A path is absolute when it starts with the root `/`.
pub open spec fn is_absolute(p: Seq<char>) -> bool {
    p.len() > 0 && p[0] == '/'
}

/// `base` extended by `p`: an absolute `p` replaces `base`; otherwise `p` is
/// appended, after a `/` when `base` is neither empty nor already ends with one.
pub open spec fn join(base: Seq<char>, p: Seq<char>) -> Seq<char> {
    if is_absolute(p) {
        p
    } else if base.len() == 0 || base.last() == '/' {
        base + p
    } else {
        base + seq!['/'] + p
    }
}

/// `s` without its leading `/` characters.
pub open spec fn trim_start_slashes(s: Seq<char>) -> Seq<char>
    decreases s.len(),
{
    if s.len() > 0 && s[0] == '/' {
        trim_start_slashes(s.drop_first())
    } else {
        s
    }
}

/// Whether the first component of `p` is `~`.
pub open spec fn starts_with_tilde(p: Seq<char>) -> bool {
    p.len() > 0 && p[0] == '~' && (p.len() == 1 || p[1] == '/')
}

/// `p` with a leading `~` component replaced by the home directory, when one
/// is known; any other path is kept.
pub open spec fn expand_tilde(p: Seq<char>, home: Option<Seq<char>>) -> Seq<char> {
    match home {
        Some(h) if starts_with_tilde(p) => join(h, trim_start_slashes(p.drop_first())),
        _ => p,
    }
}

/// Where a path of a configuration ends up: its tilde expanded, then taken
/// from `base_dir` unless already absolute.
pub open spec fn resolved(p: Seq<char>, base_dir: Seq<char>, home: Option<Seq<char>>) -> Seq<char> {
    let expanded = expand_tilde(p, home);
    if is_absolute(expanded) {
        expanded
    } else {
        join(base_dir, expanded)
    }
}

/// Whether `p` starts with `/`.
pub fn path_is_absolute(p: &str) -> (r: bool)
    ensures
        r == is_absolute(p@),
{
    if p.is_empty() {
        false
    } else {
        p.get_char(0) == '/'
    }
}

/// `base` joined with `p`.
pub fn path_join(base: &str, p: &str) -> (r: String)
    ensures
        r@ == join(base@, p@),
{
    if path_is_absolute(p) {
        return p.to_owned();
    }
    let n = base.unicode_len();
    let mut r = base.to_owned();
    if n > 0 && base.get_char(n - 1) != '/' {
        let sep = "/";
        proof {
            reveal_strlit("/");
        }
        r.append(sep);
    }
    r.append(p);
    r
}

/// `p` with its leading `~` component replaced by `home`, when `home` is given.
pub fn path_expand_tilde(p: &str, home: Option<&str>) -> (r: String)
    ensures
        r@ == expand_tilde(p@, opt_view(home)),
{
    let h = match home {
        Some(h) => h,
        None => {
            return p.to_owned();
        },
    };
    let chars = crate::text::chars_of(p);
    let len = chars.len();
    if len == 0 || chars[0] != '~' || (len > 1 && chars[1] != '/') {
        return p.to_owned();
    }
    let mut k: usize = 1;
    while k < len && chars[k] == '/'
        invariant
            1 <= k <= len,
            len == chars@.len(),
            chars@ == p@,
            trim_start_slashes(p@.drop_first()) == trim_start_slashes(p@.skip(k as int)),
        decreases len - k,
    {
        assert(p@.skip(k as int).drop_first() =~= p@.skip(k + 1));
        k = k + 1;
    }
    assert(p@.drop_first() =~= p@.skip(1));
    let rest = p.substring_char(k, len);
    assert(rest@ =~= p@.skip(k as int));
    path_join(h, rest)
}

/// `p` made absolute: tilde expanded, then taken from `base_dir` unless
/// already absolute.
pub fn path_resolve(p: &str, base_dir: &str, home: Option<&str>) -> (r: String)
    ensures
        r@ == resolved(p@, base_dir@, opt_view(home)),
{
    let expanded = path_expand_tilde(p, home);
    if path_is_absolute(expanded.as_str()) {
        expanded
    } else {
        path_join(base_dir, expanded.as_str())
    }
}

/// Joining onto an absolute base gives an absolute path.
pub proof fn lemma_join_absolute(base: Seq<char>, p: Seq<char>)
    requires
        is_absolute(base),
    ensures
        is_absolute(join(base, p)),
{
    if !is_absolute(p) {
        if base.last() == '/' {
            assert((base + p)[0] == base[0]);
        } else {
            assert((base + seq!['/'] + p)[0] == base[0]);
        }
    }
}

/// A path resolved from an absolute base directory is absolute, and resolving
/// it again changes nothing.
pub proof fn lemma_resolved_is_absolute_and_stable(
    p: Seq<char>,
    base_dir: Seq<char>,
    home: Option<Seq<char>>,
)
    requires
        is_absolute(base_dir),
    ensures
        is_absolute(resolved(p, base_dir, home)),
        resolved(resolved(p, base_dir, home), base_dir, home) == resolved(p, base_dir, home),
{
    lemma_join_absolute(base_dir, expand_tilde(p, home));
}

} // verus!
