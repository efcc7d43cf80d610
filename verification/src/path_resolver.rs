//! Lexical path normalization and resolution of user-typed directories.
//!
//! Paths follow the rules of `std::path` on the platform given by the
//! `windows` argument. On Unix, `/` separates components and a leading `/` is
//! the root. On Windows, both `/` and `\` separate components, a path may
//! begin with a prefix (a drive such as `C:`, or the two backslashes of a
//! network path such as `\\server\share`), and normalized paths are written
//! with `\`. Empty and `.` components vanish and `..` is the parent
//! directory. Nothing here touches the file system.
use vstd::prelude::*;

use crate::error::IpcError;
use crate::settings::{
    after_prefix, char_is_sep, has_drive, has_root, is_absolute_path, is_sep, is_unc,
    path_is_absolute, path_prefix_len, prefix_len,
};
use crate::text::{
    chars_starts_with, contains_char, from_chars, starts_with, to_chars, trim, trim_chars,
    vec_contains_char,
};

verus! {

/// The separator written in normalized paths: `\` on Windows, `/` on Unix.
pub open spec fn sep_char(windows: bool) -> char {
    if windows {
        '\\'
    } else {
        '/'
    }
}

/// The separator-delimited pieces of a path, empty ones included.
pub open spec fn split_seps(s: Seq<char>, windows: bool) -> Seq<Seq<char>>
    decreases s.len(),
{
    if s.len() == 0 {
        seq![Seq::<char>::empty()]
    } else {
        let p = split_seps(s.drop_last(), windows);
        if is_sep(s.last(), windows) {
            p.push(Seq::<char>::empty())
        } else {
            p.update(p.len() - 1, p.last().push(s.last()))
        }
    }
}

/// One piece applied to the stack of kept names: empty pieces and `.` vanish,
/// `..` drops the last kept name if there is one, any other piece is kept.
pub open spec fn norm_step(stack: Seq<Seq<char>>, seg: Seq<char>) -> Seq<Seq<char>> {
    if seg.len() == 0 || seg == seq!['.'] {
        stack
    } else if seg == seq!['.', '.'] {
        if stack.len() > 0 {
            stack.drop_last()
        } else {
            stack
        }
    } else {
        stack.push(seg)
    }
}

pub open spec fn norm_segments(segs: Seq<Seq<char>>) -> Seq<Seq<char>>
    decreases segs.len(),
{
    if segs.len() == 0 {
        Seq::empty()
    } else {
        norm_step(norm_segments(segs.drop_last()), segs.last())
    }
}

/// The prefix of a path, as written.
pub open spec fn path_prefix(s: Seq<char>, windows: bool) -> Seq<char> {
    s.subrange(0, prefix_len(s, windows))
}

/// The names that lexical normalization keeps, in order.
pub open spec fn normal_names(s: Seq<char>, windows: bool) -> Seq<Seq<char>> {
    norm_segments(split_seps(after_prefix(s, windows), windows))
}

/// Names joined with a separator.
pub open spec fn join_names(names: Seq<Seq<char>>, sep: char) -> Seq<char>
    decreases names.len(),
{
    if names.len() == 0 {
        Seq::empty()
    } else if names.len() == 1 {
        names[0]
    } else {
        join_names(names.drop_last(), sep) + seq![sep] + names.last()
    }
}

/// The part of a path after its prefix, written from a root flag and names.
pub open spec fn render_rest(root: bool, names: Seq<Seq<char>>, windows: bool) -> Seq<char> {
    (if root {
        seq![sep_char(windows)]
    } else {
        Seq::empty()
    }) + join_names(names, sep_char(windows))
}

/// A path written from a prefix, a root flag and names.
pub open spec fn render_path(prefix: Seq<char>, root: bool, names: Seq<Seq<char>>, windows: bool) -> Seq<char> {
    prefix + render_rest(root, names, windows)
}

/// `normalize_lexical`: the prefix and root kept, `.` removed and `..`
/// resolved against the names before it.
pub open spec fn normalize_spec(s: Seq<char>, windows: bool) -> Seq<char> {
    render_path(path_prefix(s, windows), has_root(s, windows), normal_names(s, windows), windows)
}

/// One component of a path, as `Path::components` yields it after normalization.
pub enum PathPart {
    Prefix(Seq<char>),
    Root,
    Name(Seq<char>),
}

pub open spec fn prefix_parts(prefix: Seq<char>) -> Seq<PathPart> {
    if prefix.len() > 0 {
        seq![PathPart::Prefix(prefix)]
    } else {
        Seq::empty()
    }
}

pub open spec fn rest_parts(root: bool, names: Seq<Seq<char>>) -> Seq<PathPart> {
    (if root {
        seq![PathPart::Root]
    } else {
        Seq::empty()
    }) + names.map_values(|n: Seq<char>| PathPart::Name(n))
}

pub open spec fn path_parts(prefix: Seq<char>, root: bool, names: Seq<Seq<char>>) -> Seq<PathPart> {
    prefix_parts(prefix) + rest_parts(root, names)
}

/// The components of a path after normalization; prefixes are compared as
/// written.
pub open spec fn normal_parts(s: Seq<char>, windows: bool) -> Seq<PathPart> {
    path_parts(path_prefix(s, windows), has_root(s, windows), normal_names(s, windows))
}

/// `Path::starts_with` on two normalized paths: the components of `base`
/// begin those of `path`.
pub open spec fn normalized_starts_with(path: Seq<char>, base: Seq<char>, windows: bool) -> bool {
    let p = normal_parts(path, windows);
    let b = normal_parts(base, windows);
    b.len() <= p.len() && p.subrange(0, b.len() as int) == b
}

/// `Path::join`: an absolute path, or one with a prefix, replaces the base; a
/// path with a root keeps only the base's prefix; otherwise a separator is
/// added when the base is non-empty and does not end with one.
pub open spec fn join_spec(base: Seq<char>, rest: Seq<char>, windows: bool) -> Seq<char> {
    if is_absolute_path(rest, windows) || prefix_len(rest, windows) > 0 {
        rest
    } else if has_root(rest, windows) {
        path_prefix(base, windows) + rest
    } else if base.len() == 0 || is_sep(base.last(), windows) {
        base + rest
    } else {
        base + seq![sep_char(windows)] + rest
    }
}

pub open spec fn names_view(v: Seq<Vec<char>>) -> Seq<Seq<char>> {
    v.map_values(|x: Vec<char>| x@)
}

proof fn lemma_split_nonempty(s: Seq<char>, windows: bool)
    ensures
        split_seps(s, windows).len() >= 1,
    decreases s.len(),
{
    if s.len() > 0 {
        lemma_split_nonempty(s.drop_last(), windows);
    }
}

fn is_dot(seg: &[char]) -> (b: bool)
    ensures
        b == (seg@ == seq!['.']),
{
    let r = seg.len() == 1 && seg[0] == '.';
    proof {
        if seg@.len() == 1 && seg@[0] == '.' {
            assert(seg@ =~= seq!['.']);
        }
    }
    r
}

fn is_dot_dot(seg: &[char]) -> (b: bool)
    ensures
        b == (seg@ == seq!['.', '.']),
{
    let r = seg.len() == 2 && seg[0] == '.' && seg[1] == '.';
    proof {
        if seg@.len() == 2 && seg@[0] == '.' && seg@[1] == '.' {
            assert(seg@ =~= seq!['.', '.']);
        }
    }
    r
}

fn apply_step(stack: &mut Vec<Vec<char>>, seg: Vec<char>)
    ensures
        names_view(final(stack)@) == norm_step(names_view(old(stack)@), seg@),
{
    let ghost old_names = names_view(stack@);
    if seg.len() == 0 || is_dot(&seg) {
    } else if is_dot_dot(&seg) {
        if stack.len() > 0 {
            stack.pop();
            assert(names_view(stack@) =~= old_names.drop_last());
        }
    } else {
        stack.push(seg);
        assert(names_view(stack@) =~= old_names.push(seg@));
    }
}

/// The root flag and kept names of the part of a path after its prefix.
fn normalize_rest(s: &[char], windows: bool) -> (r: (bool, Vec<Vec<char>>))
    ensures
        r.0 == (s@.len() > 0 && is_sep(s@[0], windows)),
        names_view(r.1@) == norm_segments(split_seps(s@, windows)),
{
    let mut stack: Vec<Vec<char>> = Vec::new();
    let mut cur: Vec<char> = Vec::new();
    let mut i: usize = 0;
    proof {
        assert(s@.subrange(0, 0) =~= Seq::<char>::empty());
        assert(names_view(stack@) =~= Seq::<Seq<char>>::empty());
        assert(split_seps(Seq::<char>::empty(), windows).drop_last() =~= Seq::<Seq<char>>::empty());
    }
    while i < s.len()
        invariant
            i <= s@.len(),
            split_seps(s@.subrange(0, i as int), windows).len() >= 1,
            cur@ == split_seps(s@.subrange(0, i as int), windows).last(),
            names_view(stack@) == norm_segments(
                split_seps(s@.subrange(0, i as int), windows).drop_last(),
            ),
        decreases s@.len() - i,
    {
        let c = s[i];
        let ghost prefix = s@.subrange(0, i as int);
        let ghost sp = split_seps(prefix, windows);
        proof {
            assert(s@.subrange(0, i + 1).drop_last() == prefix);
            lemma_split_nonempty(prefix, windows);
        }
        if char_is_sep(c, windows) {
            let seg = cur;
            cur = Vec::new();
            apply_step(&mut stack, seg);
            proof {
                let sp2 = split_seps(s@.subrange(0, i + 1), windows);
                assert(sp2 == sp.push(Seq::<char>::empty()));
                assert(sp2.drop_last() == sp);
                assert(sp == sp.drop_last().push(sp.last()));
                assert(cur@ =~= sp2.last());
            }
        } else {
            cur.push(c);
            proof {
                let sp2 = split_seps(s@.subrange(0, i + 1), windows);
                assert(sp2 == sp.update(sp.len() - 1, sp.last().push(c)));
                assert(sp2.drop_last() =~= sp.drop_last());
            }
        }
        i = i + 1;
    }
    proof {
        assert(s@.subrange(0, s@.len() as int) == s@);
        let sp = split_seps(s@, windows);
        assert(sp == sp.drop_last().push(sp.last()));
    }
    apply_step(&mut stack, cur);
    let root = s.len() > 0 && char_is_sep(s[0], windows);
    (root, stack)
}

/// The prefix length, root flag and kept names of a path.
fn normalize_parts(s: &[char], windows: bool) -> (r: (usize, bool, Vec<Vec<char>>))
    ensures
        r.0 == prefix_len(s@, windows),
        r.0 <= s@.len(),
        r.1 == has_root(s@, windows),
        names_view(r.2@) == normal_names(s@, windows),
{
    let n = path_prefix_len(s, windows);
    let rest = crate::text::slice_chars(s, n, s.len());
    let (root, names) = normalize_rest(&rest, windows);
    (n, root, names)
}

/// Writes a path from a prefix, a root flag and names.
fn render(prefix: &[char], root: bool, names: &Vec<Vec<char>>, windows: bool) -> (r: Vec<char>)
    ensures
        r@ == render_path(prefix@, root, names_view(names@), windows),
{
    let sep = if windows {
        '\\'
    } else {
        '/'
    };
    let mut out: Vec<char> = Vec::new();
    let mut j: usize = 0;
    while j < prefix.len()
        invariant
            j <= prefix@.len(),
            out@ == prefix@.subrange(0, j as int),
        decreases prefix@.len() - j,
    {
        out.push(prefix[j]);
        j = j + 1;
    }
    assert(prefix@.subrange(0, prefix@.len() as int) == prefix@);
    if root {
        out.push(sep);
    }
    let ghost start = out@;
    assert(start == prefix@ + (if root {
        seq![sep_char(windows)]
    } else {
        Seq::<char>::empty()
    }));
    let mut k: usize = 0;
    while k < names.len()
        invariant
            k <= names@.len(),
            sep == sep_char(windows),
            out@ == start + join_names(names_view(names@).subrange(0, k as int), sep_char(windows)),
        decreases names@.len() - k,
    {
        if k > 0 {
            out.push(sep);
        }
        let part = &names[k];
        let mut j: usize = 0;
        let ghost mid = out@;
        while j < part.len()
            invariant
                j <= part@.len(),
                out@ == mid + part@.subrange(0, j as int),
            decreases part@.len() - j,
        {
            out.push(part[j]);
            j = j + 1;
        }
        proof {
            assert(part@.subrange(0, part@.len() as int) == part@);
            let nv = names_view(names@);
            let pre = nv.subrange(0, k as int);
            let pre1 = nv.subrange(0, k + 1);
            assert(pre1.drop_last() == pre);
            assert(pre1.last() == part@);
            if k == 0 {
                assert(pre1.len() == 1);
                assert(out@ =~= start + join_names(pre1, sep_char(windows)));
            } else {
                assert(out@ =~= start + join_names(pre1, sep_char(windows)));
            }
        }
        k = k + 1;
    }
    assert(names_view(names@).subrange(0, names@.len() as int) == names_view(names@));
    assert(out@ =~= render_path(prefix@, root, names_view(names@), windows));
    out
}

/// Lexically normalizes a path by removing `.` components and resolving `..`
/// against the preceding names; a `..` with no name before it is dropped. The
/// prefix and root are kept; on Windows the result is written with `\`.
pub fn normalize_lexical(path: &str, windows: bool) -> (r: String)
    ensures
        r@ == normalize_spec(path@, windows),
{
    let chars = to_chars(path);
    let (n, root, names) = normalize_parts(&chars, windows);
    let prefix = crate::text::slice_chars(&chars, 0, n);
    let out = render(&prefix, root, &names, windows);
    from_chars(&out)
}

/// Whether the names in `base` begin those in `path`.
fn names_prefix(path: &Vec<Vec<char>>, base: &Vec<Vec<char>>) -> (b: bool)
    ensures
        b == (base@.len() <= path@.len() && names_view(path@).subrange(0, base@.len() as int)
            == names_view(base@)),
{
    if base.len() > path.len() {
        return false;
    }
    let mut k: usize = 0;
    while k < base.len()
        invariant
            base@.len() <= path@.len(),
            k <= base@.len(),
            forall|j: int| 0 <= j < k ==> path@[j]@ == base@[j]@,
        decreases base@.len() - k,
    {
        if !names_eq(&path[k], &base[k]) {
            assert(names_view(path@).subrange(0, base@.len() as int)[k as int] != names_view(
                base@,
            )[k as int]);
            return false;
        }
        k = k + 1;
    }
    assert(names_view(path@).subrange(0, base@.len() as int) =~= names_view(base@));
    true
}

fn names_eq(a: &Vec<char>, b: &Vec<char>) -> (r: bool)
    ensures
        r == (a@ == b@),
{
    if a.len() != b.len() {
        return false;
    }
    let mut i: usize = 0;
    while i < a.len()
        invariant
            a@.len() == b@.len(),
            i <= a@.len(),
            forall|j: int| 0 <= j < i ==> a@[j] == b@[j],
        decreases a@.len() - i,
    {
        if a[i] != b[i] {
            return false;
        }
        i = i + 1;
    }
    assert(a@ =~= b@);
    true
}

proof fn lemma_rest_parts_prefix(pr: bool, pn: Seq<Seq<char>>, br: bool, bn: Seq<Seq<char>>)
    ensures
        ({
            let p = rest_parts(pr, pn);
            let b = rest_parts(br, bn);
            b.len() <= p.len() && p.subrange(0, b.len() as int) == b
        }) <==> ((pr == br || (!br && bn.len() == 0)) && bn.len() <= pn.len() && pn.subrange(
            0,
            bn.len() as int,
        ) == bn),
{
    let p = rest_parts(pr, pn);
    let b = rest_parts(br, bn);
    let f = |n: Seq<char>| PathPart::Name(n);
    if b.len() <= p.len() && p.subrange(0, b.len() as int) == b {
        if br {
            assert(b[0] == PathPart::Root);
            assert(p[0] == PathPart::Root);
            if !pr {
                assert(p[0] == f(pn[0]));
            }
        } else if bn.len() > 0 {
            assert(b[0] == f(bn[0]));
            if pr {
                assert(p[0] == PathPart::Root);
            }
        }
        let off: int = if br {
            1
        } else {
            0
        };
        assert forall|j: int| 0 <= j < bn.len() implies pn[j] == bn[j] by {
            assert(p[off + j] == b[off + j]);
            assert(b[off + j] == f(bn[j]));
            assert(p[off + j] == f(pn[j]));
        }
        assert(pn.subrange(0, bn.len() as int) =~= bn);
    }
    if (pr == br || (!br && bn.len() == 0)) && bn.len() <= pn.len() && pn.subrange(
        0,
        bn.len() as int,
    ) == bn {
        if !br && bn.len() == 0 {
            assert(b =~= Seq::<PathPart>::empty());
            assert(p.subrange(0, 0) =~= b);
        } else {
            let off: int = if br {
                1
            } else {
                0
            };
            assert forall|j: int| 0 <= j < b.len() implies p[j] == b[j] by {
                if j >= off {
                    assert(pn[j - off] == bn[j - off]);
                }
            }
            assert(p.subrange(0, b.len() as int) =~= b);
        }
    }
}

proof fn lemma_parts_prefix(
    pp: Seq<char>,
    pr: bool,
    pn: Seq<Seq<char>>,
    bp: Seq<char>,
    br: bool,
    bn: Seq<Seq<char>>,
)
    ensures
        ({
            let p = path_parts(pp, pr, pn);
            let b = path_parts(bp, br, bn);
            b.len() <= p.len() && p.subrange(0, b.len() as int) == b
        }) <==> ((bp.len() == 0 && !br && bn.len() == 0) || (pp == bp && (pr == br || (!br
            && bn.len() == 0)) && bn.len() <= pn.len() && pn.subrange(0, bn.len() as int) == bn)),
{
    let p = path_parts(pp, pr, pn);
    let b = path_parts(bp, br, bn);
    let rp = rest_parts(pr, pn);
    let rb = rest_parts(br, bn);
    lemma_rest_parts_prefix(pr, pn, br, bn);
    let f = |n: Seq<char>| PathPart::Name(n);
    if bp.len() == 0 && !br && bn.len() == 0 {
        assert(b =~= Seq::<PathPart>::empty());
        assert(p.subrange(0, 0) =~= b);
    } else if b.len() <= p.len() && p.subrange(0, b.len() as int) == b {
        assert(b.len() > 0);
        assert(p[0] == b[0]);
        if bp.len() > 0 {
            assert(b[0] == PathPart::Prefix(bp));
            if pp.len() == 0 {
                if pr {
                    assert(p[0] == PathPart::Root);
                } else {
                    assert(p[0] == f(pn[0]));
                }
            }
            assert(pp == bp);
        } else {
            if pp.len() > 0 {
                assert(p[0] == PathPart::Prefix(pp));
                if br {
                    assert(b[0] == PathPart::Root);
                } else {
                    assert(b[0] == f(bn[0]));
                }
            }
            assert(pp =~= bp);
        }
        let o = prefix_parts(pp).len() as int;
        assert(prefix_parts(bp).len() == o);
        assert(b == prefix_parts(bp) + rb);
        assert(p == prefix_parts(pp) + rp);
        assert(rb.len() <= rp.len());
        assert forall|j: int| 0 <= j < rb.len() implies rp[j] == rb[j] by {
            assert(p[o + j] == b[o + j]);
        }
        assert(rp.subrange(0, rb.len() as int) =~= rb);
    } else if pp == bp && (pr == br || (!br && bn.len() == 0)) && bn.len() <= pn.len()
        && pn.subrange(0, bn.len() as int) == bn {
        let o = prefix_parts(pp).len() as int;
        assert forall|j: int| 0 <= j < b.len() implies p[j] == b[j] by {
            if j >= o {
                assert(rp[j - o] == rb[j - o]);
            }
        }
        assert(p.subrange(0, b.len() as int) =~= b);
    }
}

/// A tilde form: `~` alone, or `~/` or `~\` before a path.
pub open spec fn is_tilde_form(t: Seq<char>) -> bool {
    t == seq!['~'] || starts_with(t, seq!['~', '/']) || starts_with(t, seq!['~', '\\'])
}

/// The path a trimmed directory stands for: the home directory for `~`, the
/// home directory joined with the rest for `~/…` or `~\…`, else itself.
pub open spec fn resolve_target(t: Seq<char>, home: Seq<char>, windows: bool) -> Seq<char> {
    if t == seq!['~'] {
        home
    } else if is_tilde_form(t) {
        join_spec(home, t.subrange(2, t.len() as int), windows)
    } else {
        t
    }
}

/// What resolving a user-typed directory gives: the normalized absolute path,
/// or the text of the `INVALID_DIRECTORY` error.
pub open spec fn resolve_spec(raw: Seq<char>, home: Seq<char>, windows: bool) -> Result<Seq<char>, Seq<char>> {
    let t = trim(raw);
    if t.len() == 0 {
        Err("Download directory cannot be empty."@)
    } else if contains_char(t, '\0') {
        Err("Download directory path contains null byte."@)
    } else {
        let tilde = is_tilde_form(t);
        if !tilde && contains_char(t, '~') {
            Err("Tilde is only allowed at the beginning as ~ or ~/."@)
        } else if !tilde && !is_absolute_path(t, windows) {
            Err("Relative directory path is not allowed. Please provide an absolute path or ~."@)
        } else {
            let combined = resolve_target(t, home, windows);
            if tilde && !normalized_starts_with(combined, home, windows) {
                Err("Path escapes user home directory."@)
            } else {
                Ok(normalize_spec(combined, windows))
            }
        }
    }
}

fn invalid_directory(message: &str) -> (e: IpcError)
    ensures
        e.code@ == "INVALID_DIRECTORY"@,
        e.message@ == message@,
        !e.retryable,
        e.details is None,
{
    IpcError::new(String::from_str("INVALID_DIRECTORY"), String::from_str(message))
}

fn push_all(out: &mut Vec<char>, v: &[char])
    ensures
        final(out)@ == old(out)@ + v@,
{
    let ghost start = out@;
    let mut j: usize = 0;
    while j < v.len()
        invariant
            j <= v@.len(),
            out@ == start + v@.subrange(0, j as int),
        decreases v@.len() - j,
    {
        out.push(v[j]);
        j = j + 1;
    }
    assert(v@.subrange(0, v@.len() as int) == v@);
}

/// The joined path, as `Path::join` writes it.
fn join_path(base: &[char], rest: &[char], windows: bool) -> (r: Vec<char>)
    ensures
        r@ == join_spec(base@, rest@, windows),
{
    let mut out: Vec<char> = Vec::new();
    assert(out@ + rest@ =~= rest@);
    if path_is_absolute(rest, windows) || path_prefix_len(rest, windows) > 0 {
        push_all(&mut out, rest);
        return out;
    }
    assert(after_prefix(rest@, windows) =~= rest@);
    if rest.len() > 0 && char_is_sep(rest[0], windows) {
        let n = path_prefix_len(base, windows);
        let p = crate::text::slice_chars(base, 0, n);
        push_all(&mut out, &p);
        push_all(&mut out, rest);
        assert(out@ =~= p@ + rest@);
        return out;
    }
    push_all(&mut out, base);
    if base.len() > 0 && !char_is_sep(base[base.len() - 1], windows) {
        if windows {
            out.push('\\');
        } else {
            out.push('/');
        }
    }
    push_all(&mut out, rest);
    out
}

/// Resolves a user-typed directory to a validated absolute path; `windows`
/// chooses the Windows path rules, else the Unix ones.
///
/// Outer whitespace is trimmed. Empty input, a null byte, a tilde anywhere but
/// as a leading `~`, `~/` or `~\`, and relative paths are refused. A leading
/// tilde stands for `home_dir`, and the result of a tilde path may not leave
/// it. The result is lexically normalized.
pub fn resolve_user_directory(raw: &str, home_dir: &str, windows: bool) -> (r: Result<String, IpcError>)
    ensures
        match (r, resolve_spec(raw@, home_dir@, windows)) {
            (Ok(p), Ok(q)) => p@ == q,
            (Err(e), Err(m)) => e.code@ == "INVALID_DIRECTORY"@ && e.message@ == m && !e.retryable
                && e.details is None,
            _ => false,
        },
{
    let raw_chars = to_chars(raw);
    let t = trim_chars(&raw_chars);
    if t.len() == 0 {
        return Err(invalid_directory("Download directory cannot be empty."));
    }
    if vec_contains_char(&t, '\0') {
        return Err(invalid_directory("Download directory path contains null byte."));
    }
    let home = to_chars(home_dir);
    let only_tilde = t.len() == 1 && t[0] == '~';
    proof {
        if t@.len() == 1 && t@[0] == '~' {
            assert(t@ =~= seq!['~']);
        }
    }
    let mut p1: Vec<char> = Vec::new();
    p1.push('~');
    p1.push('/');
    let mut p2: Vec<char> = Vec::new();
    p2.push('~');
    p2.push('\\');
    assert(p1@ =~= seq!['~', '/']);
    assert(p2@ =~= seq!['~', '\\']);
    let slash_form = chars_starts_with(&t, &p1);
    let back_form = chars_starts_with(&t, &p2);
    let tilde = only_tilde || slash_form || back_form;
    let combined: Vec<char> = if only_tilde {
        crate::text::slice_chars(&home, 0, home.len())
    } else if tilde {
        let rest = crate::text::slice_chars(&t, 2, t.len());
        join_path(&home, &rest, windows)
    } else if vec_contains_char(&t, '~') {
        return Err(invalid_directory("Tilde is only allowed at the beginning as ~ or ~/."));
    } else if !path_is_absolute(&t, windows) {
        return Err(
            invalid_directory(
                "Relative directory path is not allowed. Please provide an absolute path or ~.",
            ),
        );
    } else {
        crate::text::slice_chars(&t, 0, t.len())
    };
    proof {
        assert(home@.subrange(0, home@.len() as int) == home@);
        assert(t@.subrange(0, t@.len() as int) == t@);
        assert(combined@ == resolve_target(t@, home@, windows));
    }
    let (n, root, names) = normalize_parts(&combined, windows);
    let prefix = crate::text::slice_chars(&combined, 0, n);
    if tilde {
        let (hn, home_root, home_names) = normalize_parts(&home, windows);
        let home_prefix = crate::text::slice_chars(&home, 0, hn);
        let empty_base = hn == 0 && !home_root && home_names.len() == 0;
        let head_ok = names_eq(&prefix, &home_prefix) && (root == home_root || (!home_root
            && home_names.len() == 0));
        let inside = empty_base || (head_ok && names_prefix(&names, &home_names));
        proof {
            lemma_parts_prefix(
                prefix@,
                root,
                names_view(names@),
                home_prefix@,
                home_root,
                names_view(home_names@),
            );
        }
        if !inside {
            return Err(invalid_directory("Path escapes user home directory."));
        }
    }
    let out = render(&prefix, root, &names, windows);
    Ok(from_chars(&out))
}

/// A piece free of separators.
pub open spec fn no_sep(n: Seq<char>, windows: bool) -> bool {
    forall|i: int| 0 <= i < n.len() ==> !is_sep(#[trigger] n[i], windows)
}

/// A name that normalization keeps: non-empty, neither `.` nor `..`, and
/// free of separators.
pub open spec fn is_clean_name(n: Seq<char>, windows: bool) -> bool {
    &&& n.len() > 0
    &&& n != seq!['.']
    &&& n != seq!['.', '.']
    &&& no_sep(n, windows)
}

pub open spec fn all_clean(names: Seq<Seq<char>>, windows: bool) -> bool {
    forall|k: int| 0 <= k < names.len() ==> is_clean_name(#[trigger] names[k], windows)
}

proof fn lemma_split_concat(a: Seq<char>, b: Seq<char>, windows: bool)
    ensures
        split_seps(a + seq![sep_char(windows)] + b, windows) == split_seps(a, windows) + split_seps(
            b,
            windows,
        ),
    decreases b.len(),
{
    let s = a + seq![sep_char(windows)] + b;
    if b.len() == 0 {
        assert(s.drop_last() =~= a);
        assert(split_seps(b, windows) =~= seq![Seq::<char>::empty()]);
        assert(split_seps(s, windows) =~= split_seps(a, windows) + split_seps(b, windows));
    } else {
        lemma_split_concat(a, b.drop_last(), windows);
        assert(s.drop_last() =~= a + seq![sep_char(windows)] + b.drop_last());
        let x = split_seps(a, windows);
        let p = split_seps(b.drop_last(), windows);
        lemma_split_nonempty(b.drop_last(), windows);
        if is_sep(b.last(), windows) {
            assert(split_seps(s, windows) =~= x + p.push(Seq::<char>::empty()));
        } else {
            let q = p.update(p.len() - 1, p.last().push(b.last()));
            assert((x + p).update((x + p).len() - 1, (x + p).last().push(b.last())) =~= x + q);
        }
    }
}

proof fn lemma_split_plain(n: Seq<char>, windows: bool)
    requires
        no_sep(n, windows),
    ensures
        split_seps(n, windows) == seq![n],
    decreases n.len(),
{
    if n.len() > 0 {
        assert(no_sep(n.drop_last(), windows)) by {
            assert forall|i: int| 0 <= i < n.drop_last().len() implies !is_sep(
                #[trigger] n.drop_last()[i],
                windows,
            ) by {
                assert(n.drop_last()[i] == n[i]);
            }
        }
        lemma_split_plain(n.drop_last(), windows);
        assert(!is_sep(n[n.len() - 1], windows));
        assert(n.drop_last().push(n.last()) =~= n);
        assert(split_seps(n, windows) =~= seq![n]);
    } else {
        assert(n =~= Seq::<char>::empty());
    }
}

proof fn lemma_norm_empties()
    ensures
        norm_segments(seq![Seq::<char>::empty()]) == Seq::<Seq<char>>::empty(),
        norm_segments(seq![Seq::<char>::empty(), Seq::<char>::empty()]) == Seq::<Seq<char>>::empty(),
{
    let e = Seq::<char>::empty();
    let one = seq![e];
    let two = seq![e, e];
    assert(one.drop_last() =~= Seq::<Seq<char>>::empty());
    assert(norm_segments(one.drop_last()) == Seq::<Seq<char>>::empty());
    assert(norm_segments(one) == Seq::<Seq<char>>::empty());
    assert(two.drop_last() =~= one);
    assert(two.last() == e);
}

proof fn lemma_split_join(names: Seq<Seq<char>>, windows: bool)
    requires
        names.len() > 0,
        all_clean(names, windows),
    ensures
        split_seps(join_names(names, sep_char(windows)), windows) == names,
        join_names(names, sep_char(windows)).len() > 0,
        join_names(names, sep_char(windows))[0] == names[0][0],
    decreases names.len(),
{
    assert(is_clean_name(names[0], windows));
    if names.len() == 1 {
        lemma_split_plain(names[0], windows);
        assert(names =~= seq![names[0]]);
    } else {
        let d = names.drop_last();
        assert(all_clean(d, windows)) by {
            assert forall|k: int| 0 <= k < d.len() implies is_clean_name(#[trigger] d[k], windows) by {
                assert(d[k] == names[k]);
            }
        }
        lemma_split_join(d, windows);
        assert(is_clean_name(names[names.len() - 1], windows));
        lemma_split_plain(names.last(), windows);
        lemma_split_concat(join_names(d, sep_char(windows)), names.last(), windows);
        assert(d + seq![names.last()] =~= names);
        let j = join_names(names, sep_char(windows));
        assert(j == join_names(d, sep_char(windows)) + seq![sep_char(windows)] + names.last());
        assert(j[0] == join_names(d, sep_char(windows))[0]);
    }
}

proof fn lemma_norm_clean_suffix(e: Seq<Seq<char>>, names: Seq<Seq<char>>, windows: bool)
    requires
        all_clean(names, windows),
    ensures
        norm_segments(e + names) == norm_segments(e) + names,
    decreases names.len(),
{
    if names.len() == 0 {
        assert(e + names =~= e);
        assert(norm_segments(e) + names =~= norm_segments(e));
    } else {
        let d = names.drop_last();
        assert(all_clean(d, windows)) by {
            assert forall|k: int| 0 <= k < d.len() implies is_clean_name(#[trigger] d[k], windows) by {
                assert(d[k] == names[k]);
            }
        }
        lemma_norm_clean_suffix(e, d, windows);
        assert((e + names).drop_last() =~= e + d);
        assert((e + names).last() == names.last());
        assert(is_clean_name(names[names.len() - 1], windows));
        assert(norm_segments(e) + d.push(names.last()) =~= norm_segments(e) + names);
    }
}

proof fn lemma_split_pieces_plain(s: Seq<char>, windows: bool)
    ensures
        forall|k: int|
            0 <= k < split_seps(s, windows).len() ==> no_sep(#[trigger] split_seps(s, windows)[k], windows),
    decreases s.len(),
{
    if s.len() > 0 {
        lemma_split_pieces_plain(s.drop_last(), windows);
        lemma_split_nonempty(s.drop_last(), windows);
        let p = split_seps(s.drop_last(), windows);
        if !is_sep(s.last(), windows) {
            let last = p.last().push(s.last());
            assert(no_sep(last, windows)) by {
                assert forall|i: int| 0 <= i < last.len() implies !is_sep(#[trigger] last[i], windows) by {
                    if i < p.last().len() {
                        assert(last[i] == p[p.len() - 1][i]);
                    }
                }
            }
            assert forall|k: int| 0 <= k < split_seps(s, windows).len() implies no_sep(
                #[trigger] split_seps(s, windows)[k],
                windows,
            ) by {
                if k < p.len() - 1 {
                    assert(split_seps(s, windows)[k] == p[k]);
                }
            }
        } else {
            assert forall|k: int| 0 <= k < split_seps(s, windows).len() implies no_sep(
                #[trigger] split_seps(s, windows)[k],
                windows,
            ) by {
                if k < p.len() {
                    assert(split_seps(s, windows)[k] == p[k]);
                } else {
                    assert(split_seps(s, windows)[k] == Seq::<char>::empty());
                }
            }
        }
    }
}

proof fn lemma_norm_segments_clean(segs: Seq<Seq<char>>, windows: bool)
    requires
        forall|k: int| 0 <= k < segs.len() ==> no_sep(#[trigger] segs[k], windows),
    ensures
        all_clean(norm_segments(segs), windows),
    decreases segs.len(),
{
    if segs.len() > 0 {
        let d = segs.drop_last();
        assert forall|k: int| 0 <= k < d.len() implies no_sep(#[trigger] d[k], windows) by {
            assert(d[k] == segs[k]);
        }
        lemma_norm_segments_clean(d, windows);
        let st = norm_segments(d);
        assert(no_sep(segs[segs.len() - 1], windows));
        let r = norm_segments(segs);
        assert forall|k: int| 0 <= k < r.len() implies is_clean_name(#[trigger] r[k], windows) by {
            if k < st.len() {
                assert(r[k] == st[k]);
            }
        }
    }
}

/// The names that normalization keeps are clean.
proof fn lemma_normal_names_clean(s: Seq<char>, windows: bool)
    ensures
        all_clean(normal_names(s, windows), windows),
{
    lemma_split_pieces_plain(after_prefix(s, windows), windows);
    lemma_norm_segments_clean(split_seps(after_prefix(s, windows), windows), windows);
}

/// The part after a prefix written from a root flag and clean names reads
/// back as the same root flag and names.
proof fn lemma_rest_reads_back(root: bool, names: Seq<Seq<char>>, windows: bool)
    requires
        all_clean(names, windows),
    ensures
        ({
            let r = render_rest(root, names, windows);
            &&& (r.len() > 0 && is_sep(r[0], windows)) == root
            &&& norm_segments(split_seps(r, windows)) == names
            &&& !root && r.len() > 0 ==> r[0] == names[0][0]
        }),
{
    let r = render_rest(root, names, windows);
    let empty = Seq::<char>::empty();
    let sep = sep_char(windows);
    lemma_norm_empties();
    if names.len() == 0 {
        assert(join_names(names, sep) == empty);
        if root {
            assert(r =~= empty + seq![sep] + empty);
            lemma_split_concat(empty, empty, windows);
            assert(split_seps(empty, windows) =~= seq![empty]);
            assert(split_seps(r, windows) =~= seq![empty, empty]);
        } else {
            assert(r =~= empty);
            assert(split_seps(r, windows) =~= seq![empty]);
        }
        assert(norm_segments(split_seps(r, windows)) =~= names);
    } else {
        lemma_split_join(names, windows);
        let j = join_names(names, sep);
        assert(is_clean_name(names[0], windows));
        assert(!is_sep(names[0][0], windows));
        if root {
            assert(r =~= empty + seq![sep] + j);
            lemma_split_concat(empty, j, windows);
            assert(split_seps(empty, windows) =~= seq![empty]);
            lemma_norm_clean_suffix(seq![empty], names, windows);
            assert(Seq::<Seq<char>>::empty() + names =~= names);
        } else {
            assert(r =~= j);
            lemma_norm_clean_suffix(Seq::<Seq<char>>::empty(), names, windows);
            assert(Seq::<Seq<char>>::empty() + names =~= names);
        }
    }
}

/// Normalization reads back its own prefix: on Windows a normalized relative
/// path may begin with a name such as `C:x` that reads as a drive; on Unix it
/// always does.
pub open spec fn reads_back(s: Seq<char>, windows: bool) -> bool {
    prefix_len(normalize_spec(s, windows), windows) == prefix_len(s, windows)
}

/// Normalization is idempotent: a normalized path is its own normal form,
/// with the same prefix, root and names; on Windows, unless the normalized
/// path reads as having another prefix (as `./C:x` normalizes to `C:x`).
pub proof fn law_normalize_idempotent(s: Seq<char>, windows: bool)
    requires
        !windows || reads_back(s, windows),
    ensures
        normalize_spec(normalize_spec(s, windows), windows) == normalize_spec(s, windows),
        path_prefix(normalize_spec(s, windows), windows) == path_prefix(s, windows),
        has_root(normalize_spec(s, windows), windows) == has_root(s, windows),
        normal_names(normalize_spec(s, windows), windows) == normal_names(s, windows),
{
    let p = path_prefix(s, windows);
    let root = has_root(s, windows);
    let names = normal_names(s, windows);
    let n = normalize_spec(s, windows);
    let r0 = render_rest(root, names, windows);
    lemma_normal_names_clean(s, windows);
    lemma_rest_reads_back(root, names, windows);
    assert(p.len() == prefix_len(s, windows));
    assert(n == p + r0);
    assert(prefix_len(n, windows) == p.len());
    assert(path_prefix(n, windows) =~= p);
    assert(after_prefix(n, windows) =~= r0);
}

/// A normalized path holds no `.` or `..` component: the names it keeps are
/// clean, and so are the names of the normalized path itself.
pub proof fn law_normalized_has_no_dot_components(s: Seq<char>, windows: bool)
    ensures
        all_clean(normal_names(s, windows), windows),
        all_clean(normal_names(normalize_spec(s, windows), windows), windows),
{
    lemma_normal_names_clean(s, windows);
    lemma_normal_names_clean(normalize_spec(s, windows), windows);
}

/// A directory given from the home directory (`~`, `~/…` or `~\…`) never
/// resolves outside the home directory: the resolved path starts with the
/// normalized home (on Windows, when the path it stands for reads back its
/// prefix).
pub proof fn law_tilde_stays_in_home(raw: Seq<char>, home: Seq<char>, windows: bool)
    requires
        is_tilde_form(trim(raw)),
        resolve_spec(raw, home, windows) is Ok,
        !windows || reads_back(resolve_target(trim(raw), home, windows), windows),
    ensures
        normalized_starts_with(resolve_spec(raw, home, windows)->Ok_0, home, windows),
{
    law_normalize_idempotent(resolve_target(trim(raw), home, windows), windows);
}

proof fn lemma_absolute_by_head(x: Seq<char>, y: Seq<char>, windows: bool)
    requires
        path_prefix(x, windows) == path_prefix(y, windows),
        has_root(x, windows) == has_root(y, windows),
    ensures
        is_absolute_path(x, windows) == is_absolute_path(y, windows),
{
    let px = path_prefix(x, windows);
    assert(0 <= prefix_len(x, windows) <= x.len());
    assert(0 <= prefix_len(y, windows) <= y.len());
    assert(path_prefix(x, windows).len() == prefix_len(x, windows));
    assert(path_prefix(y, windows).len() == prefix_len(y, windows));
    assert(prefix_len(x, windows) == prefix_len(y, windows));
    assert(is_unc(x, windows) ==> !has_drive(x, windows));
    assert(is_unc(y, windows) ==> !has_drive(y, windows));
    assert(is_unc(x, windows) == (prefix_len(x, windows) == 2 && !has_drive(x, windows)));
    assert(is_unc(y, windows) == (prefix_len(y, windows) == 2 && !has_drive(y, windows)));
    if prefix_len(x, windows) == 2 {
        assert(px[0] == x[0] && px[1] == x[1]);
        assert(px[0] == y[0] && px[1] == y[1]);
        assert(has_drive(x, windows) == has_drive(y, windows));
    } else {
        assert(!has_drive(x, windows) && !has_drive(y, windows));
    }
}

/// With an absolute home directory, every resolved directory is absolute (on
/// Windows, when the path it stands for reads back its prefix).
pub proof fn law_resolved_is_absolute(raw: Seq<char>, home: Seq<char>, windows: bool)
    requires
        is_absolute_path(home, windows),
        resolve_spec(raw, home, windows) is Ok,
        !windows || reads_back(resolve_target(trim(raw), home, windows), windows),
    ensures
        is_absolute_path(resolve_spec(raw, home, windows)->Ok_0, windows),
{
    let t = trim(raw);
    let c = resolve_target(t, home, windows);
    law_normalize_idempotent(c, windows);
    lemma_absolute_by_head(normalize_spec(c, windows), c, windows);
    if is_tilde_form(t) && t != seq!['~'] {
        let pc = normal_parts(c, windows);
        let ph = normal_parts(home, windows);
        let hp = path_prefix(home, windows);
        assert(pc.subrange(0, ph.len() as int) == ph);
        if hp.len() > 0 {
            assert(ph[0] == PathPart::Prefix(hp));
            assert(pc[0] == PathPart::Prefix(hp));
            assert(path_prefix(c, windows).len() > 0);
            assert(path_prefix(c, windows) == hp);
            assert(hp[0] == home[0] && hp[1] == home[1]);
            assert(hp[0] == c[0] && hp[1] == c[1]);
            if has_root(home, windows) {
                assert(ph[1] == PathPart::Root);
                assert(pc[1] == PathPart::Root);
            }
        } else {
            assert(has_root(home, windows));
            assert(ph[0] == PathPart::Root);
            assert(pc[0] == PathPart::Root);
            if path_prefix(c, windows).len() > 0 {
                assert(pc[0] == PathPart::Prefix(path_prefix(c, windows)));
            }
            assert(has_root(c, windows));
        }
    }
}

} // verus!
