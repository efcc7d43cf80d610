//! File names derived from media titles, and the names tried when publishing.
use vstd::prelude::*;

use crate::text::{
    ascii_upper, ascii_upper_chars, char_is_control, char_is_whitespace, from_chars, is_ctrl, is_ws,
    slice_chars, to_chars, trim, trim_end, trim_start, trim_start_index,
};

verus! {

/// Longest base file name, in UTF-8 bytes.
pub const MAX_BASE_FILENAME_BYTES: usize = 180;

/// Characters that no file name may hold on any supported platform.
pub open spec fn is_forbidden(c: char) -> bool {
    c == '/' || c == '\\' || c == '?' || c == '%' || c == '*' || c == ':' || c == '|' || c == '"'
        || c == '<' || c == '>' || c == '\0'
}

/// A character that may stay in a file name.
pub open spec fn is_safe_char(c: char) -> bool {
    !is_ctrl(c) && !is_forbidden(c)
}

pub open spec fn replace_unsafe(s: Seq<char>) -> Seq<char> {
    s.map_values(
        |c: char|
            if is_safe_char(c) {
                c
            } else {
                '_'
            },
    )
}

pub open spec fn is_dot_or_ws(c: char) -> bool {
    c == '.' || is_ws(c)
}

/// `trim_end_matches(|c| c == '.' || c.is_whitespace())`.
pub open spec fn trim_end_dots(s: Seq<char>) -> Seq<char>
    decreases s.len(),
{
    if s.len() > 0 && is_dot_or_ws(s.last()) {
        trim_end_dots(s.drop_last())
    } else {
        s
    }
}

/// Trailing dots and whitespace removed, then whitespace at both ends.
pub open spec fn clean(s: Seq<char>) -> Seq<char> {
    trim(trim_end_dots(s))
}

/// Device names that Windows reserves, in upper case.
pub open spec fn reserved_names() -> Seq<Seq<char>> {
    seq![
        "CON"@, "PRN"@, "AUX"@, "NUL"@, "COM1"@, "COM2"@, "COM3"@, "COM4"@, "COM5"@, "COM6"@,
        "COM7"@, "COM8"@, "COM9"@, "LPT1"@, "LPT2"@, "LPT3"@, "LPT4"@, "LPT5"@, "LPT6"@, "LPT7"@,
        "LPT8"@, "LPT9"@,
    ]
}

pub open spec fn is_reserved(s: Seq<char>) -> bool {
    reserved_names().contains(ascii_upper(s))
}

/// Number of bytes of a character in UTF-8.
pub open spec fn utf8_width(c: char) -> nat {
    if (c as u32) < 0x80 {
        1
    } else if (c as u32) < 0x800 {
        2
    } else if (c as u32) < 0x10000 {
        3
    } else {
        4
    }
}

/// Number of bytes of a string in UTF-8.
pub open spec fn utf8_len(s: Seq<char>) -> nat
    decreases s.len(),
{
    if s.len() == 0 {
        0
    } else {
        utf8_len(s.drop_last()) + utf8_width(s.last())
    }
}

/// Length, in characters, of the longest prefix of `s` that takes at most `max` bytes.
pub open spec fn fit_count(s: Seq<char>, max: nat) -> nat
    decreases s.len(),
{
    if utf8_len(s) <= max {
        s.len()
    } else {
        fit_count(s.drop_last(), max)
    }
}

pub open spec fn fallback_name() -> Seq<char> {
    "PolySaver_Media"@
}

pub open spec fn reserved_prefix() -> Seq<char> {
    "PolySaver_"@
}

/// A name itself, or with the `PolySaver_` prefix when it names a Windows
/// device.
pub open spec fn protect(t: Seq<char>) -> Seq<char> {
    if is_reserved(t) {
        reserved_prefix() + t
    } else {
        t
    }
}

/// The file name that a title gives: unsafe characters become `_`, trailing
/// dots and whitespace go, Windows device names get a `PolySaver_` prefix, the
/// result is cut at a character boundary to 180 bytes (and cleaned and
/// protected again from device names), and an empty result becomes
/// `PolySaver_Media`.
pub open spec fn sanitize_spec(title: Seq<char>) -> Seq<char> {
    let t = clean(replace_unsafe(title));
    if t.len() == 0 {
        fallback_name()
    } else {
        let base = protect(t);
        if utf8_len(base) <= MAX_BASE_FILENAME_BYTES {
            base
        } else {
            let c = clean(base.subrange(0, fit_count(base, MAX_BASE_FILENAME_BYTES as nat) as int));
            if c.len() == 0 {
                fallback_name()
            } else {
                protect(c)
            }
        }
    }
}

fn char_is_forbidden(c: char) -> (b: bool)
    ensures
        b == is_forbidden(c),
{
    c == '/' || c == '\\' || c == '?' || c == '%' || c == '*' || c == ':' || c == '|' || c == '"'
        || c == '<' || c == '>' || c == '\0'
}

fn utf8_width_exec(c: char) -> (w: usize)
    ensures
        w == utf8_width(c),
{
    let u = c as u32;
    if u < 0x80 {
        1
    } else if u < 0x800 {
        2
    } else if u < 0x10000 {
        3
    } else {
        4
    }
}

fn replace_unsafe_chars(v: &[char]) -> (r: Vec<char>)
    ensures
        r@ == replace_unsafe(v@),
{
    let mut r: Vec<char> = Vec::new();
    let mut i: usize = 0;
    while i < v.len()
        invariant
            i <= v@.len(),
            r@ == replace_unsafe(v@.subrange(0, i as int)),
        decreases v@.len() - i,
    {
        let c = v[i];
        if char_is_control(c) || char_is_forbidden(c) {
            r.push('_');
        } else {
            r.push(c);
        }
        assert(replace_unsafe(v@.subrange(0, i + 1)) =~= replace_unsafe(
            v@.subrange(0, i as int),
        ).push(if is_safe_char(c) {
            c
        } else {
            '_'
        }));
        i = i + 1;
    }
    assert(v@.subrange(0, v@.len() as int) == v@);
    r
}

proof fn lemma_trim_end_not_ws(x: Seq<char>)
    requires
        x.len() == 0 || !is_ws(x.last()),
    ensures
        trim_end(x) == x,
{
}

/// `clean` on a character vector.
fn clean_chars(v: &[char]) -> (r: Vec<char>)
    ensures
        r@ == clean(v@),
{
    let mut e: usize = v.len();
    assert(v@.subrange(0, v@.len() as int) == v@);
    while e > 0 && (v[e - 1] == '.' || char_is_whitespace(v[e - 1]))
        invariant
            e <= v@.len(),
            trim_end_dots(v@) == trim_end_dots(v@.subrange(0, e as int)),
        decreases e,
    {
        assert(v@.subrange(0, e - 1) == v@.subrange(0, e as int).drop_last());
        e = e - 1;
    }
    assert(v@.subrange(0, v@.len() as int) == v@);
    let ghost x = v@.subrange(0, e as int);
    assert(trim_end_dots(x) == x);
    proof {
        lemma_trim_end_not_ws(x);
    }
    let b: usize = trim_start_index(v, 0, e);
    slice_chars(v, b, e)
}

fn chars_eq(a: &[char], b: &[char]) -> (r: bool)
    ensures
        r == (a@ == b@),
{
    if a.len() != b.len() {
        return false;
    }
    let mut i: usize = 0;
    while i < a.len()
        invariant
            a@.len() == b@.len(),
            i <= a@.len(),
            forall|j: int| 0 <= j < i ==> a@[j] == b@[j],
        decreases a@.len() - i,
    {
        if a[i] != b[i] {
            return false;
        }
        i = i + 1;
    }
    assert(a@ =~= b@);
    true
}

fn reserved_name_list() -> (r: Vec<&'static str>)
    ensures
        r@.len() == reserved_names().len(),
        forall|i: int| 0 <= i < r@.len() ==> #[trigger] r@[i]@ == reserved_names()[i],
{
    let r: Vec<&'static str> = vec![
        "CON", "PRN", "AUX", "NUL", "COM1", "COM2", "COM3", "COM4", "COM5", "COM6", "COM7",
        "COM8", "COM9", "LPT1", "LPT2", "LPT3", "LPT4", "LPT5", "LPT6", "LPT7", "LPT8", "LPT9",
    ];
    assert(r@.len() == reserved_names().len());
    r
}

/// Whether the ASCII upper-cased characters name a Windows device.
fn is_reserved_upper(upper: &[char]) -> (b: bool)
    ensures
        b == reserved_names().contains(upper@),
{
    let names = reserved_name_list();
    let mut i: usize = 0;
    while i < names.len()
        invariant
            names@.len() == reserved_names().len(),
            forall|k: int| 0 <= k < names@.len() ==> #[trigger] names@[k]@ == reserved_names()[k],
            i <= names@.len(),
            forall|k: int| 0 <= k < i ==> reserved_names()[k] != upper@,
        decreases names@.len() - i,
    {
        let n = to_chars(names[i]);
        if chars_eq(&n, upper) {
            assert(reserved_names()[i as int] == upper@);
            return true;
        }
        i = i + 1;
    }
    false
}

proof fn lemma_utf8_len_prefix_step(s: Seq<char>, k: int)
    requires
        0 <= k < s.len(),
    ensures
        utf8_len(s.subrange(0, k + 1)) == utf8_len(s.subrange(0, k)) + utf8_width(s[k]),
{
    assert(s.subrange(0, k + 1).drop_last() == s.subrange(0, k));
}

proof fn lemma_utf8_len_prefix_monotone(s: Seq<char>, i: int, j: int)
    requires
        0 <= i <= j <= s.len(),
    ensures
        utf8_len(s.subrange(0, i)) <= utf8_len(s.subrange(0, j)),
    decreases j - i,
{
    if i < j {
        lemma_utf8_len_prefix_monotone(s, i, j - 1);
        lemma_utf8_len_prefix_step(s, j - 1);
    }
}

proof fn lemma_fit_count_le(s: Seq<char>, max: nat)
    ensures
        fit_count(s, max) <= s.len(),
    decreases s.len(),
{
    if utf8_len(s) > max {
        lemma_fit_count_le(s.drop_last(), max);
    }
}

proof fn lemma_fit_count_is(s: Seq<char>, max: nat, k: int)
    requires
        0 <= k <= s.len(),
        utf8_len(s.subrange(0, k)) <= max,
        k == s.len() || utf8_len(s.subrange(0, k + 1)) > max,
    ensures
        fit_count(s, max) == k,
    decreases s.len(),
{
    if k < s.len() {
        lemma_utf8_len_prefix_monotone(s, k + 1, s.len() as int);
        assert(s.subrange(0, s.len() as int) == s);
        let t = s.drop_last();
        assert(t.subrange(0, k) == s.subrange(0, k));
        if k < t.len() {
            assert(t.subrange(0, k + 1) == s.subrange(0, k + 1));
        }
        lemma_fit_count_is(t, max, k);
    } else {
        assert(s.subrange(0, k) == s);
    }
}

/// Characters of the longest prefix that takes at most `max` bytes in UTF-8.
fn fit_prefix_len(v: &[char], max: usize) -> (k: usize)
    ensures
        k == fit_count(v@, max as nat),
        k <= v@.len(),
{
    let mut k: usize = 0;
    let mut used: usize = 0;
    while k < v.len()
        invariant
            k <= v@.len(),
            used == utf8_len(v@.subrange(0, k as int)),
            used <= max,
        decreases v@.len() - k,
    {
        let w = utf8_width_exec(v[k]);
        proof {
            lemma_utf8_len_prefix_step(v@, k as int);
        }
        if w > max - used {
            proof {
                lemma_fit_count_is(v@, max as nat, k as int);
            }
            return k;
        }
        used = used + w;
        k = k + 1;
    }
    proof {
        lemma_fit_count_is(v@, max as nat, k as int);
    }
    k
}

/// `protect` on a character vector.
fn protect_chars(t: Vec<char>) -> (r: Vec<char>)
    ensures
        r@ == protect(t@),
{
    let upper = ascii_upper_chars(&t);
    if is_reserved_upper(&upper) {
        let mut b = to_chars("PolySaver_");
        proof {
            reveal_strlit("PolySaver_");
        }
        let mut i: usize = 0;
        let ghost p = b@;
        while i < t.len()
            invariant
                i <= t@.len(),
                b@ == p + t@.subrange(0, i as int),
            decreases t@.len() - i,
        {
            b.push(t[i]);
            i = i + 1;
        }
        assert(t@.subrange(0, t@.len() as int) == t@);
        b
    } else {
        t
    }
}

/// Sanitizes a title into a bounded UTF-8 safe filename.
pub fn sanitize_filename(title: &str) -> (r: String)
    ensures
        r@ == sanitize_spec(title@),
{
    let chars = to_chars(title);
    let mapped = replace_unsafe_chars(&chars);
    let t = clean_chars(&mapped);
    if t.len() == 0 {
        return String::from_str("PolySaver_Media");
    }
    let base = protect_chars(t);
    let k: usize = fit_prefix_len(&base, MAX_BASE_FILENAME_BYTES);
    if k == base.len() {
        proof {
            if utf8_len(base@) > MAX_BASE_FILENAME_BYTES {
                lemma_fit_count_le(base@.drop_last(), MAX_BASE_FILENAME_BYTES as nat);
            }
        }
        from_chars(&base)
    } else {
        let prefix = slice_chars(&base, 0, k);
        let c = clean_chars(&prefix);
        if c.len() == 0 {
            String::from_str("PolySaver_Media")
        } else {
            let protected = protect_chars(c);
            from_chars(&protected)
        }
    }
}

proof fn lemma_trim_end_dots_shape(s: Seq<char>)
    ensures
        trim_end_dots(s).len() <= s.len(),
        trim_end_dots(s) == s.subrange(0, trim_end_dots(s).len() as int),
        trim_end_dots(s).len() > 0 ==> !is_dot_or_ws(trim_end_dots(s).last()),
    decreases s.len(),
{
    if s.len() > 0 && is_dot_or_ws(s.last()) {
        lemma_trim_end_dots_shape(s.drop_last());
    } else {
        assert(s.subrange(0, s.len() as int) == s);
    }
}

proof fn lemma_trim_start_shape(s: Seq<char>)
    ensures
        trim_start(s).len() <= s.len(),
        trim_start(s) == s.subrange(s.len() - trim_start(s).len(), s.len() as int),
        trim_start(s).len() > 0 ==> !is_ws(trim_start(s)[0]),
    decreases s.len(),
{
    if s.len() > 0 && is_ws(s[0]) {
        lemma_trim_start_shape(s.drop_first());
    } else {
        assert(s.subrange(0, s.len() as int) == s);
    }
}

/// `clean(s)` is a piece `s[i..i + len]` whose ends are neither dots nor whitespace.
proof fn lemma_clean_shape(s: Seq<char>) -> (i: int)
    ensures
        0 <= i,
        i + clean(s).len() <= s.len(),
        clean(s) == s.subrange(i, i + clean(s).len()),
        clean(s).len() > 0 ==> !is_dot_or_ws(clean(s).last()) && !is_ws(clean(s)[0]),
{
    let x = trim_end_dots(s);
    lemma_trim_end_dots_shape(s);
    lemma_trim_end_not_ws(x);
    lemma_trim_start_shape(x);
    let c = clean(s);
    assert(c == trim_start(x));
    let i = x.len() - c.len();
    assert(c == s.subrange(i, i + c.len()));
    if c.len() > 0 {
        assert(c.last() == x.last());
    }
    i
}

proof fn lemma_utf8_len_concat(a: Seq<char>, b: Seq<char>)
    ensures
        utf8_len(a + b) == utf8_len(a) + utf8_len(b),
    decreases b.len(),
{
    if b.len() > 0 {
        lemma_utf8_len_concat(a, b.drop_last());
        assert((a + b).drop_last() == a + b.drop_last());
    } else {
        assert(a + b == a);
    }
}

proof fn lemma_utf8_len_piece(s: Seq<char>, i: int, j: int)
    requires
        0 <= i <= j <= s.len(),
    ensures
        utf8_len(s.subrange(i, j)) <= utf8_len(s),
{
    lemma_utf8_len_concat(s.subrange(0, i), s.subrange(i, j));
    lemma_utf8_len_concat(s.subrange(0, i) + s.subrange(i, j), s.subrange(j, s.len() as int));
    assert(s.subrange(0, i) + s.subrange(i, j) + s.subrange(j, s.len() as int) == s);
}

proof fn lemma_fit_count_fits(s: Seq<char>, max: nat)
    ensures
        utf8_len(s.subrange(0, fit_count(s, max) as int)) <= max || fit_count(s, max) == 0,
    decreases s.len(),
{
    lemma_fit_count_le(s, max);
    if utf8_len(s) <= max {
        assert(s.subrange(0, s.len() as int) == s);
    } else if s.len() > 0 {
        lemma_fit_count_fits(s.drop_last(), max);
        lemma_fit_count_le(s.drop_last(), max);
        assert(s.drop_last().subrange(0, fit_count(s, max) as int) == s.subrange(
            0,
            fit_count(s, max) as int,
        ));
    }
}

/// A non-empty piece of safe characters that starts with no whitespace and
/// ends with neither a dot nor whitespace.
pub open spec fn is_clean_piece(r: Seq<char>) -> bool {
    &&& r.len() > 0
    &&& forall|k: int| 0 <= k < r.len() ==> is_safe_char(#[trigger] r[k])
    &&& !is_ws(r[0])
    &&& !is_dot_or_ws(r.last())
}

/// What makes a file name safe to create: non-empty, at most 180 bytes of
/// UTF-8, no control or path-special character, no leading whitespace, no
/// trailing dot or whitespace, and no Windows device name.
pub open spec fn is_safe_file_name(r: Seq<char>) -> bool {
    &&& is_clean_piece(r)
    &&& utf8_len(r) <= MAX_BASE_FILENAME_BYTES
    &&& !is_reserved(r)
}

/// Device names are three or four characters long.
proof fn lemma_reserved_short(s: Seq<char>)
    ensures
        is_reserved(s) ==> s.len() <= 4,
{
    reveal_strlit("CON");
    reveal_strlit("PRN");
    reveal_strlit("AUX");
    reveal_strlit("NUL");
    reveal_strlit("COM1");
    reveal_strlit("COM2");
    reveal_strlit("COM3");
    reveal_strlit("COM4");
    reveal_strlit("COM5");
    reveal_strlit("COM6");
    reveal_strlit("COM7");
    reveal_strlit("COM8");
    reveal_strlit("COM9");
    reveal_strlit("LPT1");
    reveal_strlit("LPT2");
    reveal_strlit("LPT3");
    reveal_strlit("LPT4");
    reveal_strlit("LPT5");
    reveal_strlit("LPT6");
    reveal_strlit("LPT7");
    reveal_strlit("LPT8");
    reveal_strlit("LPT9");
    if is_reserved(s) {
        let u = ascii_upper(s);
        let i = choose|i: int| 0 <= i < reserved_names().len() && reserved_names()[i] == u;
        assert(u.len() == s.len());
        assert(reserved_names()[i].len() <= 4);
    }
}

proof fn lemma_utf8_len_bound(s: Seq<char>)
    ensures
        utf8_len(s) <= 4 * s.len(),
    decreases s.len(),
{
    if s.len() > 0 {
        lemma_utf8_len_bound(s.drop_last());
    }
}

/// Protecting a clean piece keeps it clean and makes it no device name; the
/// prefix adds 10 bytes, and only to a name of at most 4 characters.
proof fn lemma_protect(t: Seq<char>)
    requires
        is_clean_piece(t),
    ensures
        is_clean_piece(protect(t)),
        !is_reserved(protect(t)),
        is_reserved(t) ==> utf8_len(protect(t)) <= 26,
        !is_reserved(t) ==> protect(t) == t,
{
    reveal_strlit("PolySaver_");
    lemma_reserved_short(t);
    if is_reserved(t) {
        let p = reserved_prefix();
        let b = p + t;
        assert(p.len() == 10);
        assert forall|k: int| 0 <= k < b.len() implies is_safe_char(#[trigger] b[k]) by {
            if k >= 10 {
                assert(b[k] == t[k - 10]);
            }
        }
        assert(b.last() == t.last());
        lemma_reserved_short(b);
        lemma_utf8_len_concat(p, t);
        assert(utf8_len(p) == 10) by {
            reveal_with_fuel(utf8_len, 11);
        }
        lemma_utf8_len_bound(t);
    }
}

proof fn lemma_clean_piece_of(s: Seq<char>)
    requires
        forall|k: int| 0 <= k < s.len() ==> is_safe_char(#[trigger] s[k]),
        clean(s).len() > 0,
    ensures
        is_clean_piece(clean(s)),
        utf8_len(clean(s)) <= utf8_len(s),
{
    let c = clean(s);
    let i = lemma_clean_shape(s);
    assert forall|k: int| 0 <= k < c.len() implies is_safe_char(#[trigger] c[k]) by {
        assert(c[k] == s[i + k]);
    }
    lemma_utf8_len_piece(s, i, i + c.len());
}

/// The sanitized name of any title is a safe file name.
pub proof fn law_sanitized_name_is_safe(title: Seq<char>)
    ensures
        is_safe_file_name(sanitize_spec(title)),
{
    reveal_strlit("PolySaver_Media");
    let fb = fallback_name();
    assert(utf8_len(fb) == 15) by {
        reveal_with_fuel(utf8_len, 16);
    }
    lemma_reserved_short(fb);
    assert(is_safe_file_name(fb));
    let m = replace_unsafe(title);
    let t = clean(m);
    if t.len() > 0 {
        lemma_clean_piece_of(m);
        let base = protect(t);
        lemma_protect(t);
        if utf8_len(base) > MAX_BASE_FILENAME_BYTES {
            let n = fit_count(base, MAX_BASE_FILENAME_BYTES as nat);
            lemma_fit_count_le(base, MAX_BASE_FILENAME_BYTES as nat);
            lemma_fit_count_fits(base, MAX_BASE_FILENAME_BYTES as nat);
            let p = base.subrange(0, n as int);
            let c = clean(p);
            if c.len() > 0 {
                assert forall|k: int| 0 <= k < p.len() implies is_safe_char(#[trigger] p[k]) by {
                    assert(p[k] == base[k]);
                }
                lemma_clean_piece_of(p);
                lemma_protect(c);
            }
        }
    }
}

/// A safe file name is its own sanitized name.
proof fn lemma_safe_name_is_fixed(r: Seq<char>)
    requires
        is_safe_file_name(r),
    ensures
        sanitize_spec(r) == r,
{
    assert(replace_unsafe(r) =~= r);
    assert(trim_end_dots(r) == r);
    assert(trim_end(r) == r);
    assert(trim_start(r) == r);
    assert(clean(r) == r);
    lemma_protect(r);
}

/// Sanitizing is idempotent: a sanitized name sanitizes to itself.
pub proof fn law_sanitize_idempotent(title: Seq<char>)
    ensures
        sanitize_spec(sanitize_spec(title)) == sanitize_spec(title),
{
    law_sanitized_name_is_safe(title);
    lemma_safe_name_is_fixed(sanitize_spec(title));
}

/// `utf8_len` is the length of the UTF-8 encoding, which `str::len` reports.
pub proof fn law_utf8_len_is_byte_length(s: Seq<char>)
    ensures
        utf8_len(s) == vstd::utf8::encode_utf8(s).len(),
    decreases s.len(),
{
    if s.len() > 0 {
        law_utf8_len_is_byte_length(s.drop_first());
        vstd::utf8::char_is_scalar(s[0]);
        lemma_utf8_len_concat(seq![s[0]], s.drop_first());
        assert(seq![s[0]] + s.drop_first() == s);
        let one = seq![s[0]];
        assert(one.drop_last() =~= Seq::<char>::empty());
        assert(one.last() == s[0]);
        assert(utf8_len(one.drop_last()) == 0);
        assert(utf8_len(one) == utf8_width(s[0]));
    }
}

} // verus!
