//! Path syntax of the supported operating systems: separators, drive
//! prefixes, roots, components, joining and parents.
//!
//! Unix paths follow the rules of `std::path` exactly. Windows paths are
//! modelled with drive prefixes (`C:`) and with `\\` prefixes treated as
//! rooted; the verbatim (`\\?\`) and UNC forms are not taken apart further.
use vstd::prelude::*;
use crate::platform::Os;
use crate::text::{chars_eq, split_chars, split_on, lemma_split_on_nonempty};

verus! {

/// Whether `c` separates path components on `os` (Windows accepts both
/// slashes).
pub open spec fn is_sep(c: char, os: Os) -> bool {
    c == '/' || (os == Os::Windows && c == '\\')
}

/// The main separator of `os`.
pub open spec fn main_sep(os: Os) -> char {
    if os == Os::Windows { '\\' } else { '/' }
}

/// An ASCII letter.
pub open spec fn ascii_alpha(c: char) -> bool {
    ('a' <= c && c <= 'z') || ('A' <= c && c <= 'Z')
}

/// Length of the drive prefix (`C:`) of a Windows path, 0 elsewhere.
pub open spec fn prefix_len(s: Seq<char>, os: Os) -> int {
    if os == Os::Windows && s.len() >= 2 && ascii_alpha(s[0]) && s[1] == ':' {
        2
    } else {
        0
    }
}

/// Whether a Windows path starts with `\\` (UNC, device or verbatim form).
pub open spec fn double_backslash(s: Seq<char>, os: Os) -> bool {
    os == Os::Windows && s.len() >= 2 && s[0] == '\\' && s[1] == '\\'
}

/// Whether the path has a root separator right after its prefix.
pub open spec fn has_root(s: Seq<char>, os: Os) -> bool {
    s.len() > prefix_len(s, os) && is_sep(s[prefix_len(s, os)], os)
}

/// Whether the path starts (after its prefix) with a `.` component.
pub open spec fn leading_cur_dir(s: Seq<char>, os: Os) -> bool {
    let p = prefix_len(s, os);
    !has_root(s, os) && s.len() > p && s[p] == '.' && (s.len() == p + 1 || is_sep(s[p + 1], os))
}

/// Where the components after the prefix, root and leading `.` begin.
pub open spec fn body_start(s: Seq<char>, os: Os) -> int {
    prefix_len(s, os) + (if has_root(s, os) { 1int } else { 0int }) + (if leading_cur_dir(s, os) {
        1int
    } else {
        0int
    })
}

/// Whether a path is absolute: rooted on Unix; on Windows a drive prefix
/// followed by a root, or a `\\` form.
pub open spec fn absolute(s: Seq<char>, os: Os) -> bool {
    if os == Os::Windows {
        double_backslash(s, os) || (prefix_len(s, os) == 2 && has_root(s, os))
    } else {
        s.len() > 0 && s[0] == '/'
    }
}

/// Whether joining onto `base` needs a separator in between.
pub open spec fn needs_sep(base: Seq<char>, os: Os) -> bool {
    base.len() > 0 && !is_sep(base.last(), os) && !(prefix_len(base, os) == 2 && base.len() == 2)
}

/// `base` joined with `comp` (`Path::join`): an absolute or prefixed
/// component replaces the base; a rooted component on Windows keeps only
/// the base's drive prefix; otherwise the component is appended, with a
/// separator when the base does not end in one.
pub open spec fn joined(base: Seq<char>, comp: Seq<char>, os: Os) -> Seq<char> {
    if absolute(comp, os) || prefix_len(comp, os) == 2 || double_backslash(comp, os) {
        comp
    } else if has_root(comp, os) {
        base.subrange(0, prefix_len(base, os)) + comp
    } else if needs_sep(base, os) {
        base + seq![main_sep(os)] + comp
    } else {
        base + comp
    }
}

/// Length of `s[..n]` once trailing separators and trailing `.`
/// components are dropped, never going below `start`.
pub open spec fn rtrim_len(s: Seq<char>, os: Os, start: int, n: int) -> int
    decreases n,
{
    if n <= start || n <= 0 || n > s.len() {
        n
    } else if is_sep(s[n - 1], os) {
        rtrim_len(s, os, start, n - 1)
    } else if s[n - 1] == '.' && (n - 1 == start || (n >= 2 && is_sep(s[n - 2], os))) {
        rtrim_len(s, os, start, n - 1)
    } else {
        n
    }
}

/// Position of the last separator in `s[start..n]`, or -1.
pub open spec fn last_sep(s: Seq<char>, os: Os, start: int, n: int) -> int
    decreases n,
{
    if n <= start || n <= 0 || n > s.len() {
        -1
    } else if is_sep(s[n - 1], os) {
        n - 1
    } else {
        last_sep(s, os, start, n - 1)
    }
}

/// The parent of a path (`Path::parent`): the path without its final
/// component, or `None` when it ends in a root or prefix or is empty.
pub open spec fn parent_of(s: Seq<char>, os: Os) -> Option<Seq<char>> {
    let st = body_start(s, os);
    let t = rtrim_len(s, os, st, s.len() as int);
    if t > st {
        let j = last_sep(s, os, st, t);
        let u = if j >= 0 { j + 1 } else { st };
        Some(s.subrange(0, rtrim_len(s, os, st, u)))
    } else if leading_cur_dir(s, os) {
        Some(s.subrange(0, prefix_len(s, os)))
    } else {
        None
    }
}

/// A component that is neither empty nor `.`.
pub open spec fn is_normal_part(p: Seq<char>) -> bool {
    p.len() > 0 && p != seq!['.']
}

/// The normal components among the fields of a path body.
pub open spec fn keep_normal(parts: Seq<Seq<char>>) -> Seq<Seq<char>>
    decreases parts.len(),
{
    if parts.len() == 0 {
        parts
    } else if is_normal_part(parts.last()) {
        keep_normal(parts.drop_last()).push(parts.last())
    } else {
        keep_normal(parts.drop_last())
    }
}

/// The components of the body of a path.
pub open spec fn body_components(s: Seq<char>, os: Os) -> Seq<Seq<char>> {
    let body = s.subrange(body_start(s, os), s.len() as int);
    keep_normal(split_on(body, '/', if os == Os::Windows { '\\' } else { '/' }))
}

/// The drive letter of a path's prefix, in upper case.
pub open spec fn drive_of(s: Seq<char>, os: Os) -> Option<char> {
    if prefix_len(s, os) == 2 {
        Some(if 'a' <= s[0] && s[0] <= 'z' { ((s[0] as u32) - 32) as char } else { s[0] })
    } else {
        None
    }
}

/// Whether two paths have the same components (`Path` equality).
pub open spec fn same_components(a: Seq<char>, b: Seq<char>, os: Os) -> bool {
    &&& drive_of(a, os) == drive_of(b, os)
    &&& has_root(a, os) == has_root(b, os)
    &&& leading_cur_dir(a, os) == leading_cur_dir(b, os)
    &&& body_components(a, os) == body_components(b, os)
}

/// End of the final normal component of a path (`Path::file_name`): the
/// position after it, or `None` when the path ends in a root, a prefix, a
/// leading `.` or a `..` component, or is empty.
pub open spec fn file_name_end(s: Seq<char>, os: Os) -> Option<int> {
    let st = body_start(s, os);
    let t = rtrim_len(s, os, st, s.len() as int);
    if t > st {
        let j = last_sep(s, os, st, t);
        let b = if j >= 0 { j + 1 } else { st };
        if s.subrange(b, t) == seq!['.', '.'] {
            None
        } else {
            Some(t)
        }
    } else {
        None
    }
}

/// Start of the final normal component, given its end.
pub open spec fn file_name_start(s: Seq<char>, os: Os, t: int) -> int {
    let st = body_start(s, os);
    let j = last_sep(s, os, st, t);
    if j >= 0 { j + 1 } else { st }
}

/// The file name of a path.
pub open spec fn file_name_of(s: Seq<char>, os: Os) -> Option<Seq<char>> {
    match file_name_end(s, os) {
        Some(t) => Some(s.subrange(file_name_start(s, os, t), t)),
        None => None,
    }
}

/// Position of the last `.` in a text, or -1.
pub open spec fn last_dot(name: Seq<char>, n: int) -> int
    decreases n,
{
    if n <= 0 || n > name.len() {
        -1
    } else if name[n - 1] == '.' {
        n - 1
    } else {
        last_dot(name, n - 1)
    }
}

pub proof fn lemma_last_dot_bounds(name: Seq<char>, n: int)
    requires
        0 <= n <= name.len(),
    ensures
        -1 <= last_dot(name, n) < n,
        last_dot(name, n) >= 0 ==> name[last_dot(name, n)] == '.',
    decreases n,
{
    if n > 0 && name[n - 1] != '.' {
        lemma_last_dot_bounds(name, n - 1);
    }
}

/// The extension of a file name (`Path::extension`): what follows its last
/// `.`, unless it has none or its only `.` comes first.
pub open spec fn extension_of_name(name: Seq<char>) -> Option<Seq<char>> {
    let d = last_dot(name, name.len() as int);
    if d <= 0 {
        None
    } else {
        Some(name.subrange(d + 1, name.len() as int))
    }
}

/// The path with `.{suffix}` appended to its file name, as
/// `set_extension` does when the new extension is the old one (if any)
/// followed by `.{suffix}`; a path without a file name is unchanged.
pub open spec fn with_suffix(s: Seq<char>, suffix: Seq<char>, os: Os) -> Seq<char> {
    match file_name_end(s, os) {
        Some(t) => s.subrange(0, t) + seq!['.'] + suffix,
        None => s,
    }
}

/// The path with its extension replaced by `ext` (`Path::with_extension`
/// with a non-empty extension): the file name's extension, if any, is cut
/// off and `.{ext}` appended; a path without a file name is unchanged.
pub open spec fn with_extension_of(s: Seq<char>, ext: Seq<char>, os: Os) -> Seq<char> {
    match file_name_end(s, os) {
        Some(t) => {
            let start = file_name_start(s, os, t);
            let name = s.subrange(start, t);
            let stem_end = match extension_of_name(name) {
                Some(e) => t - e.len() - 1,
                None => t,
            };
            s.subrange(0, stem_end) + seq!['.'] + ext
        },
        None => s,
    }
}

fn sep_at(s: &[char], i: usize, os: &Os) -> (r: bool)
    requires
        i < s@.len(),
    ensures
        r == is_sep(s@[i as int], *os),
{
    s[i] == '/' || (*os == Os::Windows && s[i] == '\\')
}

fn drive_prefix_len(s: &[char], os: &Os) -> (r: usize)
    ensures
        r == prefix_len(s@, *os),
{
    if *os == Os::Windows && s.len() >= 2 && (('a' <= s[0] && s[0] <= 'z') || ('A' <= s[0] && s[0]
        <= 'Z')) && s[1] == ':' {
        2
    } else {
        0
    }
}

fn rooted(s: &[char], os: &Os) -> (r: bool)
    ensures
        r == has_root(s@, *os),
{
    let p = drive_prefix_len(s, os);
    s.len() > p && sep_at(s, p, os)
}

fn starts_with_cur_dir(s: &[char], os: &Os) -> (r: bool)
    ensures
        r == leading_cur_dir(s@, *os),
{
    let p = drive_prefix_len(s, os);
    !rooted(s, os) && s.len() > p && s[p] == '.' && (s.len() == p + 1 || sep_at(s, p + 1, os))
}

fn body_start_of(s: &[char], os: &Os) -> (r: usize)
    ensures
        r == body_start(s@, *os),
        r <= s@.len(),
{
    let p = drive_prefix_len(s, os);
    let root: usize = if rooted(s, os) { 1 } else { 0 };
    let cur: usize = if starts_with_cur_dir(s, os) { 1 } else { 0 };
    p + root + cur
}

/// Whether a path is absolute.
pub fn is_absolute_path(s: &[char], os: &Os) -> (r: bool)
    ensures
        r == absolute(s@, *os),
{
    if *os == Os::Windows {
        (s.len() >= 2 && s[0] == '\\' && s[1] == '\\') || (drive_prefix_len(s, os) == 2 && rooted(
            s,
            os,
        ))
    } else {
        s.len() > 0 && s[0] == '/'
    }
}

/// `base` joined with `comp`.
pub fn join_chars(base: &[char], comp: &[char], os: &Os) -> (r: Vec<char>)
    ensures
        r@ == joined(base@, comp@, *os),
{
    let mut out: Vec<char> = Vec::new();
    if is_absolute_path(comp, os) || drive_prefix_len(comp, os) == 2 || (*os == Os::Windows
        && comp.len() >= 2 && comp[0] == '\\' && comp[1] == '\\') {
        crate::text::push_all(&mut out, comp);
        return out;
    }
    if rooted(comp, os) {
        let p = drive_prefix_len(base, os);
        let head = crate::text::slice_chars(base, 0, p);
        crate::text::push_all(&mut out, head.as_slice());
        crate::text::push_all(&mut out, comp);
        assert(out@ =~= joined(base@, comp@, *os));
        return out;
    }
    crate::text::push_all(&mut out, base);
    let need = base.len() > 0 && !sep_at(base, base.len() - 1, os) && !(drive_prefix_len(base, os)
        == 2 && base.len() == 2);
    if need {
        out.push(if *os == Os::Windows { '\\' } else { '/' });
    }
    crate::text::push_all(&mut out, comp);
    assert(out@ =~= joined(base@, comp@, *os));
    out
}

fn rtrim(s: &[char], os: &Os, start: usize, n: usize) -> (r: usize)
    requires
        n <= s@.len(),
        start <= n,
    ensures
        r == rtrim_len(s@, *os, start as int, n as int),
        start <= r <= n,
{
    let mut k = n;
    while k > start && (sep_at(s, k - 1, os) || (s[k - 1] == '.' && (k - 1 == start || (k >= 2
        && sep_at(s, k - 2, os)))))
        invariant
            start <= k <= n <= s@.len(),
            rtrim_len(s@, *os, start as int, n as int) == rtrim_len(s@, *os, start as int, k as int),
        decreases k,
    {
        k = k - 1;
    }
    k
}

fn last_separator(s: &[char], os: &Os, start: usize, n: usize) -> (r: Option<usize>)
    requires
        n <= s@.len(),
        start <= n,
    ensures
        match r {
            Some(j) => j as int == last_sep(s@, *os, start as int, n as int) && start <= j < n,
            None => last_sep(s@, *os, start as int, n as int) == -1,
        },
{
    let mut k = n;
    while k > start
        invariant
            start <= k <= n <= s@.len(),
            last_sep(s@, *os, start as int, n as int) == last_sep(s@, *os, start as int, k as int),
        decreases k,
    {
        if sep_at(s, k - 1, os) {
            return Some(k - 1);
        }
        k = k - 1;
    }
    None
}

/// The parent of a path.
pub fn parent_chars(s: &[char], os: &Os) -> (r: Option<Vec<char>>)
    ensures
        match r {
            Some(p) => parent_of(s@, *os) == Some(p@),
            None => parent_of(s@, *os) is None,
        },
{
    let st = body_start_of(s, os);
    let t = rtrim(s, os, st, s.len());
    if t > st {
        let u = match last_separator(s, os, st, t) {
            Some(j) => j + 1,
            None => st,
        };
        let e = rtrim(s, os, st, u);
        Some(crate::text::slice_chars(s, 0, e))
    } else if starts_with_cur_dir(s, os) {
        let p = drive_prefix_len(s, os);
        Some(crate::text::slice_chars(s, 0, p))
    } else {
        None
    }
}

/// The normal components of a path body.
fn components_of(s: &[char], os: &Os) -> (r: Vec<Vec<char>>)
    ensures
        r@.len() == body_components(s@, *os).len(),
        forall|k: int| 0 <= k < r@.len() ==> #[trigger] r@[k]@ == body_components(s@, *os)[k],
{
    let st = body_start_of(s, os);
    let body = crate::text::slice_chars(s, st, s.len());
    let second = if *os == Os::Windows { '\\' } else { '/' };
    let parts = split_chars(body.as_slice(), '/', second);
    let ghost ps = split_on(body@, '/', second);
    let mut out: Vec<Vec<char>> = Vec::new();
    let mut i: usize = 0;
    while i < parts.len()
        invariant
            i <= parts@.len(),
            parts@.len() == ps.len(),
            forall|k: int| 0 <= k < parts@.len() ==> #[trigger] parts@[k]@ == ps[k],
            out@.len() == keep_normal(ps.subrange(0, i as int)).len(),
            forall|k: int| 0 <= k < out@.len() ==> #[trigger] out@[k]@ == keep_normal(ps.subrange(0, i as int))[k],
        decreases parts.len() - i,
    {
        let ghost pre = ps.subrange(0, i as int);
        let ghost next = ps.subrange(0, i + 1);
        assert(next.drop_last() =~= pre);
        assert(next.last() == parts@[i as int]@);
        let p = &parts[i];
        let dot: Vec<char> = vec!['.'];
        let normal = p.len() > 0 && !chars_eq(p.as_slice(), dot.as_slice());
        assert(dot@ =~= seq!['.']);
        if normal {
            out.push(p.clone());
            assert(out@[out@.len() - 1]@ == p@);
        }
        i = i + 1;
    }
    assert(ps.subrange(0, ps.len() as int) =~= ps);
    out
}

fn drive_letter(s: &[char], os: &Os) -> (r: Option<char>)
    ensures
        r == drive_of(s@, *os),
{
    if drive_prefix_len(s, os) == 2 {
        let c = s[0];
        if 'a' <= c && c <= 'z' {
            let up = ((c as u32) - 32) as u8;
            Some(up as char)
        } else {
            Some(c)
        }
    } else {
        None
    }
}

/// Whether two paths have the same components.
pub fn same_path(a: &[char], b: &[char], os: &Os) -> (r: bool)
    ensures
        r == same_components(a@, b@, *os),
{
    if drive_letter(a, os) != drive_letter(b, os) {
        return false;
    }
    if rooted(a, os) != rooted(b, os) || starts_with_cur_dir(a, os) != starts_with_cur_dir(b, os) {
        return false;
    }
    let ca = components_of(a, os);
    let cb = components_of(b, os);
    if ca.len() != cb.len() {
        return false;
    }
    let mut i: usize = 0;
    while i < ca.len()
        invariant
            ca@.len() == cb@.len(),
            ca@.len() == body_components(a@, *os).len(),
            cb@.len() == body_components(b@, *os).len(),
            forall|k: int| 0 <= k < ca@.len() ==> #[trigger] ca@[k]@ == body_components(a@, *os)[k],
            forall|k: int| 0 <= k < cb@.len() ==> #[trigger] cb@[k]@ == body_components(b@, *os)[k],
            i <= ca@.len(),
            forall|k: int| 0 <= k < i ==> body_components(a@, *os)[k] == body_components(b@, *os)[k],
        decreases ca.len() - i,
    {
        if !chars_eq(ca[i].as_slice(), cb[i].as_slice()) {
            assert(ca@[i as int]@ != cb@[i as int]@);
            return false;
        }
        i = i + 1;
    }
    assert(body_components(a@, *os) =~= body_components(b@, *os));
    true
}

fn name_bounds(s: &[char], os: &Os) -> (r: Option<(usize, usize)>)
    ensures
        match r {
            Some((b, t)) => file_name_end(s@, *os) == Some(t as int) && b as int == file_name_start(
                s@,
                *os,
                t as int,
            ) && b <= t <= s@.len(),
            None => file_name_end(s@, *os) is None,
        },
{
    let st = body_start_of(s, os);
    let t = rtrim(s, os, st, s.len());
    if t > st {
        let b = match last_separator(s, os, st, t) {
            Some(j) => j + 1,
            None => st,
        };
        let is_parent = t - b == 2 && s[b] == '.' && s[b + 1] == '.';
        proof {
            let sub = s@.subrange(b as int, t as int);
            assert(sub.len() == t - b);
            if sub == seq!['.', '.'] {
                assert(sub[0] == s@[b as int]);
                assert(sub[1] == s@[b + 1]);
            }
            if is_parent {
                assert(sub =~= seq!['.', '.']);
            }
        }
        if is_parent {
            None
        } else {
            Some((b, t))
        }
    } else {
        None
    }
}

/// The file name of a path.
pub fn file_name_chars(s: &[char], os: &Os) -> (r: Option<Vec<char>>)
    ensures
        match r {
            Some(n) => file_name_of(s@, *os) == Some(n@),
            None => file_name_of(s@, *os) is None,
        },
{
    match name_bounds(s, os) {
        Some((b, t)) => Some(crate::text::slice_chars(s, b, t)),
        None => None,
    }
}

fn find_last_dot(name: &[char]) -> (r: Option<usize>)
    ensures
        match r {
            Some(d) => last_dot(name@, name@.len() as int) == d as int && d < name@.len()
                && name@[d as int] == '.',
            None => last_dot(name@, name@.len() as int) == -1,
        },
{
    let mut k = name.len();
    while k > 0
        invariant
            k <= name@.len(),
            last_dot(name@, name@.len() as int) == last_dot(name@, k as int),
        decreases k,
    {
        if name[k - 1] == '.' {
            return Some(k - 1);
        }
        k = k - 1;
    }
    None
}

/// The extension of a file name.
pub fn extension_chars(name: &[char]) -> (r: Option<Vec<char>>)
    ensures
        match r {
            Some(e) => extension_of_name(name@) == Some(e@),
            None => extension_of_name(name@) is None,
        },
{
    match find_last_dot(name) {
        Some(d) => {
            assert(d < name.len());
            if d == 0 {
                None
            } else {
                Some(crate::text::slice_chars(name, d + 1, name.len()))
            }
        },
        None => None,
    }
}

/// The path with `.{suffix}` appended to its file name.
pub fn with_suffix_chars(s: &[char], suffix: &[char], os: &Os) -> (r: Vec<char>)
    ensures
        r@ == with_suffix(s@, suffix@, *os),
{
    match name_bounds(s, os) {
        Some((_b, t)) => {
            let mut out = crate::text::slice_chars(s, 0, t);
            out.push('.');
            crate::text::push_all(&mut out, suffix);
            assert(out@ =~= with_suffix(s@, suffix@, *os));
            out
        },
        None => {
            let out = crate::text::slice_chars(s, 0, s.len());
            assert(out@ =~= s@);
            out
        },
    }
}

/// The path with its extension replaced by `ext`.
pub fn with_extension_chars(s: &[char], ext: &[char], os: &Os) -> (r: Vec<char>)
    ensures
        r@ == with_extension_of(s@, ext@, *os),
{
    match name_bounds(s, os) {
        Some((b, t)) => {
            let name = crate::text::slice_chars(s, b, t);
            let stem_end = match extension_chars(name.as_slice()) {
                Some(e) => {
                    proof {
                        lemma_last_dot_bounds(name@, name@.len() as int);
                        let d = last_dot(name@, name@.len() as int);
                        assert(e@.len() == name@.len() - d - 1);
                    }
                    t - e.len() - 1
                },
                None => t,
            };
            let mut out = crate::text::slice_chars(s, 0, stem_end);
            out.push('.');
            crate::text::push_all(&mut out, ext);
            assert(out@ =~= with_extension_of(s@, ext@, *os));
            out
        },
        None => {
            let out = crate::text::slice_chars(s, 0, s.len());
            assert(out@ =~= s@);
            out
        },
    }
}

} // verus!
