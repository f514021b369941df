//! Paths as text: how a name is joined to a directory, what counts as
//! absolute, and where a file name's extension begins.
//!
//! Two notations are known. In the POSIX one `/` separates the segments and a
//! path that begins with `/` is absolute. In the Windows one `\` separates
//! them, `/` is accepted as well, and a path may begin with a drive (`C:`).
//!
//! The functions follow the path type of the standard library on the paths
//! that this library makes: a directory, and below it names of one or more
//! segments. Where they differ from it on other input, their comments say so.

use vstd::prelude::*;
use vstd::string::*;
use crate::text::chars_of;
use crate::text::followed_by;
use crate::text::find_last;
use crate::text::last_position;
use crate::text::lemma_last_position;
use crate::text::substring;
use crate::text::texts;

verus! {

/// The notation a path is written in.
#[derive(Debug, Clone, Copy, PartialEq, Eq, Structural)]
pub enum PathStyle {
    /// Segments separated by `/`.
    Posix,
    /// Segments separated by `\` or `/`, with an optional drive in front.
    Windows,
}

/// Whether `c` separates segments.
pub open spec fn is_separator(style: PathStyle, c: char) -> bool {
    match style {
        PathStyle::Posix => c == '/',
        PathStyle::Windows => c == '\\' || c == '/',
    }
}

/// The separator that `joined` writes.
pub open spec fn separator(style: PathStyle) -> char {
    match style {
        PathStyle::Posix => '/',
        PathStyle::Windows => '\\',
    }
}

/// Whether `path` begins with a drive: in Windows notation, any character
/// followed by `:`. (The standard library asks for a letter in front of the
/// colon.) POSIX notation has no drives.
pub open spec fn has_drive(style: PathStyle, path: Seq<char>) -> bool {
    style == PathStyle::Windows && path.len() >= 2 && path[1] == ':'
}

/// Whether `path` begins at a root or a drive, so that joining it to a
/// directory does not append it.
pub open spec fn rooted(style: PathStyle, path: Seq<char>) -> bool {
    path.len() > 0 && (is_separator(style, path[0]) || has_drive(style, path))
}

/// Whether `path` is absolute: in POSIX notation it begins with `/`; in
/// Windows notation it begins with a drive and a separator, or with two
/// separators.
pub open spec fn absolute(style: PathStyle, path: Seq<char>) -> bool {
    match style {
        PathStyle::Posix => path.len() > 0 && path[0] == '/',
        PathStyle::Windows => (path.len() >= 3 && path[1] == ':' && is_separator(style, path[2]))
            || (path.len() >= 2 && is_separator(style, path[0]) && is_separator(style, path[1])),
    }
}

/// `name` joined to the directory `base`, as pushing it onto a path does.
///
/// - A `name` that is absolute or begins with a drive replaces `base`.
/// - A `name` that begins with one separator keeps the drive of `base`,
///   where `base` has one, and replaces the rest: `\name` on `C:\dir` is
///   `C:\name`. Without a drive it replaces `base`.
/// - Any other `name` follows `base`, after a separator unless `base` is
///   empty, ends with a separator or is a bare drive (`C:`). An empty `name`
///   thus leaves a trailing separator.
///
/// The standard library also knows prefixes of the forms `\\server\share`
/// and `\\?\`, keeps them where a `name` begins with one separator, and
/// resolves `.` and `..` below a `\\?\` prefix. Here such a `base` counts
/// as having no drive.
pub open spec fn joined(style: PathStyle, base: Seq<char>, name: Seq<char>) -> Seq<char> {
    if rooted(style, name) {
        if has_drive(style, name) || absolute(style, name) || !has_drive(style, base) {
            name
        } else {
            base.take(2) + name
        }
    } else if base.len() == 0 || is_separator(style, base.last()) || (has_drive(style, base)
        && base.len() == 2) {
        base + name
    } else {
        base.push(separator(style)) + name
    }
}

/// `name` joined to each of `dirs`.
pub open spec fn named_in(style: PathStyle, dirs: Seq<Seq<char>>, name: Seq<char>) -> Seq<
    Seq<char>,
> {
    dirs.map_values(|dir: Seq<char>| joined(style, dir, name))
}

/// Index of the last separator in `path`, or `-1` where it holds none.
pub open spec fn last_separator(style: PathStyle, path: Seq<char>) -> int
    decreases path.len(),
{
    if path.len() == 0 {
        -1
    } else if is_separator(style, path.last()) {
        path.len() - 1
    } else {
        last_separator(style, path.drop_last())
    }
}

/// Index of the `.` that begins the extension of `path`'s file name, or `-1`
/// where it has none. The file name is what follows the last separator. It
/// has an extension if it holds a `.` that is not its first character, and it
/// is not `..`; the extension begins at the last `.`.
///
/// The standard library takes as file name the last segment that is a name:
/// it looks past separators at the end of the path and past a final `.`
/// segment. Here a path that ends with a separator has an empty file name
/// and so no extension, and a final `.` segment is a file name without one.
pub open spec fn extension_at(style: PathStyle, path: Seq<char>) -> int {
    let s = last_separator(style, path);
    let d = last_position(path, '.');
    if d > s + 1 && !(d == s + 2 && path.len() == d + 1 && path[d - 1] == '.') {
        d
    } else {
        -1
    }
}

/// `path` with `ext` as the extension of its file name, in place of the one
/// it has, if any: the path up to `extension_at`, or all of it, then `.` and
/// `ext`.
///
/// The standard library leaves a path without file name (one that is empty,
/// a root, or ends in `..`) as it is, drops separators at the end before it
/// sets the extension, and writes no `.` before an empty `ext`. Here `.` and
/// `ext` are appended in all these cases.
pub open spec fn extended(style: PathStyle, path: Seq<char>, ext: Seq<char>) -> Seq<char> {
    let d = extension_at(style, path);
    if 0 <= d <= path.len() {
        path.take(d).push('.') + ext
    } else {
        path.push('.') + ext
    }
}

/// Whether `path` holds an empty segment: two separators in a row, or a
/// separator at the end of a path that is more than a root.
pub open spec fn has_empty_segment(style: PathStyle, path: Seq<char>) -> bool {
    ||| exists|i: int|
        0 <= i < path.len() - 1 && is_separator(style, #[trigger] path[i]) && is_separator(
            style,
            path[i + 1],
        )
    ||| path.len() > 1 && is_separator(style, path.last())
}

/// Whether `name` can be one segment of a path: it is not empty and holds no
/// separator.
pub open spec fn is_segment(style: PathStyle, name: Seq<char>) -> bool {
    name.len() > 0 && forall|i: int| 0 <= i < name.len() ==> !is_separator(style, #[trigger] name[i])
}

/// Whether `path` has the form of a canonical directory: it is absolute and
/// does not end with a separator, unless it is a root.
pub open spec fn is_canonical(style: PathStyle, path: Seq<char>) -> bool {
    absolute(style, path) && (is_separator(style, path.last()) ==> !absolute(
        style,
        path.drop_last(),
    ))
}

/// Whether `text` holds no separator.
pub open spec fn without_separators(style: PathStyle, text: Seq<char>) -> bool {
    forall|i: int| 0 <= i < text.len() ==> !is_separator(style, #[trigger] text[i])
}

/// `dir` with a separator at its end: one is added where it has none.
pub open spec fn with_separator(style: PathStyle, dir: Seq<char>) -> Seq<char> {
    if dir.len() > 0 && is_separator(style, dir.last()) {
        dir
    } else {
        dir.push(separator(style))
    }
}

/// A name that is not rooted, joined to a canonical directory, is the
/// directory, a separator and the name.
pub proof fn lemma_joined_is_appended(style: PathStyle, dir: Seq<char>, name: Seq<char>)
    requires
        is_canonical(style, dir),
        !rooted(style, name),
    ensures
        joined(style, dir, name) == with_separator(style, dir) + name,
{
}

/// The `last_separator` is an index of the path, or `-1`.
pub proof fn lemma_last_separator_bounds(style: PathStyle, path: Seq<char>)
    ensures
        -1 <= last_separator(style, path) < path.len(),
    decreases path.len(),
{
    if path.len() > 0 && !is_separator(style, path.last()) {
        lemma_last_separator_bounds(style, path.drop_last());
    }
}

/// Behind a text that ends with a separator, the last separator is that of
/// what follows, or else this one.
pub proof fn lemma_last_separator_after(style: PathStyle, p: Seq<char>, t: Seq<char>)
    requires
        p.len() > 0,
        is_separator(style, p.last()),
    ensures
        last_separator(style, p + t) == p.len() + last_separator(style, t),
    decreases t.len(),
{
    if t.len() == 0 {
        assert(p + t =~= p);
    } else {
        assert((p + t).last() == t.last());
        assert((p + t).drop_last() =~= p + t.drop_last());
        if !is_separator(style, t.last()) {
            lemma_last_separator_after(style, p, t.drop_last());
        }
    }
}

/// What holds no separator does not move the last separator.
pub proof fn lemma_last_separator_before(style: PathStyle, q: Seq<char>, x: Seq<char>)
    requires
        without_separators(style, x),
    ensures
        last_separator(style, q + x) == last_separator(style, q),
    decreases x.len(),
{
    if x.len() == 0 {
        assert(q + x =~= q);
    } else {
        assert((q + x).last() == x.last());
        assert((q + x).drop_last() =~= q + x.drop_last());
        assert(!is_separator(style, x[x.len() - 1]));
        assert forall|i: int| 0 <= i < x.drop_last().len() implies !is_separator(
            style,
            #[trigger] x.drop_last()[i],
        ) by {
            assert(x.drop_last()[i] == x[i]);
        }
        lemma_last_separator_before(style, q, x.drop_last());
    }
}

/// A name below a directory has an extension exactly where the name has
/// one, and at the same place.
pub proof fn lemma_extension_below_directory(style: PathStyle, p: Seq<char>, name: Seq<char>)
    requires
        p.len() > 0,
        is_separator(style, p.last()),
    ensures
        extension_at(style, p + name) == if extension_at(style, name) >= 0 {
            p.len() + extension_at(style, name)
        } else {
            -1
        },
{
    lemma_last_separator_after(style, p, name);
    crate::text::lemma_last_position_after(p, name, '.');
    crate::text::lemma_last_position(p, '.');
    crate::text::lemma_last_position(name, '.');
    lemma_last_separator_bounds(style, name);
    let d = last_position(name, '.');
    let s = last_separator(style, name);
    if d >= 0 {
        if d >= 1 {
            assert((p + name)[p.len() + d - 1] == name[d - 1]);
        }
    } else {
        assert(!is_separator(style, '.'));
        if last_position(p, '.') >= 0 {
            assert(p[last_position(p, '.')] == '.');
        }
    }
}

/// Two paths of the same name below canonical directories, each with
/// something behind it that holds no separator, are equal only where the
/// directories are the same and what stands behind the name is the same.
pub proof fn lemma_candidates_differ(
    style: PathStyle,
    d1: Seq<char>,
    d2: Seq<char>,
    name: Seq<char>,
    x1: Seq<char>,
    x2: Seq<char>,
)
    requires
        is_canonical(style, d1),
        is_canonical(style, d2),
        without_separators(style, x1),
        without_separators(style, x2),
        with_separator(style, d1) + name + x1 == with_separator(style, d2) + name + x2,
    ensures
        d1 == d2,
        x1 == x2,
{
    let p1 = with_separator(style, d1);
    let p2 = with_separator(style, d2);
    let r = p1 + name + x1;
    lemma_last_separator_before(style, p1 + name, x1);
    lemma_last_separator_before(style, p2 + name, x2);
    lemma_last_separator_after(style, p1, name);
    lemma_last_separator_after(style, p2, name);
    assert(p1.len() == p2.len());
    assert(p1 =~= r.take(p1.len() as int));
    assert(p2 =~= r.take(p2.len() as int));
    assert(x1 =~= r.skip((p1.len() + name.len()) as int));
    assert(x2 =~= r.skip((p2.len() + name.len()) as int));
    if d1 != d2 {
        if is_separator(style, d1.last()) && !is_separator(style, d2.last()) {
            assert(d1.drop_last() =~= d2);
        } else if is_separator(style, d2.last()) && !is_separator(style, d1.last()) {
            assert(d2.drop_last() =~= d1);
        } else if !is_separator(style, d1.last()) {
            assert(d1 =~= p1.drop_last());
            assert(d2 =~= p2.drop_last());
        }
    }
}

/// No separator stands after the `last_separator`.
pub proof fn lemma_last_separator_is_last(style: PathStyle, path: Seq<char>, k: int)
    requires
        0 <= k < path.len(),
        is_separator(style, path[k]),
    ensures
        k <= last_separator(style, path) < path.len(),
    decreases path.len(),
{
    if !is_separator(style, path.last()) {
        lemma_last_separator_is_last(style, path.drop_last(), k);
    }
}

/// A name joined to an absolute directory is absolute, unless the name is
/// rooted and takes the directory's place.
pub proof fn lemma_joined_keeps_absolute(style: PathStyle, base: Seq<char>, name: Seq<char>)
    requires
        absolute(style, base),
        !rooted(style, name),
    ensures
        absolute(style, joined(style, base, name)),
{
    let r = joined(style, base, name);
    assert(forall|k: int| 0 <= k < base.len() ==> r[k] == base[k]);
}

/// An absolute path stays absolute when its extension is set.
pub proof fn lemma_extended_keeps_absolute(style: PathStyle, path: Seq<char>, ext: Seq<char>)
    requires
        absolute(style, path),
    ensures
        absolute(style, extended(style, path, ext)),
{
    let r = extended(style, path, ext);
    let d = extension_at(style, path);
    crate::text::lemma_last_position(path, '.');
    if style == PathStyle::Posix || !(path.len() >= 3 && path[1] == ':' && is_separator(
        style,
        path[2],
    )) {
        lemma_last_separator_is_last(style, path, 0);
        if style == PathStyle::Windows {
            lemma_last_separator_is_last(style, path, 1);
        }
    } else {
        lemma_last_separator_is_last(style, path, 2);
    }
    if 0 <= d <= path.len() {
        assert(forall|k: int| 0 <= k < d ==> r[k] == path[k]);
    } else {
        assert(forall|k: int| 0 <= k < path.len() ==> r[k] == path[k]);
    }
}

/// An index with a separator, or `-1`, after which there is no separator, is
/// the `last_separator`.
pub proof fn lemma_last_separator_is(style: PathStyle, path: Seq<char>, i: int)
    requires
        -1 <= i < path.len(),
        i >= 0 ==> is_separator(style, path[i]),
        forall|k: int| i < k < path.len() ==> !is_separator(style, path[k]),
    ensures
        last_separator(style, path) == i,
    decreases path.len(),
{
    if path.len() > 0 && i < path.len() - 1 {
        lemma_last_separator_is(style, path.drop_last(), i);
    }
}

/// Joining a segment to a path without an empty segment gives a path without
/// an empty segment.
pub proof fn lemma_joined_segment(style: PathStyle, base: Seq<char>, name: Seq<char>)
    requires
        !has_empty_segment(style, base),
        is_segment(style, name),
    ensures
        !has_empty_segment(style, joined(style, base, name)),
{
    let r = joined(style, base, name);
    assert(!is_separator(style, name[0]));
    assert(!is_separator(style, name.last()));
    if rooted(style, name) {
        assert(r == name);
    } else if base.len() == 0 || is_separator(style, base.last()) || (has_drive(style, base)
        && base.len() == 2) {
        assert(r.last() == name.last());
        assert forall|i: int| 0 <= i < r.len() - 1 && is_separator(style, #[trigger] r[i])
            implies !is_separator(style, r[i + 1]) by {
            if i + 1 < base.len() {
                assert(r[i] == base[i]);
                assert(r[i + 1] == base[i + 1]);
            } else {
                assert(r[i + 1] == name[i + 1 - base.len()]);
            }
        }
    } else {
        let b = base.len() as int;
        assert(r.last() == name.last());
        assert forall|i: int| 0 <= i < r.len() - 1 && is_separator(style, #[trigger] r[i])
            implies !is_separator(style, r[i + 1]) by {
            if i + 1 < b {
                assert(r[i] == base[i]);
                assert(r[i + 1] == base[i + 1]);
            } else if i + 1 == b {
                assert(r[i] == base.last());
            } else {
                assert(r[i + 1] == name[i - b]);
            }
        }
    }
}

/// The separator that `join` writes, as text.
fn separator_text(style: PathStyle) -> (r: &'static str)
    ensures
        r@ == seq![separator(style)],
{
    proof {
        reveal_strlit("/");
        reveal_strlit("\\");
    }
    match style {
        PathStyle::Posix => {
            assert("/"@ =~= seq!['/']);
            "/"
        },
        PathStyle::Windows => {
            assert("\\"@ =~= seq!['\\']);
            "\\"
        },
    }
}

/// Whether `c` separates segments.
pub fn separates(style: PathStyle, c: char) -> (r: bool)
    ensures
        r == is_separator(style, c),
{
    match style {
        PathStyle::Posix => c == '/',
        PathStyle::Windows => c == '\\' || c == '/',
    }
}

fn starts_with_drive(style: PathStyle, v: &Vec<char>) -> (r: bool)
    ensures
        r == has_drive(style, v@),
{
    match style {
        PathStyle::Posix => false,
        PathStyle::Windows => v.len() >= 2 && v[1] == ':',
    }
}

fn is_rooted(style: PathStyle, v: &Vec<char>) -> (r: bool)
    ensures
        r == rooted(style, v@),
{
    v.len() > 0 && (separates(style, v[0]) || starts_with_drive(style, v))
}

fn is_absolute_text(style: PathStyle, v: &Vec<char>) -> (r: bool)
    ensures
        r == absolute(style, v@),
{
    match style {
        PathStyle::Posix => v.len() > 0 && v[0] == '/',
        PathStyle::Windows => (v.len() >= 3 && v[1] == ':' && separates(style, v[2])) || (v.len()
            >= 2 && separates(style, v[0]) && separates(style, v[1])),
    }
}

/// Whether `path` is absolute.
pub fn is_absolute(style: PathStyle, path: &str) -> (r: bool)
    ensures
        r == absolute(style, path@),
{
    let v = chars_of(path);
    is_absolute_text(style, &v)
}

/// `name` joined to the directory `base`.
pub fn join(style: PathStyle, base: &str, name: &str) -> (r: String)
    ensures
        r@ == joined(style, base@, name@),
{
    let n = chars_of(name);
    let b = chars_of(base);
    if is_rooted(style, &n) {
        if starts_with_drive(style, &n) || is_absolute_text(style, &n) || !starts_with_drive(
            style,
            &b,
        ) {
            return String::from_str(name);
        }
        let drive = substring(base, 0, 2);
        assert(drive@ == base@.take(2));
        return followed_by(drive.as_str(), name);
    }
    if b.len() == 0 || separates(style, b[b.len() - 1]) || (starts_with_drive(style, &b) && b.len()
        == 2) {
        followed_by(base, name)
    } else {
        let mut r = followed_by(base, separator_text(style));
        r.append(name);
        assert(base@ + seq![separator(style)] =~= base@.push(separator(style)));
        r
    }
}

/// `name` joined to each of `dirs`.
pub fn join_each(style: PathStyle, dirs: &Vec<String>, name: &str) -> (r: Vec<String>)
    ensures
        texts(r@) == named_in(style, texts(dirs@), name@),
{
    let mut r: Vec<String> = Vec::new();
    let mut i: usize = 0;
    while i < dirs.len()
        invariant
            i <= dirs.len(),
            r.len() == i,
            forall|k: int| 0 <= k < i ==> r@[k]@ == joined(style, dirs@[k]@, name@),
        decreases dirs.len() - i,
    {
        r.push(join(style, dirs[i].as_str(), name));
        i += 1;
    }
    assert(texts(r@) =~= named_in(style, texts(dirs@), name@));
    r
}

fn find_last_separator(style: PathStyle, v: &Vec<char>) -> (r: Option<usize>)
    ensures
        match r {
            Some(i) => i == last_separator(style, v@) && i < v.len(),
            None => last_separator(style, v@) == -1,
        },
{
    let mut i: usize = v.len();
    while i > 0
        invariant
            i <= v.len(),
            forall|k: int| i <= k < v.len() ==> !is_separator(style, v@[k]),
        decreases i,
    {
        i -= 1;
        if separates(style, v[i]) {
            proof {
                lemma_last_separator_is(style, v@, i as int);
            }
            return Some(i);
        }
    }
    proof {
        lemma_last_separator_is(style, v@, -1);
    }
    None
}

fn find_extension(style: PathStyle, v: &Vec<char>) -> (r: Option<usize>)
    ensures
        match r {
            Some(d) => d == extension_at(style, v@) && d < v.len(),
            None => extension_at(style, v@) == -1,
        },
{
    let name_start: usize = match find_last_separator(style, v) {
        Some(s) => s + 1,
        None => 0,
    };
    match find_last(v, '.') {
        Some(d) => {
            proof {
                lemma_last_position(v@, '.');
            }
            if d > name_start && !(d == name_start + 1 && v.len() == d + 1 && v[d - 1] == '.') {
                Some(d)
            } else {
                None
            }
        },
        None => None,
    }
}

/// Whether the file name of `path` has an extension.
pub fn has_extension(style: PathStyle, path: &str) -> (r: bool)
    ensures
        r == (extension_at(style, path@) >= 0),
{
    let v = chars_of(path);
    find_extension(style, &v).is_some()
}

/// `path` with `ext` as the extension of its file name.
pub fn with_extension(style: PathStyle, path: &str, ext: &str) -> (r: String)
    ensures
        r@ == extended(style, path@, ext@),
{
    proof {
        reveal_strlit(".");
        assert("."@ =~= seq!['.']);
    }
    let v = chars_of(path);
    let mut r = match find_extension(style, &v) {
        Some(d) => {
            let stem = substring(path, 0, d);
            assert(stem@ == path@.take(d as int));
            stem
        },
        None => String::from_str(path),
    };
    let ghost stem = r@;
    r.append(".");
    r.append(ext);
    assert(stem + seq!['.'] =~= stem.push('.'));
    r
}

} // verus!
