//! The search for executables: which directories are searched, which paths
//! are tried in them, and which of those count.

use vstd::prelude::*;
use vstd::seq_lib::lemma_no_dup_in_concat;
use vstd::string::*;
use crate::error::found_paths;
use crate::filesystem::is_dir;
use crate::filesystem::FileSystem;
use crate::filesystem::Files;
use crate::path::absolute;
use crate::path::extended;
use crate::path::extension_at;
use crate::path::has_extension;
use crate::path::is_absolute;
use crate::path::join;
use crate::path::join_each;
use crate::path::is_canonical;
use crate::path::is_separator;
use crate::path::joined;
use crate::path::lemma_candidates_differ;
use crate::path::lemma_extension_below_directory;
use crate::path::lemma_joined_is_appended;
use crate::path::with_separator;
use crate::path::without_separators;
use crate::path::lemma_extended_keeps_absolute;
use crate::path::lemma_joined_keeps_absolute;
use crate::path::rooted;
use crate::path::named_in;
use crate::path::with_extension;
use crate::path::PathStyle;
use crate::platform::Platform;
use crate::text::contains_text;
use crate::text::distinct;
use crate::text::lemma_distinct;
use crate::text::lemma_filter_keeps_distinct;
use crate::text::lemma_flat_map_member;
use crate::text::texts;

verus! {

/// Whether a directory given to the search is searched at all: its path is
/// not empty and a directory is there.
pub open spec fn searchable(files: Files, dir: Seq<char>) -> bool {
    dir.len() > 0 && is_dir(files, dir)
}

/// The directories that are searched: those of `paths` that are searchable,
/// in the platform's canonical form, each once, in the order in which they
/// first occur.
pub open spec fn search_directories<P: Platform>(
    platform: &P,
    files: Files,
    paths: Seq<Seq<char>>,
) -> Seq<Seq<char>> {
    distinct(
        paths.filter(|dir: Seq<char>| searchable(files, dir)).map_values(
            |dir: Seq<char>| platform.canonical_directory(files, dir),
        ),
    )
}

/// `path` with each of `exts` as its extension.
pub open spec fn extension_variants(style: PathStyle, path: Seq<char>, exts: Seq<Seq<char>>) -> Seq<
    Seq<char>,
> {
    exts.map_values(|ext: Seq<char>| extended(style, path, ext))
}

/// `name` in each of `dirs` with each of `exts` as its extension: directory
/// by directory, and within one directory in the order of `exts`.
pub open spec fn extension_candidates(
    style: PathStyle,
    dirs: Seq<Seq<char>>,
    name: Seq<char>,
    exts: Seq<Seq<char>>,
) -> Seq<Seq<char>> {
    dirs.flat_map(|dir: Seq<char>| extension_variants(style, joined(style, dir, name), exts))
}

/// Those of `candidates` that can be executed, in their order.
pub open spec fn executables<P: Platform>(platform: &P, files: Files, candidates: Seq<Seq<char>>) -> Seq<
    Seq<char>,
> {
    candidates.filter(|path: Seq<char>| platform.executable(files, path))
}

/// Every executable that `name` stands for.
///
/// An absolute `name` is tested itself and no directory is searched; where
/// it cannot be executed and the platform says so, it is tested with each
/// extension. Any other `name` is tested in each of the search directories;
/// where it has no extension, it is then tested with each extension in each
/// of them. The matches of the first round come before those of the second.
pub open spec fn matches<P: Platform>(
    platform: &P,
    files: Files,
    name: Seq<char>,
    paths: Seq<Seq<char>>,
) -> Seq<Seq<char>> {
    let style = platform.style();
    if absolute(style, name) {
        if platform.executable(files, name) {
            seq![name]
        } else if platform.extends_absolute() {
            executables(platform, files, extension_variants(style, name, platform.extensions()))
        } else {
            Seq::empty()
        }
    } else {
        let dirs = search_directories(platform, files, paths);
        let plain = executables(platform, files, named_in(style, dirs, name));
        if extension_at(style, name) >= 0 {
            plain
        } else {
            plain + executables(
                platform,
                files,
                extension_candidates(style, dirs, name, platform.extensions()),
            )
        }
    }
}

/// The executables that `name` stands for, or nothing where there is none.
pub open spec fn find_executables<P: Platform>(
    platform: &P,
    files: Files,
    name: Seq<char>,
    paths: Seq<Seq<char>>,
) -> Option<Seq<Seq<char>>> {
    let found = matches(platform, files, name, paths);
    if found.len() == 0 {
        None
    } else {
        Some(found)
    }
}

/// Whether the file system is well formed for the platform: what it gives
/// as canonical form of a directory that can be searched is the form of a
/// canonical directory, absolute and without a separator at its end.
pub open spec fn well_formed<P: Platform>(platform: &P, files: Files) -> bool {
    forall|dir: Seq<char>| #[trigger]
        searchable(files, dir) ==> is_canonical(
            platform.style(),
            platform.canonical_directory(files, dir),
        )
}

/// Whether the extensions are plain: none occurs twice and none holds a
/// separator.
pub open spec fn plain_extensions(style: PathStyle, exts: Seq<Seq<char>>) -> bool {
    exts.no_duplicates() && forall|k: int|
        0 <= k < exts.len() ==> without_separators(style, #[trigger] exts[k])
}

/// What stands behind a name that is tried with the extension `ext`.
pub open spec fn dotted(ext: Seq<char>) -> Seq<char> {
    seq!['.'] + ext
}

/// No directory is searched twice: the search directories hold no canonical
/// form more than once, however often and in whatever spelling `paths` name
/// a directory; they hold the canonical form of every searchable path, and
/// nothing else.
pub proof fn lemma_search_directories_are_distinct<P: Platform>(
    platform: &P,
    files: Files,
    paths: Seq<Seq<char>>,
)
    ensures
        search_directories(platform, files, paths).no_duplicates(),
        search_directories(platform, files, paths).len() <= paths.len(),
        forall|i: int|
            0 <= i < paths.len() && searchable(files, #[trigger] paths[i]) ==> search_directories(
                platform,
                files,
                paths,
            ).contains(platform.canonical_directory(files, paths[i])),
        forall|dir: Seq<char>| #[trigger]
            search_directories(platform, files, paths).contains(dir) ==> exists|i: int|
                0 <= i < paths.len() && searchable(files, #[trigger] paths[i])
                    && platform.canonical_directory(files, paths[i]) == dir,
{
    let keep = |dir: Seq<char>| searchable(files, dir);
    let form = |dir: Seq<char>| platform.canonical_directory(files, dir);
    let kept = paths.filter(keep);
    let forms = kept.map_values(form);
    let dirs = search_directories(platform, files, paths);
    lemma_distinct(forms);
    paths.lemma_filter_len(keep);
    assert forall|i: int| 0 <= i < paths.len() && searchable(files, #[trigger] paths[i])
        implies dirs.contains(platform.canonical_directory(files, paths[i])) by {
        paths.lemma_filter_contains(keep, i);
        let k = choose|k: int| 0 <= k < kept.len() && kept[k] == paths[i];
        assert(forms[k] == form(paths[i]));
        assert(forms.contains(form(paths[i])));
    }
    assert forall|dir: Seq<char>| #[trigger] dirs.contains(dir) implies exists|i: int|
        0 <= i < paths.len() && searchable(files, #[trigger] paths[i])
            && platform.canonical_directory(files, paths[i]) == dir by {
        assert(forms.contains(dir));
        let m = choose|m: int| 0 <= m < forms.len() && forms[m] == dir;
        paths.lemma_filter_pred(keep, m);
        assert(kept.contains(kept[m]));
        paths.lemma_filter_contains_rev(keep, kept[m]);
        let i = choose|i: int| 0 <= i < paths.len() && paths[i] == kept[m];
        assert(searchable(files, paths[i]));
    }
}

/// Every match can be executed.
pub proof fn lemma_matches_are_executable<P: Platform>(
    platform: &P,
    files: Files,
    name: Seq<char>,
    paths: Seq<Seq<char>>,
    i: int,
)
    requires
        0 <= i < matches(platform, files, name, paths).len(),
    ensures
        platform.executable(files, matches(platform, files, name, paths)[i]),
{
    let style = platform.style();
    let exts = platform.extensions();
    let runs = |path: Seq<char>| platform.executable(files, path);
    if absolute(style, name) {
        if !platform.executable(files, name) && platform.extends_absolute() {
            extension_variants(style, name, exts).lemma_filter_pred(runs, i);
        }
    } else {
        let dirs = search_directories(platform, files, paths);
        let candidates = named_in(style, dirs, name);
        let plain = executables(platform, files, candidates);
        if i < plain.len() {
            candidates.lemma_filter_pred(runs, i);
        } else {
            extension_candidates(style, dirs, name, exts).lemma_filter_pred(runs, i - plain.len());
        }
    }
}

/// Every match is an absolute path, where the file system is well formed
/// and `name` is absolute or can be joined to a directory.
pub proof fn lemma_matches_are_absolute<P: Platform>(
    platform: &P,
    files: Files,
    name: Seq<char>,
    paths: Seq<Seq<char>>,
    i: int,
)
    requires
        well_formed(platform, files),
        absolute(platform.style(), name) || !rooted(platform.style(), name),
        0 <= i < matches(platform, files, name, paths).len(),
    ensures
        absolute(platform.style(), matches(platform, files, name, paths)[i]),
{
    let style = platform.style();
    let exts = platform.extensions();
    let found = matches(platform, files, name, paths);
    let x = found[i];
    let runs = |path: Seq<char>| platform.executable(files, path);
    if absolute(style, name) {
        if !platform.executable(files, name) && platform.extends_absolute() {
            let variants = extension_variants(style, name, exts);
            assert(variants.filter(runs).contains(x));
            variants.lemma_filter_contains_rev(runs, x);
            let k = choose|k: int| 0 <= k < variants.len() && variants[k] == x;
            lemma_extended_keeps_absolute(style, name, exts[k]);
        }
    } else {
        let dirs = search_directories(platform, files, paths);
        lemma_search_directories_are_distinct(platform, files, paths);
        let plain_candidates = named_in(style, dirs, name);
        let plain = executables(platform, files, plain_candidates);
        if i < plain.len() {
            assert(plain[i] == x);
            assert(plain.contains(x));
            plain_candidates.lemma_filter_contains_rev(runs, x);
            let k = choose|k: int| 0 <= k < plain_candidates.len() && plain_candidates[k] == x;
            assert(dirs.contains(dirs[k]));
            lemma_joined_keeps_absolute(style, dirs[k], name);
        } else {
            let variants = |dir: Seq<char>| extension_variants(style, joined(style, dir, name), exts);
            let candidates = extension_candidates(style, dirs, name, exts);
            let more = executables(platform, files, candidates);
            assert(more[i - plain.len()] == x);
            assert(more.contains(x));
            candidates.lemma_filter_contains_rev(runs, x);
            lemma_flat_map_member(dirs, variants, x);
            let a = choose|a: int| 0 <= a < dirs.len() && variants(#[trigger] dirs[a]).contains(x);
            let of_dir = variants(dirs[a]);
            let k = choose|k: int| 0 <= k < of_dir.len() && of_dir[k] == x;
            assert(dirs.contains(dirs[a]));
            lemma_joined_keeps_absolute(style, dirs[a], name);
            lemma_extended_keeps_absolute(style, joined(style, dirs[a], name), exts[k]);
        }
    }
}

/// A name with an extension tried on it, below a canonical directory, is the
/// directory, a separator, the name, a dot and the extension.
proof fn lemma_variant_form(
    style: PathStyle,
    dir: Seq<char>,
    name: Seq<char>,
    exts: Seq<Seq<char>>,
    k: int,
)
    requires
        is_canonical(style, dir),
        !rooted(style, name),
        extension_at(style, name) < 0,
        0 <= k < exts.len(),
    ensures
        extension_variants(style, joined(style, dir, name), exts)[k] == with_separator(style, dir)
            + name + dotted(exts[k]),
{
    lemma_joined_is_appended(style, dir, name);
    lemma_extension_below_directory(style, with_separator(style, dir), name);
    let path = with_separator(style, dir) + name;
    assert(path.push('.') + exts[k] =~= path + dotted(exts[k]));
}

/// What stands behind a name that is tried with a plain extension holds no
/// separator.
proof fn lemma_dotted_is_plain(style: PathStyle, ext: Seq<char>)
    requires
        without_separators(style, ext),
    ensures
        without_separators(style, dotted(ext)),
{
    let x = dotted(ext);
    assert forall|i: int| 0 <= i < x.len() implies !is_separator(style, #[trigger] x[i]) by {
        if i > 0 {
            assert(x[i] == ext[i - 1]);
        }
    }
}

/// The candidates of the second round, for the first `n` directories, hold
/// no path twice.
proof fn lemma_extension_candidates_are_distinct(
    style: PathStyle,
    dirs: Seq<Seq<char>>,
    name: Seq<char>,
    exts: Seq<Seq<char>>,
    n: int,
)
    requires
        dirs.no_duplicates(),
        forall|a: int| 0 <= a < dirs.len() ==> is_canonical(style, #[trigger] dirs[a]),
        !rooted(style, name),
        extension_at(style, name) < 0,
        plain_extensions(style, exts),
        0 <= n <= dirs.len(),
    ensures
        extension_candidates(style, dirs.take(n), name, exts).no_duplicates(),
    decreases n,
{
    let variants = |dir: Seq<char>| extension_variants(style, joined(style, dir, name), exts);
    if n == 0 {
        assert(dirs.take(0).map_values(variants) =~= Seq::<Seq<Seq<char>>>::empty());
        assert(dirs.take(0).flat_map(variants) =~= Seq::<Seq<char>>::empty());
    } else {
        lemma_extension_candidates_are_distinct(style, dirs, name, exts, n - 1);
        dirs.lemma_flat_map_take_append(variants, n - 1);
        let before = dirs.take(n - 1).flat_map(variants);
        let dir = dirs[n - 1];
        let added = variants(dir);
        assert forall|i: int, j: int| 0 <= i < added.len() && 0 <= j < added.len() && i
            != j implies added[i] != added[j] by {
            lemma_variant_form(style, dir, name, exts, i);
            lemma_variant_form(style, dir, name, exts, j);
            lemma_dotted_is_plain(style, exts[i]);
            lemma_dotted_is_plain(style, exts[j]);
            if added[i] == added[j] {
                lemma_candidates_differ(style, dir, dir, name, dotted(exts[i]), dotted(exts[j]));
                assert(exts[i] =~= dotted(exts[i]).skip(1));
                assert(exts[j] =~= dotted(exts[j]).skip(1));
            }
        }
        assert forall|i: int, j: int| 0 <= i < before.len() && 0 <= j < added.len() implies before[i]
            != added[j] by {
            if before[i] == added[j] {
                let x = before[i];
                assert(before.contains(x));
                lemma_flat_map_member(dirs.take(n - 1), variants, x);
                let a = choose|a: int|
                    0 <= a < dirs.take(n - 1).len() && variants(
                        #[trigger] dirs.take(n - 1)[a],
                    ).contains(x);
                assert(dirs.take(n - 1)[a] == dirs[a]);
                let of_dir = variants(dirs[a]);
                let k = choose|k: int| 0 <= k < of_dir.len() && of_dir[k] == x;
                lemma_variant_form(style, dirs[a], name, exts, k);
                lemma_variant_form(style, dir, name, exts, j);
                lemma_dotted_is_plain(style, exts[k]);
                lemma_dotted_is_plain(style, exts[j]);
                lemma_candidates_differ(style, dirs[a], dir, name, dotted(exts[k]), dotted(exts[j]));
                assert(dirs[a] == dirs[n - 1]);
            }
        }
        lemma_no_dup_in_concat(before, added);
    }
}

/// No match is found twice: the matches hold no path twice, where the file
/// system is well formed, the extensions are plain, and `name` is absolute
/// or can be joined to a directory.
pub proof fn lemma_matches_are_distinct<P: Platform>(
    platform: &P,
    files: Files,
    name: Seq<char>,
    paths: Seq<Seq<char>>,
)
    requires
        well_formed(platform, files),
        plain_extensions(platform.style(), platform.extensions()),
        absolute(platform.style(), name) || !rooted(platform.style(), name),
    ensures
        matches(platform, files, name, paths).no_duplicates(),
{
    let style = platform.style();
    let exts = platform.extensions();
    let runs = |path: Seq<char>| platform.executable(files, path);
    if absolute(style, name) {
        if !platform.executable(files, name) && platform.extends_absolute() {
            let variants = extension_variants(style, name, exts);
            assert forall|i: int, j: int|
                0 <= i < variants.len() && 0 <= j < variants.len() && i != j implies variants[i]
                != variants[j] by {
                let d = extension_at(style, name);
                let stem = if 0 <= d <= name.len() {
                    name.take(d).push('.')
                } else {
                    name.push('.')
                };
                assert(exts[i] =~= (stem + exts[i]).skip(stem.len() as int));
                assert(exts[j] =~= (stem + exts[j]).skip(stem.len() as int));
            }
            lemma_filter_keeps_distinct(variants, runs);
        }
    } else {
        let dirs = search_directories(platform, files, paths);
        lemma_search_directories_are_distinct(platform, files, paths);
        assert forall|a: int| 0 <= a < dirs.len() implies is_canonical(style, #[trigger] dirs[a]) by {
            assert(dirs.contains(dirs[a]));
        }
        let plain = named_in(style, dirs, name);
        let none = Seq::<char>::empty();
        assert forall|a: int, b: int| 0 <= a < plain.len() && 0 <= b < plain.len() && a
            != b implies plain[a] != plain[b] by {
            lemma_joined_is_appended(style, dirs[a], name);
            lemma_joined_is_appended(style, dirs[b], name);
            if plain[a] == plain[b] {
                assert(with_separator(style, dirs[a]) + name + none =~= plain[a]);
                assert(with_separator(style, dirs[b]) + name + none =~= plain[b]);
                lemma_candidates_differ(style, dirs[a], dirs[b], name, none, none);
            }
        }
        if extension_at(style, name) >= 0 {
            lemma_filter_keeps_distinct(plain, runs);
        } else {
            let variants = |dir: Seq<char>| extension_variants(style, joined(style, dir, name), exts);
            let more = extension_candidates(style, dirs, name, exts);
            assert(dirs.take(dirs.len() as int) == dirs);
            lemma_extension_candidates_are_distinct(style, dirs, name, exts, dirs.len() as int);
            assert forall|i: int, j: int| 0 <= i < plain.len() && 0 <= j < more.len() implies plain[i]
                != more[j] by {
                if plain[i] == more[j] {
                    let x = more[j];
                    assert(more.contains(x));
                    lemma_flat_map_member(dirs, variants, x);
                    let a = choose|a: int|
                        0 <= a < dirs.len() && variants(#[trigger] dirs[a]).contains(x);
                    let of_dir = variants(dirs[a]);
                    let k = choose|k: int| 0 <= k < of_dir.len() && of_dir[k] == x;
                    lemma_variant_form(style, dirs[a], name, exts, k);
                    lemma_dotted_is_plain(style, exts[k]);
                    lemma_joined_is_appended(style, dirs[i], name);
                    assert(with_separator(style, dirs[i]) + name + none =~= plain[i]);
                    lemma_candidates_differ(style, dirs[i], dirs[a], name, none, dotted(exts[k]));
                    assert(dotted(exts[k]).len() > 0);
                }
            }
            lemma_no_dup_in_concat(plain, more);
            Seq::filter_distributes_over_add(plain, more, runs);
            lemma_filter_keeps_distinct(plain + more, runs);
        }
    }
}

/// The directories that are searched for executables.
pub fn collect_search_directories<P: Platform>(
    platform: &P,
    files: &FileSystem,
    paths: &Vec<String>,
) -> (dirs: Vec<String>)
    ensures
        texts(dirs@) == search_directories(platform, files@, texts(paths@)),
{
    let ghost all = texts(paths@);
    let ghost keep = |dir: Seq<char>| searchable(files@, dir);
    let ghost form = |dir: Seq<char>| platform.canonical_directory(files@, dir);
    let mut dirs: Vec<String> = Vec::new();
    let mut i: usize = 0;
    proof {
        assert(all.take(0) =~= Seq::<Seq<char>>::empty());
        assert(all.take(0).filter(keep) =~= Seq::<Seq<char>>::empty()) by {
            reveal(Seq::filter);
        }
        assert(all.take(0).filter(keep).map_values(form) =~= Seq::<Seq<char>>::empty());
    }
    while i < paths.len()
        invariant
            i <= paths.len(),
            all == texts(paths@),
            keep == |dir: Seq<char>| searchable(files@, dir),
            form == |dir: Seq<char>| platform.canonical_directory(files@, dir),
            texts(dirs@) == distinct(all.take(i as int).filter(keep).map_values(form)),
        decreases paths.len() - i,
    {
        let ghost before = all.take(i as int);
        let ghost dir = paths@[i as int]@;
        proof {
            assert(all.take(i + 1) =~= before.push(dir));
            before.lemma_filter_push(dir, keep);
        }
        let path = paths[i].as_str();
        if !path.is_empty() && files.is_dir(path) {
            let canonical = platform.canonicalize_directory(files, path);
            let ghost forms = before.filter(keep).map_values(form);
            proof {
                assert(before.filter(keep).push(dir).map_values(form) =~= forms.push(canonical@));
                assert(forms.push(canonical@).drop_last() =~= forms);
            }
            if !contains_text(&dirs, canonical.as_str()) {
                let ghost kept = texts(dirs@);
                dirs.push(canonical);
                assert(texts(dirs@) =~= kept.push(form(dir)));
            }
        }
        i += 1;
    }
    assert(all.take(paths.len() as int) == all);
    dirs
}

/// `path` with each of `exts` as its extension.
pub fn collect_extension_variants(style: PathStyle, path: &str, exts: &Vec<String>) -> (r: Vec<
    String,
>)
    ensures
        texts(r@) == extension_variants(style, path@, texts(exts@)),
{
    let mut r: Vec<String> = Vec::new();
    let mut i: usize = 0;
    while i < exts.len()
        invariant
            i <= exts.len(),
            r.len() == i,
            forall|k: int| 0 <= k < i ==> r@[k]@ == extended(style, path@, exts@[k]@),
        decreases exts.len() - i,
    {
        r.push(with_extension(style, path, exts[i].as_str()));
        i += 1;
    }
    assert(texts(r@) =~= extension_variants(style, path@, texts(exts@)));
    r
}

/// `name` in each of `dirs` with each of `exts` as its extension.
pub fn collect_extension_candidates(
    style: PathStyle,
    dirs: &Vec<String>,
    name: &str,
    exts: &Vec<String>,
) -> (r: Vec<String>)
    ensures
        texts(r@) == extension_candidates(style, texts(dirs@), name@, texts(exts@)),
{
    let ghost all = texts(dirs@);
    let ghost variants = |dir: Seq<char>|
        extension_variants(style, joined(style, dir, name@), texts(exts@));
    let mut r: Vec<String> = Vec::new();
    let mut i: usize = 0;
    proof {
        assert(all.take(0).map_values(variants) =~= Seq::<Seq<Seq<char>>>::empty());
        assert(all.take(0).flat_map(variants) =~= Seq::<Seq<char>>::empty());
    }
    while i < dirs.len()
        invariant
            i <= dirs.len(),
            all == texts(dirs@),
            variants == |dir: Seq<char>|
                extension_variants(style, joined(style, dir, name@), texts(exts@)),
            texts(r@) == all.take(i as int).flat_map(variants),
        decreases dirs.len() - i,
    {
        proof {
            all.lemma_flat_map_take_append(variants, i as int);
        }
        let path = join(style, dirs[i].as_str(), name);
        let mut more = collect_extension_variants(style, path.as_str(), exts);
        let ghost before = texts(r@);
        let ghost added = texts(more@);
        r.append(&mut more);
        assert(texts(r@) =~= before + added);
        i += 1;
    }
    assert(all.take(dirs.len() as int) == all);
    r
}

/// Those of `candidates` that can be executed, in their order.
pub fn keep_executables<P: Platform>(platform: &P, files: &FileSystem, candidates: Vec<String>) -> (r:
    Vec<String>)
    ensures
        texts(r@) == executables(platform, files@, texts(candidates@)),
{
    let ghost all = texts(candidates@);
    let ghost runs = |path: Seq<char>| platform.executable(files@, path);
    let mut r: Vec<String> = Vec::new();
    let mut i: usize = 0;
    proof {
        assert(all.take(0) =~= Seq::<Seq<char>>::empty());
        assert(all.take(0).filter(runs) =~= Seq::<Seq<char>>::empty()) by {
            reveal(Seq::filter);
        }
    }
    while i < candidates.len()
        invariant
            i <= candidates.len(),
            all == texts(candidates@),
            runs == |path: Seq<char>| platform.executable(files@, path),
            texts(r@) == all.take(i as int).filter(runs),
        decreases candidates.len() - i,
    {
        let ghost before = all.take(i as int);
        let ghost path = candidates@[i as int]@;
        proof {
            assert(all.take(i + 1) =~= before.push(path));
            before.lemma_filter_push(path, runs);
        }
        if platform.is_executable(files, candidates[i].as_str()) {
            let ghost kept = texts(r@);
            r.push(candidates[i].clone());
            assert(texts(r@) =~= kept.push(path));
        }
        i += 1;
    }
    assert(all.take(candidates.len() as int) == all);
    r
}

/// Every executable that `name` stands for, searched in `paths`; nothing
/// where there is none.
pub fn find_executable_in_paths_impl<P: Platform>(
    platform: &P,
    name: &str,
    paths: &Vec<String>,
    files: &FileSystem,
) -> (r: Option<Vec<String>>)
    ensures
        found_paths(r) == find_executables(platform, files@, name@, texts(paths@)),
{
    let style = platform.path_style();
    let found: Vec<String> = if is_absolute(style, name) {
        if platform.is_executable(files, name) {
            let mut one: Vec<String> = Vec::new();
            one.push(String::from_str(name));
            assert(texts(one@) =~= seq![name@]);
            one
        } else if platform.tries_extensions_on_absolute() {
            let exts = platform.executable_extensions();
            keep_executables(platform, files, collect_extension_variants(style, name, &exts))
        } else {
            let none: Vec<String> = Vec::new();
            assert(texts(none@) =~= Seq::<Seq<char>>::empty());
            none
        }
    } else {
        let dirs = collect_search_directories(platform, files, paths);
        let mut plain = keep_executables(
            platform,
            files,
            join_each(style, &dirs, name),
        );
        if !has_extension(style, name) {
            let exts = platform.executable_extensions();
            let mut more = keep_executables(
                platform,
                files,
                collect_extension_candidates(style, &dirs, name, &exts),
            );
            let ghost first = texts(plain@);
            let ghost second = texts(more@);
            plain.append(&mut more);
            assert(texts(plain@) =~= first + second);
        }
        plain
    };
    if found.len() == 0 {
        None
    } else {
        Some(found)
    }
}

} // verus!
