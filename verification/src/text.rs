//! Character-level helpers on strings.
//!
//! Contracts speak of a string by its view, the sequence of its characters.
//! Positions count characters, not bytes.

use vstd::prelude::*;
use vstd::string::*;

verus! {

/// The views of a sequence of strings.
pub open spec fn texts(v: Seq<String>) -> Seq<Seq<char>> {
    v.map_values(|s: String| s@)
}

/// The view of an optional string.
pub open spec fn optional_text(o: Option<String>) -> Option<Seq<char>> {
    match o {
        Some(s) => Some(s@),
        None => None,
    }
}

/// Index of the first `c` in `s`, or `s.len()` where `s` holds none.
pub open spec fn position(s: Seq<char>, c: char) -> int
    decreases s.len(),
{
    if s.len() == 0 {
        0
    } else if s[0] == c {
        0
    } else {
        1 + position(s.skip(1), c)
    }
}

/// Index of the last `c` in `s`, or `-1` where `s` holds none.
pub open spec fn last_position(s: Seq<char>, c: char) -> int
    decreases s.len(),
{
    if s.len() == 0 {
        -1
    } else if s.last() == c {
        s.len() - 1
    } else {
        last_position(s.drop_last(), c)
    }
}

/// The pieces of `s` between occurrences of `sep`. There is always at least
/// one piece; two adjacent separators enclose an empty piece.
pub open spec fn split(s: Seq<char>, sep: char) -> Seq<Seq<char>>
    decreases s.len(),
{
    let i = position(s, sep);
    if 0 <= i < s.len() {
        seq![s.take(i)] + split(s.skip(i + 1), sep)
    } else {
        seq![s]
    }
}

/// `v` with every element that occurred earlier removed; what stays keeps
/// its order.
pub open spec fn distinct(v: Seq<Seq<char>>) -> Seq<Seq<char>>
    decreases v.len(),
{
    if v.len() == 0 {
        v
    } else {
        let rest = distinct(v.drop_last());
        if rest.contains(v.last()) {
            rest
        } else {
            rest.push(v.last())
        }
    }
}

/// `s` without its first `n` characters; empty where `s` is shorter.
pub open spec fn without_first(s: Seq<char>, n: int) -> Seq<char> {
    if 0 <= n <= s.len() {
        s.skip(n)
    } else {
        Seq::empty()
    }
}

/// An index with a `c`, or the length, before which there is no `c`, is the
/// `position`.
pub proof fn lemma_position_is(s: Seq<char>, c: char, i: int)
    requires
        0 <= i <= s.len(),
        i < s.len() ==> s[i] == c,
        forall|k: int| 0 <= k < i ==> s[k] != c,
    ensures
        position(s, c) == i,
    decreases i,
{
    if i > 0 {
        let t = s.skip(1);
        assert forall|k: int| 0 <= k < i - 1 implies t[k] != c by {
            assert(t[k] == s[k + 1]);
        }
        lemma_position_is(t, c, i - 1);
    }
}

/// `last_position` is within bounds, names a `c` where it is an index, and
/// nothing after it is a `c`.
pub proof fn lemma_last_position(s: Seq<char>, c: char)
    ensures
        -1 <= last_position(s, c) < s.len(),
        last_position(s, c) >= 0 ==> s[last_position(s, c)] == c,
        forall|k: int| last_position(s, c) < k < s.len() ==> s[k] != c,
    decreases s.len(),
{
    if s.len() > 0 && s.last() != c {
        let t = s.drop_last();
        lemma_last_position(t, c);
        assert forall|k: int| last_position(s, c) < k < s.len() implies s[k] != c by {
            if k < t.len() {
                assert(t[k] == s[k]);
            }
        }
    }
}

/// The last `c` of two texts in a row is the last `c` of the second, or
/// else that of the first.
pub proof fn lemma_last_position_after(p: Seq<char>, t: Seq<char>, c: char)
    ensures
        last_position(p + t, c) == if last_position(t, c) >= 0 {
            p.len() + last_position(t, c)
        } else {
            last_position(p, c)
        },
    decreases t.len(),
{
    if t.len() == 0 {
        assert(p + t =~= p);
    } else {
        assert((p + t).last() == t.last());
        assert((p + t).drop_last() =~= p + t.drop_last());
        if t.last() != c {
            lemma_last_position_after(p, t.drop_last(), c);
        }
    }
}

/// The filter of a sequence that holds nothing twice holds nothing twice.
pub proof fn lemma_filter_keeps_distinct(s: Seq<Seq<char>>, keep: spec_fn(Seq<char>) -> bool)
    requires
        s.no_duplicates(),
    ensures
        s.filter(keep).no_duplicates(),
{
    let f = s.filter(keep);
    assert forall|i: int, j: int| 0 <= i < f.len() && 0 <= j < f.len() && i != j implies f[i]
        != f[j] by {
        lemma_source_index(s, keep, i);
        lemma_source_index(s, keep, j);
        if i < j {
            assert(source_index(s, keep, i) < source_index(s, keep, j));
        } else {
            assert(source_index(s, keep, j) < source_index(s, keep, i));
        }
    }
}

/// An index with a `c`, or `-1`, after which there is no `c`, is the
/// `last_position`.
pub proof fn lemma_last_position_is(s: Seq<char>, c: char, i: int)
    requires
        -1 <= i < s.len(),
        i >= 0 ==> s[i] == c,
        forall|k: int| i < k < s.len() ==> s[k] != c,
    ensures
        last_position(s, c) == i,
    decreases s.len(),
{
    if s.len() > 0 && i < s.len() - 1 {
        lemma_last_position_is(s.drop_last(), c, i);
    }
}

/// `distinct(v)` holds `x` exactly where `v` does.
pub proof fn lemma_distinct_contains(v: Seq<Seq<char>>, x: Seq<char>)
    ensures
        distinct(v).contains(x) <==> v.contains(x),
    decreases v.len(),
{
    if v.len() > 0 {
        let head = v.drop_last();
        let rest = distinct(head);
        lemma_distinct_contains(head, x);
        if v.contains(x) {
            let i = choose|i: int| 0 <= i < v.len() && v[i] == x;
            if i < head.len() {
                assert(head[i] == x);
                assert(head.contains(x));
                assert(rest.contains(x));
                let k = choose|k: int| 0 <= k < rest.len() && rest[k] == x;
                assert(distinct(v)[k] == x);
            } else if !rest.contains(x) {
                assert(distinct(v) == rest.push(x));
                assert(distinct(v)[rest.len() as int] == x);
            }
        }
        if distinct(v).contains(x) {
            let k = choose|k: int| 0 <= k < distinct(v).len() && distinct(v)[k] == x;
            if k < rest.len() {
                assert(rest[k] == x);
                assert(rest.contains(x));
                assert(head.contains(x));
                let i = choose|i: int| 0 <= i < head.len() && head[i] == x;
                assert(v[i] == x);
            } else {
                assert(v[v.len() - 1] == x);
            }
        }
    }
}

/// `distinct` holds nothing twice, is no longer than `v`, and holds exactly
/// what `v` holds.
pub proof fn lemma_distinct(v: Seq<Seq<char>>)
    ensures
        distinct(v).no_duplicates(),
        distinct(v).len() <= v.len(),
        forall|x: Seq<char>| #[trigger] distinct(v).contains(x) <==> v.contains(x),
    decreases v.len(),
{
    if v.len() > 0 {
        lemma_distinct(v.drop_last());
    }
    assert forall|x: Seq<char>| #[trigger] distinct(v).contains(x) <==> v.contains(x) by {
        lemma_distinct_contains(v, x);
    }
}

/// Index in `v` of the first occurrence of what `distinct` holds at `i`.
pub open spec fn first_seen(v: Seq<Seq<char>>, i: int) -> int
    decreases v.len(),
{
    if v.len() == 0 {
        0
    } else if !distinct(v.drop_last()).contains(v.last()) && i == distinct(v.drop_last()).len() {
        v.len() - 1
    } else {
        first_seen(v.drop_last(), i)
    }
}

/// `distinct` keeps the order of first occurrence: what it holds at `i` is
/// the element of `v` at `first_seen`, nothing before that index equals it,
/// and these indices grow with `i`.
pub proof fn lemma_first_seen(v: Seq<Seq<char>>, i: int)
    requires
        0 <= i < distinct(v).len(),
    ensures
        0 <= first_seen(v, i) < v.len(),
        v[first_seen(v, i)] == distinct(v)[i],
        forall|k: int| 0 <= k < first_seen(v, i) ==> v[k] != distinct(v)[i],
        forall|j: int| i < j < distinct(v).len() ==> first_seen(v, i) < #[trigger] first_seen(v, j),
    decreases v.len(),
{
    if v.len() > 0 {
        let head = v.drop_last();
        let rest = distinct(head);
        lemma_distinct_contains(head, v.last());
        if !rest.contains(v.last()) && i == rest.len() {
            assert forall|k: int| 0 <= k < v.len() - 1 implies v[k] != v.last() by {
                if v[k] == v.last() {
                    assert(head[k] == v.last());
                    assert(head.contains(v.last()));
                }
            }
        } else {
            lemma_first_seen(head, i);
            assert(distinct(v)[i] == rest[i]);
            assert forall|k: int| 0 <= k < first_seen(v, i) implies v[k] != distinct(v)[i] by {
                assert(v[k] == head[k]);
            }
            assert forall|j: int| i < j < distinct(v).len() implies first_seen(v, i)
                < #[trigger] first_seen(v, j) by {
                if !rest.contains(v.last()) && j == rest.len() {
                } else {
                    assert(first_seen(v, j) == first_seen(head, j));
                }
            }
        }
    }
}

/// What a flat map holds comes from one of the elements that were mapped.
pub proof fn lemma_flat_map_member(
    s: Seq<Seq<char>>,
    f: spec_fn(Seq<char>) -> Seq<Seq<char>>,
    x: Seq<char>,
)
    requires
        s.flat_map(f).contains(x),
    ensures
        exists|a: int| 0 <= a < s.len() && f(#[trigger] s[a]).contains(x),
    decreases s.len(),
{
    if s.len() == 0 {
        assert(s.map_values(f) =~= Seq::<Seq<Seq<char>>>::empty());
        assert(s.flat_map(f) =~= Seq::<Seq<char>>::empty());
        assert(false);
    } else {
        let head = s.drop_last();
        let n = s.len() - 1;
        assert(s.take(n) == head);
        assert(s.take(n + 1) == s);
        s.lemma_flat_map_take_append(f, n);
        let whole = s.flat_map(f);
        let first = head.flat_map(f);
        assert(whole == first + f(s[n]));
        let k = choose|k: int| 0 <= k < whole.len() && whole[k] == x;
        if k < first.len() {
            assert(first[k] == x);
            assert(first.contains(x));
            lemma_flat_map_member(head, f, x);
            let a = choose|a: int| 0 <= a < head.len() && f(#[trigger] head[a]).contains(x);
            assert(s[a] == head[a]);
        } else {
            assert(f(s[n])[k - first.len()] == x);
            assert(f(s[n]).contains(x));
        }
    }
}

/// Where nothing in `s` meets `keep`, the filter leaves nothing.
pub proof fn lemma_filter_none(s: Seq<Seq<char>>, keep: spec_fn(Seq<char>) -> bool)
    requires
        forall|k: int| 0 <= k < s.len() ==> !keep(s[k]),
    ensures
        s.filter(keep).len() == 0,
    decreases s.len(),
{
    reveal(Seq::filter);
    if s.len() > 0 {
        lemma_filter_none(s.drop_last(), keep);
    }
}

/// The first element of `s` that meets `keep` is the first that the filter
/// leaves.
pub proof fn lemma_filter_first(s: Seq<Seq<char>>, keep: spec_fn(Seq<char>) -> bool, i: int)
    requires
        0 <= i < s.len(),
        keep(s[i]),
        forall|k: int| 0 <= k < i ==> !keep(s[k]),
    ensures
        s.filter(keep).len() > 0,
        s.filter(keep)[0] == s[i],
    decreases s.len(),
{
    reveal(Seq::filter);
    if i == s.len() - 1 {
        lemma_filter_none(s.drop_last(), keep);
    } else {
        lemma_filter_first(s.drop_last(), keep, i);
    }
}

/// Index in `s` of the element that the filter leaves at index `i`.
pub open spec fn source_index(s: Seq<Seq<char>>, keep: spec_fn(Seq<char>) -> bool, i: int) -> int
    decreases s.len(),
{
    if s.len() == 0 {
        0
    } else if keep(s.last()) && i == s.drop_last().filter(keep).len() {
        s.len() - 1
    } else {
        source_index(s.drop_last(), keep, i)
    }
}

/// What the filter leaves at index `i` is the element of `s` at
/// `source_index`, and these indices grow with `i`.
pub proof fn lemma_source_index(s: Seq<Seq<char>>, keep: spec_fn(Seq<char>) -> bool, i: int)
    requires
        0 <= i < s.filter(keep).len(),
    ensures
        0 <= source_index(s, keep, i) < s.len(),
        s[source_index(s, keep, i)] == s.filter(keep)[i],
        forall|j: int|
            i < j < s.filter(keep).len() ==> source_index(s, keep, i) < #[trigger] source_index(
                s,
                keep,
                j,
            ),
    decreases s.len(),
{
    reveal(Seq::filter);
    if s.len() > 0 {
        let t = s.drop_last();
        if keep(s.last()) && i == t.filter(keep).len() {
        } else {
            lemma_source_index(t, keep, i);
            assert forall|j: int| i < j < s.filter(keep).len() implies source_index(s, keep, i)
                < #[trigger] source_index(s, keep, j) by {
                if keep(s.last()) && j == t.filter(keep).len() {
                } else {
                    assert(source_index(s, keep, j) == source_index(t, keep, j));
                }
            }
        }
    }
}

/// The filter keeps the order: of two elements that it leaves, the earlier
/// one stands earlier in `s`.
pub proof fn lemma_filter_sources(
    s: Seq<Seq<char>>,
    keep: spec_fn(Seq<char>) -> bool,
    i: int,
    j: int,
)
    requires
        0 <= i < j < s.filter(keep).len(),
    ensures
        exists|a: int, b: int|
            0 <= a < b < s.len() && s[a] == s.filter(keep)[i] && s[b] == s.filter(keep)[j],
{
    lemma_source_index(s, keep, i);
    lemma_source_index(s, keep, j);
    let a = source_index(s, keep, i);
    let b = source_index(s, keep, j);
    assert(0 <= a < b < s.len() && s[a] == s.filter(keep)[i] && s[b] == s.filter(keep)[j]);
}

/// The lower-case form of a text, as `str::to_lowercase` of the standard
/// library gives it: a matter of the Unicode tables, the same on every
/// machine.
pub uninterp spec fn lowercase(s: Seq<char>) -> Seq<char>;

/// Calls `str::to_lowercase` of the standard library. Nothing is claimed of
/// the result but that it is the lower-case form of the argument, which
/// depends on nothing else; which characters it holds is not stated.
#[verifier::external_body]
pub(crate) fn to_lowercase(s: &str) -> (r: String)
    ensures
        r@ == lowercase(s@),
{
    s.to_lowercase()
}

/// The characters of `s`, in order.
pub fn chars_of(s: &str) -> (v: Vec<char>)
    ensures
        v@ == s@,
{
    let mut v: Vec<char> = Vec::new();
    for c in it: s.chars()
        invariant
            it.seq() == s@,
            v@ == it.seq().take(it.index() as int),
    {
        v.push(c);
    }
    v
}

/// The characters of `s` from position `from` up to, not including, `to`.
pub fn substring(s: &str, from: usize, to: usize) -> (r: String)
    requires
        from <= to <= s@.len(),
    ensures
        r@ == s@.subrange(from as int, to as int),
{
    String::from_str(s.substring_char(from, to))
}

/// `a` followed by `b`.
pub fn followed_by(a: &str, b: &str) -> (r: String)
    ensures
        r@ == a@ + b@,
{
    let mut r = String::from_str(a);
    r.append(b);
    r
}

/// Whether `a` and `b` hold the same characters.
pub fn same_text(a: &str, b: &str) -> (r: bool)
    ensures
        r == (a@ == b@),
{
    let x = String::from_str(a);
    let y = String::from_str(b);
    x == y
}

/// Whether `v` begins with `prefix`.
pub fn starts_with(v: &Vec<char>, prefix: &Vec<char>) -> (r: bool)
    ensures
        r == prefix@.is_prefix_of(v@),
{
    if prefix.len() > v.len() {
        return false;
    }
    let mut i: usize = 0;
    while i < prefix.len()
        invariant
            i <= prefix.len() <= v.len(),
            forall|k: int| 0 <= k < i ==> v@[k] == prefix@[k],
        decreases prefix.len() - i,
    {
        if v[i] != prefix[i] {
            assert(v@.subrange(0, prefix@.len() as int)[i as int] != prefix@[i as int]);
            return false;
        }
        i += 1;
    }
    assert(prefix@ =~= v@.subrange(0, prefix@.len() as int));
    true
}

/// Index of the first `c` at or after `from`, or the length where there is
/// none.
pub fn find_from(v: &Vec<char>, c: char, from: usize) -> (i: usize)
    requires
        from <= v.len(),
    ensures
        from <= i <= v.len(),
        i - from == position(v@.skip(from as int), c),
{
    let mut i: usize = from;
    while i < v.len() && v[i] != c
        invariant
            from <= i <= v.len(),
            forall|k: int| from <= k < i ==> v@[k] != c,
        decreases v.len() - i,
    {
        i += 1;
    }
    proof {
        lemma_position_is(v@.skip(from as int), c, i - from);
    }
    i
}

/// Index of the last `c`, if there is one.
pub fn find_last(v: &Vec<char>, c: char) -> (r: Option<usize>)
    ensures
        match r {
            Some(i) => i == last_position(v@, c),
            None => last_position(v@, c) == -1,
        },
{
    let mut i: usize = v.len();
    while i > 0
        invariant
            i <= v.len(),
            forall|k: int| i <= k < v.len() ==> v@[k] != c,
        decreases i,
    {
        i -= 1;
        if v[i] == c {
            proof {
                lemma_last_position_is(v@, c, i as int);
            }
            return Some(i);
        }
    }
    proof {
        lemma_last_position_is(v@, c, -1);
    }
    None
}

/// The pieces of `s` between occurrences of `sep`.
pub fn split_text(s: &str, sep: char) -> (parts: Vec<String>)
    ensures
        texts(parts@) == split(s@, sep),
{
    let v = chars_of(s);
    let n = v.len();
    let mut parts: Vec<String> = Vec::new();
    let mut start: usize = 0;
    proof {
        assert(s@.skip(0) =~= s@);
        assert(texts(parts@) + split(s@, sep) =~= split(s@, sep));
    }
    loop
        invariant
            v@ == s@,
            n == v.len(),
            start <= n,
            split(s@, sep) == texts(parts@) + split(s@.skip(start as int), sep),
        decreases n - start,
    {
        let i = find_from(&v, sep, start);
        let ghost rest = s@.skip(start as int);
        let ghost before = texts(parts@);
        let piece = substring(s, start, i);
        assert(piece@ == rest.take(i - start));
        parts.push(piece);
        assert(texts(parts@) == before.push(piece@));
        if i < n {
            assert(rest.skip(i - start + 1) == s@.skip(i + 1));
            assert(split(rest, sep) == seq![piece@] + split(s@.skip(i + 1), sep));
            start = i + 1;
        } else {
            assert(rest.take(i - start) == rest);
            assert(split(rest, sep) == seq![rest]);
            return parts;
        }
    }
}

/// `v` with every element that occurred earlier removed; what stays keeps
/// its order.
pub fn without_repeats(v: &Vec<String>) -> (r: Vec<String>)
    ensures
        texts(r@) == distinct(texts(v@)),
{
    let mut r: Vec<String> = Vec::new();
    let mut i: usize = 0;
    while i < v.len()
        invariant
            i <= v.len(),
            texts(r@) == distinct(texts(v@).take(i as int)),
        decreases v.len() - i,
    {
        let ghost before = texts(r@);
        proof {
            assert(texts(v@).take(i + 1).drop_last() == texts(v@).take(i as int));
            assert(texts(v@).take(i + 1).last() == v@[i as int]@);
        }
        if !contains_text(&r, v[i].as_str()) {
            r.push(v[i].clone());
            assert(texts(r@) == before.push(v@[i as int]@));
        }
        i += 1;
    }
    assert(texts(v@).take(v.len() as int) == texts(v@));
    r
}

/// Whether one of `v` holds the characters of `s`.
pub fn contains_text(v: &Vec<String>, s: &str) -> (r: bool)
    ensures
        r == texts(v@).contains(s@),
{
    let mut i: usize = 0;
    while i < v.len()
        invariant
            i <= v.len(),
            forall|k: int| 0 <= k < i ==> texts(v@)[k] != s@,
        decreases v.len() - i,
    {
        if same_text(v[i].as_str(), s) {
            assert(texts(v@)[i as int] == s@);
            return true;
        }
        i += 1;
    }
    false
}

} // verus!
