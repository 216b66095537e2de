//! Text helpers for namespace paths: splitting into segments, the reserved
//! root segment and the single escape that segment names undergo.

use vstd::prelude::*;
use vstd::string::*;

verus! {

/// Whether `c` is the ASCII letter `lower` in either case.
pub open spec fn is_letter(c: char, lower: char, upper: char) -> bool {
    c == lower || c == upper
}

/// A segment that names the root: the word `root` in any mix of ASCII case.
pub open spec fn is_root_name(s: Seq<char>) -> bool {
    &&& s.len() == 4
    &&& is_letter(s[0], 'r', 'R')
    &&& is_letter(s[1], 'o', 'O')
    &&& is_letter(s[2], 'o', 'O')
    &&& is_letter(s[3], 't', 'T')
}

/// Tests a segment for the reserved root name.
pub fn is_root_segment(segment: &str) -> (b: bool)
    ensures
        b == is_root_name(segment@),
{
    if segment.unicode_len() != 4 {
        return false;
    }
    let c0 = segment.get_char(0);
    let c1 = segment.get_char(1);
    let c2 = segment.get_char(2);
    let c3 = segment.get_char(3);
    (c0 == 'r' || c0 == 'R') && (c1 == 'o' || c1 == 'O') && (c2 == 'o' || c2 == 'O') && (c3 == 't'
        || c3 == 'T')
}

/// The views of a list of texts.
pub open spec fn names_of(v: Seq<String>) -> Seq<Seq<char>> {
    v.map_values(|s: String| s@)
}

/// `acc` with the run `cur` added, unless the run is empty.
pub open spec fn flush_run(acc: Seq<Seq<char>>, cur: Seq<char>) -> Seq<Seq<char>> {
    if cur.len() == 0 {
        acc
    } else {
        acc.push(cur)
    }
}

/// The segments of `s` from position `i` on, given the run `cur` that is
/// open at `i` and the segments `acc` that were closed before it.
pub open spec fn segments_from(s: Seq<char>, i: int, cur: Seq<char>, acc: Seq<Seq<char>>) -> Seq<
    Seq<char>,
>
    decreases s.len() - i,
{
    if i < 0 || i >= s.len() {
        flush_run(acc, cur)
    } else if s[i] == '/' {
        segments_from(s, i + 1, Seq::empty(), flush_run(acc, cur))
    } else {
        segments_from(s, i + 1, cur.push(s[i]), acc)
    }
}

/// The segments of a path: its maximal runs of characters other than `/`,
/// in order. Empty runs (a leading, trailing or doubled `/`) give no
/// segment.
pub open spec fn path_segments(s: Seq<char>) -> Seq<Seq<char>> {
    segments_from(s, 0, Seq::empty(), Seq::empty())
}

/// A segment as a path may hold it: not empty, and free of `/`.
pub open spec fn is_segment(t: Seq<char>) -> bool {
    t.len() > 0 && forall|j: int| 0 <= j < t.len() ==> t[j] != '/'
}

/// Splitting yields proper segments only.
pub proof fn lemma_segments_from(s: Seq<char>, i: int, cur: Seq<char>, acc: Seq<Seq<char>>)
    requires
        0 <= i <= s.len(),
        forall|j: int| 0 <= j < cur.len() ==> cur[j] != '/',
        forall|a: int| 0 <= a < acc.len() ==> is_segment(#[trigger] acc[a]),
    ensures
        forall|a: int|
            0 <= a < segments_from(s, i, cur, acc).len() ==> is_segment(
                #[trigger] segments_from(s, i, cur, acc)[a],
            ),
    decreases s.len() - i,
{
    let flushed = flush_run(acc, cur);
    assert forall|a: int| 0 <= a < flushed.len() implies is_segment(#[trigger] flushed[a]) by {
        if a < acc.len() {
            assert(flushed[a] == acc[a]);
        } else {
            assert(flushed[a] == cur);
        }
    }
    if i < s.len() {
        if s[i] == '/' {
            lemma_segments_from(s, i + 1, Seq::empty(), flushed);
            assert(segments_from(s, i, cur, acc) == segments_from(s, i + 1, Seq::empty(), flushed));
        } else {
            lemma_segments_from(s, i + 1, cur.push(s[i]), acc);
            assert(segments_from(s, i, cur, acc) == segments_from(s, i + 1, cur.push(s[i]), acc));
        }
    } else {
        assert(segments_from(s, i, cur, acc) == flushed);
    }
}

/// Every segment of a path is non-empty and holds no `/`.
pub proof fn lemma_path_segments(s: Seq<char>)
    ensures
        forall|a: int|
            0 <= a < path_segments(s).len() ==> is_segment(#[trigger] path_segments(s)[a]),
{
    lemma_segments_from(s, 0, Seq::empty(), Seq::empty());
}

/// The first `n` of the given names, each with a `/` before it.
pub open spec fn slash_joined(names: Seq<Seq<char>>, n: nat) -> Seq<char>
    decreases n,
{
    if n == 0 {
        Seq::empty()
    } else {
        slash_joined(names, (n - 1) as nat) + seq!['/'] + names[n - 1]
    }
}

/// Joining fewer names gives the beginning of what joining more gives.
pub proof fn lemma_joined_prefix(names: Seq<Seq<char>>, k: nat, n: nat)
    requires
        k <= n <= names.len(),
    ensures
        slash_joined(names, k).len() <= slash_joined(names, n).len(),
        slash_joined(names, n).subrange(0, slash_joined(names, k).len() as int) == slash_joined(
            names,
            k,
        ),
    decreases n - k,
{
    if k < n {
        lemma_joined_prefix(names, k, (n - 1) as nat);
        let shorter = slash_joined(names, (n - 1) as nat);
        let whole = slash_joined(names, n);
        assert(whole.subrange(0, slash_joined(names, k).len() as int) =~= shorter.subrange(
            0,
            slash_joined(names, k).len() as int,
        ));
    } else {
        assert(slash_joined(names, n).subrange(0, slash_joined(names, n).len() as int)
            =~= slash_joined(names, n));
    }
}

/// Reading a run of characters other than `/` adds them to the open run.
pub proof fn lemma_segments_run(
    s: Seq<char>,
    i: int,
    w: Seq<char>,
    cur: Seq<char>,
    acc: Seq<Seq<char>>,
)
    requires
        0 <= i,
        i + w.len() <= s.len(),
        s.subrange(i, i + w.len()) == w,
        forall|j: int| 0 <= j < w.len() ==> w[j] != '/',
    ensures
        segments_from(s, i, cur, acc) == segments_from(s, i + w.len(), cur + w, acc),
    decreases w.len(),
{
    if w.len() == 0 {
        assert(cur + w =~= cur);
    } else {
        assert(s[i] == w[0]);
        let rest = w.drop_first();
        assert(s.subrange(i + 1, i + 1 + rest.len()) =~= rest);
        lemma_segments_run(s, i + 1, rest, cur.push(s[i]), acc);
        assert(cur.push(s[i]) + rest =~= cur + w);
    }
}

/// Splitting what joining gave, read up to the `k`-th name.
proof fn lemma_split_joined_upto(names: Seq<Seq<char>>, k: nat)
    requires
        k <= names.len(),
        forall|a: int| 0 <= a < names.len() ==> is_segment(#[trigger] names[a]),
    ensures
        path_segments(slash_joined(names, names.len())) == segments_from(
            slash_joined(names, names.len()),
            slash_joined(names, k).len() as int,
            if k == 0 {
                Seq::empty()
            } else {
                names[k - 1]
            },
            if k == 0 {
                Seq::empty()
            } else {
                names.subrange(0, k - 1)
            },
        ),
    decreases k,
{
    if k > 0 {
        let whole = slash_joined(names, names.len());
        let before = slash_joined(names, (k - 1) as nat);
        let upto = slash_joined(names, k);
        lemma_split_joined_upto(names, (k - 1) as nat);
        lemma_joined_prefix(names, k, names.len());
        let at = before.len() as int;
        assert(upto[at] == '/');
        assert(whole[at] == whole.subrange(0, upto.len() as int)[at]);
        let w = names[k - 1];
        assert(is_segment(w));
        assert(whole.subrange(at + 1, at + 1 + w.len()) =~= w) by {
            assert forall|j: int| 0 <= j < w.len() implies whole[at + 1 + j] == w[j] by {
                assert(whole[at + 1 + j] == whole.subrange(0, upto.len() as int)[at + 1 + j]);
                assert(upto[at + 1 + j] == w[j]);
            }
        }
        let cur = if k == 1 {
            Seq::<char>::empty()
        } else {
            names[k - 2]
        };
        let acc = if k == 1 {
            Seq::<Seq<char>>::empty()
        } else {
            names.subrange(0, k - 2)
        };
        let flushed = flush_run(acc, cur);
        if k > 1 {
            assert(is_segment(names[k - 2]));
            assert(flushed =~= names.subrange(0, k - 1));
        } else {
            assert(flushed =~= names.subrange(0, 0));
        }
        lemma_segments_run(whole, at + 1, w, Seq::empty(), flushed);
        assert(Seq::<char>::empty() + w =~= w);
    }
}

/// Splitting undoes joining: a text made of names, each after a `/`, has
/// exactly those names as its segments, provided that each name can be a
/// segment.
pub proof fn lemma_split_of_joined(names: Seq<Seq<char>>)
    requires
        forall|a: int| 0 <= a < names.len() ==> is_segment(#[trigger] names[a]),
    ensures
        path_segments(slash_joined(names, names.len())) == names,
{
    lemma_split_joined_upto(names, names.len());
    if names.len() > 0 {
        assert(is_segment(names[names.len() - 1]));
        assert(names.subrange(0, names.len() - 1).push(names[names.len() - 1]) =~= names);
    } else {
        assert(names =~= Seq::empty());
    }
}

/// Splits a path at each `/` into its segments. No segment is empty, and
/// none holds a `/`.
pub fn split_path(path: &str) -> (out: Vec<String>)
    ensures
        names_of(out@) == path_segments(path@),
        forall|a: int| 0 <= a < out@.len() ==> is_segment(#[trigger] out@[a]@),
{
    let n = path.unicode_len();
    let mut out: Vec<String> = Vec::new();
    let mut start: usize = 0;
    let mut i: usize = 0;
    assert(names_of(out@) =~= Seq::empty());
    assert(path@.subrange(0, 0) =~= Seq::empty());
    while i < n
        invariant
            n == path@.len(),
            start <= i <= n,
            path_segments(path@) == segments_from(
                path@,
                i as int,
                path@.subrange(start as int, i as int),
                names_of(out@),
            ),
        decreases n - i,
    {
        let c = path.get_char(i);
        let ghost cur = path@.subrange(start as int, i as int);
        let ghost before = names_of(out@);
        if c == '/' {
            if start < i {
                let piece = String::from_str(path.substring_char(start, i));
                out.push(piece);
                assert(names_of(out@) =~= before.push(cur));
            }
            start = i + 1;
            assert(path@.subrange(start as int, start as int) =~= Seq::empty());
        } else {
            assert(path@.subrange(start as int, i + 1) =~= cur.push(path@[i as int]));
        }
        i += 1;
    }
    if start < n {
        let ghost before = names_of(out@);
        let piece = String::from_str(path.substring_char(start, n));
        out.push(piece);
        assert(names_of(out@) =~= before.push(path@.subrange(start as int, n as int)));
    }
    proof {
        lemma_path_segments(path@);
        assert forall|a: int| 0 <= a < out@.len() implies is_segment(#[trigger] out@[a]@) by {
            assert(names_of(out@)[a] == out@[a]@);
        }
    }
    out
}

/// Whether `s` holds the escape `%20` at position `i`.
pub open spec fn escape_at(s: Seq<char>, i: int) -> bool {
    0 <= i && i + 3 <= s.len() && s[i] == '%' && s[i + 1] == '2' && s[i + 2] == '0'
}

/// `s` with each `%20` turned into a space, reading from the left. No other
/// escape is decoded.
pub open spec fn unescape_spaces(s: Seq<char>) -> Seq<char>
    decreases s.len(),
{
    if s.len() == 0 {
        s
    } else if escape_at(s, 0) {
        seq![' '] + unescape_spaces(s.subrange(3, s.len() as int))
    } else {
        seq![s[0]] + unescape_spaces(s.subrange(1, s.len() as int))
    }
}

/// Decodes the escaped spaces of a segment name.
pub fn unescape_segment(segment: &str) -> (out: String)
    ensures
        out@ == unescape_spaces(segment@),
{
    let n = segment.unicode_len();
    let mut out = String::new();
    let mut i: usize = 0;
    assert(segment@.subrange(0, n as int) =~= segment@);
    while i < n
        invariant
            n == segment@.len(),
            i <= n,
            unescape_spaces(segment@) == out@ + unescape_spaces(
                segment@.subrange(i as int, n as int),
            ),
        decreases n - i,
    {
        let ghost rest = segment@.subrange(i as int, n as int);
        let ghost done = out@;
        let hit = n - i >= 3 && segment.get_char(i) == '%' && segment.get_char(i + 1) == '2'
            && segment.get_char(i + 2) == '0';
        assert(hit == escape_at(rest, 0));
        if hit {
            proof {
                reveal_strlit(" ");
            }
            out.append(" ");
            assert(out@ =~= done + seq![' ']);
            assert(rest.subrange(3, rest.len() as int) =~= segment@.subrange(i + 3, n as int));
            i += 3;
        } else {
            out.append(segment.substring_char(i, i + 1));
            assert(out@ =~= done + seq![rest[0]]);
            assert(rest.subrange(1, rest.len() as int) =~= segment@.subrange(i + 1, n as int));
            i += 1;
        }
        assert(unescape_spaces(segment@) =~= out@ + unescape_spaces(
            segment@.subrange(i as int, n as int),
        ));
    }
    assert(segment@.subrange(n as int, n as int) =~= Seq::empty());
    assert(out@ + Seq::<char>::empty() =~= out@);
    out
}

/// The names that a path stands for: a leading root segment is dropped,
/// and the escaped spaces of every other segment are decoded.
pub open spec fn lookup_names(segments: Seq<Seq<char>>) -> Seq<Seq<char>> {
    if segments.len() > 0 && is_root_name(segments[0]) {
        segments.drop_first().map_values(|t: Seq<char>| unescape_spaces(t))
    } else {
        segments.map_values(|t: Seq<char>| unescape_spaces(t))
    }
}

/// The names that the path `path` stands for.
pub open spec fn path_names_of(path: Seq<char>) -> Seq<Seq<char>> {
    lookup_names(path_segments(path))
}

/// Splits a path and normalises its segments into the names to look up.
pub fn path_lookup_names(path: &str) -> (out: Vec<String>)
    ensures
        names_of(out@) == path_names_of(path@),
{
    let parts = split_path(path);
    let mut out: Vec<String> = Vec::new();
    let skip: usize = if parts.len() > 0 && is_root_segment(parts[0].as_str()) {
        1
    } else {
        0
    };
    let ghost segs = names_of(parts@);
    let ghost body = if skip == 1 {
        segs.drop_first()
    } else {
        segs
    };
    let mut i: usize = skip;
    assert(names_of(out@) =~= Seq::empty());
    while i < parts.len()
        invariant
            skip <= i <= parts.len(),
            skip <= 1,
            segs == names_of(parts@),
            body.len() == parts.len() - skip,
            forall|j: int| 0 <= j < body.len() ==> body[j] == segs[j + skip],
            out.len() == i - skip,
            forall|j: int|
                0 <= j < out.len() ==> (#[trigger] out@[j])@ == unescape_spaces(body[j]),
        decreases parts.len() - i,
    {
        let name = unescape_segment(parts[i].as_str());
        out.push(name);
        i += 1;
    }
    assert(names_of(out@) =~= body.map_values(|t: Seq<char>| unescape_spaces(t)));
    out
}

} // verus!
