//! Unicode-aware text primitives: grapheme clusters, display widths and
//! the string operations the editor is built from.

use unicode_segmentation::UnicodeSegmentation;
use unicode_width::UnicodeWidthStr;
use vstd::prelude::*;
use vstd::arithmetic::div_mod::lemma_add_mod_noop;
use vstd::seq_lib::lemma_flatten_concat;
use vstd::string::*;
use vstd::utf8::encode_utf8;

verus! {

broadcast use vstd::seq_lib::group_seq_properties;

// ---------------------------------------------------------------------------
// Names for what the Unicode crates compute
// ---------------------------------------------------------------------------

/// The extended grapheme clusters of a string, in order.
pub uninterp spec fn grapheme_clusters(s: Seq<char>) -> Seq<Seq<char>>;

/// The number of terminal columns a string occupies.
pub uninterp spec fn display_width(s: Seq<char>) -> nat;

// ---------------------------------------------------------------------------
// Mathematical model
// ---------------------------------------------------------------------------

/// The views of a sequence of strings.
pub open spec fn views(v: Seq<String>) -> Seq<Seq<char>> {
    v.map_values(|s: String| s@)
}

/// Length in bytes of the UTF-8 encoding of `s`.
pub open spec fn utf8_len(s: Seq<char>) -> nat {
    encode_utf8(s).len()
}

/// Char offset at which grapheme cluster `k` of `line` starts (the end of
/// the line for `k` equal to the number of clusters); never past the end.
pub open spec fn boundary(line: Seq<char>, k: int) -> int {
    let o = grapheme_clusters(line).take(k).flatten().len() as int;
    if o <= line.len() {
        o
    } else {
        line.len() as int
    }
}

/// Number of leading clusters of `gs`, laid out from byte `base` on, that
/// start before byte `pos`.
pub open spec fn starts_before_bytes(gs: Seq<Seq<char>>, base: int, pos: int) -> nat
    decreases gs.len(),
{
    if gs.len() == 0 || base >= pos {
        0
    } else {
        1 + starts_before_bytes(gs.drop_first(), base + utf8_len(gs[0]), pos)
    }
}

/// Number of leading clusters of `gs`, laid out from char `base` on, that
/// start before char `pos`.
pub open spec fn starts_before_chars(gs: Seq<Seq<char>>, base: int, pos: int) -> nat
    decreases gs.len(),
{
    if gs.len() == 0 || base >= pos {
        0
    } else {
        1 + starts_before_chars(gs.drop_first(), base + gs[0].len(), pos)
    }
}

/// Number of leading clusters of `gs` that fit, one after another, into
/// `max` columns of which `used` are already taken.
pub open spec fn fitting_clusters(gs: Seq<Seq<char>>, used: int, max: int) -> nat
    decreases gs.len(),
{
    if gs.len() == 0 {
        0
    } else if used + display_width(gs[0]) <= max {
        1 + fitting_clusters(gs.drop_first(), used + display_width(gs[0]), max)
    } else {
        0
    }
}

/// The longest run of whole leading clusters of `s` whose widths add up to at
/// most `max` columns.
pub open spec fn truncated(s: Seq<char>, max: int) -> Seq<char> {
    let gs = grapheme_clusters(s);
    gs.take(fitting_clusters(gs, 0, max) as int).flatten()
}

/// 1 where clusters of a line of `n` clusters drawn from cluster `s` are
/// hidden to the left (a `'<'` marks it), else 0.
pub open spec fn left_marker(n: int, s: int) -> int {
    if s > 0 && n > 0 {
        1
    } else {
        0
    }
}

/// What is drawn of `line` in `cols` columns from cluster `s` on: a `'<'`
/// where clusters are hidden to the left; then all remaining clusters where
/// they fit, or else those that fit in one column less and a `'>'`.
pub open spec fn shown_line(line: Seq<char>, s: int, cols: int) -> Seq<char> {
    let gs = grapheme_clusters(line);
    let n = gs.len() as int;
    let s1 = if s <= n {
        s
    } else {
        n
    };
    let left = left_marker(n, s);
    let rest = gs.subrange(s1, n);
    let avail = cols - left;
    let body = if fitting_clusters(rest, 0, avail) == rest.len() {
        rest.flatten()
    } else if avail >= 1 {
        rest.take(fitting_clusters(rest, 0, avail - 1) as int).flatten().push('>')
    } else {
        Seq::empty()
    };
    if cols <= 0 {
        Seq::empty()
    } else if left == 1 {
        seq!['<'] + body
    } else {
        body
    }
}

/// With the line drawn from cluster `s`, the cursor before cluster `c`
/// stands left of the last of `cols` columns.
pub open spec fn cursor_fits(gs: Seq<Seq<char>>, s: int, c: int, cols: int) -> bool {
    left_marker(gs.len() as int, s) + width_sum(gs.subrange(s, c)) < cols - 1
}

/// The first cluster from `s` on to draw from so that the cursor before
/// cluster `c` stays on screen (`c` where none before it does).
pub open spec fn scroll_start(gs: Seq<Seq<char>>, s: int, c: int, cols: int) -> int
    decreases c - s,
{
    if s >= c || cursor_fits(gs, s, c, cols) {
        s
    } else {
        scroll_start(gs, s + 1, c, cols)
    }
}

/// The horizontal offset, in clusters, after scrolling the cursor's line
/// (clusters `gs`, cursor before cluster `col`) into `cols` columns from
/// offset `off`: back to the cursor where it is left of the offset, else
/// forward just enough.
pub open spec fn scrolled_col_offset(gs: Seq<Seq<char>>, off: int, col: int, cols: int) -> int {
    let c = if col <= gs.len() {
        col
    } else {
        gs.len() as int
    };
    if c < off {
        c
    } else {
        scroll_start(gs, off, c, cols)
    }
}

/// Total display width of a sequence of clusters.
pub open spec fn width_sum(gs: Seq<Seq<char>>) -> nat
    decreases gs.len(),
{
    if gs.len() == 0 {
        0
    } else {
        width_sum(gs.drop_last()) + display_width(gs.last())
    }
}

/// `q` occurs in `s` at char position `i`.
pub open spec fn matches_at(s: Seq<char>, q: Seq<char>, i: int) -> bool {
    0 <= i && i + q.len() <= s.len() && s.subrange(i, i + q.len()) == q
}

/// The first char position at or after `i` where `q` occurs in `s`.
pub open spec fn first_match(s: Seq<char>, q: Seq<char>, i: int) -> Option<int>
    decreases s.len() + 1 - i,
{
    if i < 0 || i + q.len() > s.len() {
        None
    } else if matches_at(s, q, i) {
        Some(i)
    } else {
        first_match(s, q, i + 1)
    }
}

/// `s` with every `'\n'` and `'\r'` removed.
pub open spec fn without_line_breaks(s: Seq<char>) -> Seq<char>
    decreases s.len(),
{
    if s.len() == 0 {
        s
    } else {
        let rest = without_line_breaks(s.drop_last());
        if s.last() == '\n' || s.last() == '\r' {
            rest
        } else {
            rest.push(s.last())
        }
    }
}

/// The pieces of `s` between `'\n'` characters (one more than there are
/// newlines).
pub open spec fn split_newlines(s: Seq<char>) -> Seq<Seq<char>>
    decreases s.len(),
{
    if s.len() == 0 {
        seq![Seq::empty()]
    } else {
        let rest = split_newlines(s.drop_last());
        if s.last() == '\n' {
            rest.push(Seq::empty())
        } else {
            rest.update(rest.len() - 1, rest.last().push(s.last()))
        }
    }
}

/// A line that a `'\n'` ended, without a `'\r'` just before that newline.
pub open spec fn strip_cr(l: Seq<char>) -> Seq<char> {
    if l.len() > 0 && l.last() == '\r' {
        l.drop_last()
    } else {
        l
    }
}

/// The lines of `s` as `str::lines` yields them: split at `"\n"` or
/// `"\r\n"`, the terminators dropped, the final terminator optional.
pub open spec fn text_lines(s: Seq<char>) -> Seq<Seq<char>> {
    if s.len() == 0 {
        Seq::empty()
    } else {
        let p = split_newlines(s);
        let ended = p.take(p.len() - 1).map_values(|l: Seq<char>| strip_cr(l));
        if s.last() == '\n' {
            ended
        } else {
            ended.push(p.last())
        }
    }
}

/// The lines joined with `'\n'` between them.
pub open spec fn join_lines(b: Seq<Seq<char>>) -> Seq<char>
    decreases b.len(),
{
    if b.len() == 0 {
        Seq::empty()
    } else if b.len() == 1 {
        b[0]
    } else {
        join_lines(b.drop_last()).push('\n') + b.last()
    }
}

// ---------------------------------------------------------------------------
// Lemmas
// ---------------------------------------------------------------------------

/// UTF-8 encoding distributes over concatenation.
pub proof fn lemma_utf8_concat(a: Seq<char>, b: Seq<char>)
    ensures
        encode_utf8(a + b) == encode_utf8(a) + encode_utf8(b),
    decreases a.len(),
{
    if a.len() == 0 {
        assert(a + b =~= b);
        assert(encode_utf8(a) + encode_utf8(b) =~= encode_utf8(b));
    } else {
        assert((a + b).drop_first() =~= a.drop_first() + b);
        assert((a + b)[0] == a[0]);
        lemma_utf8_concat(a.drop_first(), b);
        assert(encode_utf8(a + b) =~= encode_utf8(a) + encode_utf8(b));
    }
}

/// Flattening splits at any index.
pub proof fn lemma_flatten_split<A>(gs: Seq<Seq<A>>, k: int)
    requires
        0 <= k <= gs.len(),
    ensures
        gs.flatten() == gs.take(k).flatten() + gs.skip(k).flatten(),
{
    assert(gs =~= gs.take(k) + gs.skip(k));
    lemma_flatten_concat(gs.take(k), gs.skip(k));
}

/// One more element of a range adds that element's contents at the end.
pub proof fn lemma_flatten_extend<A>(gs: Seq<Seq<A>>, a: int, i: int)
    requires
        0 <= a <= i < gs.len(),
    ensures
        gs.subrange(a, i + 1).flatten() == gs.subrange(a, i).flatten() + gs[i],
{
    assert(gs.subrange(a, i + 1) =~= gs.subrange(a, i).push(gs[i]));
    gs.subrange(a, i).lemma_flatten_push(gs[i]);
}

/// Where the clusters of `line` make up the line, a cluster boundary cuts the
/// line into the clusters before it and those after it.
pub proof fn lemma_boundary_split(line: Seq<char>, k: int)
    requires
        grapheme_clusters(line).flatten() == line,
        0 <= k <= grapheme_clusters(line).len(),
    ensures
        boundary(line, k) == grapheme_clusters(line).take(k).flatten().len(),
        line.subrange(0, boundary(line, k)) == grapheme_clusters(line).take(k).flatten(),
        line.subrange(boundary(line, k), line.len() as int) == grapheme_clusters(
            line,
        ).skip(k).flatten(),
{
    let gs = grapheme_clusters(line);
    lemma_flatten_split(gs, k);
    assert(line.subrange(0, boundary(line, k)) =~= gs.take(k).flatten());
    assert(line.subrange(boundary(line, k), line.len() as int) =~= gs.skip(k).flatten());
}

/// The width of a sequence splits at any index.
pub proof fn lemma_width_sum_split(gs: Seq<Seq<char>>, k: int)
    requires
        0 <= k <= gs.len(),
    ensures
        width_sum(gs) == width_sum(gs.take(k)) + width_sum(gs.skip(k)),
    decreases gs.len() - k,
{
    if k == gs.len() {
        assert(gs.take(k) =~= gs);
        assert(gs.skip(k) =~= Seq::<Seq<char>>::empty());
    } else {
        lemma_width_sum_split(gs.drop_last(), k);
        assert(gs.drop_last().take(k) =~= gs.take(k));
        assert(gs.skip(k).drop_last() =~= gs.drop_last().skip(k));
        assert(gs.skip(k).last() == gs.last());
    }
}

/// Views commute with replacing an element.
pub proof fn lemma_views_update(v: Seq<String>, i: int, s: String)
    requires
        0 <= i < v.len(),
    ensures
        views(v.update(i, s)) == views(v).update(i, s@),
{
    assert(views(v.update(i, s)) =~= views(v).update(i, s@));
}

/// Views commute with inserting an element.
pub proof fn lemma_views_insert(v: Seq<String>, i: int, s: String)
    requires
        0 <= i <= v.len(),
    ensures
        views(v.insert(i, s)) == views(v).insert(i, s@),
{
    assert(views(v.insert(i, s)) =~= views(v).insert(i, s@));
}

/// Views commute with removing an element.
pub proof fn lemma_views_remove(v: Seq<String>, i: int)
    requires
        0 <= i < v.len(),
    ensures
        views(v.remove(i)) == views(v).remove(i),
{
    assert(views(v.remove(i)) =~= views(v).remove(i));
}

/// A non-empty string takes at least one byte.
proof fn lemma_utf8_nonempty(s: Seq<char>)
    requires
        s.len() > 0,
    ensures
        utf8_len(s) >= 1,
{
    lemma_utf8_concat(seq![s[0]], s.drop_first());
    assert(seq![s[0]] + s.drop_first() =~= s);
    assert(seq![s[0]].drop_first() =~= Seq::<char>::empty());
}

/// Where no cluster is empty, every cluster starts before the byte length
/// of all of them.
pub proof fn lemma_starts_before_end(gs: Seq<Seq<char>>, pos: int)
    requires
        forall|i: int| 0 <= i < gs.len() ==> (#[trigger] gs[i]).len() > 0,
        pos >= utf8_len(gs.flatten()),
    ensures
        starts_before_bytes(gs, 0, pos) == gs.len(),
{
    lemma_starts_before_boundary(gs, 0, gs.len() as int);
    assert(gs.take(gs.len() as int) =~= gs);
    lemma_starts_before_monotone(gs, 0, utf8_len(gs.flatten()) as int, pos);
    lemma_starts_before_bounded(gs, 0, pos);
}

/// Counting the clusters that start before a byte never decreases as the
/// byte moves on.
pub proof fn lemma_starts_before_monotone(gs: Seq<Seq<char>>, base: int, p: int, q: int)
    requires
        p <= q,
    ensures
        starts_before_bytes(gs, base, p) <= starts_before_bytes(gs, base, q),
    decreases gs.len(),
{
    if gs.len() > 0 && base < p {
        lemma_starts_before_monotone(gs.drop_first(), base + utf8_len(gs[0]), p, q);
    }
}

/// At most all clusters start before any byte.
pub proof fn lemma_starts_before_bounded(gs: Seq<Seq<char>>, base: int, p: int)
    ensures
        starts_before_bytes(gs, base, p) <= gs.len(),
    decreases gs.len(),
{
    if gs.len() > 0 && base < p {
        lemma_starts_before_bounded(gs.drop_first(), base + utf8_len(gs[0]), p);
    }
}

/// Every char takes at least one byte.
pub proof fn lemma_utf8_len_ge(s: Seq<char>)
    ensures
        utf8_len(s) >= s.len(),
    decreases s.len(),
{
    if s.len() > 0 {
        lemma_utf8_nonempty(seq![s[0]]);
        lemma_utf8_concat(seq![s[0]], s.drop_first());
        assert(seq![s[0]] + s.drop_first() =~= s);
        lemma_utf8_len_ge(s.drop_first());
    }
}

/// Non-empty pieces hold at least one element each.
pub proof fn lemma_flatten_len_ge<A>(gs: Seq<Seq<A>>)
    requires
        forall|i: int| 0 <= i < gs.len() ==> (#[trigger] gs[i]).len() > 0,
    ensures
        gs.flatten().len() >= gs.len(),
    decreases gs.len(),
{
    if gs.len() > 0 {
        assert forall|i: int| 0 <= i < gs.drop_first().len() implies (#[trigger] gs.drop_first()[i]).len() > 0 by {
            assert(gs.drop_first()[i] == gs[i + 1]);
        }
        lemma_flatten_len_ge(gs.drop_first());
    }
}

/// Counting the clusters that start before the byte where cluster `k` starts
/// gives `k`, where no cluster is empty.
pub(crate) proof fn lemma_starts_before_boundary(gs: Seq<Seq<char>>, base: int, k: int)
    requires
        0 <= k <= gs.len(),
        forall|i: int| 0 <= i < gs.len() ==> (#[trigger] gs[i]).len() > 0,
    ensures
        starts_before_bytes(gs, base, base + utf8_len(gs.take(k).flatten())) == k,
    decreases k,
{
    if k == 0 {
        assert(gs.take(0) =~= Seq::<Seq<char>>::empty());
    } else {
        let rest = gs.drop_first();
        assert(gs.take(k).drop_first() =~= rest.take(k - 1));
        assert(gs.take(k).first() == gs[0]);
        assert(gs.take(k).flatten() == gs[0] + rest.take(k - 1).flatten());
        lemma_utf8_concat(gs[0], rest.take(k - 1).flatten());
        lemma_utf8_nonempty(gs[0]);
        assert forall|i: int| 0 <= i < rest.len() implies (#[trigger] rest[i]).len() > 0 by {
            assert(rest[i] == gs[i + 1]);
        }
        lemma_starts_before_boundary(rest, base + utf8_len(gs[0]), k - 1);
    }
}

pub(crate) proof fn lemma_skip_step<A>(gs: Seq<A>, i: int)
    requires
        0 <= i < gs.len(),
    ensures
        gs.skip(i).drop_first() == gs.skip(i + 1),
        gs.skip(i)[0] == gs[i],
        gs.skip(i).len() > 0,
{
    assert(gs.skip(i).drop_first() =~= gs.skip(i + 1));
}

// ---------------------------------------------------------------------------
// Trusted items
// ---------------------------------------------------------------------------

/// Calls `UnicodeSegmentation::graphemes(s, true)` and collects the clusters.
///
/// Claims: the clusters are `grapheme_clusters(s@)`; as the crate's iterator
/// hands out consecutive, non-empty slices from the start of the string to its
/// end, they are non-empty and their concatenation is `s@`.
#[verifier::external_body]
pub(crate) fn graphemes(s: &str) -> (r: Vec<String>)
    ensures
        views(r@) == grapheme_clusters(s@),
        views(r@).flatten() == s@,
        forall|i: int| 0 <= i < r@.len() ==> (#[trigger] r@[i])@.len() > 0,
{
    s.graphemes(true).map(String::from).collect()
}

/// Calls `UnicodeWidthStr::width(s)`; claims only that the result is
/// `display_width(s@)`.
#[verifier::external_body]
pub(crate) fn str_width(s: &str) -> (r: usize)
    ensures
        r == display_width(s@),
{
    UnicodeWidthStr::width(s)
}

/// Calls `String::push`, which appends one character.
#[verifier::external_body]
pub(crate) fn push_char(s: &mut String, c: char)
    ensures
        final(s)@ == old(s)@.push(c),
{
    s.push(c)
}

/// Calls `String::pop`, which removes and returns the last character, or
/// returns `None` on an empty string.
#[verifier::external_body]
pub(crate) fn pop_char(s: &mut String) -> (r: Option<char>)
    ensures
        old(s)@.len() == 0 ==> r is None && final(s)@ == old(s)@,
        old(s)@.len() > 0 ==> r == Some(old(s)@.last()) && final(s)@ == old(s)@.drop_last(),
{
    s.pop()
}

// ---------------------------------------------------------------------------
// Executable helpers
// ---------------------------------------------------------------------------

/// Length of `s` in bytes.
pub(crate) fn byte_len(s: &str) -> (n: usize)
    ensures
        n == utf8_len(s@),
{
    s.as_bytes().len()
}

/// The concatenation of `gs[from..to]`.
pub(crate) fn join_range(gs: &Vec<String>, from: usize, to: usize) -> (r: String)
    requires
        from <= to <= gs@.len(),
    ensures
        r@ == views(gs@).subrange(from as int, to as int).flatten(),
{
    let ghost g = views(gs@);
    let mut r = String::new();
    let mut i = from;
    assert(g.subrange(from as int, from as int) =~= Seq::<Seq<char>>::empty());
    while i < to
        invariant
            from <= i <= to <= gs@.len(),
            g == views(gs@),
            r@ == g.subrange(from as int, i as int).flatten(),
        decreases to - i,
    {
        proof {
            lemma_flatten_extend(g, from as int, i as int);
        }
        r.append(gs[i].as_str());
        i = i + 1;
    }
    r
}

/// The characters of `s`.
pub(crate) fn chars_of(s: &str) -> (v: Vec<char>)
    ensures
        v@ == s@,
{
    let n = s.unicode_len();
    let mut v: Vec<char> = Vec::new();
    let mut i: usize = 0;
    while i < n
        invariant
            n == s@.len(),
            i <= n,
            v@ == s@.subrange(0, i as int),
        decreases n - i,
    {
        v.push(s.get_char(i));
        i = i + 1;
    }
    assert(v@ =~= s@);
    v
}

/// Byte index at which cluster `k` of `gs` starts, laid out one after
/// another from byte 0; `None` for `k` past the number of clusters.
pub fn cluster_start_byte(gs: &Vec<String>, k: usize) -> (r: Option<usize>)
    ensures
        k <= gs@.len() ==> r is Some && r->0 == utf8_len(views(gs@).take(k as int).flatten()),
        k > gs@.len() ==> r is None,
{
    if k > gs.len() {
        None
    } else {
        let p = join_range(gs, 0, k);
        assert(views(gs@).subrange(0, k as int) =~= views(gs@).take(k as int));
        Some(byte_len(p.as_str()))
    }
}

/// Number of clusters of `gs`, laid out one after another from byte 0, that
/// start before byte `pos`.
pub fn clusters_starting_before(gs: &Vec<String>, pos: usize) -> (n: usize)
    ensures
        n == starts_before_bytes(views(gs@), 0, pos as int),
{
    let ghost g = views(gs@);
    let mut i: usize = 0;
    let mut off: usize = 0;
    let mut done = false;
    assert(g.skip(0) =~= g);
    while i < gs.len() && !done && off < pos
        invariant
            i <= gs@.len(),
            g == views(gs@),
            !done ==> starts_before_bytes(g, 0, pos as int) == i + starts_before_bytes(
                g.skip(i as int),
                off as int,
                pos as int,
            ),
            done ==> starts_before_bytes(g, 0, pos as int) == i,
        decreases gs@.len() - i, if done { 0int } else { 1int },
    {
        let w = byte_len(gs[i].as_str());
        proof {
            lemma_skip_step(g, i as int);
            assert(g[i as int] == gs@[i as int]@);
            assert(starts_before_bytes(g.skip(i as int), off as int, pos as int) == 1
                + starts_before_bytes(g.skip(i + 1), off + w, pos as int));
        }
        if w >= pos - off {
            i = i + 1;
            done = true;
        } else {
            off = off + w;
            i = i + 1;
        }
    }
    proof {
        if !done && i == gs.len() {
            assert(g.skip(i as int).len() == 0);
        }
    }
    i
}

/// Char offset of the boundary before cluster `k`.
pub(crate) fn boundary_of(line: &str, gs: &Vec<String>, k: usize) -> (o: usize)
    requires
        views(gs@) == grapheme_clusters(line@),
        views(gs@).flatten() == line@,
        k <= gs@.len(),
    ensures
        o == boundary(line@, k as int),
        o <= line@.len(),
{
    let ghost g = views(gs@);
    proof {
        lemma_boundary_split(line@, k as int);
    }
    let n = line.unicode_len();
    let mut o: usize = 0;
    let mut i: usize = 0;
    assert(g.subrange(0, 0) =~= Seq::<Seq<char>>::empty());
    while i < k
        invariant
            n == line@.len(),
            i <= k <= gs@.len(),
            g == views(gs@),
            g.flatten() == line@,
            o == g.subrange(0, i as int).flatten().len(),
            g.take(k as int).flatten().len() <= line@.len(),
        decreases k - i,
    {
        proof {
            lemma_flatten_extend(g, 0, i as int);
            lemma_flatten_split(g.take(k as int), i + 1);
            assert(g.take(k as int).take(i + 1) =~= g.subrange(0, i + 1));
        }
        o = o + gs[i].as_str().unicode_len();
        i = i + 1;
    }
    assert(g.subrange(0, k as int) =~= g.take(k as int));
    o
}

/// Number of grapheme clusters of `s` that start before char `pos`.
pub(crate) fn grapheme_index_of_char(s: &str, pos: usize) -> (n: usize)
    ensures
        n == starts_before_chars(grapheme_clusters(s@), 0, pos as int),
        n <= grapheme_clusters(s@).len(),
{
    let gs = graphemes(s);
    let ghost g = views(gs@);
    let total = s.unicode_len();
    let mut i: usize = 0;
    let mut off: usize = 0;
    assert(g.take(0) =~= Seq::<Seq<char>>::empty());
    assert(g.skip(0) =~= g);
    while i < gs.len() && off < pos
        invariant
            i <= gs@.len(),
            g == views(gs@),
            g == grapheme_clusters(s@),
            g.flatten() == s@,
            total == s@.len(),
            off == g.take(i as int).flatten().len(),
            starts_before_chars(g, 0, pos as int) == i + starts_before_chars(
                g.skip(i as int),
                off as int,
                pos as int,
            ),
        decreases gs@.len() - i,
    {
        let w = gs[i].as_str().unicode_len();
        proof {
            lemma_skip_step(g, i as int);
            assert(g.take(i + 1) =~= g.subrange(0, i + 1));
            assert(g.take(i as int) =~= g.subrange(0, i as int));
            lemma_flatten_extend(g, 0, i as int);
            lemma_flatten_split(g, i + 1);
        }
        off = off + w;
        i = i + 1;
    }
    proof {
        if i == gs.len() {
            assert(g.skip(i as int).len() == 0);
        }
    }
    i
}

/// Number of clusters of `gs`, from `from` on, that fit one after another
/// into `max` columns.
pub fn fit_count(gs: &Vec<String>, from: usize, max: usize) -> (k: usize)
    requires
        from <= gs@.len(),
    ensures
        k == fitting_clusters(views(gs@).subrange(from as int, gs@.len() as int), 0, max as int),
        k <= gs@.len() - from,
{
    let ghost g = views(gs@).subrange(from as int, gs@.len() as int);
    let n = gs.len();
    let mut width: usize = 0;
    let mut j: usize = 0;
    let mut done = false;
    assert(g.skip(0) =~= g);
    while j < n - from && !done
        invariant
            from <= n == gs@.len(),
            j <= n - from,
            g == views(gs@).subrange(from as int, n as int),
            width <= max,
            !done ==> fitting_clusters(g, 0, max as int) == j + fitting_clusters(
                g.skip(j as int),
                width as int,
                max as int,
            ),
            done ==> fitting_clusters(g, 0, max as int) == j,
        decreases n - from - j, if done { 0int } else { 1int },
    {
        let w = str_width(gs[from + j].as_str());
        proof {
            lemma_skip_step(g, j as int);
        }
        if w <= max - width {
            width = width + w;
            j = j + 1;
        } else {
            done = true;
        }
    }
    proof {
        if !done {
            assert(g.skip(j as int).len() == 0);
        }
    }
    j
}

/// The longest run of whole leading grapheme clusters of `s` that fits in
/// `max_cols` terminal columns.
pub fn truncate_to_width(s: &str, max_cols: usize) -> (r: String)
    ensures
        r@ == truncated(s@, max_cols as int),
        grapheme_clusters(s@).flatten() == s@,
{
    let gs = graphemes(s);
    let k = fit_count(&gs, 0, max_cols);
    proof {
        assert(views(gs@).subrange(0, gs@.len() as int) =~= views(gs@));
        assert(views(gs@).subrange(0, k as int) =~= views(gs@).take(k as int));
    }
    join_range(&gs, 0, k)
}

/// Total display width, modulo 2^16, of `gs[from..to]`.
pub fn span_width_u16(gs: &Vec<String>, from: usize, to: usize) -> (r: u16)
    requires
        from <= to <= gs@.len(),
    ensures
        r as int == width_sum(views(gs@).subrange(from as int, to as int)) % 65536,
{
    let ghost g = views(gs@);
    let mut acc: usize = 0;
    let mut i: usize = from;
    assert(g.subrange(from as int, from as int) =~= Seq::<Seq<char>>::empty());
    while i < to
        invariant
            from <= i <= to <= gs@.len(),
            g == views(gs@),
            acc < 65536,
            acc as int == width_sum(g.subrange(from as int, i as int)) % 65536,
        decreases to - i,
    {
        let w = str_width(gs[i].as_str());
        proof {
            assert(g.subrange(from as int, i + 1).drop_last() =~= g.subrange(from as int, i as int));
            lemma_add_mod_noop(width_sum(g.subrange(from as int, i as int)) as int, w as int, 65536);
            assert(acc as int % 65536 == acc as int);
        }
        acc = (acc + w % 65536) % 65536;
        i = i + 1;
    }
    acc as u16
}

/// Whether the clusters `gs[from..to]` together take fewer than `limit`
/// columns.
pub fn width_below(gs: &Vec<String>, from: usize, to: usize, limit: usize) -> (b: bool)
    requires
        from <= to <= gs@.len(),
    ensures
        b == (width_sum(views(gs@).subrange(from as int, to as int)) < limit),
{
    let ghost g = views(gs@);
    let mut acc: usize = 0;
    let mut i: usize = from;
    assert(g.subrange(from as int, from as int) =~= Seq::<Seq<char>>::empty());
    if limit == 0 {
        return false;
    }
    while i < to
        invariant
            from <= i <= to <= gs@.len(),
            g == views(gs@),
            acc < limit,
            acc == width_sum(g.subrange(from as int, i as int)),
        decreases to - i,
    {
        let w = str_width(gs[i].as_str());
        assert(g.subrange(from as int, i + 1).drop_last() =~= g.subrange(from as int, i as int));
        if w >= limit - acc {
            proof {
                lemma_width_sum_split(g.subrange(from as int, to as int), i + 1 - from);
                assert(g.subrange(from as int, to as int).take(i + 1 - from) =~= g.subrange(
                    from as int,
                    i + 1,
                ));
            }
            return false;
        }
        acc = acc + w;
        i = i + 1;
    }
    true
}

/// Whether, with the line drawn from cluster `s`, the cursor before cluster
/// `c` stands left of the last of `cols` columns.
pub(crate) fn cursor_fits_at(gs: &Vec<String>, s: usize, c: usize, cols: u16) -> (b: bool)
    requires
        s <= c <= gs@.len(),
    ensures
        b == cursor_fits(views(gs@), s as int, c as int, cols as int),
{
    let left: usize = if s > 0 && gs.len() > 0 {
        1
    } else {
        0
    };
    if (cols as usize) <= 1 + left {
        false
    } else {
        width_below(gs, s, c, cols as usize - 1 - left)
    }
}

/// What is drawn of `line` in `cols` columns when drawing starts at cluster
/// `s`: a `'<'` where clusters are hidden to the left, then the clusters that
/// fit, then a `'>'` where the rest does not fit.
pub fn visible_part(line: &str, s: usize, cols: u16) -> (r: String)
    ensures
        r@ == shown_line(line@, s as int, cols as int),
{
    if cols == 0 {
        return String::new();
    }
    let gs = graphemes(line);
    let ghost g = views(gs@);
    let n = gs.len();
    let s1 = if s <= n {
        s
    } else {
        n
    };
    let left: usize = if s > 0 && n > 0 {
        1
    } else {
        0
    };
    let avail = cols as usize - left;
    let mut out = String::new();
    if left == 1 {
        push_char(&mut out, '<');
    }
    let ghost prefix = out@;
    let k_all = fit_count(&gs, s1, avail);
    let ghost rest = g.subrange(s1 as int, n as int);
    if k_all == n - s1 {
        let body = join_range(&gs, s1, n);
        out.append(body.as_str());
    } else if avail >= 1 {
        let k = fit_count(&gs, s1, avail - 1);
        let body = join_range(&gs, s1, s1 + k);
        assert(g.subrange(s1 as int, s1 + k) =~= rest.take(k as int));
        out.append(body.as_str());
        push_char(&mut out, '>');
    }
    proof {
        if left == 1 {
            assert(prefix =~= seq!['<']);
        } else {
            assert(prefix =~= Seq::<char>::empty());
        }
        assert(out@ =~= shown_line(line@, s as int, cols as int));
    }
    out
}

/// Whether `q` occurs in `s` at position `i`.
fn occurs_at(s: &Vec<char>, q: &Vec<char>, i: usize) -> (b: bool)
    requires
        i + q@.len() <= s@.len(),
    ensures
        b == matches_at(s@, q@, i as int),
{
    let slen = s.len();
    let mut j: usize = 0;
    while j < q.len()
        invariant
            slen == s@.len(),
            i + q@.len() <= s@.len(),
            j <= q@.len(),
            forall|t: int| 0 <= t < j ==> s@[i + t] == q@[t],
        decreases q@.len() - j,
    {
        if s[i + j] != q[j] {
            assert(s@.subrange(i as int, i + q@.len())[j as int] != q@[j as int]);
            return false;
        }
        j = j + 1;
    }
    assert(s@.subrange(i as int, i + q@.len()) =~= q@);
    true
}

/// The first position at or after `start` where `q` occurs in `s`.
pub(crate) fn find_from(s: &Vec<char>, q: &Vec<char>, start: usize) -> (r: Option<usize>)
    ensures
        r matches Some(i) ==> first_match(s@, q@, start as int) == Some(i as int),
        r is None ==> first_match(s@, q@, start as int) is None,
{
    let slen = s.len();
    let qlen = q.len();
    let mut i = start;
    while i <= slen && qlen <= slen - i
        invariant
            start <= i,
            slen == s@.len(),
            qlen == q@.len(),
            first_match(s@, q@, start as int) == first_match(s@, q@, i as int),
        decreases slen + 1 - i,
    {
        if occurs_at(s, q, i) {
            return Some(i);
        }
        if i == slen {
            assert(first_match(s@, q@, i + 1) is None);
            return None;
        }
        i = i + 1;
    }
    None
}

/// `s` with every `'\n'` and `'\r'` removed.
pub(crate) fn remove_line_breaks(s: &str) -> (r: String)
    ensures
        r@ == without_line_breaks(s@),
{
    let cs = chars_of(s);
    let mut r = String::new();
    let mut i: usize = 0;
    assert(cs@.take(0) =~= Seq::<char>::empty());
    while i < cs.len()
        invariant
            i <= cs@.len(),
            cs@ == s@,
            r@ == without_line_breaks(cs@.take(i as int)),
        decreases cs@.len() - i,
    {
        let c = cs[i];
        assert(cs@.take(i + 1).drop_last() =~= cs@.take(i as int));
        if c != '\n' && c != '\r' {
            push_char(&mut r, c);
        }
        i = i + 1;
    }
    assert(cs@.take(cs@.len() as int) =~= s@);
    r
}

/// `l` without a final `'\r'`.
fn without_final_cr(l: &String) -> (r: String)
    ensures
        r@ == strip_cr(l@),
{
    let mut r = l.clone();
    let n = r.as_str().unicode_len();
    if n > 0 && r.as_str().get_char(n - 1) == '\r' {
        pop_char(&mut r);
    }
    r
}

/// The lines of `content` as `str::lines` yields them.
pub(crate) fn lines_of(content: &str) -> (r: Vec<String>)
    ensures
        views(r@) == text_lines(content@),
{
    let cs = chars_of(content);
    if cs.len() == 0 {
        let r: Vec<String> = Vec::new();
        assert(views(r@) =~= text_lines(content@));
        return r;
    }
    let mut done: Vec<String> = Vec::new();
    let mut cur = String::new();
    let mut i: usize = 0;
    assert(cs@.take(0) =~= Seq::<char>::empty());
    assert(views(done@).push(cur@) =~= split_newlines(cs@.take(0)));
    while i < cs.len()
        invariant
            i <= cs@.len(),
            cs@ == content@,
            views(done@).push(cur@) == split_newlines(cs@.take(i as int)),
        decreases cs@.len() - i,
    {
        let c = cs[i];
        let ghost before = split_newlines(cs@.take(i as int));
        assert(cs@.take(i + 1).drop_last() =~= cs@.take(i as int));
        if c == '\n' {
            done.push(cur);
            cur = String::new();
            assert(views(done@).push(cur@) =~= before.push(Seq::empty()));
        } else {
            push_char(&mut cur, c);
            assert(views(done@).push(cur@) =~= before.update(
                before.len() - 1,
                before.last().push(c),
            ));
        }
        i = i + 1;
    }
    assert(cs@.take(cs@.len() as int) =~= content@);
    let ghost p = split_newlines(content@);
    let mut r: Vec<String> = Vec::new();
    let mut j: usize = 0;
    while j < done.len()
        invariant
            j <= done@.len(),
            views(done@).push(cur@) == p,
            views(r@) == p.take(j as int).map_values(|l: Seq<char>| strip_cr(l)),
        decreases done@.len() - j,
    {
        let l = without_final_cr(&done[j]);
        let ghost r0 = views(r@);
        assert(views(done@)[j as int] == p[j as int]);
        r.push(l);
        assert(views(r@) =~= r0.push(strip_cr(p[j as int])));
        j = j + 1;
        assert(views(r@) =~= p.take(j as int).map_values(|l: Seq<char>| strip_cr(l)));
    }
    assert(p.take(p.len() - 1) =~= p.take(done@.len() as int));
    if cs[cs.len() - 1] != '\n' {
        r.push(cur);
        assert(views(r@) =~= text_lines(content@));
    } else {
        assert(views(r@) =~= text_lines(content@));
    }
    r
}

/// The lines joined with `'\n'` between them.
pub(crate) fn join_with_newlines(b: &Vec<String>) -> (r: String)
    ensures
        r@ == join_lines(views(b@)),
{
    let ghost v = views(b@);
    if b.len() == 0 {
        return String::new();
    }
    let mut r = b[0].clone();
    let mut i: usize = 1;
    assert(v.take(1).len() == 1);
    while i < b.len()
        invariant
            1 <= i <= b@.len(),
            v == views(b@),
            r@ == join_lines(v.take(i as int)),
        decreases b@.len() - i,
    {
        assert(v.take(i + 1).drop_last() =~= v.take(i as int));
        push_char(&mut r, '\n');
        r.append(b[i].as_str());
        i = i + 1;
    }
    assert(v.take(b@.len() as int) =~= v);
    r
}

} // verus!
