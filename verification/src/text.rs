//! Text primitives over strings seen as sequences of `char`: trimming,
//! prefix and substring tests, splitting on one character, joining.
//!
//! Each operation has a mathematical definition over `Seq<char>` and an
//! executable counterpart on `&str` that is proved to compute it.
use vstd::prelude::*;

verus! {

// ---------------------------------------------------------------------------
// Definitions
// ---------------------------------------------------------------------------
/// The characters with the Unicode `White_Space` property, which is what
/// `str::trim` removes.
pub open spec fn is_ws(c: char) -> bool {
    let u = c as u32;
    ||| 0x09 <= u <= 0x0d
    ||| u == 0x20
    ||| u == 0x85
    ||| u == 0xa0
    ||| u == 0x1680
    ||| 0x2000 <= u <= 0x200a
    ||| u == 0x2028
    ||| u == 0x2029
    ||| u == 0x202f
    ||| u == 0x205f
    ||| u == 0x3000
}

/// `s` without its leading white space.
pub open spec fn trim_start(s: Seq<char>) -> Seq<char>
    decreases s.len(),
{
    if s.len() > 0 && is_ws(s[0]) {
        trim_start(s.drop_first())
    } else {
        s
    }
}

/// `s` without its trailing white space.
pub open spec fn trim_end(s: Seq<char>) -> Seq<char>
    decreases s.len(),
{
    if s.len() > 0 && is_ws(s.last()) {
        trim_end(s.drop_last())
    } else {
        s
    }
}

/// `s` without leading and trailing white space.
pub open spec fn trim(s: Seq<char>) -> Seq<char> {
    trim_end(trim_start(s))
}

/// `p` is a prefix of `s`.
pub open spec fn starts_with(s: Seq<char>, p: Seq<char>) -> bool {
    p.len() <= s.len() && s.subrange(0, p.len() as int) == p
}

/// `p` is a suffix of `s`.
pub open spec fn ends_with(s: Seq<char>, p: Seq<char>) -> bool {
    p.len() <= s.len() && s.subrange(s.len() - p.len(), s.len() as int) == p
}

/// `p` occurs in `s` starting at position `i`.
pub open spec fn occurs_at(s: Seq<char>, p: Seq<char>, i: int) -> bool {
    0 <= i && i + p.len() <= s.len() && s.subrange(i, i + p.len()) == p
}

/// `p` occurs somewhere in `s`.
pub open spec fn contains(s: Seq<char>, p: Seq<char>) -> bool {
    exists|i: int| #[trigger] occurs_at(s, p, i)
}

/// `i` is the position of the first `c` in `s`.
pub open spec fn is_first(s: Seq<char>, c: char, i: int) -> bool {
    0 <= i < s.len() && s[i] == c && forall|j: int| 0 <= j < i ==> s[j] != c
}

/// The position of the first `c` in `s`, if `c` occurs in it.
pub open spec fn first_index(s: Seq<char>, c: char) -> Option<int> {
    if exists|i: int| is_first(s, c, i) {
        Some(choose|i: int| is_first(s, c, i))
    } else {
        None
    }
}

/// The pieces of `s` between the occurrences of `c`, in order: one more
/// piece than there are `c`s in `s`, none of them holding `c`.
pub open spec fn split(s: Seq<char>, c: char) -> Seq<Seq<char>>
    decreases s.len(),
{
    if s.len() == 0 {
        seq![Seq::<char>::empty()]
    } else {
        let parts = split(s.drop_last(), c);
        if s.last() == c {
            parts.push(Seq::<char>::empty())
        } else {
            parts.update(parts.len() - 1, parts.last().push(s.last()))
        }
    }
}

/// The piece of `s` after its last `c` (all of `s` when it holds no `c`).
pub open spec fn last_segment(s: Seq<char>, c: char) -> Seq<char> {
    split(s, c).last()
}

/// The pieces, with `sep` between each two neighbours.
pub open spec fn join(parts: Seq<Seq<char>>, sep: Seq<char>) -> Seq<char>
    decreases parts.len(),
{
    if parts.len() == 0 {
        Seq::<char>::empty()
    } else if parts.len() == 1 {
        parts[0]
    } else {
        join(parts.drop_last(), sep) + sep + parts.last()
    }
}

/// The character sequences of a list of strings.
pub open spec fn views(v: Seq<String>) -> Seq<Seq<char>> {
    v.map_values(|x: String| x@)
}

// ---------------------------------------------------------------------------
// Facts about the definitions
// ---------------------------------------------------------------------------
/// Splitting always yields at least one piece.
pub proof fn lemma_split_nonempty(s: Seq<char>, c: char)
    ensures
        split(s, c).len() >= 1,
    decreases s.len(),
{
    if s.len() > 0 {
        lemma_split_nonempty(s.drop_last(), c);
    }
}

/// A piece is never longer than the text it comes from, never holds the
/// separator, and holds only characters that the text holds.
pub proof fn lemma_split_parts(s: Seq<char>, c: char)
    ensures
        forall|i: int| 0 <= i < split(s, c).len() ==> (#[trigger] split(s, c)[i]).len() <= s.len(),
        forall|i: int| 0 <= i < split(s, c).len() ==> !(#[trigger] split(s, c)[i]).contains(c),
        forall|d: char, i: int|
            !s.contains(d) && 0 <= i < split(s, c).len() ==> !#[trigger] split(s, c)[i].contains(d),
    decreases s.len(),
{
    if s.len() > 0 {
        let t = s.drop_last();
        lemma_split_parts(t, c);
        lemma_split_nonempty(t, c);
        let parts = split(t, c);
        assert forall|d: char| !s.contains(d) implies !t.contains(d) by {
            if t.contains(d) {
                let k = choose|k: int| 0 <= k < t.len() && t[k] == d;
                assert(s[k] == d);
            }
        }
        if s.last() != c {
            let last = parts.last().push(s.last());
            assert forall|d: char| last.contains(d) implies (parts.last().contains(d) || d
                == s.last()) by {
                let k = choose|k: int| 0 <= k < last.len() && last[k] == d;
                if k < parts.last().len() {
                    assert(parts.last()[k] == d);
                }
            }
            assert(s.contains(s.last())) by {
                assert(s[s.len() - 1] == s.last());
            }
            assert forall|i: int| 0 <= i < split(s, c).len() implies !(#[trigger] split(
                s,
                c,
            )[i]).contains(c) by {
                if i == parts.len() - 1 {
                    assert(!parts[parts.len() - 1].contains(c));
                }
            }
        } else {
            assert forall|i: int| 0 <= i < split(s, c).len() implies !(#[trigger] split(
                s,
                c,
            )[i]).contains(c) by {
                if i < parts.len() {
                    assert(split(s, c)[i] == parts[i]);
                } else {
                    assert(split(s, c)[i] =~= Seq::<char>::empty());
                }
            }
        }
    }
}

/// A text without the separator is a single piece.
pub proof fn lemma_split_without_separator(s: Seq<char>, c: char)
    requires
        !s.contains(c),
    ensures
        split(s, c) == seq![s],
    decreases s.len(),
{
    if s.len() > 0 {
        let t = s.drop_last();
        assert(!t.contains(c)) by {
            if t.contains(c) {
                let k = choose|k: int| 0 <= k < t.len() && t[k] == c;
                assert(s[k] == c);
            }
        }
        lemma_split_without_separator(t, c);
        assert(s[s.len() - 1] == s.last());
        assert(t.push(s.last()) =~= s);
        assert(split(s, c) =~= seq![s]);
    } else {
        assert(s =~= Seq::<char>::empty());
    }
}

/// A text holding the separator splits into at least two pieces.
pub proof fn lemma_split_with_separator(s: Seq<char>, c: char)
    requires
        s.contains(c),
    ensures
        split(s, c).len() >= 2,
    decreases s.len(),
{
    lemma_split_nonempty(s.drop_last(), c);
    if s.last() != c {
        let t = s.drop_last();
        let k = choose|k: int| 0 <= k < s.len() && s[k] == c;
        assert(k < s.len() - 1);
        assert(t[k] == c);
        lemma_split_with_separator(t, c);
    }
}

/// Appending to the last piece appends to the joined text.
pub proof fn lemma_join_extend_last(parts: Seq<Seq<char>>, sep: Seq<char>, t: Seq<char>)
    requires
        parts.len() >= 1,
    ensures
        join(parts.update(parts.len() - 1, parts.last() + t), sep) == join(parts, sep) + t,
{
    let q = parts.update(parts.len() - 1, parts.last() + t);
    if parts.len() == 1 {
        assert(q[0] == parts[0] + t);
    } else {
        assert(q.drop_last() =~= parts.drop_last());
        assert(join(q, sep) == join(parts.drop_last(), sep) + sep + (parts.last() + t));
        assert(join(q, sep) =~= join(parts, sep) + t);
    }
}

/// Joining the pieces of a split with the separator gives back the text.
pub proof fn lemma_join_split(s: Seq<char>, c: char)
    ensures
        join(split(s, c), seq![c]) == s,
    decreases s.len(),
{
    if s.len() > 0 {
        let t = s.drop_last();
        lemma_join_split(t, c);
        lemma_split_nonempty(t, c);
        let parts = split(t, c);
        if s.last() == c {
            let q = parts.push(Seq::<char>::empty());
            assert(q.drop_last() =~= parts);
            assert(join(q, seq![c]) =~= s);
        } else {
            lemma_join_extend_last(parts, seq![c], seq![s.last()]);
            assert(parts.last().push(s.last()) =~= parts.last() + seq![s.last()]);
            assert(t + seq![s.last()] =~= s);
        }
    }
}

/// Appending text without the separator extends the last piece.
pub proof fn lemma_split_append_plain(x: Seq<char>, y: Seq<char>, c: char)
    requires
        !y.contains(c),
    ensures
        split(x + y, c) == split(x, c).update(
            split(x, c).len() - 1,
            split(x, c).last() + y,
        ),
    decreases y.len(),
{
    lemma_split_nonempty(x, c);
    let px = split(x, c);
    if y.len() == 0 {
        assert(x + y =~= x);
        assert(px.last() + y =~= px.last());
        assert(px.update(px.len() - 1, px.last() + y) =~= px);
    } else {
        let y0 = y.drop_last();
        assert(!y0.contains(c)) by {
            if y0.contains(c) {
                let k = choose|k: int| 0 <= k < y0.len() && y0[k] == c;
                assert(y[k] == c);
            }
        }
        lemma_split_append_plain(x, y0, c);
        let d = y.last();
        assert(y[y.len() - 1] == d);
        assert(d != c);
        assert((x + y).drop_last() =~= x + y0);
        assert((x + y).last() == d);
        let p0 = split(x + y0, c);
        assert(p0.last().push(d) =~= px.last() + y);
        assert(split(x + y, c) =~= px.update(px.len() - 1, px.last() + y));
    }
}

/// Splitting pieces that were joined by the separator gives the pieces back,
/// when none of them holds the separator.
pub proof fn lemma_split_join(parts: Seq<Seq<char>>, c: char)
    requires
        parts.len() >= 1,
        forall|i: int| 0 <= i < parts.len() ==> !(#[trigger] parts[i]).contains(c),
    ensures
        split(join(parts, seq![c]), c) == parts,
    decreases parts.len(),
{
    if parts.len() == 1 {
        lemma_split_without_separator(parts[0], c);
        assert(seq![parts[0]] =~= parts);
    } else {
        let prev = parts.drop_last();
        lemma_split_join(prev, c);
        let j = join(prev, seq![c]);
        let jc = j + seq![c];
        assert(jc.drop_last() =~= j);
        assert(jc.last() == c);
        assert(split(jc, c) == prev.push(Seq::<char>::empty()));
        assert(!parts.last().contains(c)) by {
            assert(parts.last() == parts[parts.len() - 1]);
        }
        lemma_split_append_plain(jc, parts.last(), c);
        assert(jc + parts.last() =~= join(parts, seq![c]));
        assert(Seq::<char>::empty() + parts.last() =~= parts.last());
        assert(prev.push(Seq::<char>::empty()).update(prev.len() as int, parts.last()) =~= parts);
    }
}

/// The piece after the last `c` is `p` exactly when `p` holds no `c` and
/// the text is `p` itself or ends with `c` followed by `p`.
pub proof fn lemma_last_segment_is(s: Seq<char>, c: char, p: Seq<char>)
    ensures
        (last_segment(s, c) == p) <==> (!p.contains(c) && (s == p || ends_with(s, seq![c] + p))),
{
    let parts = split(s, c);
    lemma_split_nonempty(s, c);
    lemma_split_parts(s, c);
    lemma_join_split(s, c);
    let l = parts.last();
    assert(l == parts[parts.len() - 1]);
    if l == p {
        if parts.len() == 1 {
            assert(join(parts, seq![c]) == parts[0]);
        } else {
            let x = join(parts.drop_last(), seq![c]);
            assert(s == x + seq![c] + l);
            assert(s.subrange(s.len() - (p.len() + 1), s.len() as int) =~= seq![c] + p);
        }
    }
    if !p.contains(c) && s == p {
        lemma_split_without_separator(s, c);
    }
    if !p.contains(c) && ends_with(s, seq![c] + p) {
        let n = s.len() - p.len() - 1;
        let x = s.subrange(0, n);
        let xc = x + seq![c];
        let tail = s.subrange(n, s.len() as int);
        assert(tail == seq![c] + p);
        assert forall|k: int| 0 <= k < s.len() implies s[k] == (xc + p)[k] by {
            if k >= n {
                assert(s[k] == tail[k - n]);
            }
        }
        assert(s =~= xc + p);
        assert(xc.drop_last() =~= x);
        assert(xc.last() == c);
        lemma_split_nonempty(x, c);
        lemma_split_append_plain(xc, p, c);
        assert(split(xc, c).last() =~= Seq::<char>::empty());
        assert(Seq::<char>::empty() + p =~= p);
    }
}

/// A concatenation holds a character exactly when one of its parts does.
pub proof fn lemma_contains_concat(a: Seq<char>, b: Seq<char>, c: char)
    ensures
        (a + b).contains(c) <==> (a.contains(c) || b.contains(c)),
{
    if (a + b).contains(c) {
        let k = choose|k: int| 0 <= k < (a + b).len() && (a + b)[k] == c;
        if k < a.len() {
            assert(a[k] == c);
        } else {
            assert(b[k - a.len()] == c);
        }
    }
    if a.contains(c) {
        let k = choose|k: int| 0 <= k < a.len() && a[k] == c;
        assert((a + b)[k] == c);
    }
    if b.contains(c) {
        let k = choose|k: int| 0 <= k < b.len() && b[k] == c;
        assert((a + b)[k + a.len()] == c);
    }
}

/// A part of a text holds only characters that the text holds.
pub proof fn lemma_subrange_contains(s: Seq<char>, i: int, j: int, c: char)
    requires
        0 <= i <= j <= s.len(),
        !s.contains(c),
    ensures
        !s.subrange(i, j).contains(c),
{
    if s.subrange(i, j).contains(c) {
        let k = choose|k: int| 0 <= k < j - i && s.subrange(i, j)[k] == c;
        assert(s[i + k] == c);
    }
}

/// Trimming the start drops a white-space prefix.
pub proof fn lemma_trim_start_range(s: Seq<char>) -> (i: int)
    ensures
        0 <= i <= s.len(),
        trim_start(s) == s.subrange(i, s.len() as int),
        forall|k: int| 0 <= k < i ==> is_ws(#[trigger] s[k]),
    decreases s.len(),
{
    if s.len() > 0 && is_ws(s[0]) {
        let t = s.drop_first();
        let j = lemma_trim_start_range(t);
        assert(t.subrange(j, t.len() as int) =~= s.subrange(j + 1, s.len() as int));
        assert forall|k: int| 0 <= k < j + 1 implies is_ws(#[trigger] s[k]) by {
            if k > 0 {
                assert(s[k] == t[k - 1]);
            }
        }
        j + 1
    } else {
        assert(s.subrange(0, s.len() as int) =~= s);
        0
    }
}

/// Trimming the end drops a white-space suffix.
pub proof fn lemma_trim_end_range(s: Seq<char>) -> (j: int)
    ensures
        0 <= j <= s.len(),
        trim_end(s) == s.subrange(0, j),
        forall|k: int| j <= k < s.len() ==> is_ws(#[trigger] s[k]),
    decreases s.len(),
{
    if s.len() > 0 && is_ws(s.last()) {
        let t = s.drop_last();
        let j = lemma_trim_end_range(t);
        assert(t.subrange(0, j) =~= s.subrange(0, j));
        assert forall|k: int| j <= k < s.len() implies is_ws(#[trigger] s[k]) by {
            if k < s.len() - 1 {
                assert(s[k] == t[k]);
            }
        }
        j
    } else {
        assert(s.subrange(0, s.len() as int) =~= s);
        s.len() as int
    }
}

/// The trimmed text is a part of the text with only white space around it.
pub proof fn lemma_trim_range(s: Seq<char>) -> (ij: (int, int))
    ensures
        0 <= ij.0 <= ij.1 <= s.len(),
        trim(s) == s.subrange(ij.0, ij.1),
        forall|k: int| 0 <= k < s.len() && !(ij.0 <= k < ij.1) ==> is_ws(#[trigger] s[k]),
{
    let i = lemma_trim_start_range(s);
    let u = s.subrange(i, s.len() as int);
    let j = lemma_trim_end_range(u);
    assert(u.subrange(0, j) =~= s.subrange(i, i + j));
    assert forall|k: int| 0 <= k < s.len() && !(i <= k < i + j) implies is_ws(#[trigger] s[k]) by {
        if k >= i + j {
            assert(s[k] == u[k - i]);
        }
    }
    (i, i + j)
}

/// A non-empty pattern without white space that occurs in a text occurs in
/// its trimmed form.
pub proof fn lemma_contains_in_trim(s: Seq<char>, p: Seq<char>)
    requires
        contains(s, p),
        p.len() >= 1,
        forall|k: int| 0 <= k < p.len() ==> !is_ws(#[trigger] p[k]),
    ensures
        contains(trim(s), p),
{
    let (i, j) = lemma_trim_range(s);
    let k = choose|k: int| #[trigger] occurs_at(s, p, k);
    let m = p.len() as int;
    assert(s[k] == p[0]) by {
        assert(s.subrange(k, k + m)[0] == p[0]);
    }
    assert(s[k + m - 1] == p[m - 1]) by {
        assert(s.subrange(k, k + m)[m - 1] == p[m - 1]);
    }
    assert(!is_ws(p[0]));
    assert(!is_ws(p[m - 1]));
    assert(i <= k < j);
    assert(i <= k + m - 1 < j);
    assert(trim(s).subrange(k - i, k - i + m) =~= s.subrange(k, k + m));
    assert(occurs_at(trim(s), p, k - i));
}

/// A pattern without `c` does not occur in `a`, `c`, `b` put together when
/// it occurs in neither `a` nor `b`.
pub proof fn lemma_no_occurrence_across(a: Seq<char>, c: char, b: Seq<char>, p: Seq<char>)
    requires
        !p.contains(c),
        !contains(a, p),
        !contains(b, p),
    ensures
        !contains(a + seq![c] + b, p),
{
    let x = a + seq![c] + b;
    let m = p.len() as int;
    if m == 0 {
        assert(occurs_at(a, p, 0)) by {
            assert(a.subrange(0, 0) =~= p);
        }
    }
    assert forall|k: int| !#[trigger] occurs_at(x, p, k) by {
        if occurs_at(x, p, k) {
            if k + m <= a.len() {
                assert(a.subrange(k, k + m) =~= x.subrange(k, k + m));
                assert(occurs_at(a, p, k));
            } else if k > a.len() {
                let q = k - a.len() - 1;
                assert(b.subrange(q, q + m) =~= x.subrange(k, k + m));
                assert(occurs_at(b, p, q));
            } else {
                let d = a.len() - k;
                assert(x.subrange(k, k + m)[d] == x[a.len() as int]);
                assert(p[d] == c);
            }
        }
    }
}

/// Dropping a leading white-space character does not change the trimmed start.
pub proof fn lemma_trim_start_step(s: Seq<char>, i: int)
    requires
        0 <= i < s.len(),
        is_ws(s[i]),
    ensures
        trim_start(s.subrange(i, s.len() as int)) == trim_start(s.subrange(i + 1, s.len() as int)),
{
    assert(s.subrange(i, s.len() as int).drop_first() =~= s.subrange(i + 1, s.len() as int));
}

// ---------------------------------------------------------------------------
// Executable operations
// ---------------------------------------------------------------------------
/// Whether `c` is white space in the sense of `str::trim`.
pub fn is_ws_char(c: char) -> (r: bool)
    ensures
        r == is_ws(c),
{
    let u = c as u32;
    (0x09 <= u && u <= 0x0d) || u == 0x20 || u == 0x85 || u == 0xa0 || u == 0x1680 || (0x2000 <= u
        && u <= 0x200a) || u == 0x2028 || u == 0x2029 || u == 0x202f || u == 0x205f || u == 0x3000
}

/// `s` without leading and trailing white space, as `str::trim`.
pub fn trim_str<'a>(s: &'a str) -> (r: &'a str)
    ensures
        r@ == trim(s@),
{
    let n = s.unicode_len();
    let mut a: usize = 0;
    assert(s@.subrange(0, n as int) =~= s@);
    while a < n && is_ws_char(s.get_char(a))
        invariant
            a <= n,
            n == s@.len(),
            trim_start(s@) == trim_start(s@.subrange(a as int, n as int)),
        decreases n - a,
    {
        proof {
            lemma_trim_start_step(s@, a as int);
        }
        a = a + 1;
    }
    let ghost mid = s@.subrange(a as int, n as int);
    assert(trim_start(mid) == mid) by {
        if mid.len() > 0 {
            assert(mid[0] == s@[a as int]);
        }
    }
    let mut b: usize = n;
    assert(s@.subrange(a as int, b as int) =~= mid);
    while b > a && is_ws_char(s.get_char(b - 1))
        invariant
            a <= b <= n,
            n == s@.len(),
            trim_end(mid) == trim_end(s@.subrange(a as int, b as int)),
        decreases b - a,
    {
        assert(s@.subrange(a as int, b as int).drop_last() =~= s@.subrange(a as int, b - 1));
        assert(s@.subrange(a as int, b as int).last() == s@[b - 1]);
        b = b - 1;
    }
    let ghost fin = s@.subrange(a as int, b as int);
    assert(trim_end(fin) == fin) by {
        if fin.len() > 0 {
            assert(fin.last() == s@[b - 1]);
        }
    }
    s.substring_char(a, b)
}

/// Whether `p` occurs in `s` at position `i`.
fn occurs_at_str(s: &str, p: &str, i: usize) -> (r: bool)
    requires
        i + p@.len() <= s@.len(),
    ensures
        r == occurs_at(s@, p@, i as int),
{
    let n = s.unicode_len();
    let m = p.unicode_len();
    let mut j: usize = 0;
    while j < m
        invariant
            j <= m,
            m == p@.len(),
            n == s@.len(),
            i + m <= n,
            forall|k: int| 0 <= k < j ==> s@[i + k] == p@[k],
        decreases m - j,
    {
        if s.get_char(i + j) != p.get_char(j) {
            assert(s@.subrange(i as int, i + m)[j as int] != p@[j as int]);
            return false;
        }
        j = j + 1;
    }
    assert(s@.subrange(i as int, i + m) =~= p@);
    true
}

/// Whether `p` is a prefix of `s`, as `str::starts_with`.
pub fn starts_with_str(s: &str, p: &str) -> (r: bool)
    ensures
        r == starts_with(s@, p@),
{
    if p.unicode_len() > s.unicode_len() {
        return false;
    }
    occurs_at_str(s, p, 0)
}

/// Whether `p` occurs in `s`, as `str::contains`.
pub fn contains_str(s: &str, p: &str) -> (r: bool)
    ensures
        r == contains(s@, p@),
{
    let n = s.unicode_len();
    let m = p.unicode_len();
    if m > n {
        assert forall|i: int| !occurs_at(s@, p@, i) by {}
        return false;
    }
    if m == 0 {
        assert(occurs_at(s@, p@, 0)) by {
            assert(s@.subrange(0, 0) =~= p@);
        }
        return true;
    }
    let mut i: usize = 0;
    while i <= n - m
        invariant
            i <= n - m + 1,
            n == s@.len(),
            m == p@.len(),
            1 <= m <= n,
            forall|k: int| 0 <= k < i ==> !#[trigger] occurs_at(s@, p@, k),
        decreases n - m + 1 - i,
    {
        if occurs_at_str(s, p, i) {
            return true;
        }
        i = i + 1;
    }
    assert forall|k: int| !#[trigger] occurs_at(s@, p@, k) by {
        if 0 <= k < i {
        }
    }
    false
}

/// Whether `a` and `b` are the same text.
pub fn eq_str(a: &str, b: &str) -> (r: bool)
    ensures
        r == (a@ == b@),
{
    if a.unicode_len() != b.unicode_len() {
        return false;
    }
    let r = starts_with_str(a, b);
    proof {
        assert(a@.subrange(0, b@.len() as int) =~= a@);
    }
    r
}

/// The position of the first `c` in `s`, as `str::find` with a
/// one-character pattern, counted in characters.
pub fn find_char(s: &str, c: char) -> (r: Option<usize>)
    ensures
        r matches Some(i) ==> first_index(s@, c) == Some(i as int),
        r is None ==> first_index(s@, c) is None,
        r is None <==> !s@.contains(c),
{
    let n = s.unicode_len();
    let mut i: usize = 0;
    while i < n
        invariant
            i <= n,
            n == s@.len(),
            forall|j: int| 0 <= j < i ==> s@[j] != c,
        decreases n - i,
    {
        if s.get_char(i) == c {
            proof {
                assert(is_first(s@, c, i as int));
                let k = choose|k: int| is_first(s@, c, k);
                assert(k == i) by {
                    if k < i {
                    } else if k > i {
                        assert(s@[i as int] == c);
                    }
                }
            }
            return Some(i);
        }
        i = i + 1;
    }
    assert(!exists|k: int| is_first(s@, c, k));
    None
}

/// The pieces of `s` between the occurrences of `c`, as
/// `s.split(c).collect::<Vec<_>>()`.
pub fn split_str(s: &str, c: char) -> (r: Vec<String>)
    ensures
        views(r@) == split(s@, c),
{
    let n = s.unicode_len();
    let mut parts: Vec<String> = Vec::new();
    let mut start: usize = 0;
    let mut i: usize = 0;
    assert(s@.subrange(0, 0) =~= Seq::<char>::empty());
    while i < n
        invariant
            start <= i <= n,
            n == s@.len(),
            split(s@.subrange(0, i as int), c) == views(parts@).push(
                s@.subrange(start as int, i as int),
            ),
        decreases n - i,
    {
        let ghost pre = s@.subrange(0, i as int);
        let ghost next = s@.subrange(0, i + 1);
        assert(next.drop_last() =~= pre);
        assert(next.last() == s@[i as int]);
        if s.get_char(i) == c {
            let piece = String::from_str(s.substring_char(start, i));
            let ghost prev = parts@;
            parts.push(piece);
            assert(views(parts@) =~= views(prev).push(s@.subrange(start as int, i as int)));
            start = i + 1;
            assert(s@.subrange(start as int, i + 1) =~= Seq::<char>::empty());
        } else {
            assert(s@.subrange(start as int, i + 1) =~= s@.subrange(start as int, i as int).push(
                s@[i as int],
            ));
        }
        i = i + 1;
        assert(split(s@.subrange(0, i as int), c) =~= views(parts@).push(
            s@.subrange(start as int, i as int),
        ));
    }
    let last = String::from_str(s.substring_char(start, n));
    let ghost prev = parts@;
    parts.push(last);
    assert(views(parts@) =~= views(prev).push(s@.subrange(start as int, n as int)));
    assert(s@.subrange(0, n as int) =~= s@);
    assert(views(parts@) =~= split(s@, c));
    parts
}

/// The piece of `s` after its last `c`, as `s.split(c).last().unwrap()`.
pub fn last_segment_str(s: &str, c: char) -> (r: String)
    ensures
        r@ == last_segment(s@, c),
{
    let mut parts = split_str(s, c);
    proof {
        lemma_split_nonempty(s@, c);
    }
    let ghost before = parts@;
    let last = parts.pop().unwrap();
    assert(views(before).last() == before.last()@);
    last
}

/// The strings, with `sep` between each two neighbours, as `[..].join(sep)`.
pub fn join_strs(parts: &Vec<String>, sep: &str) -> (r: String)
    ensures
        r@ == join(views(parts@), sep@),
{
    let mut res = String::new();
    let n = parts.len();
    let mut i: usize = 0;
    assert(views(parts@).take(0) =~= Seq::<Seq<char>>::empty());
    while i < n
        invariant
            i <= n,
            n == parts@.len(),
            res@ == join(views(parts@).take(i as int), sep@),
        decreases n - i,
    {
        let ghost pre = views(parts@).take(i as int);
        let ghost next = views(parts@).take(i + 1);
        assert(next.drop_last() =~= pre);
        assert(next.last() == parts@[i as int]@);
        if i == 0 {
            res.append(parts[i].as_str());
            assert(res@ =~= join(next, sep@));
        } else {
            res.append(sep);
            res.append(parts[i].as_str());
            assert(res@ =~= join(next, sep@));
        }
        i = i + 1;
    }
    assert(views(parts@).take(n as int) =~= views(parts@));
    res
}

} // verus!
