//! Paths as texts with `/` between their components: the model, and how the
//! components behave under joining and cutting.
//!
//! A path is read component by component: repeated separators count once, a
//! `.` counts only at the start of a relative path, and a trailing separator
//! is ignored. Two texts with the same components are the same path.

use vstd::prelude::*;

verus! {

/// One component of a path.
pub enum Part {
    /// The leading `/` of an absolute path.
    Root,
    /// A leading `.`.
    Cur,
    /// A `..`.
    Parent,
    /// A name.
    Normal(Seq<char>),
}

/// A component together with the place of its text in the path.
pub struct Span {
    pub part: Part,
    pub start: int,
    pub end: int,
}

/// The end of the stretch without `/` that begins at `i`.
pub open spec fn segment_end(s: Seq<char>, i: int) -> int
    decreases s.len() - i,
{
    if i >= s.len() || s[i] == '/' {
        i
    } else {
        segment_end(s, i + 1)
    }
}

/// What a non-empty stretch without `/` stands for.
pub open spec fn classify(seg: Seq<char>) -> Part {
    if seg == seq!['.'] {
        Part::Cur
    } else if seg == seq!['.', '.'] {
        Part::Parent
    } else {
        Part::Normal(seg)
    }
}

/// The components of `s` from position `i` on, where a stretch begins.
pub open spec fn spans_from(s: Seq<char>, i: int) -> Seq<Span>
    decreases s.len() - i,
{
    if i >= s.len() {
        Seq::empty()
    } else {
        let e = segment_end(s, i);
        let rest = if e < s.len() && e >= i {
            spans_from(s, e + 1)
        } else {
            Seq::empty()
        };
        if e == i || (i > 0 && s.subrange(i, e) == seq!['.']) {
            rest
        } else {
            seq![Span { part: classify(s.subrange(i, e)), start: i, end: e }] + rest
        }
    }
}

/// Whether a path starts at the root.
pub open spec fn is_absolute(s: Seq<char>) -> bool {
    s.len() > 0 && s[0] == '/'
}

/// The components of a path with their places.
pub open spec fn spans(s: Seq<char>) -> Seq<Span> {
    if is_absolute(s) {
        seq![Span { part: Part::Root, start: 0, end: 1 }] + spans_from(s, 1)
    } else {
        spans_from(s, 0)
    }
}

/// The components themselves, without their places.
pub open spec fn parts_of(list: Seq<Span>) -> Seq<Part> {
    list.map_values(|sp: Span| sp.part)
}

/// The components of a path.
pub open spec fn parts(s: Seq<char>) -> Seq<Part> {
    parts_of(spans(s))
}

/// `rel` resolved against `base`: an absolute `rel` stands alone.
pub open spec fn joined_path(base: Seq<char>, rel: Seq<char>) -> Seq<char> {
    if is_absolute(rel) {
        rel
    } else if base.len() == 0 || base.last() == '/' {
        base + rel
    } else {
        base.push('/') + rel
    }
}

/// Whether `base`'s components are the first ones of `s`.
pub open spec fn within(s: Seq<char>, base: Seq<char>) -> bool {
    parts(base).is_prefix_of(parts(s))
}

/// The text of `s` from its `k`-th component on.
pub open spec fn path_after(s: Seq<char>, k: int) -> Seq<char> {
    let sp = spans(s);
    if k >= sp.len() {
        Seq::empty()
    } else {
        s.subrange(sp[k].start, sp.last().end)
    }
}

/// `s` without its last component; nothing where there is no component to
/// take away, or only the root.
pub open spec fn parent_path(s: Seq<char>) -> Option<Seq<char>> {
    let sp = spans(s);
    if sp.len() == 0 || sp.last().part == Part::Root {
        None
    } else if sp.len() == 1 {
        Some(Seq::empty())
    } else {
        Some(s.take(sp[sp.len() - 2].end))
    }
}

/// The last component, where it is a name.
pub open spec fn name_of(s: Seq<char>) -> Option<Seq<char>> {
    let sp = spans(s);
    if sp.len() == 0 {
        None
    } else {
        match sp.last().part {
            Part::Normal(n) => Some(n),
            _ => None,
        }
    }
}

/// A name: a stretch that is neither empty nor `.` nor `..`, without `/`.
pub open spec fn is_name(seg: Seq<char>) -> bool {
    &&& seg.len() > 0
    &&& seg != seq!['.']
    &&& seg != seq!['.', '.']
    &&& forall|i: int| 0 <= i < seg.len() ==> seg[i] != '/'
}

pub proof fn segment_end_props(s: Seq<char>, i: int)
    requires
        0 <= i <= s.len(),
    ensures
        i <= segment_end(s, i) <= s.len(),
        forall|j: int| i <= j < segment_end(s, i) ==> s[j] != '/',
        segment_end(s, i) < s.len() ==> s[segment_end(s, i)] == '/',
    decreases s.len() - i,
{
    if i < s.len() && s[i] != '/' {
        segment_end_props(s, i + 1);
    }
}

pub proof fn segment_end_unique(s: Seq<char>, i: int, e: int)
    requires
        0 <= i <= e <= s.len(),
        forall|j: int| i <= j < e ==> s[j] != '/',
        e == s.len() || s[e] == '/',
    ensures
        segment_end(s, i) == e,
    decreases e - i,
{
    if i < e {
        segment_end_unique(s, i + 1, e);
    }
}

/// Components come in order, do not touch, and lie within the text.
pub proof fn spans_from_ordered(s: Seq<char>, i: int)
    requires
        0 <= i,
    ensures
        forall|k: int|
            0 <= k < spans_from(s, i).len() ==> i <= (#[trigger] spans_from(s, i)[k]).start
                < spans_from(s, i)[k].end <= s.len(),
        forall|k: int|
            0 <= k < spans_from(s, i).len() ==> {
                let sp = #[trigger] spans_from(s, i)[k];
                sp.end == s.len() || s[sp.end] == '/'
            },
        forall|k: int, m: int|
            0 <= k < m < spans_from(s, i).len() ==> (#[trigger] spans_from(s, i)[k]).end < (
            #[trigger] spans_from(s, i)[m]).start,
    decreases s.len() - i,
{
    if i < s.len() {
        segment_end_props(s, i);
        let e = segment_end(s, i);
        if e < s.len() {
            spans_from_ordered(s, e + 1);
        }
    }
}

/// What the components from `i` on look like, one by one.
pub proof fn spans_from_parts(s: Seq<char>, i: int)
    requires
        0 <= i,
    ensures
        forall|k: int|
            0 <= k < spans_from(s, i).len() ==> {
                let sp = #[trigger] spans_from(s, i)[k];
                &&& sp.part == classify(s.subrange(sp.start, sp.end))
                &&& sp.start > 0 ==> s.subrange(sp.start, sp.end) != seq!['.']
                &&& forall|j: int| sp.start <= j < sp.end ==> s[j] != '/'
            },
    decreases s.len() - i,
{
    if i < s.len() {
        segment_end_props(s, i);
        let e = segment_end(s, i);
        if e < s.len() {
            spans_from_parts(s, e + 1);
        }
    }
}

/// Cutting a text at a separator cuts its components there.
proof fn spans_split(b: Seq<char>, r: Seq<char>, i: int)
    requires
        0 <= i <= b.len(),
    ensures
        spans_from(b.push('/') + r, i) == spans_from(b, i) + spans_from(
            b.push('/') + r,
            b.len() as int + 1,
        ),
    decreases b.len() - i,
{
    let s = b.push('/') + r;
    segment_end_props(b, i);
    let e = segment_end(b, i);
    assert forall|j: int| i <= j < e implies s[j] != '/' by {
        assert(s[j] == b[j]);
    }
    assert(s[e] == '/');
    segment_end_unique(s, i, e);
    assert(s.subrange(i, e) == b.subrange(i, e));
    if e < b.len() {
        spans_split(b, r, e + 1);
    } else if i < b.len() {
        assert(spans_from(s, i) == spans_from(b, i) + spans_from(s, b.len() as int + 1));
    } else {
        assert(spans_from(b, i) == Seq::<Span>::empty());
        assert(spans_from(s, i) == spans_from(s, b.len() as int + 1));
    }
}

/// The components of `r` read at the end of a longer text: the same, but
/// that a leading `.` no longer counts.
proof fn spans_shift(p: Seq<char>, r: Seq<char>, j: int)
    requires
        0 <= j,
        p.len() > 0,
    ensures
        ({
            let a = parts_of(spans_from(p + r, p.len() + j));
            let b = parts_of(spans_from(r, j));
            if j == 0 && b.len() > 0 && b[0] == Part::Cur {
                a == b.skip(1)
            } else {
                a == b
            }
        }),
    decreases r.len() - j,
{
    let s = p + r;
    if j < r.len() {
        segment_end_props(r, j);
        let e = segment_end(r, j);
        assert forall|m: int| p.len() + j <= m < p.len() + e implies s[m] != '/' by {
            assert(s[m] == r[m - p.len()]);
        }
        assert(p.len() + e == s.len() || s[p.len() + e] == r[e]);
        segment_end_unique(s, p.len() + j, p.len() + e);
        assert(s.subrange(p.len() + j, p.len() + e) == r.subrange(j, e));
        if e < r.len() {
            spans_shift(p, r, e + 1);
        }
        let rest_s = if e < r.len() {
            spans_from(s, p.len() + e + 1)
        } else {
            Seq::empty()
        };
        let rest_r = if e < r.len() {
            spans_from(r, e + 1)
        } else {
            Seq::empty()
        };
        assert(parts_of(rest_s) == parts_of(rest_r));
        let seg = r.subrange(j, e);
        if e == j {
            if e < r.len() {
                spans_from_parts(r, e + 1);
                spans_from_ordered(r, e + 1);
            }
        } else if seg == seq!['.'] {
            if j == 0 {
                let head = seq![Span { part: classify(seg), start: j, end: e }];
                assert(spans_from(r, j) == head + rest_r);
                assert(parts_of(head + rest_r).skip(1) == parts_of(rest_r));
            }
        } else {
            let head_r = seq![Span { part: classify(seg), start: j, end: e }];
            let head_s = seq![
                Span { part: classify(seg), start: p.len() + j, end: p.len() + e },
            ];
            assert(parts_of(head_r + rest_r) == seq![classify(seg)] + parts_of(rest_r));
            assert(parts_of(head_s + rest_s) == seq![classify(seg)] + parts_of(rest_s));
            assert(classify(seg) != Part::Cur);
        }
    }
}

/// Whether the first stretch of `r` is a single dot.
spec fn starts_with_dot(r: Seq<char>) -> bool {
    r.len() > 0 && r.subrange(0, segment_end(r, 0)) == seq!['.']
}

proof fn leading_dot(r: Seq<char>)
    requires
        !is_absolute(r),
    ensures
        starts_with_dot(r) <==> parts(r).len() > 0 && parts(r)[0] == Part::Cur,
{
    if r.len() > 0 {
        segment_end_props(r, 0);
        let e = segment_end(r, 0);
        let seg = r.subrange(0, e);
        assert(e > 0) by {
            if e == 0 {
                assert(r[0] == '/');
            }
        }
        assert(spans(r)[0] == (Span { part: classify(seg), start: 0, end: e }));
    }
}

/// Components without a leading `.`.
pub open spec fn without_cur(ps: Seq<Part>) -> Seq<Part> {
    if ps.len() > 0 && ps[0] == Part::Cur {
        ps.skip(1)
    } else {
        ps
    }
}

/// Resolving a relative path puts its components behind those of the base.
pub proof fn joined_parts(base: Seq<char>, rel: Seq<char>)
    requires
        !is_absolute(rel),
    ensures
        base.len() > 0 ==> parts(joined_path(base, rel)) == parts(base) + without_cur(parts(rel)),
        base.len() == 0 ==> parts(joined_path(base, rel)) == parts(rel),
{
    let s = joined_path(base, rel);
    if base.len() == 0 {
        assert(base + rel == rel);
    } else {
        let c = if base.last() == '/' {
            base.drop_last()
        } else {
            base
        };
        assert(s == c.push('/') + rel);
        let i0: int = if is_absolute(base) {
            1
        } else {
            0
        };
        spans_shift(c.push('/'), rel, 0);
        let tail = spans_from(s, c.len() as int + 1);
        assert(parts_of(tail) == without_cur(parts(rel)));
        if c.len() == 0 {
            assert(spans_from(base, 1) == Seq::<Span>::empty());
            assert(parts(s) == parts(base) + parts_of(tail));
        } else {
            assert(is_absolute(c) == is_absolute(base));
            assert(is_absolute(s) == is_absolute(base));
            spans_split(c, rel, i0);
            if base.last() == '/' {
                spans_split(c, Seq::empty(), i0);
                assert(c.push('/') + Seq::<char>::empty() == base);
                assert(spans_from(base, c.len() as int + 1) == Seq::<Span>::empty());
                assert(spans_from(base, i0) == spans_from(c, i0));
            }
            assert(spans_from(s, i0) == spans_from(base, i0) + tail);
            assert(spans(s) == spans(base) + tail);
            assert(parts(s) == parts(base) + parts_of(tail));
        }
    }
}

/// A text cut behind one of its components has the components up to it.
pub proof fn cut_behind(s: Seq<char>, m: int)
    requires
        0 <= m < spans(s).len(),
    ensures
        0 < spans(s)[m].end <= s.len(),
        spans(s.take(spans(s)[m].end)) == spans(s).take(m + 1),
{
    let i0: int = if is_absolute(s) {
        1
    } else {
        0
    };
    spans_from_ordered(s, i0);
    let all = spans_from(s, i0);
    let q = m - i0;
    let c = spans(s)[m].end;
    if is_absolute(s) && m == 0 {
        assert(c == 1);
        let t = s.take(1);
        assert(spans_from(t, 1) == Seq::<Span>::empty());
        assert(spans(t) == spans(s).take(1));
    } else {
        assert(spans(s)[m] == all[q]);
        if c == s.len() {
            assert(s.take(c) == s);
            if q + 1 < all.len() {
                assert(all[q].end < all[q + 1].start);
            }
            assert(spans(s).take(m + 1) == spans(s));
        } else {
            let b = s.take(c);
            let r = s.skip(c + 1);
            assert(s == b.push('/') + r);
            spans_split(b, r, i0);
            spans_from_ordered(b, i0);
            spans_from_ordered(s, c + 1);
            let front = spans_from(b, i0);
            let back = spans_from(s, c + 1);
            assert(all == front + back);
            if q >= front.len() {
                assert(all[q] == back[q - front.len()]);
            }
            if q + 1 < front.len() {
                assert(all[q + 1] == front[q + 1]);
                assert(all[q].end < all[q + 1].start);
            }
            assert(front.len() == q + 1);
            assert(is_absolute(b) == is_absolute(s));
            assert(spans(b) == spans(s).take(m + 1));
        }
    }
}

/// The components from one of them on are those read from where it starts.
proof fn spans_suffix(s: Seq<char>, i: int, q: int)
    requires
        0 <= i,
        0 <= q < spans_from(s, i).len(),
    ensures
        spans_from(s, i).skip(q) == spans_from(s, spans_from(s, i)[q].start),
    decreases s.len() - i,
{
    segment_end_props(s, i);
    let e = segment_end(s, i);
    let rest = if e < s.len() {
        spans_from(s, e + 1)
    } else {
        Seq::empty()
    };
    if e == i || (i > 0 && s.subrange(i, e) == seq!['.']) {
        spans_suffix(s, e + 1, q);
    } else if q == 0 {
        assert(spans_from(s, i).skip(0) == spans_from(s, i));
    } else {
        let head = seq![Span { part: classify(s.subrange(i, e)), start: i, end: e }];
        assert(spans_from(s, i) == head + rest);
        assert(spans_from(s, i)[q] == rest[q - 1]);
        spans_suffix(s, e + 1, q - 1);
        assert(spans_from(s, i).skip(q) == rest.skip(q - 1));
    }
}

/// A text cut before one of its later components has the components from it
/// on.
proof fn cut_before(t: Seq<char>, i: int, q: int)
    requires
        0 <= i,
        0 <= q < spans_from(t, i).len(),
        spans_from(t, i)[q].start > 0,
    ensures
        parts(t.skip(spans_from(t, i)[q].start)) == parts_of(spans_from(t, i).skip(q)),
        !is_absolute(t.skip(spans_from(t, i)[q].start)),
{
    let sp = spans_from(t, i)[q];
    let a = sp.start;
    spans_from_ordered(t, i);
    spans_from_parts(t, i);
    let r = t.skip(a);
    let p = t.take(a);
    assert(t == p + r);
    spans_suffix(t, i, q);
    // The stretch at `a` is a component of its own, so not a dot.
    let w = sp.end - a;
    assert forall|j: int| 0 <= j < w implies r[j] != '/' by {
        assert(r[j] == t[a + j]);
    }
    assert(w == r.len() || r[w] == '/');
    segment_end_unique(r, 0, w);
    assert(r.subrange(0, w) == t.subrange(a, sp.end));
    assert(r[0] == t[a]);
    leading_dot(r);
    spans_shift(p, r, 0);
}

/// The text of a path from its `k`-th component on has those components.
pub proof fn path_after_parts(s: Seq<char>, k: int)
    requires
        0 <= k <= spans(s).len(),
    ensures
        parts(path_after(s, k)) == parts(s).skip(k),
        k > 0 ==> !is_absolute(path_after(s, k)),
{
    let sp = spans(s);
    if k == sp.len() {
        assert(parts(Seq::<char>::empty()) == Seq::<Part>::empty());
        assert(parts(s).skip(k) == Seq::<Part>::empty());
    } else {
        let e = sp.last().end;
        cut_behind(s, sp.len() - 1);
        let t = s.take(e);
        assert(sp.take(sp.len() as int) == sp);
        assert(spans(t) == sp);
        if k == 0 {
            first_starts_at_zero(s);
            assert(path_after(s, 0) == t);
            assert(parts(s).skip(0) == parts(s));
        } else {
            let i0: int = if is_absolute(t) {
                1
            } else {
                0
            };
            let all = spans_from(t, i0);
            let q = k - i0;
            assert(sp[k] == all[q]);
            spans_from_ordered(t, i0);
            if q > 0 {
                assert(all[0].end < all[q].start);
            }
            cut_before(t, i0, q);
            assert(path_after(s, k) == t.skip(sp[k].start));
            assert(sp.skip(k) == all.skip(q));
            assert(parts(s).skip(k) == parts_of(sp.skip(k)));
        }
    }
}

pub proof fn first_starts_at_zero(s: Seq<char>)
    ensures
        spans(s).len() > 0 ==> spans(s)[0].start == 0,
{
    if !is_absolute(s) && s.len() > 0 {
        segment_end_props(s, 0);
    }
}

/// Taking away the last component leaves the others.
pub proof fn parent_parts(s: Seq<char>)
    ensures
        parent_path(s) matches Some(p) ==> parts(p) == parts(s).drop_last(),
        parent_path(s) is Some <==> parts(s).len() > 0 && parts(s).last() != Part::Root,
{
    let sp = spans(s);
    if sp.len() >= 2 {
        cut_behind(s, sp.len() - 2);
        assert(parts_of(sp.take(sp.len() - 1)) == parts(s).drop_last());
    } else if sp.len() == 1 {
        assert(parts(Seq::<char>::empty()) == parts(s).drop_last());
    }
}

/// A name read as a path is that one component.
proof fn name_parts(seg: Seq<char>)
    requires
        is_name(seg),
    ensures
        !is_absolute(seg),
        parts(seg) == seq![Part::Normal(seg)],
{
    segment_end_unique(seg, 0, seg.len() as int);
    assert(seg.subrange(0, seg.len() as int) == seg);
    assert(spans(seg) == seq![Span { part: Part::Normal(seg), start: 0, end: seg.len() as int }]);
    assert(parts(seg) == seq![Part::Normal(seg)]);
}

/// Resolving a name against a path adds that component.
pub proof fn joined_name_parts(base: Seq<char>, seg: Seq<char>)
    requires
        is_name(seg),
    ensures
        parts(joined_path(base, seg)) == parts(base).push(Part::Normal(seg)),
{
    name_parts(seg);
    joined_parts(base, seg);
    assert(parts(base) + seq![Part::Normal(seg)] == parts(base).push(Part::Normal(seg)));
    if base.len() == 0 {
        assert(parts(base) == Seq::<Part>::empty());
        assert(parts(seg) == parts(base).push(Part::Normal(seg)));
    }
}

/// The empty path has no components, and `/` is the root alone.
pub proof fn the_root_is_a_component()
    ensures
        parts(Seq::empty()) == Seq::<Part>::empty(),
        parts(seq!['/']) == seq![Part::Root],
{
    let empty = Seq::<char>::empty();
    assert(parts(empty) == Seq::<Part>::empty());
    let root = seq!['/'];
    assert(spans_from(root, 1) == Seq::<Span>::empty());
    assert(spans(root) == seq![Span { part: Part::Root, start: 0, end: 1 }]);
    assert(parts(root) == seq![Part::Root]);
}

/// A `..` behind a path is a component of its own, and a `.` behind a path
/// stands for nothing.
pub proof fn dots_are_no_names(base: Seq<char>)
    requires
        base.len() > 0,
    ensures
        parts(joined_path(base, seq!['.', '.'])) == parts(base).push(Part::Parent),
        parts(joined_path(base, seq!['.'])) == parts(base),
{
    let two = seq!['.', '.'];
    let one = seq!['.'];
    segment_end_unique(two, 0, 2);
    assert(two.subrange(0, 2) == two);
    assert(two != one) by {
        assert(two.len() != one.len());
    }
    assert(spans(two) == seq![Span { part: Part::Parent, start: 0, end: 2 }]);
    assert(parts(two) == seq![Part::Parent]);
    joined_parts(base, two);
    assert(parts(base) + seq![Part::Parent] == parts(base).push(Part::Parent));
    segment_end_unique(one, 0, 1);
    assert(one.subrange(0, 1) == one);
    assert(spans(one) == seq![Span { part: Part::Cur, start: 0, end: 1 }]);
    assert(parts(one) == seq![Part::Cur]);
    joined_parts(base, one);
    assert(seq![Part::Cur].skip(1) == Seq::<Part>::empty());
    assert(parts(base) + Seq::<Part>::empty() == parts(base));
}

/// A name resolved against a path is the last component of the result, and
/// stands at the end of its text.
pub proof fn a_joined_name_stands_at_the_end(base: Seq<char>, name: Seq<char>)
    requires
        is_name(name),
    ensures
        ({
            let s = joined_path(base, name);
            &&& spans(s).len() > 0
            &&& spans(s).last() == (Span {
                part: Part::Normal(name),
                start: s.len() - name.len(),
                end: s.len() as int,
            })
        }),
{
    let s = joined_path(base, name);
    if base.len() == 0 {
        assert(s == name);
        segment_end_unique(name, 0, name.len() as int);
        assert(name.subrange(0, name.len() as int) == name);
        assert(spans(name) == seq![
            Span { part: Part::Normal(name), start: 0, end: name.len() as int },
        ]);
    } else {
        let c = if base.last() == '/' {
            base.drop_last()
        } else {
            base
        };
        assert(s == c.push('/') + name);
        let i0: int = if is_absolute(base) {
            1
        } else {
            0
        };
        let at = c.len() as int + 1;
        segment_end_unique(s, at, s.len() as int);
        assert(s.subrange(at, s.len() as int) == name);
        let tail = spans_from(s, at);
        assert(tail == seq![Span { part: Part::Normal(name), start: at, end: s.len() as int }]);
        if c.len() == 0 {
            assert(is_absolute(s));
            assert(spans(s).last() == tail.last());
        } else {
            assert(is_absolute(s) == is_absolute(base));
            spans_split(c, name, i0);
            assert(spans(s).last() == tail.last());
        }
    }
}

} // verus!
