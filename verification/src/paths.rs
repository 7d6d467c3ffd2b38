//! Path operations, and the two kinds of path that the database boundary
//! keeps apart: relative to the library root (the stored form) and absolute
//! (the form that touches the filesystem).

use vstd::prelude::*;
use vstd::string::*;
use crate::path_model::{
    a_joined_name_stands_at_the_end, classify, is_absolute, is_name, joined_name_parts, joined_parts, joined_path, name_of,
    parent_parts, parent_path, parts, path_after, path_after_parts, segment_end, segment_end_props,
    spans, spans_from, spans_from_ordered, spans_from_parts, within, without_cur, Part, Span,
};
use crate::text::{chars_of, push_char, string_of};

verus! {

/// What kind of component a stretch of a path is.
#[derive(Debug, Clone, Copy, PartialEq, Eq, Structural)]
pub enum PartKind {
    Root,
    Cur,
    Parent,
    Normal,
}

/// A component found in a path, as a stretch of its characters.
#[derive(Debug, Clone, Copy, PartialEq, Eq, Structural)]
pub struct PathSpan {
    pub kind: PartKind,
    pub start: usize,
    pub end: usize,
}

/// The kind of a component.
pub open spec fn kind_of(p: Part) -> PartKind {
    match p {
        Part::Root => PartKind::Root,
        Part::Cur => PartKind::Cur,
        Part::Parent => PartKind::Parent,
        Part::Normal(_) => PartKind::Normal,
    }
}

/// `found` is the list `sp` of components.
pub open spec fn same_spans(found: Seq<PathSpan>, sp: Seq<Span>) -> bool {
    &&& found.len() == sp.len()
    &&& forall|k: int|
        0 <= k < sp.len() ==> {
            &&& (#[trigger] found[k]).start == sp[k].start
            &&& found[k].end == sp[k].end
            &&& found[k].kind == kind_of(sp[k].part)
        }
}

fn find_segment_end(s: &Vec<char>, from: usize) -> (e: usize)
    requires
        from <= s@.len(),
    ensures
        e == segment_end(s@, from as int),
        from <= e <= s@.len(),
{
    proof {
        segment_end_props(s@, from as int);
    }
    let mut e: usize = from;
    while e < s.len() && s[e] != '/'
        invariant
            from <= e <= s@.len(),
            segment_end(s@, from as int) == segment_end(s@, e as int),
        decreases s@.len() - e,
    {
        e = e + 1;
    }
    e
}

fn kind_of_segment(s: &Vec<char>, start: usize, end: usize) -> (k: PartKind)
    requires
        start < end <= s@.len(),
    ensures
        k == kind_of(classify(s@.subrange(start as int, end as int))),
{
    let ghost seg = s@.subrange(start as int, end as int);
    if s[start] == '.' && end - start == 1 {
        assert(seg == seq!['.']);
        return PartKind::Cur;
    }
    if end - start == 2 && s[start] == '.' && s[start + 1] == '.' {
        assert(seg == seq!['.', '.']);
        assert(seg.len() != seq!['.'].len());
        return PartKind::Parent;
    }
    proof {
        if seg == seq!['.'] {
            assert(seg.len() == 1);
            assert(seg[0] == '.');
        }
        if seg == seq!['.', '.'] {
            assert(seg.len() == 2);
            assert(seg[0] == '.');
            assert(seg[1] == '.');
        }
    }
    PartKind::Normal
}

/// The components of a path, in order.
pub fn components(s: &Vec<char>) -> (r: Vec<PathSpan>)
    ensures
        same_spans(r@, spans(s@)),
{
    let mut out: Vec<PathSpan> = Vec::new();
    let mut i: usize = 0;
    if s.len() > 0 && s[0] == '/' {
        out.push(PathSpan { kind: PartKind::Root, start: 0, end: 1 });
        i = 1;
    }
    let ghost mut model: Seq<Span> = if is_absolute(s@) {
        seq![Span { part: Part::Root, start: 0, end: 1 }]
    } else {
        Seq::empty()
    };
    assert(model + spans_from(s@, i as int) == spans(s@));
    while i < s.len()
        invariant
            same_spans(out@, model),
            model + spans_from(s@, i as int) == spans(s@),
        decreases s@.len() - i,
    {
        proof {
            segment_end_props(s@, i as int);
        }
        let e: usize = find_segment_end(s, i);
        let ghost rest = if e < s@.len() {
            spans_from(s@, e + 1)
        } else {
            Seq::empty()
        };
        if e > i {
            let kind: PartKind = kind_of_segment(s, i, e);
            let ghost seg = s@.subrange(i as int, e as int);
            if kind == PartKind::Cur && i > 0 {
                assert(seg == seq!['.']);
            } else {
                out.push(PathSpan { kind, start: i, end: e });
                proof {
                    let head = Span { part: classify(seg), start: i as int, end: e as int };
                    assert(spans_from(s@, i as int) == seq![head] + rest);
                    model = model.push(head);
                    assert(model + rest == spans(s@));
                }
            }
        }
        assert(model + rest == spans(s@));
        if e == s.len() {
            i = e;
            assert(spans_from(s@, i as int) == Seq::<Span>::empty());
        } else {
            i = e + 1;
        }
    }
    assert(model == spans(s@));
    out
}

/// `rel` resolved against `base`; an absolute `rel` stands alone.
pub fn join(base: &str, rel: &str) -> (r: String)
    ensures
        r@ == joined_path(base@, rel@),
{
    let b: Vec<char> = chars_of(base);
    let c: Vec<char> = chars_of(rel);
    if c.len() > 0 && c[0] == '/' {
        return rel.to_owned();
    }
    let mut out: String = base.to_owned();
    if b.len() > 0 && b[b.len() - 1] != '/' {
        push_char(&mut out, '/');
    }
    out.append(rel);
    out
}

/// Whether two components are the same.
fn same_part(a: &Vec<char>, x: PathSpan, b: &Vec<char>, y: PathSpan) -> (r: bool)
    requires
        x.start <= x.end <= a@.len(),
        y.start <= y.end <= b@.len(),
    ensures
        r <==> x.kind == y.kind && (x.kind == PartKind::Normal ==> a@.subrange(
            x.start as int,
            x.end as int,
        ) == b@.subrange(y.start as int, y.end as int)),
{
    if x.kind != y.kind {
        return false;
    }
    if x.kind != PartKind::Normal {
        return true;
    }
    string_of(a, x.start, x.end) == string_of(b, y.start, y.end)
}

pub proof fn span_facts(s: Seq<char>, k: int)
    requires
        0 <= k < spans(s).len(),
    ensures
        0 <= spans(s)[k].start < spans(s)[k].end <= s.len(),
        spans(s)[k].part matches Part::Normal(n) ==> n == s.subrange(
            spans(s)[k].start,
            spans(s)[k].end,
        ) && is_name(n),
{
    let i0: int = if is_absolute(s) {
        1
    } else {
        0
    };
    spans_from_ordered(s, i0);
    spans_from_parts(s, i0);
    if k >= i0 {
        assert(spans(s)[k] == spans_from(s, i0)[k - i0]);
    }
}

/// Whether the components of `base` are the first ones of `s`.
pub fn starts_with(s: &str, base: &str) -> (r: bool)
    ensures
        r == within(s@, base@),
{
    let a: Vec<char> = chars_of(s);
    let b: Vec<char> = chars_of(base);
    let x: Vec<PathSpan> = components(&a);
    let y: Vec<PathSpan> = components(&b);
    if y.len() > x.len() {
        return false;
    }
    let mut k: usize = 0;
    while k < y.len()
        invariant
            k <= y@.len() <= x@.len(),
            a@ == s@,
            b@ == base@,
            same_spans(x@, spans(a@)),
            same_spans(y@, spans(b@)),
            forall|m: int| 0 <= m < k ==> parts(a@)[m] == parts(b@)[m],
        decreases y@.len() - k,
    {
        proof {
            span_facts(a@, k as int);
            span_facts(b@, k as int);
        }
        if !same_part(&a, x[k], &b, y[k]) {
            proof {
                assert(parts(a@)[k as int] != parts(b@)[k as int]);
                if parts(b@).is_prefix_of(parts(a@)) {
                    let front = parts(a@).subrange(0, parts(b@).len() as int);
                    assert(front[k as int] == parts(b@)[k as int]);
                }
            }
            return false;
        }
        assert(parts(a@)[k as int] == parts(b@)[k as int]);
        k = k + 1;
    }
    assert(parts(b@) == parts(a@).take(parts(b@).len() as int));
    true
}

/// The rest of `s` behind `base`, where `s` lies within `base`.
pub fn strip_prefix(s: &str, base: &str) -> (r: Option<String>)
    ensures
        r is Some <==> within(s@, base@),
        r matches Some(t) ==> t@ == path_after(s@, parts(base@).len() as int),
{
    if !starts_with(s, base) {
        return None;
    }
    let a: Vec<char> = chars_of(s);
    let b: Vec<char> = chars_of(base);
    let x: Vec<PathSpan> = components(&a);
    let k: usize = components(&b).len();
    if k == x.len() {
        return Some(String::new());
    }
    proof {
        span_facts(a@, k as int);
        span_facts(a@, x@.len() - 1);
        ordered(a@, k as int, x@.len() - 1);
    }
    Some(string_of(&a, x[k].start, x[x.len() - 1].end))
}

proof fn ordered(s: Seq<char>, k: int, m: int)
    requires
        0 <= k <= m < spans(s).len(),
    ensures
        spans(s)[k].start < spans(s)[m].end,
        k < m ==> spans(s)[k].end <= spans(s)[m].start,
{
    let i0: int = if is_absolute(s) {
        1
    } else {
        0
    };
    spans_from_ordered(s, i0);
    if m >= i0 {
        assert(spans(s)[m] == spans_from(s, i0)[m - i0]);
    }
    if k >= i0 {
        assert(spans(s)[k] == spans_from(s, i0)[k - i0]);
    }
}

/// `s` without its last component.
pub fn parent(s: &str) -> (r: Option<String>)
    ensures
        r is Some <==> parent_path(s@) is Some,
        r matches Some(p) ==> Some(p@) == parent_path(s@),
{
    let a: Vec<char> = chars_of(s);
    let x: Vec<PathSpan> = components(&a);
    if x.len() == 0 || x[x.len() - 1].kind == PartKind::Root {
        return None;
    }
    if x.len() == 1 {
        return Some(String::new());
    }
    proof {
        span_facts(a@, x@.len() - 2);
        assert(a@.subrange(0, spans(a@)[x@.len() - 2].end) == a@.take(spans(a@)[x@.len() - 2].end));
    }
    Some(string_of(&a, 0, x[x.len() - 2].end))
}

/// The last component of `s`, where it is a name.
pub fn file_name(s: &str) -> (r: Option<String>)
    ensures
        r is Some <==> name_of(s@) is Some,
        r matches Some(n) ==> Some(n@) == name_of(s@),
{
    let a: Vec<char> = chars_of(s);
    let x: Vec<PathSpan> = components(&a);
    if x.len() == 0 {
        return None;
    }
    let last: PathSpan = x[x.len() - 1];
    if last.kind != PartKind::Normal {
        return None;
    }
    proof {
        span_facts(a@, x@.len() - 1);
    }
    Some(string_of(&a, last.start, last.end))
}

/// The place of the last dot of a name, or -1.
pub open spec fn last_dot(n: Seq<char>) -> int
    decreases n.len(),
{
    if n.len() == 0 {
        -1
    } else if n.last() == '.' {
        n.len() - 1
    } else {
        last_dot(n.drop_last())
    }
}

/// The number of characters of a name before its extension: all of them
/// where it has none, as a name has whose only dot is its first character.
pub open spec fn stem_len(n: Seq<char>) -> int {
    if last_dot(n) > 0 {
        last_dot(n)
    } else {
        n.len() as int
    }
}

/// What stands behind the last dot of a path's name.
pub open spec fn extension_of(s: Seq<char>) -> Option<Seq<char>> {
    match name_of(s) {
        Some(n) => if last_dot(n) > 0 {
            Some(n.skip(last_dot(n) + 1))
        } else {
            None
        },
        None => None,
    }
}

pub(crate) fn find_last_dot(s: &Vec<char>, start: usize, end: usize) -> (d: Option<usize>)
    requires
        start <= end <= s@.len(),
    ensures
        d is None <==> last_dot(s@.subrange(start as int, end as int)) < 0,
        d matches Some(i) ==> start <= i < end && i - start == last_dot(
            s@.subrange(start as int, end as int),
        ),
{
    let mut i: usize = end;
    assert(s@.subrange(start as int, end as int) == s@.subrange(start as int, i as int));
    while i > start
        invariant
            start <= i <= end <= s@.len(),
            last_dot(s@.subrange(start as int, end as int)) == last_dot(
                s@.subrange(start as int, i as int),
            ),
        decreases i,
    {
        let ghost part = s@.subrange(start as int, i as int);
        assert(part.last() == s@[i - 1]);
        if s[i - 1] == '.' {
            return Some(i - 1);
        }
        assert(part.drop_last() == s@.subrange(start as int, i - 1));
        i = i - 1;
    }
    None
}

/// The extension of a path's name, without the dot.
pub fn extension(s: &str) -> (r: Option<String>)
    ensures
        r is Some <==> extension_of(s@) is Some,
        r matches Some(e) ==> Some(e@) == extension_of(s@),
{
    let a: Vec<char> = chars_of(s);
    let x: Vec<PathSpan> = components(&a);
    if x.len() == 0 {
        return None;
    }
    let last: PathSpan = x[x.len() - 1];
    if last.kind != PartKind::Normal {
        return None;
    }
    proof {
        span_facts(a@, x@.len() - 1);
    }
    match find_last_dot(&a, last.start, last.end) {
        Some(d) if d > last.start => {
            proof {
                let n = a@.subrange(last.start as int, last.end as int);
                assert(n.skip(d - last.start + 1) == a@.subrange(d + 1, last.end as int));
            }
            Some(string_of(&a, d + 1, last.end))
        },
        _ => None,
    }
}

pub proof fn last_dot_is(stem: Seq<char>, ext: Seq<char>)
    requires
        forall|i: int| 0 <= i < ext.len() ==> ext[i] != '.',
    ensures
        last_dot(stem.push('.') + ext) == stem.len(),
    decreases ext.len(),
{
    let n = stem.push('.') + ext;
    if ext.len() == 0 {
        assert(n == stem.push('.'));
    } else {
        last_dot_is(stem, ext.drop_last());
        assert(n.drop_last() == stem.push('.') + ext.drop_last());
        assert(n.last() == ext.last());
    }
}

pub proof fn no_dot_at_all(n: Seq<char>)
    requires
        forall|i: int| 0 <= i < n.len() ==> n[i] != '.',
    ensures
        last_dot(n) == -1,
    decreases n.len(),
{
    if n.len() > 0 {
        no_dot_at_all(n.drop_last());
    }
}

proof fn no_dot_behind_the_first(n: Seq<char>)
    requires
        forall|i: int| 1 <= i < n.len() ==> n[i] != '.',
    ensures
        last_dot(n) <= 0,
    decreases n.len(),
{
    if n.len() > 0 {
        no_dot_behind_the_first(n.drop_last());
    }
}

proof fn name_of_joined(dir: Seq<char>, name: Seq<char>)
    requires
        is_name(name),
    ensures
        name_of(joined_path(dir, name)) == Some(name),
{
    let s = joined_path(dir, name);
    joined_name_parts(dir, name);
    assert(parts(s).last() == Part::Normal(name));
    assert(parts(s).last() == spans(s).last().part);
}

/// The extension of a file is what stands behind the last dot of its name,
/// whatever directory it lies in.
pub proof fn extensions_stand_behind_the_last_dot(
    dir: Seq<char>,
    stem: Seq<char>,
    ext: Seq<char>,
)
    requires
        stem.len() > 0,
        is_name(stem.push('.') + ext),
        forall|i: int| 0 <= i < ext.len() ==> ext[i] != '.',
    ensures
        extension_of(joined_path(dir, stem.push('.') + ext)) == Some(ext),
{
    let n = stem.push('.') + ext;
    name_of_joined(dir, n);
    last_dot_is(stem, ext);
    assert(n.skip(stem.len() as int + 1) == ext);
}

/// A file whose name holds no dot, or none but a leading one, has no
/// extension.
pub proof fn plain_and_hidden_names_have_no_extension(dir: Seq<char>, name: Seq<char>)
    requires
        is_name(name),
        forall|i: int| 1 <= i < name.len() ==> name[i] != '.',
    ensures
        extension_of(joined_path(dir, name)) is None,
{
    name_of_joined(dir, name);
    no_dot_behind_the_first(name);
}

/// `s` with its name's extension replaced; a path without a name is left
/// alone.
pub open spec fn with_extension_text(s: Seq<char>, ext: Seq<char>) -> Seq<char> {
    match name_of(s) {
        Some(n) => s.take(spans(s).last().start + stem_len(n)) + if ext.len() == 0 {
            Seq::empty()
        } else {
            seq!['.'] + ext
        },
        None => s,
    }
}

/// A copy of `s` with its name's extension replaced by `ext`.
pub fn with_extension(s: &str, ext: &str) -> (r: String)
    ensures
        r@ == with_extension_text(s@, ext@),
{
    let a: Vec<char> = chars_of(s);
    let x: Vec<PathSpan> = components(&a);
    if x.len() == 0 || x[x.len() - 1].kind != PartKind::Normal {
        return s.to_owned();
    }
    let last: PathSpan = x[x.len() - 1];
    proof {
        span_facts(a@, x@.len() - 1);
    }
    let mut cut: usize = last.end;
    if let Some(d) = find_last_dot(&a, last.start, last.end) {
        if d > last.start {
            cut = d;
        }
    }
    let mut out: String = string_of(&a, 0, cut);
    proof {
        assert(a@.subrange(0, cut as int) == a@.take(cut as int));
    }
    if !ext.is_empty() {
        push_char(&mut out, '.');
        out.append(ext);
    }
    proof {
        let tail = if ext@.len() == 0 {
            Seq::empty()
        } else {
            seq!['.'] + ext@
        };
        assert(out@ == a@.take(cut as int) + tail);
    }
    out
}

/// `s` with its name, if it has one, replaced by `name`.
pub open spec fn with_name_text(s: Seq<char>, name: Seq<char>) -> Seq<char> {
    match (name_of(s), parent_path(s)) {
        (Some(_), Some(p)) => joined_path(p, name),
        _ => joined_path(s, name),
    }
}

/// A copy of `s` with its name, if it has one, replaced by `name`.
pub fn with_file_name(s: &str, name: &str) -> (r: String)
    ensures
        r@ == with_name_text(s@, name@),
{
    match (file_name(s), parent(s)) {
        (Some(_), Some(p)) => join(p.as_str(), name),
        _ => join(s, name),
    }
}

/// Why a path was refused.
#[derive(Debug, Clone, Copy, PartialEq, Eq, Structural)]
pub enum PathError {
    /// A stored relative path would leave the library root.
    EscapesRoot,
    /// The path is not within the database's parent directory.
    OutsideBase,
    /// The database path has no parent directory.
    NoParent,
    /// The database path is not in an `.imgfind` directory.
    NotInImgfindDir,
    /// The `.imgfind` directory has no parent.
    ImgfindDirHasNoParent,
    /// There is no database in the requested directory.
    NoDatabase,
    /// The current directory is unknown.
    NoCurrentDir,
    /// The home directory is unknown.
    NoHomeDir,
}

/// A path relative to the database parent directory, i.e. the form stored in
/// the `images.path` column. Wrapping it in a newtype makes "is this relative or
/// absolute?" a compile-time distinction at DB boundaries.
#[derive(Debug, Clone)]
pub struct RelativePath(pub String);

/// An absolute filesystem path: the form callers use to touch the filesystem.
#[derive(Debug, Clone)]
pub struct AbsolutePath(pub String);

/// Whether two texts have the same components.
pub fn same_path(a: &str, b: &str) -> (r: bool)
    ensures
        r == (parts(a@) == parts(b@)),
{
    let forth: bool = starts_with(a, b);
    let back: bool = starts_with(b, a);
    proof {
        if forth && back {
            assert(parts(a@).subrange(0, parts(a@).len() as int) == parts(a@));
        }
        if parts(a@) == parts(b@) {
            assert(parts(a@).subrange(0, parts(a@).len() as int) == parts(a@));
        }
    }
    forth && back
}

impl PartialEq for RelativePath {
    fn eq(&self, other: &Self) -> (r: bool) {
        same_path(self.0.as_str(), other.0.as_str())
    }
}

impl vstd::std_specs::cmp::PartialEqSpecImpl for RelativePath {
    open spec fn obeys_eq_spec() -> bool {
        true
    }

    open spec fn eq_spec(&self, other: &Self) -> bool {
        parts(self.0@) == parts(other.0@)
    }
}

impl PartialEq for AbsolutePath {
    fn eq(&self, other: &Self) -> (r: bool) {
        same_path(self.0.as_str(), other.0.as_str())
    }
}

impl vstd::std_specs::cmp::PartialEqSpecImpl for AbsolutePath {
    open spec fn obeys_eq_spec() -> bool {
        true
    }

    open spec fn eq_spec(&self, other: &Self) -> bool {
        parts(self.0@) == parts(other.0@)
    }
}

/// No component of `ps` leads upwards or back to the root.
pub open spec fn only_descends(ps: Seq<Part>) -> bool {
    forall|k: int| 0 <= k < ps.len() ==> ps[k] != Part::Parent && ps[k] != Part::Root
}

impl RelativePath {
    /// The path's text.
    pub fn as_str(&self) -> (r: &str)
        ensures
            r@ == self.0@,
    {
        self.0.as_str()
    }

    /// Resolve this relative path against `base` (the database parent directory).
    pub fn to_absolute(&self, base: &str) -> (r: AbsolutePath)
        ensures
            r.0@ == joined_path(base@, self.0@),
    {
        AbsolutePath(join(base, self.0.as_str()))
    }

    /// Like [`to_absolute`](Self::to_absolute), but rejects a stored path that
    /// would escape `base` before resolving it. The write side already keeps
    /// stored paths within the library root; this is defense-in-depth for a
    /// corrupted or hand-edited DB whose `images.path` contains `..` or an
    /// absolute component.
    pub fn try_to_absolute(&self, base: &str) -> (r: Result<AbsolutePath, PathError>)
        ensures
            only_descends(parts(self.0@)) ==> r is Ok,
            !only_descends(parts(self.0@)) ==> r == Err::<AbsolutePath, PathError>(
                PathError::EscapesRoot,
            ),
            r matches Ok(abs) ==> abs.0@ == joined_path(base@, self.0@) && within(abs.0@, base@),
    {
        let a: Vec<char> = chars_of(self.0.as_str());
        let x: Vec<PathSpan> = components(&a);
        let mut k: usize = 0;
        while k < x.len()
            invariant
                k <= x@.len(),
                a@ == self.0@,
                same_spans(x@, spans(a@)),
                forall|m: int|
                    0 <= m < k ==> parts(a@)[m] != Part::Parent && parts(a@)[m] != Part::Root,
            decreases x@.len() - k,
        {
            if x[k].kind == PartKind::Parent || x[k].kind == PartKind::Root {
                proof {
                    assert(parts(a@)[k as int] == spans(a@)[k as int].part);
                }
                return Err(PathError::EscapesRoot);
            }
            k = k + 1;
        }
        proof {
            stays_within(base@, self.0@);
        }
        Ok(self.to_absolute(base))
    }
}

/// A path that only descends stays within the base that it is resolved
/// against.
pub proof fn stays_within(base: Seq<char>, rel: Seq<char>)
    requires
        only_descends(parts(rel)),
    ensures
        !is_absolute(rel),
        within(joined_path(base, rel), base),
{
    if is_absolute(rel) {
        assert(parts(rel)[0] == Part::Root);
    }
    joined_parts(base, rel);
    if base.len() == 0 {
        assert(parts(base) == Seq::<Part>::empty());
        assert(parts(rel).subrange(0, 0) == parts(base));
    } else {
        let all = parts(base) + without_cur(parts(rel));
        assert(all.subrange(0, parts(base).len() as int) == parts(base));
    }
}

impl AbsolutePath {
    /// The path's text.
    pub fn as_path(&self) -> (r: &str)
        ensures
            r@ == self.0@,
    {
        self.0.as_str()
    }

    /// The path's text.
    pub fn as_str(&self) -> (r: &str)
        ensures
            r@ == self.0@,
    {
        self.0.as_str()
    }

    /// Strip `base` (the database parent directory) to produce the stored form.
    /// Errors if this path is not within `base`.
    pub fn to_relative(&self, base: &str) -> (r: Result<RelativePath, PathError>)
        ensures
            within(self.0@, base@) ==> r is Ok,
            !within(self.0@, base@) ==> r == Err::<RelativePath, PathError>(
                PathError::OutsideBase,
            ),
            r matches Ok(rel) ==> rel.0@ == path_after(self.0@, parts(base@).len() as int),
    {
        match strip_prefix(self.0.as_str(), base) {
            Some(rest) => Ok(RelativePath(rest)),
            None => Err(PathError::OutsideBase),
        }
    }
}

/// Convert an absolute path to a path relative to the database parent directory
pub fn abs_to_relative_path(abs_path: &str, db_parent: &str) -> (r: Result<String, PathError>)
    ensures
        within(abs_path@, db_parent@) ==> r is Ok,
        !within(abs_path@, db_parent@) ==> r == Err::<String, PathError>(PathError::OutsideBase),
        r matches Ok(rel) ==> rel@ == path_after(abs_path@, parts(db_parent@).len() as int),
{
    match AbsolutePath(abs_path.to_owned()).to_relative(db_parent) {
        Ok(rel) => Ok(rel.0),
        Err(e) => Err(e),
    }
}

/// Convert a relative path (stored in database) to an absolute path
pub fn relative_to_abs_path(rel_path: &str, db_parent: &str) -> (r: String)
    ensures
        r@ == joined_path(db_parent@, rel_path@),
{
    RelativePath(rel_path.to_owned()).to_absolute(db_parent).0
}

/// Storing an absolute path and resolving it again gives the same path: its
/// components come back one for one.
pub proof fn stored_path_resolves_back(abs: Seq<char>, base: Seq<char>)
    requires
        within(abs, base),
    ensures
        parts(joined_path(base, path_after(abs, parts(base).len() as int))) == parts(abs),
{
    let k = parts(base).len() as int;
    let rel = path_after(abs, k);
    path_after_parts(abs, k);
    if base.len() == 0 {
        assert(parts(base) == Seq::<Part>::empty());
        assert(base + rel == rel);
        assert(parts(abs).skip(0) == parts(abs));
    } else {
        nonempty_has_parts(base);
        joined_parts(base, rel);
        no_cur_inside(abs);
        if parts(rel).len() > 0 {
            assert(parts(rel)[0] == parts(abs)[k]);
        }
        assert(parts(base) == parts(abs).subrange(0, k));
        assert(parts(base) + parts(abs).skip(k) == parts(abs));
    }
}

/// Resolving a stored path and stripping the base again gives the stored
/// path back, but for a leading `.`, which stands for nothing.
pub proof fn resolved_path_strips_back(rel: Seq<char>, base: Seq<char>)
    requires
        !is_absolute(rel),
    ensures
        within(joined_path(base, rel), base),
        parts(path_after(joined_path(base, rel), parts(base).len() as int)) == if base.len() == 0 {
            parts(rel)
        } else {
            without_cur(parts(rel))
        },
{
    joined_parts(base, rel);
    let tail = if base.len() == 0 {
        parts(rel)
    } else {
        without_cur(parts(rel))
    };
    let all = parts(base) + tail;
    if base.len() == 0 {
        assert(parts(base) == Seq::<Part>::empty());
        assert(all == parts(rel));
    }
    let k = parts(base).len() as int;
    assert(all.subrange(0, k) == parts(base));
    path_after_parts(joined_path(base, rel), k);
    assert(all.skip(k) == tail);
}

proof fn nonempty_has_parts(s: Seq<char>)
    ensures
        s.len() > 0 ==> parts(s).len() > 0,
{
    if s.len() > 0 && !is_absolute(s) {
        segment_end_props(s, 0);
        if segment_end(s, 0) == 0 {
            assert(s[0] == '/');
        }
        assert(spans(s).len() > 0);
    }
}

/// A `.` is a component only in front.
proof fn no_cur_inside(s: Seq<char>)
    ensures
        forall|k: int| 0 < k < parts(s).len() ==> parts(s)[k] != Part::Cur,
{
    let i0: int = if is_absolute(s) {
        1
    } else {
        0
    };
    spans_from_parts(s, i0);
    spans_from_ordered(s, i0);
    assert forall|k: int| 0 < k < parts(s).len() implies parts(s)[k] != Part::Cur by {
        assert(spans(s)[k] == spans_from(s, i0)[k - i0]);
        if k - i0 > 0 {
            assert(spans_from(s, i0)[0].end < spans_from(s, i0)[k - i0].start);
        }
    }
}

/// The names that lead from the base to where `ps` ends up, taking each `..`
/// as one step back; nothing where a step would climb above the base.
pub open spec fn descent(ps: Seq<Part>) -> Option<Seq<Seq<char>>>
    decreases ps.len(),
{
    if ps.len() == 0 {
        Some(Seq::empty())
    } else {
        match (descent(ps.drop_last()), ps.last()) {
            (Some(names), Part::Normal(n)) => Some(names.push(n)),
            (Some(names), Part::Cur) => Some(names),
            (Some(names), Part::Parent) => if names.len() == 0 {
                None
            } else {
                Some(names.drop_last())
            },
            _ => None,
        }
    }
}

/// A list of names as components.
pub open spec fn as_parts(names: Seq<Seq<char>>) -> Seq<Part> {
    names.map_values(|n: Seq<char>| Part::Normal(n))
}

/// Join `filename` onto `base`, returning the path only if it stays within `base`.
/// Rejects absolute paths and any `..` that would climb above `base`.
pub fn safe_join(base: &str, filename: &str) -> (r: Option<String>)
    ensures
        r is Some <==> descent(parts(filename@)) is Some,
        r matches Some(p) ==> {
            &&& within(p@, base@)
            &&& parts(p@) == parts(base@) + as_parts(descent(parts(filename@))->0)
        },
{
    let a: Vec<char> = chars_of(filename);
    let x: Vec<PathSpan> = components(&a);
    let mut result: String = base.to_owned();
    let mut k: usize = 0;
    proof {
        assert(parts(a@).take(0) == Seq::<Part>::empty());
        assert(as_parts(Seq::empty()) == Seq::<Part>::empty());
        assert(parts(base@) + as_parts(Seq::empty()) == parts(base@));
    }
    while k < x.len()
        invariant
            k <= x@.len(),
            a@ == filename@,
            same_spans(x@, spans(a@)),
            descent(parts(a@).take(k as int)) is Some,
            parts(result@) == parts(base@) + as_parts(descent(parts(a@).take(k as int))->0),
        decreases x@.len() - k,
    {
        let ghost before = parts(a@).take(k as int);
        let ghost after = parts(a@).take(k + 1);
        let ghost names = descent(before)->0;
        proof {
            span_facts(a@, k as int);
            assert(after.drop_last() == before);
            assert(after.last() == spans(a@)[k as int].part);
        }
        match x[k].kind {
            PartKind::Normal => {
                let name: String = string_of(&a, x[k].start, x[k].end);
                proof {
                    joined_name_parts(result@, name@);
                    assert(as_parts(names.push(name@)) == as_parts(names).push(
                        Part::Normal(name@),
                    ));
                    assert(parts(base@) + as_parts(names.push(name@)) == (parts(base@) + as_parts(
                        names,
                    )).push(Part::Normal(name@)));
                }
                result = join(result.as_str(), name.as_str());
            },
            PartKind::Cur => {},
            PartKind::Parent => {
                proof {
                    parent_parts(result@);
                    if names.len() == 0 {
                        assert(as_parts(names) == Seq::<Part>::empty());
                        assert(parts(result@) == parts(base@));
                        descent_prefix(parts(a@), k + 1);
                    } else {
                        assert(parts(result@).last() == as_parts(names).last());
                        assert(parts(result@).drop_last() == parts(base@) + as_parts(
                            names.drop_last(),
                        ));
                        assert((parts(base@) + as_parts(names.drop_last())).subrange(
                            0,
                            parts(base@).len() as int,
                        ) == parts(base@));
                    }
                }
                match parent(result.as_str()) {
                    None => {
                        return None;
                    },
                    Some(up) => {
                        if !starts_with(up.as_str(), base) {
                            return None;
                        }
                        result = up;
                    },
                }
            },
            PartKind::Root => {
                proof {
                    descent_prefix(parts(a@), k + 1);
                }
                return None;
            },
        }
        k = k + 1;
    }
    proof {
        assert(parts(a@).take(parts(a@).len() as int) == parts(a@));
        let names = descent(parts(a@))->0;
        assert((parts(base@) + as_parts(names)).subrange(0, parts(base@).len() as int) == parts(
            base@,
        ));
    }
    Some(result)
}

/// What climbs above the base early on is refused as a whole.
proof fn descent_prefix(ps: Seq<Part>, n: int)
    requires
        0 <= n <= ps.len(),
        descent(ps.take(n)) is None,
    ensures
        descent(ps) is None,
    decreases ps.len(),
{
    if n == ps.len() {
        assert(ps.take(n) == ps);
    } else {
        assert(ps.drop_last().take(n) == ps.take(n));
        descent_prefix(ps.drop_last(), n);
    }
}

/// An absolute file name is always refused.
pub proof fn absolute_names_are_refused(filename: Seq<char>)
    requires
        is_absolute(filename),
    ensures
        descent(parts(filename)) is None,
{
    assert(parts(filename)[0] == Part::Root);
    let first = parts(filename).take(1);
    assert(first.drop_last() == Seq::<Part>::empty());
    descent_prefix(parts(filename), 1);
}

/// How many components up to place `n` are names, less how many are `..`.
pub open spec fn depth_at(ps: Seq<Part>, n: int) -> int
    decreases n,
{
    if n <= 0 || n > ps.len() {
        0
    } else {
        depth_at(ps, n - 1) + match ps[n - 1] {
            Part::Normal(_) => 1int,
            Part::Parent => -1int,
            _ => 0int,
        }
    }
}

proof fn depth_of_prefix(ps: Seq<Part>, n: int, k: int)
    requires
        0 <= k <= n <= ps.len(),
    ensures
        depth_at(ps.take(n), k) == depth_at(ps, k),
    decreases k,
{
    if k > 0 {
        depth_of_prefix(ps, n, k - 1);
    }
}

/// A file name is accepted exactly where it has no root and, read from left
/// to right, never has more `..` behind it than names; it then ends up as
/// many levels below the base as it has names more than `..`.
pub proof fn only_climbing_out_is_refused(ps: Seq<Part>)
    ensures
        descent(ps) is Some <==> (forall|n: int|
            0 <= n <= ps.len() ==> #[trigger] depth_at(ps, n) >= 0) && (forall|k: int|
            0 <= k < ps.len() ==> #[trigger] ps[k] != Part::Root),
        descent(ps) matches Some(names) ==> names.len() == depth_at(ps, ps.len() as int),
    decreases ps.len(),
{
    if ps.len() > 0 {
        let front = ps.drop_last();
        let len = ps.len() as int;
        only_climbing_out_is_refused(front);
        assert(front == ps.take(len - 1));
        assert forall|n: int| 0 <= n <= front.len() implies #[trigger] depth_at(front, n)
            == depth_at(ps, n) by {
            depth_of_prefix(ps, len - 1, n);
        }
        assert(depth_at(ps, len - 1) == depth_at(front, len - 1));
        if descent(ps) is Some {
            assert forall|n: int| 0 <= n <= ps.len() implies #[trigger] depth_at(ps, n) >= 0 by {
                if n < len {
                    assert(depth_at(front, n) >= 0);
                }
            }
            assert forall|k: int| 0 <= k < ps.len() implies #[trigger] ps[k] != Part::Root by {
                if k < len - 1 {
                    assert(front[k] == ps[k]);
                }
            }
        } else {
            if descent(front) is None {
                if forall|n: int| 0 <= n <= front.len() ==> #[trigger] depth_at(front, n) >= 0 {
                    let k = choose|k: int|
                        0 <= k < front.len() && #[trigger] front[k] == Part::Root;
                    assert(ps[k] == Part::Root);
                } else {
                    let n = choose|n: int|
                        0 <= n <= front.len() && #[trigger] depth_at(front, n) < 0;
                    assert(depth_at(ps, n) < 0);
                }
            } else if ps.last() == Part::Root {
                assert(ps[len - 1] == Part::Root);
            } else {
                assert(depth_at(ps, len) < 0);
            }
        }
    }
}

/// A file name made of names alone leads through exactly those names; and a
/// `..` takes back the name before it.
pub proof fn names_lead_where_they_say(names: Seq<Seq<char>>, ps: Seq<Part>, name: Seq<char>)
    ensures
        descent(as_parts(names)) == Some(names),
        descent(ps.push(Part::Normal(name)).push(Part::Parent)) == descent(ps),
    decreases names.len(),
{
    let there = ps.push(Part::Normal(name));
    let back = there.push(Part::Parent);
    assert(there.drop_last() == ps);
    assert(back.drop_last() == there);
    match descent(ps) {
        Some(found) => {
            assert(descent(there) == Some(found.push(name)));
            assert(found.push(name).drop_last() == found);
            assert(descent(back) == Some(found));
        },
        None => {
            assert(descent(there) is None);
            assert(descent(back) is None);
        },
    }
    if names.len() == 0 {
        assert(as_parts(names) == Seq::<Part>::empty());
        assert(names == Seq::<Seq<char>>::empty());
    } else {
        names_lead_where_they_say(names.drop_last(), ps, name);
        assert(as_parts(names).drop_last() == as_parts(names.drop_last()));
        assert(names.drop_last().push(names.last()) == names);
    }
}

/// Being within a directory goes by whole names: what lies under one name of
/// a directory does not lie under another, however alike the two are spelled,
/// and what lies under a directory lies under those above it.
pub proof fn neighbours_are_not_within_each_other(
    dir: Seq<char>,
    name: Seq<char>,
    other: Seq<char>,
    rel: Seq<char>,
)
    requires
        is_name(name),
        is_name(other),
        !is_absolute(rel),
    ensures
        within(joined_path(joined_path(dir, name), rel), joined_path(dir, other)) <==> name
            == other,
        within(joined_path(joined_path(dir, name), rel), dir),
{
    let here = joined_path(dir, name);
    let there = joined_path(dir, other);
    joined_name_parts(dir, name);
    joined_name_parts(dir, other);
    assert(here.len() > 0) by {
        if here.len() == 0 {
            assert(parts(here) == Seq::<Part>::empty());
        }
    }
    joined_parts(here, rel);
    let all = parts(here) + without_cur(parts(rel));
    let n = parts(dir).len() as int;
    assert(all[n] == Part::Normal(name));
    assert(parts(there)[n] == Part::Normal(other));
    assert(all.subrange(0, n) == parts(dir));
    if name == other {
        assert(all.subrange(0, n + 1) == parts(there));
    } else if within(joined_path(here, rel), there) {
        assert(parts(there)[n] == all.subrange(0, n + 1)[n]);
    }
}

/// Replacing the name of a file keeps its directory.
pub proof fn a_sibling_lies_in_the_same_directory(s: Seq<char>, name: Seq<char>)
    requires
        name_of(s) is Some,
        is_name(name),
    ensures
        parts(with_name_text(s, name)) == parts(s).drop_last().push(Part::Normal(name)),
{
    parent_parts(s);
    assert(parts(s).last() == spans(s).last().part);
    joined_name_parts(parent_path(s)->0, name);
}

/// Replacing an extension leaves the directory and the rest of the name as
/// they are; a name without an extension gets one.
pub proof fn only_the_extension_is_replaced(
    dir: Seq<char>,
    stem: Seq<char>,
    ext: Seq<char>,
    new: Seq<char>,
)
    requires
        stem.len() > 0,
        is_name(stem),
        is_name(stem.push('.') + ext),
        forall|i: int| 0 <= i < ext.len() ==> ext[i] != '.',
        new.len() > 0,
    ensures
        with_extension_text(joined_path(dir, stem.push('.') + ext), new) == joined_path(
            dir,
            stem.push('.') + new,
        ),
        (forall|i: int| 1 <= i < stem.len() ==> stem[i] != '.') ==> with_extension_text(
            joined_path(dir, stem),
            new,
        ) == joined_path(dir, stem.push('.') + new),
{
    let name = stem.push('.') + ext;
    let s = joined_path(dir, name);
    let want = joined_path(dir, stem.push('.') + new);
    a_joined_name_stands_at_the_end(dir, name);
    last_dot_is(stem, ext);
    assert(stem[0] != '/');
    assert((stem.push('.') + new)[0] == stem[0]);
    assert(name_of(s) == Some(name));
    assert(s.take(s.len() - name.len() + stem.len()) + (seq!['.'] + new) == want);
    if forall|i: int| 1 <= i < stem.len() ==> stem[i] != '.' {
        let t = joined_path(dir, stem);
        a_joined_name_stands_at_the_end(dir, stem);
        no_dot_behind_the_first(stem);
        assert(name_of(t) == Some(stem));
        assert(t.take(t.len() as int) == t);
        assert(t + (seq!['.'] + new) == want);
    }
}

} // verus!
