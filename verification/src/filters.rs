//! UI-agnostic image filters and their SQL translation. Shared by the
//! non-vector `browse` query and the filtered vector search so both apply
//! identical predicates. Designed to extend: add a field + a clause arm.

use vstd::prelude::*;
use vstd::string::*;
use crate::sql::{values, SqlModel, SqlValue};
use crate::text::{
    count_absent, count_char, count_splits, join_all, joined, texts, to_lowercase, unicode_lowered,
};
use crate::units::FileSize;

verus! {

#[derive(Debug, Clone, PartialEq)]
pub struct Filters {
    /// Inclusive file-size bounds in bytes; `None` = unbounded on that side.
    pub size_min: Option<FileSize>,
    pub size_max: Option<FileSize>,
    /// Lowercased extensions without the dot (e.g. "jpg"); empty = all types.
    pub extensions: Vec<String>,
    pub gps: GpsFilter,
    /// Tag filter: an `Active`/`Inactive` sum type. The (possibly disabled) tag
    /// set and match mode are retained either way for fast re-activation.
    pub tag_filter: TagFilter,
    /// When true, exclude images that have a thumbnail-failure marker.
    pub hide_failed: bool,
}

/// Tag-filter state: `Active` is the master-enabled state, `Inactive` is
/// disabled. Both carry the tag set and match mode so toggling never loses the
/// user's tags.
#[derive(Debug, Clone, PartialEq)]
pub enum TagFilter {
    Inactive { tags: Vec<String>, match_mode: TagMatch },
    Active { tags: Vec<String>, match_mode: TagMatch },
}

#[derive(Clone, Copy, Debug, PartialEq, Eq, Structural)]
pub enum GpsFilter {
    Any,
    HasGps,
    NoGps,
}

#[derive(Clone, Copy, Debug, PartialEq, Eq, Structural)]
pub enum TagMatch {
    /// Image must have every selected tag (AND).
    AllOf,
    /// Image must have at least one selected tag (OR).
    AnyOf,
}

/// A tag filter as plain data.
#[verifier::ext_equal]
pub struct TagModel {
    pub enabled: bool,
    pub tags: Seq<Seq<char>>,
    pub mode: TagMatch,
}

/// Filters as plain data.
#[verifier::ext_equal]
pub struct FilterModel {
    pub size_min: Option<FileSize>,
    pub size_max: Option<FileSize>,
    pub extensions: Seq<Seq<char>>,
    pub gps: GpsFilter,
    pub tag_filter: TagModel,
    pub hide_failed: bool,
}

impl View for TagFilter {
    type V = TagModel;

    open spec fn view(&self) -> TagModel {
        match *self {
            TagFilter::Active { tags, match_mode } => TagModel {
                enabled: true,
                tags: texts(tags@),
                mode: match_mode,
            },
            TagFilter::Inactive { tags, match_mode } => TagModel {
                enabled: false,
                tags: texts(tags@),
                mode: match_mode,
            },
        }
    }
}

impl View for Filters {
    type V = FilterModel;

    open spec fn view(&self) -> FilterModel {
        FilterModel {
            size_min: self.size_min,
            size_max: self.size_max,
            extensions: texts(self.extensions@),
            gps: self.gps,
            tag_filter: self.tag_filter@,
            hide_failed: self.hide_failed,
        }
    }
}

impl Default for GpsFilter {
    fn default() -> (r: Self)
        ensures
            r == GpsFilter::Any,
    {
        GpsFilter::Any
    }
}

impl Default for TagMatch {
    fn default() -> (r: Self)
        ensures
            r == TagMatch::AllOf,
    {
        TagMatch::AllOf
    }
}

impl Default for TagFilter {
    fn default() -> (r: Self)
        ensures
            r@ == (TagModel { enabled: false, tags: Seq::empty(), mode: TagMatch::AllOf }),
    {
        let tags: Vec<String> = Vec::new();
        assert(texts(tags@) == Seq::<Seq<char>>::empty());
        TagFilter::Inactive { tags, match_mode: TagMatch::default() }
    }
}

/// Filters that let everything through.
pub open spec fn no_filters() -> FilterModel {
    FilterModel {
        size_min: None,
        size_max: None,
        extensions: Seq::empty(),
        gps: GpsFilter::Any,
        tag_filter: TagModel { enabled: false, tags: Seq::empty(), mode: TagMatch::AllOf },
        hide_failed: false,
    }
}

impl Default for Filters {
    fn default() -> (r: Self)
        ensures
            r@ == no_filters(),
    {
        let extensions: Vec<String> = Vec::new();
        assert(texts(extensions@) == Seq::<Seq<char>>::empty());
        Filters {
            size_min: None,
            size_max: None,
            extensions,
            gps: GpsFilter::default(),
            tag_filter: TagFilter::default(),
            hide_failed: false,
        }
    }
}

/// A copy of a list of strings.
pub(crate) fn copy_texts(list: &Vec<String>) -> (r: Vec<String>)
    ensures
        r@ == list@,
{
    let mut out: Vec<String> = Vec::new();
    let mut i: usize = 0;
    while i < list.len()
        invariant
            i <= list@.len(),
            out@ == list@.take(i as int),
        decreases list@.len() - i,
    {
        out.push(list[i].clone());
        i = i + 1;
    }
    out
}

impl TagModel {
    /// The tags to filter by: those of an enabled filter that has any.
    pub open spec fn effective(self) -> Option<(Seq<Seq<char>>, TagMatch)> {
        if self.enabled && self.tags.len() > 0 {
            Some((self.tags, self.mode))
        } else {
            None
        }
    }
}

/// The other match mode.
pub open spec fn other_mode(mode: TagMatch) -> TagMatch {
    match mode {
        TagMatch::AllOf => TagMatch::AnyOf,
        TagMatch::AnyOf => TagMatch::AllOf,
    }
}

impl TagFilter {
    /// The retained tag list as stored.
    pub open spec fn stored(&self) -> Seq<String> {
        match *self {
            TagFilter::Active { tags, .. } => tags@,
            TagFilter::Inactive { tags, .. } => tags@,
        }
    }

    /// The tags + match mode to apply, or `None` when the filter is inactive or
    /// has no tags (the only two cases that produce no SQL clause).
    pub fn active_tags(&self) -> (r: Option<(&[String], TagMatch)>)
        ensures
            r is Some <==> self@.effective() is Some,
            r matches Some(t) ==> t.0@ == self.stored() && self@.effective() == Some(
                (texts(t.0@), t.1),
            ),
    {
        match self {
            TagFilter::Active { tags, match_mode } => {
                if tags.len() > 0 {
                    Some((tags.as_slice(), *match_mode))
                } else {
                    None
                }
            },
            TagFilter::Inactive { .. } => None,
        }
    }

    /// Whether the master enable is on (`Active`), regardless of tag count.
    pub fn is_enabled(&self) -> (r: bool)
        ensures
            r == self@.enabled,
    {
        match self {
            TagFilter::Active { .. } => true,
            TagFilter::Inactive { .. } => false,
        }
    }

    /// The retained tag set, regardless of enabled state.
    pub fn tags(&self) -> (r: &[String])
        ensures
            r@ == self.stored(),
            texts(r@) == self@.tags,
    {
        match self {
            TagFilter::Active { tags, .. } => tags.as_slice(),
            TagFilter::Inactive { tags, .. } => tags.as_slice(),
        }
    }

    /// Mutable access to the retained tag set, regardless of enabled state.
    pub fn tags_mut(&mut self) -> (r: &mut Vec<String>)
        ensures
            r@ == old(self).stored(),
            final(self).stored() == final(r)@,
            final(self)@ == (TagModel { tags: texts(final(r)@), ..old(self)@ }),
    {
        match self {
            TagFilter::Active { tags, .. } => tags,
            TagFilter::Inactive { tags, .. } => tags,
        }
    }

    /// The retained match mode, regardless of enabled state.
    pub fn match_mode(&self) -> (r: TagMatch)
        ensures
            r == self@.mode,
    {
        match self {
            TagFilter::Active { match_mode, .. } => *match_mode,
            TagFilter::Inactive { match_mode, .. } => *match_mode,
        }
    }

    /// Replace the tag set in place, keeping the enabled state and match mode.
    pub fn set_tags(&mut self, new_tags: Vec<String>)
        ensures
            final(self).stored() == new_tags@,
            final(self)@ == (TagModel { tags: texts(new_tags@), ..old(self)@ }),
    {
        *self.tags_mut() = new_tags;
    }

    /// Toggle AND/OR match mode in place, keeping the enabled state and tags.
    pub fn toggle_match_mode(&mut self)
        ensures
            final(self).stored() == old(self).stored(),
            final(self)@ == (TagModel { mode: other_mode(old(self)@.mode), ..old(self)@ }),
    {
        let mode: TagMatch = match self.match_mode() {
            TagMatch::AllOf => TagMatch::AnyOf,
            TagMatch::AnyOf => TagMatch::AllOf,
        };
        match self {
            TagFilter::Active { match_mode, .. } => {
                *match_mode = mode;
            },
            TagFilter::Inactive { match_mode, .. } => {
                *match_mode = mode;
            },
        }
    }

    /// Flip between `Active` and `Inactive`, preserving the tag set and mode.
    pub fn toggle_enabled(&mut self)
        ensures
            final(self).stored() == old(self).stored(),
            final(self)@ == (TagModel { enabled: !old(self)@.enabled, ..old(self)@ }),
    {
        let mut current: TagFilter = TagFilter::default();
        core::mem::swap(self, &mut current);
        *self = match current {
            TagFilter::Active { tags, match_mode } => TagFilter::Inactive { tags, match_mode },
            TagFilter::Inactive { tags, match_mode } => TagFilter::Active { tags, match_mode },
        };
    }

    /// A copy of the filter.
    fn duplicate(&self) -> (r: TagFilter)
        ensures
            r@ == self@,
            r.stored() == self.stored(),
    {
        match self {
            TagFilter::Active { tags, match_mode } => TagFilter::Active {
                tags: copy_texts(tags),
                match_mode: *match_mode,
            },
            TagFilter::Inactive { tags, match_mode } => TagFilter::Inactive {
                tags: copy_texts(tags),
                match_mode: *match_mode,
            },
        }
    }
}

impl Filters {
    /// Copy the whole tag filter (the possibly-disabled tag set + match mode)
    /// from `other` into `self`. Call this after rebuilding size/type/GPS
    /// fields from UI state so an active tag filter is preserved rather than
    /// reset to defaults.
    pub fn carry_tag_filter_from(&mut self, other: &Filters)
        ensures
            final(self)@ == (FilterModel { tag_filter: other@.tag_filter, ..old(self)@ }),
    {
        self.tag_filter = other.tag_filter.duplicate();
    }
}

/// The stored form of [`Filters`]: fully flat, with the tag filter as three
/// fields of its own.
#[derive(Debug, Clone, PartialEq)]
pub struct FiltersRepr {
    pub size_min: Option<FileSize>,
    pub size_max: Option<FileSize>,
    pub extensions: Vec<String>,
    pub gps: GpsFilter,
    pub tags: Vec<String>,
    pub tag_match: TagMatch,
    pub tags_enabled: bool,
    pub hide_failed: bool,
}

/// A stored form as plain data: the same fields, with the enabled flag as it
/// was stored.
pub open spec fn repr_model(r: FiltersRepr) -> FilterModel {
    FilterModel {
        size_min: r.size_min,
        size_max: r.size_max,
        extensions: texts(r.extensions@),
        gps: r.gps,
        tag_filter: TagModel { enabled: r.tags_enabled, tags: texts(r.tags@), mode: r.tag_match },
        hide_failed: r.hide_failed,
    }
}

/// What stored filters come back as: an enabled tag filter without tags is
/// disabled.
pub open spec fn normalized(m: FilterModel) -> FilterModel {
    FilterModel {
        tag_filter: TagModel {
            enabled: m.tag_filter.enabled && m.tag_filter.tags.len() > 0,
            ..m.tag_filter
        },
        ..m
    }
}

/// The filters that a stored form stands for. A tag filter that was stored as
/// enabled without tags is disabled; a disabled one keeps its tags.
pub open spec fn loaded(stored: FiltersRepr) -> Filters {
    Filters {
        size_min: stored.size_min,
        size_max: stored.size_max,
        extensions: stored.extensions,
        gps: stored.gps,
        tag_filter: if stored.tags_enabled && stored.tags@.len() > 0 {
            TagFilter::Active { tags: stored.tags, match_mode: stored.tag_match }
        } else {
            TagFilter::Inactive { tags: stored.tags, match_mode: stored.tag_match }
        },
        hide_failed: stored.hide_failed,
    }
}

impl From<&Filters> for FiltersRepr {
    /// The stored form of `f`.
    fn from(f: &Filters) -> (r: FiltersRepr)
        ensures
            repr_model(r) == f@,
    {
        FiltersRepr {
            size_min: f.size_min,
            size_max: f.size_max,
            extensions: copy_texts(&f.extensions),
            gps: f.gps,
            tags: match &f.tag_filter {
                TagFilter::Active { tags, .. } => copy_texts(tags),
                TagFilter::Inactive { tags, .. } => copy_texts(tags),
            },
            tag_match: f.tag_filter.match_mode(),
            tags_enabled: f.tag_filter.is_enabled(),
            hide_failed: f.hide_failed,
        }
    }
}

impl From<FiltersRepr> for Filters {
    /// The filters that a stored form stands for.
    fn from(stored: FiltersRepr) -> (r: Filters)
        ensures
            r == loaded(stored),
            r@ == normalized(repr_model(stored)),
    {
        let tag_filter: TagFilter = if stored.tags_enabled && stored.tags.len() > 0 {
            TagFilter::Active { tags: stored.tags, match_mode: stored.tag_match }
        } else {
            TagFilter::Inactive { tags: stored.tags, match_mode: stored.tag_match }
        };
        Filters {
            size_min: stored.size_min,
            size_max: stored.size_max,
            extensions: stored.extensions,
            gps: stored.gps,
            tag_filter,
            hide_failed: stored.hide_failed,
        }
    }
}

impl vstd::std_specs::convert::FromSpecImpl<FiltersRepr> for Filters {
    open spec fn obeys_from_spec() -> bool {
        true
    }

    open spec fn from_spec(stored: FiltersRepr) -> Filters {
        loaded(stored)
    }
}

// The stored form holds copies of the lists, with the same texts; what it is
// exactly is said by the contract of `from`.
impl vstd::std_specs::convert::FromSpecImpl<&Filters> for FiltersRepr {
    open spec fn obeys_from_spec() -> bool {
        false
    }

    open spec fn from_spec(f: &Filters) -> FiltersRepr {
        FiltersRepr {
            size_min: f.size_min,
            size_max: f.size_max,
            extensions: f.extensions,
            gps: f.gps,
            tags: match f.tag_filter {
                TagFilter::Active { tags, .. } => tags,
                TagFilter::Inactive { tags, .. } => tags,
            },
            tag_match: f.tag_filter@.mode,
            tags_enabled: f.tag_filter@.enabled,
            hide_failed: f.hide_failed,
        }
    }
}

/// The condition that an image has one given tag.
pub open spec fn has_tag_sql() -> Seq<char> {
    "EXISTS (SELECT 1 FROM image_tags it JOIN tags t ON t.id = it.tag_id WHERE it.image_id = i.id AND t.name = ?)"@
}

/// The beginning of the condition that an image has one of some tags.
pub open spec fn has_any_tag_sql() -> Seq<char> {
    "EXISTS (SELECT 1 FROM image_tags it JOIN tags t ON t.id = it.tag_id WHERE it.image_id = i.id AND t.name IN ("@
}

/// `n` copies of a text.
pub open spec fn copies(s: Seq<char>, n: nat) -> Seq<Seq<char>> {
    Seq::new(n, |i: int| s)
}

/// The conditions on the file size.
pub open spec fn size_clauses(m: FilterModel) -> Seq<Seq<char>> {
    (if m.size_min is Some {
        seq!["m.file_size >= ?"@]
    } else {
        Seq::empty()
    }) + (if m.size_max is Some {
        seq!["m.file_size <= ?"@]
    } else {
        Seq::empty()
    })
}

/// The condition on the file type.
pub open spec fn type_clauses(m: FilterModel) -> Seq<Seq<char>> {
    if m.extensions.len() == 0 {
        Seq::empty()
    } else {
        seq!["("@ + joined(copies("lower(i.path) LIKE ?"@, m.extensions.len()), " OR "@) + ")"@]
    }
}

/// The condition on the position.
pub open spec fn gps_clauses(m: FilterModel) -> Seq<Seq<char>> {
    match m.gps {
        GpsFilter::Any => Seq::empty(),
        GpsFilter::HasGps => seq!["(m.latitude IS NOT NULL AND m.longitude IS NOT NULL)"@],
        GpsFilter::NoGps => seq!["(m.latitude IS NULL OR m.longitude IS NULL)"@],
    }
}

/// The condition that leaves failed images out.
pub open spec fn failed_clauses(m: FilterModel) -> Seq<Seq<char>> {
    if m.hide_failed {
        seq!["NOT EXISTS (SELECT 1 FROM thumbnail_failures f WHERE f.image_hash = i.hash)"@]
    } else {
        Seq::empty()
    }
}

/// The conditions on the tags: one for each tag, or one for all of them.
pub open spec fn tag_clauses(m: FilterModel) -> Seq<Seq<char>> {
    match m.tag_filter.effective() {
        None => Seq::empty(),
        Some((tags, TagMatch::AllOf)) => copies(has_tag_sql(), tags.len()),
        Some((tags, TagMatch::AnyOf)) => seq![
            has_any_tag_sql() + joined(copies("?"@, tags.len()), ", "@) + "))"@,
        ],
    }
}

/// All conditions, in order.
pub open spec fn filter_clauses(m: FilterModel) -> Seq<Seq<char>> {
    size_clauses(m) + type_clauses(m) + gps_clauses(m) + failed_clauses(m) + tag_clauses(m)
}

/// The values bound to the size conditions.
pub open spec fn size_params(m: FilterModel) -> Seq<SqlModel> {
    (match m.size_min {
        Some(n) => seq![SqlModel::Integer(n.0 as int)],
        None => Seq::empty(),
    }) + (match m.size_max {
        Some(n) => seq![SqlModel::Integer(n.0 as int)],
        None => Seq::empty(),
    })
}

/// The pattern that a path with the extension `ext` is like.
pub open spec fn like_pattern(ext: Seq<char>) -> Seq<char> {
    "%."@ + unicode_lowered(ext)
}

/// The values bound to the type condition.
pub open spec fn type_params(m: FilterModel) -> Seq<SqlModel> {
    m.extensions.map_values(|e: Seq<char>| SqlModel::Text(like_pattern(e)))
}

/// The values bound to the tag conditions.
pub open spec fn tag_params(m: FilterModel) -> Seq<SqlModel> {
    match m.tag_filter.effective() {
        None => Seq::empty(),
        Some((tags, _)) => tags.map_values(|t: Seq<char>| SqlModel::Text(t)),
    }
}

/// All bound values, in the order of their conditions.
pub open spec fn filter_params(m: FilterModel) -> Seq<SqlModel> {
    size_params(m) + type_params(m) + tag_params(m)
}

/// The predicate fragment: every condition behind an ` AND `.
pub open spec fn filter_sql(m: FilterModel) -> Seq<char> {
    if filter_clauses(m).len() == 0 {
        Seq::empty()
    } else {
        " AND "@ + joined(filter_clauses(m), " AND "@)
    }
}

pub(crate) fn repeat_text(s: &str, n: usize) -> (r: Vec<String>)
    ensures
        texts(r@) == copies(s@, n as nat),
{
    let mut out: Vec<String> = Vec::new();
    let mut i: usize = 0;
    assert(texts(out@) == copies(s@, 0));
    while i < n
        invariant
            i <= n,
            texts(out@) == copies(s@, i as nat),
        decreases n - i,
    {
        let ghost before = out@;
        out.push(s.to_owned());
        proof {
            assert(texts(out@) == texts(before).push(s@));
            assert(copies(s@, (i + 1) as nat) == copies(s@, i as nat).push(s@));
        }
        i = i + 1;
    }
    out
}

fn push_clause(clauses: &mut Vec<String>, clause: String)
    ensures
        texts(final(clauses)@) == texts(old(clauses)@) + seq![clause@],
{
    let ghost before = clauses@;
    clauses.push(clause);
    assert(texts(clauses@) == texts(before) + seq![clause@]);
}

pub(crate) fn push_value(params: &mut Vec<SqlValue>, v: SqlValue)
    ensures
        values(final(params)@) == values(old(params)@) + seq![v@],
{
    let ghost before = params@;
    params.push(v);
    assert(values(params@) == values(before) + seq![v@]);
}

fn push_size(f: &Filters, clauses: &mut Vec<String>, params: &mut Vec<SqlValue>)
    ensures
        texts(final(clauses)@) == texts(old(clauses)@) + size_clauses(f@),
        values(final(params)@) == values(old(params)@) + size_params(f@),
{
    let ghost c0 = texts(clauses@);
    let ghost p0 = values(params@);
    if let Some(min) = f.size_min {
        push_clause(clauses, "m.file_size >= ?".to_owned());
        push_value(params, SqlValue::Integer(min.bytes()));
    }
    if let Some(max) = f.size_max {
        push_clause(clauses, "m.file_size <= ?".to_owned());
        push_value(params, SqlValue::Integer(max.bytes()));
    }
    assert(texts(clauses@) == c0 + size_clauses(f@));
    assert(values(params@) == p0 + size_params(f@));
}

fn push_types(f: &Filters, clauses: &mut Vec<String>, params: &mut Vec<SqlValue>)
    ensures
        texts(final(clauses)@) == texts(old(clauses)@) + type_clauses(f@),
        values(final(params)@) == values(old(params)@) + type_params(f@),
{
    let ghost c0 = texts(clauses@);
    let ghost p0 = values(params@);
    if f.extensions.len() > 0 {
        let ors: Vec<String> = repeat_text("lower(i.path) LIKE ?", f.extensions.len());
        let clause: String = "(".to_owned().concat(join_all(&ors, " OR ").as_str()).concat(")");
        push_clause(clauses, clause);
    }
    let mut i: usize = 0;
    assert(type_params(f@).take(0) == Seq::<SqlModel>::empty());
    while i < f.extensions.len()
        invariant
            i <= f.extensions@.len(),
            values(params@) == p0 + type_params(f@).take(i as int),
        decreases f.extensions@.len() - i,
    {
        let low: String = to_lowercase(f.extensions[i].as_str());
        let pattern: String = "%.".to_owned().concat(low.as_str());
        push_value(params, SqlValue::Text(pattern));
        assert(type_params(f@).take(i + 1) == type_params(f@).take(i as int) + seq![
            SqlModel::Text(pattern@),
        ]);
        i = i + 1;
    }
    proof {
        assert(type_params(f@).take(i as int) == type_params(f@));
        assert(texts(clauses@) == c0 + type_clauses(f@));
    }
}

fn push_rest(f: &Filters, clauses: &mut Vec<String>)
    ensures
        texts(final(clauses)@) == texts(old(clauses)@) + gps_clauses(f@) + failed_clauses(f@),
{
    let ghost c0 = texts(clauses@);
    match f.gps {
        GpsFilter::Any => {},
        GpsFilter::HasGps => {
            push_clause(
                clauses,
                "(m.latitude IS NOT NULL AND m.longitude IS NOT NULL)".to_owned(),
            );
        },
        GpsFilter::NoGps => {
            push_clause(clauses, "(m.latitude IS NULL OR m.longitude IS NULL)".to_owned());
        },
    }
    assert(texts(clauses@) == c0 + gps_clauses(f@));
    if f.hide_failed {
        push_clause(
            clauses,
            "NOT EXISTS (SELECT 1 FROM thumbnail_failures f WHERE f.image_hash = i.hash)".to_owned(),
        );
    }
    assert(texts(clauses@) == c0 + gps_clauses(f@) + failed_clauses(f@));
}

fn push_tags(f: &Filters, clauses: &mut Vec<String>, params: &mut Vec<SqlValue>)
    ensures
        texts(final(clauses)@) == texts(old(clauses)@) + tag_clauses(f@),
        values(final(params)@) == values(old(params)@) + tag_params(f@),
{
    let ghost c0 = texts(clauses@);
    let ghost p0 = values(params@);
    match f.tag_filter.active_tags() {
        None => {
            assert(c0 + tag_clauses(f@) == c0);
            assert(p0 + tag_params(f@) == p0);
        },
        Some((tags, mode)) => {
            match mode {
                TagMatch::AllOf => {
                    let mut each: Vec<String> = repeat_text(
                        "EXISTS (SELECT 1 FROM image_tags it JOIN tags t ON t.id = it.tag_id WHERE it.image_id = i.id AND t.name = ?)",
                        tags.len(),
                    );
                    let ghost more = each@;
                    let ghost had = clauses@;
                    clauses.append(&mut each);
                    assert(texts(clauses@) == texts(had) + texts(more));
                },
                TagMatch::AnyOf => {
                    let marks: String = join_all(&repeat_text("?", tags.len()), ", ");
                    push_clause(
                        clauses,
                        "EXISTS (SELECT 1 FROM image_tags it JOIN tags t ON t.id = it.tag_id WHERE it.image_id = i.id AND t.name IN (".to_owned().concat(
                        marks.as_str()).concat("))"),
                    );
                },
            }
            assert(texts(clauses@) == c0 + tag_clauses(f@));
            let mut i: usize = 0;
            assert(tag_params(f@).take(0) == Seq::<SqlModel>::empty());
            while i < tags.len()
                invariant
                    i <= tags@.len(),
                    f@.tag_filter.effective() == Some((texts(tags@), mode)),
                    values(params@) == p0 + tag_params(f@).take(i as int),
                decreases tags@.len() - i,
            {
                push_value(params, SqlValue::Text(tags[i].clone()));
                assert(tag_params(f@).take(i + 1) == tag_params(f@).take(i as int) + seq![
                    SqlModel::Text(tags@[i as int]@),
                ]);
                i = i + 1;
            }
            assert(tag_params(f@).take(i as int) == tag_params(f@));
        },
    }
}

/// Build the SQL predicate fragment + ordered bound params for `f`.
///
/// The fragment is either empty or starts with " AND " so it can be appended
/// after an existing `WHERE <something>`. Column aliases assumed: `i` = images,
/// `m` = image_metadata.
pub fn build_filter_clause_turso(f: &Filters) -> (r: (String, Vec<SqlValue>))
    ensures
        r.0@ == filter_sql(f@),
        values(r.1@) == filter_params(f@),
{
    let mut clauses: Vec<String> = Vec::new();
    let mut params: Vec<SqlValue> = Vec::new();
    assert(texts(clauses@) == Seq::<Seq<char>>::empty());
    assert(values(params@) == Seq::<SqlModel>::empty());
    push_size(f, &mut clauses, &mut params);
    push_types(f, &mut clauses, &mut params);
    push_rest(f, &mut clauses);
    push_tags(f, &mut clauses, &mut params);
    proof {
        assert(texts(clauses@) == filter_clauses(f@));
        assert(values(params@) == filter_params(f@));
        assert(texts(clauses@).len() == clauses@.len());
    }
    if clauses.len() == 0 {
        (String::new(), params)
    } else {
        (" AND ".to_owned().concat(join_all(&clauses, " AND ").as_str()), params)
    }
}

/// Filters that let everything through add nothing to a query.
pub proof fn no_filters_add_nothing()
    ensures
        filter_sql(no_filters()) == Seq::<char>::empty(),
        filter_params(no_filters()) == Seq::<SqlModel>::empty(),
{
    assert(filter_clauses(no_filters()) == Seq::<Seq<char>>::empty());
    assert(filter_params(no_filters()) == Seq::<SqlModel>::empty());
}

/// A fragment can always be appended behind a `WHERE` condition: it is empty
/// or begins with ` AND `.
pub proof fn fragment_is_empty_or_a_conjunction(m: FilterModel)
    ensures
        filter_sql(m).len() == 0 || filter_sql(m).take(5) == " AND "@,
{
    reveal_strlit(" AND ");
    if filter_clauses(m).len() > 0 {
        assert(filter_sql(m).take(5) == " AND "@);
    }
}

/// Storing filters with `FiltersRepr::from` and loading them again with
/// `Filters::from` gives the same filters, unless the tag filter was enabled
/// without any tags: that comes back disabled, with the same match mode and
/// nothing else changed. So no loaded tag filter is enabled without tags, and
/// a disabled one keeps its tags. Loaded filters filter as the stored ones
/// did, and storing them again changes nothing more.
pub proof fn stored_filters_round_trip(f: Filters, stored: FiltersRepr)
    requires
        repr_model(stored) == f@,
    ensures
        !(f@.tag_filter.enabled && f@.tag_filter.tags.len() == 0) ==> loaded(stored)@ == f@,
        f@.tag_filter.enabled && f@.tag_filter.tags.len() == 0 ==> loaded(stored)@ == (
        FilterModel { tag_filter: TagModel { enabled: false, ..f@.tag_filter }, ..f@ }),
        loaded(stored).tag_filter matches TagFilter::Active { tags, .. } ==> tags@.len() > 0,
        !f@.tag_filter.enabled ==> loaded(stored)@.tag_filter == f@.tag_filter,
        filter_sql(loaded(stored)@) == filter_sql(f@),
        filter_params(loaded(stored)@) == filter_params(f@),
        normalized(loaded(stored)@) == loaded(stored)@,
{
    assert(loaded(stored)@ == normalized(f@));
}

/// Toggling a tag filter, or its match mode, twice leaves it as it was.
pub proof fn toggling_twice_changes_nothing(t: TagModel)
    ensures
        (TagModel { enabled: !(!t.enabled), ..t }) == t,
        other_mode(other_mode(t.mode)) == t.mode,
{
}

/// How often `c` occurs in texts joined by a separator without `c`.
proof fn count_joined(parts: Seq<Seq<char>>, sep: Seq<char>, c: char)
    requires
        count_char(sep, c) == 0,
    ensures
        count_char(joined(parts, sep), c) == count_all(parts, c),
    decreases parts.len(),
{
    if parts.len() == 1 {
        assert(parts.drop_last() == Seq::<Seq<char>>::empty());
        assert(count_all(parts.drop_last(), c) == 0);
    } else if parts.len() > 1 {
        count_joined(parts.drop_last(), sep, c);
        count_splits(joined(parts.drop_last(), sep), sep, c);
        count_splits(joined(parts.drop_last(), sep) + sep, parts.last(), c);
    }
}

/// How often `c` occurs in all of the texts.
spec fn count_all(parts: Seq<Seq<char>>, c: char) -> nat
    decreases parts.len(),
{
    if parts.len() == 0 {
        0
    } else {
        count_all(parts.drop_last(), c) + count_char(parts.last(), c)
    }
}

proof fn count_all_splits(a: Seq<Seq<char>>, b: Seq<Seq<char>>, c: char)
    ensures
        count_all(a + b, c) == count_all(a, c) + count_all(b, c),
    decreases b.len(),
{
    if b.len() == 0 {
        assert(a + b == a);
    } else {
        count_all_splits(a, b.drop_last(), c);
        assert((a + b).drop_last() == a + b.drop_last());
    }
}

proof fn count_copies(s: Seq<char>, n: nat, c: char)
    requires
        count_char(s, c) == 1,
    ensures
        count_all(copies(s, n), c) == n,
    decreases n,
{
    if n > 0 {
        assert(copies(s, n).drop_last() == copies(s, (n - 1) as nat));
        count_copies(s, (n - 1) as nat, c);
    }
}

proof fn count_one(s: Seq<char>, c: char)
    ensures
        count_all(seq![s], c) == count_char(s, c),
{
    assert(seq![s].drop_last() == Seq::<Seq<char>>::empty());
    assert(count_all(seq![s].drop_last(), c) == 0);
}

/// A text that ends in `?` and, as the rest shows, has no other.
proof fn one_mark(s: Seq<char>, at: int)
    requires
        0 <= at < s.len(),
        s[at] == '?',
        forall|i: int| 0 <= i < s.len() && i != at ==> s[i] != '?',
    ensures
        count_char(s, '?') == 1,
{
    let a = s.take(at);
    let b = s.skip(at + 1);
    assert(s == a.push('?') + b);
    count_absent(a, '?');
    count_absent(b, '?');
    count_splits(a.push('?'), b, '?');
    assert(a.push('?').drop_last() == a);
}

proof fn size_marks(m: FilterModel)
    ensures
        count_all(size_clauses(m), '?') == size_params(m).len(),
{
    reveal_strlit("m.file_size >= ?");
    reveal_strlit("m.file_size <= ?");
    one_mark("m.file_size >= ?"@, 15);
    one_mark("m.file_size <= ?"@, 15);
    let a = if m.size_min is Some {
        seq!["m.file_size >= ?"@]
    } else {
        Seq::empty()
    };
    let b = if m.size_max is Some {
        seq!["m.file_size <= ?"@]
    } else {
        Seq::empty()
    };
    count_one("m.file_size >= ?"@, '?');
    count_one("m.file_size <= ?"@, '?');
    count_all_splits(a, b, '?');
}

proof fn type_marks(m: FilterModel)
    ensures
        count_all(type_clauses(m), '?') == type_params(m).len(),
{
    reveal_strlit("lower(i.path) LIKE ?");
    reveal_strlit(" OR ");
    reveal_strlit("(");
    reveal_strlit(")");
    if m.extensions.len() > 0 {
        let n = m.extensions.len();
        one_mark("lower(i.path) LIKE ?"@, 19);
        count_copies("lower(i.path) LIKE ?"@, n, '?');
        count_absent(" OR "@, '?');
        let ors = joined(copies("lower(i.path) LIKE ?"@, n), " OR "@);
        count_joined(copies("lower(i.path) LIKE ?"@, n), " OR "@, '?');
        count_absent("("@, '?');
        count_absent(")"@, '?');
        count_splits("("@, ors, '?');
        count_splits("("@ + ors, ")"@, '?');
        count_one("("@ + ors + ")"@, '?');
    }
}

proof fn gps_marks(m: FilterModel)
    ensures
        count_all(gps_clauses(m), '?') == 0,
{
    reveal_strlit("(m.latitude IS NOT NULL AND m.longitude IS NOT NULL)");
    reveal_strlit("(m.latitude IS NULL OR m.longitude IS NULL)");
    count_absent("(m.latitude IS NOT NULL AND m.longitude IS NOT NULL)"@, '?');
    count_absent("(m.latitude IS NULL OR m.longitude IS NULL)"@, '?');
    count_one("(m.latitude IS NOT NULL AND m.longitude IS NOT NULL)"@, '?');
    count_one("(m.latitude IS NULL OR m.longitude IS NULL)"@, '?');
}

proof fn failed_marks(m: FilterModel)
    ensures
        count_all(failed_clauses(m), '?') == 0,
{
    reveal_strlit("NOT EXISTS (SELECT 1 FROM thumbnail_failures f WHERE f.image_hash = i.hash)");
    let s = "NOT EXISTS (SELECT 1 FROM thumbnail_failures f WHERE f.image_hash = i.hash)"@;
    count_absent(s, '?');
    count_one(s, '?');
}

proof fn tag_marks(m: FilterModel)
    ensures
        count_all(tag_clauses(m), '?') == tag_params(m).len(),
{
    if let Some((tags, mode)) = m.tag_filter.effective() {
        let n = tags.len();
        if mode == TagMatch::AllOf {
            reveal_strlit(
                "EXISTS (SELECT 1 FROM image_tags it JOIN tags t ON t.id = it.tag_id WHERE it.image_id = i.id AND t.name = ?)",
            );
            one_mark(has_tag_sql(), has_tag_sql().len() - 2);
            count_copies(has_tag_sql(), n, '?');
        } else {
            reveal_strlit(
                "EXISTS (SELECT 1 FROM image_tags it JOIN tags t ON t.id = it.tag_id WHERE it.image_id = i.id AND t.name IN (",
            );
            reveal_strlit("?");
            reveal_strlit(", ");
            reveal_strlit("))");
            let marks = joined(copies("?"@, n), ", "@);
            count_absent(has_any_tag_sql(), '?');
            one_mark("?"@, 0);
            count_copies("?"@, n, '?');
            count_absent(", "@, '?');
            count_joined(copies("?"@, n), ", "@, '?');
            count_absent("))"@, '?');
            count_splits(has_any_tag_sql(), marks, '?');
            count_splits(has_any_tag_sql() + marks, "))"@, '?');
            count_one(has_any_tag_sql() + marks + "))"@, '?');
        }
    }
}

/// A fragment and its bound values always fit together: it has exactly one
/// `?` for each of them.
pub proof fn one_placeholder_for_each_value(m: FilterModel)
    ensures
        count_char(filter_sql(m), '?') == filter_params(m).len(),
{
    size_marks(m);
    type_marks(m);
    gps_marks(m);
    failed_marks(m);
    tag_marks(m);
    count_all_splits(size_clauses(m), type_clauses(m), '?');
    count_all_splits(size_clauses(m) + type_clauses(m), gps_clauses(m), '?');
    count_all_splits(size_clauses(m) + type_clauses(m) + gps_clauses(m), failed_clauses(m), '?');
    count_all_splits(
        size_clauses(m) + type_clauses(m) + gps_clauses(m) + failed_clauses(m),
        tag_clauses(m),
        '?',
    );
    reveal_strlit(" AND ");
    count_absent(" AND "@, '?');
    count_joined(filter_clauses(m), " AND "@, '?');
    count_splits(" AND "@, joined(filter_clauses(m), " AND "@), '?');
    if filter_clauses(m).len() == 0 {
        assert(count_all(filter_clauses(m), '?') == 0);
    }
}

/// How many sides of the file size are bounded.
pub open spec fn size_bounds(m: FilterModel) -> int {
    (if m.size_min is Some {
        1int
    } else {
        0
    }) + (if m.size_max is Some {
        1int
    } else {
        0
    })
}

/// Every filter that is set adds its condition, and no other does: a lower
/// and an upper bound of the file size, the file types, the position, the
/// failure marker, and the tags, which make one condition each where an
/// image has to have all of them and a single one where any will do.
pub proof fn every_filter_adds_its_condition(m: FilterModel)
    ensures
        m.size_min is Some ==> filter_clauses(m).contains("m.file_size >= ?"@),
        m.size_max is Some ==> filter_clauses(m).contains("m.file_size <= ?"@),
        m.extensions.len() > 0 ==> filter_clauses(m).contains(
            "("@ + joined(copies("lower(i.path) LIKE ?"@, m.extensions.len()), " OR "@) + ")"@,
        ),
        m.gps == GpsFilter::HasGps ==> filter_clauses(m).contains(
            "(m.latitude IS NOT NULL AND m.longitude IS NOT NULL)"@,
        ),
        m.gps == GpsFilter::NoGps ==> filter_clauses(m).contains(
            "(m.latitude IS NULL OR m.longitude IS NULL)"@,
        ),
        m.hide_failed ==> filter_clauses(m).contains(
            "NOT EXISTS (SELECT 1 FROM thumbnail_failures f WHERE f.image_hash = i.hash)"@,
        ),
        m.tag_filter.enabled && m.tag_filter.tags.len() > 0 && m.tag_filter.mode == TagMatch::AllOf
            ==> forall|k: int|
            0 <= k < m.tag_filter.tags.len() ==> #[trigger] filter_clauses(
                m,
            )[filter_clauses(m).len() - m.tag_filter.tags.len() + k]
                == "EXISTS (SELECT 1 FROM image_tags it JOIN tags t ON t.id = it.tag_id WHERE it.image_id = i.id AND t.name = ?)"@,
        m.tag_filter.enabled && m.tag_filter.tags.len() > 0 && m.tag_filter.mode == TagMatch::AnyOf
            ==> filter_clauses(m).last()
            == "EXISTS (SELECT 1 FROM image_tags it JOIN tags t ON t.id = it.tag_id WHERE it.image_id = i.id AND t.name IN ("@
            + joined(copies("?"@, m.tag_filter.tags.len()), ", "@) + "))"@,
        filter_clauses(m).len() == (if m.size_min is Some {
            1int
        } else {
            0
        }) + (if m.size_max is Some {
            1int
        } else {
            0
        }) + (if m.extensions.len() > 0 {
            1int
        } else {
            0
        }) + (if m.gps != GpsFilter::Any {
            1int
        } else {
            0
        }) + (if m.hide_failed {
            1int
        } else {
            0
        }) + (if !m.tag_filter.enabled || m.tag_filter.tags.len() == 0 {
            0
        } else if m.tag_filter.mode == TagMatch::AllOf {
            m.tag_filter.tags.len() as int
        } else {
            1
        }),
{
    let all = filter_clauses(m);
    let a = size_clauses(m).len() as int;
    let b = a + type_clauses(m).len();
    let c = b + gps_clauses(m).len();
    let d = c + failed_clauses(m).len();
    if m.size_min is Some {
        assert(all[0] == "m.file_size >= ?"@);
    }
    if m.size_max is Some {
        assert(all[a - 1] == "m.file_size <= ?"@);
    }
    if m.extensions.len() > 0 {
        assert(all[a] == type_clauses(m)[0]);
    }
    if m.gps != GpsFilter::Any {
        assert(all[b] == gps_clauses(m)[0]);
    }
    if m.hide_failed {
        assert(all[c] == failed_clauses(m)[0]);
    }
    if m.tag_filter.enabled && m.tag_filter.tags.len() > 0 {
        assert forall|k: int| 0 <= k < tag_clauses(m).len() implies #[trigger] all[d + k]
            == tag_clauses(m)[k] by {}
        assert(all.last() == tag_clauses(m).last());
        if m.tag_filter.mode == TagMatch::AllOf {
            let n = m.tag_filter.tags.len();
            assert forall|k: int| 0 <= k < n implies #[trigger] all[all.len() - n + k]
                == has_tag_sql() by {
                assert(all[d + k] == tag_clauses(m)[k]);
            }
        }
    }
}

/// Every value that is filtered by is bound, in the order of the conditions:
/// the bounds of the file size, then each file type in small letters, then
/// each tag of an enabled tag filter as it is; and nothing else is bound.
pub proof fn every_filter_value_is_bound(m: FilterModel)
    ensures
        ({
            let p = filter_params(m);
            let sizes = size_bounds(m);
            let tags: int = if m.tag_filter.enabled {
                m.tag_filter.tags.len() as int
            } else {
                0
            };
            &&& p.len() == sizes + m.extensions.len() + tags
            &&& m.size_min matches Some(n) ==> p[0] == SqlModel::Integer(n.0 as int)
            &&& m.size_max matches Some(n) ==> p[sizes - 1] == SqlModel::Integer(n.0 as int)
            &&& forall|i: int|
                0 <= i < m.extensions.len() ==> p[sizes + i] == SqlModel::Text(
                    "%."@ + unicode_lowered(#[trigger] m.extensions[i]),
                )
            &&& forall|j: int|
                0 <= j < tags ==> p[sizes + m.extensions.len() + j] == SqlModel::Text(
                    #[trigger] m.tag_filter.tags[j],
                )
        }),
{
    let p = filter_params(m);
    let sizes = size_bounds(m);
    assert(size_params(m).len() == sizes);
    assert forall|i: int| 0 <= i < m.extensions.len() implies p[sizes + i] == SqlModel::Text(
        "%."@ + unicode_lowered(#[trigger] m.extensions[i]),
    ) by {
        assert(p[sizes + i] == type_params(m)[i]);
    }
    if m.tag_filter.enabled {
        assert forall|j: int| 0 <= j < m.tag_filter.tags.len() implies p[sizes
            + m.extensions.len() + j] == SqlModel::Text(#[trigger] m.tag_filter.tags[j]) by {
            assert(p[sizes + m.extensions.len() + j] == tag_params(m)[j]);
        }
    }
}

/// The conditions all have to hold: the fragment is the conditions in order,
/// each behind an ` AND `.
pub proof fn all_conditions_have_to_hold(m: FilterModel)
    ensures
        filter_clauses(m).len() == 0 <==> filter_sql(m).len() == 0,
        filter_clauses(m).len() > 0 ==> filter_sql(m) == " AND "@ + joined(
            filter_clauses(m),
            " AND "@,
        ),
{
    reveal_strlit(" AND ");
}

/// A tag filter filters only where it is enabled and has tags; whatever it
/// does, its tags and its match mode are kept.
pub proof fn disabled_tags_do_not_filter(m: FilterModel)
    requires
        !m.tag_filter.enabled || m.tag_filter.tags.len() == 0,
    ensures
        filter_sql(m) == filter_sql(FilterModel { tag_filter: no_filters().tag_filter, ..m }),
        filter_params(m) == filter_params(FilterModel { tag_filter: no_filters().tag_filter, ..m }),
{
    let without = FilterModel { tag_filter: no_filters().tag_filter, ..m };
    assert(filter_clauses(m) == filter_clauses(without));
}

} // verus!
