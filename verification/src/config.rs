//! User configuration: its sections with their defaults, which paths it
//! leaves out of the index, and what the `config` subcommands do to it.

use vstd::prelude::*;
use vstd::string::*;
use crate::path_model::{parts, spans, Part};
use crate::paths::{components, join, same_spans, PathSpan};
use crate::sort::{Sort, SortDir, SortKey};
use crate::text::{a_text_occurs_between_others, chars_of, contains, occurs, string_of, texts};
use crate::units::{DistanceThreshold, MaxK};

verus! {

#[derive(Debug, Clone, Copy)]
pub struct IndexConfig {
    /// Number of rows to insert per batch during indexing
    pub batch_size: usize,
}

pub fn default_batch_size() -> (r: usize)
    ensures
        r == 32,
{
    32
}

impl Default for IndexConfig {
    fn default() -> (r: Self)
        ensures
            r.batch_size == 32,
    {
        IndexConfig { batch_size: default_batch_size() }
    }
}

#[derive(Debug, Clone, Copy)]
pub struct SearchConfig {
    /// Maximum cosine distance to include in results (lower = stricter)
    pub distance_threshold: DistanceThreshold,
    /// Upper bound on the KNN `k` value (result-set ceiling)
    pub max_k: MaxK,
}

/// 1.3 in single precision.
pub const DEFAULT_THRESHOLD_BITS: u32 = 0x3fa6_6666;

pub fn default_distance_threshold() -> (r: DistanceThreshold)
    ensures
        r.bits == DEFAULT_THRESHOLD_BITS,
{
    DistanceThreshold { bits: DEFAULT_THRESHOLD_BITS }
}

pub fn default_max_k() -> (r: MaxK)
    ensures
        r == MaxK(100),
{
    MaxK(100)
}

impl Default for SearchConfig {
    fn default() -> (r: Self)
        ensures
            r.distance_threshold.bits == DEFAULT_THRESHOLD_BITS,
            r.max_k == MaxK(100),
    {
        SearchConfig { distance_threshold: default_distance_threshold(), max_k: default_max_k() }
    }
}

#[derive(Debug, Clone, Copy)]
pub struct GuiConfig {
    /// Number of adjacent images to preload in the lightbox (prev/next)
    pub preload_neighbors: usize,
    /// Default sort key for the image grid
    pub default_sort: SortKey,
    /// Default sort direction for the image grid
    pub default_sort_direction: SortDir,
}

pub fn default_preload_neighbors() -> (r: usize)
    ensures
        r == 2,
{
    2
}

pub fn default_gui_sort() -> (r: SortKey)
    ensures
        r == SortKey::Name,
{
    SortKey::Name
}

pub fn default_gui_sort_dir() -> (r: SortDir)
    ensures
        r == SortDir::Asc,
{
    SortDir::Asc
}

impl Default for GuiConfig {
    fn default() -> (r: Self)
        ensures
            r.preload_neighbors == 2,
            r.default_sort == SortKey::Name,
            r.default_sort_direction == SortDir::Asc,
    {
        GuiConfig {
            preload_neighbors: default_preload_neighbors(),
            default_sort: default_gui_sort(),
            default_sort_direction: default_gui_sort_dir(),
        }
    }
}

impl GuiConfig {
    /// Compose the stored key + direction into a `Sort` value.
    pub fn resolved_sort(&self) -> (r: Sort)
        ensures
            r == (Sort { key: self.default_sort, dir: self.default_sort_direction }),
    {
        Sort { key: self.default_sort, dir: self.default_sort_direction }
    }
}

#[derive(Debug, Clone)]
pub struct Config {
    /// Directory patterns to ignore during indexing
    pub ignore_patterns: Vec<String>,
    /// Indexing tuning options
    pub index: IndexConfig,
    /// Search tuning options
    pub search: SearchConfig,
    /// Native GUI tuning options
    pub gui: GuiConfig,
    /// Default embedding model used to seed a newly-created database. `None`
    /// falls back to the built-in baseline model.
    pub default_model: Option<String>,
}

/// The patterns that a new configuration ignores.
pub open spec fn default_ignores() -> Seq<Seq<char>> {
    seq![
        "node_modules"@,
        ".git"@,
        ".svn"@,
        ".hg"@,
        "target"@,
        "build"@,
        "dist"@,
        ".cache"@,
        "tmp"@,
        "temp"@,
    ]
}

/// A configuration as it is before the user changes anything.
pub open spec fn is_default_config(c: Config) -> bool {
    &&& texts(c.ignore_patterns@) == default_ignores()
    &&& c.index.batch_size == 32
    &&& c.search.distance_threshold.bits == DEFAULT_THRESHOLD_BITS
    &&& c.search.max_k == MaxK(100)
    &&& c.gui.preload_neighbors == 2
    &&& c.gui.default_sort == SortKey::Name
    &&& c.gui.default_sort_direction == SortDir::Asc
    &&& c.default_model is None
}

impl Default for Config {
    fn default() -> (r: Self)
        ensures
            is_default_config(r),
    {
        let patterns: Vec<String> = vec![
            "node_modules".to_owned(),
            ".git".to_owned(),
            ".svn".to_owned(),
            ".hg".to_owned(),
            "target".to_owned(),
            "build".to_owned(),
            "dist".to_owned(),
            ".cache".to_owned(),
            "tmp".to_owned(),
            "temp".to_owned(),
        ];
        assert(texts(patterns@) == default_ignores());
        Config {
            ignore_patterns: patterns,
            index: IndexConfig::default(),
            search: SearchConfig::default(),
            gui: GuiConfig::default(),
            default_model: None,
        }
    }
}

/// A compiled pattern of the `regex` crate.
#[verifier::external_type_specification]
#[verifier::external_body]
pub struct ExRegex(regex::Regex);

/// An error of the `regex` crate.
#[verifier::external_type_specification]
#[verifier::external_body]
pub struct ExRegexError(regex::Error);

/// The characters of the pattern that a compiled pattern was made from.
pub uninterp spec fn pattern_of(re: regex::Regex) -> Seq<char>;

/// Whether `Regex::new` accepts a pattern.
pub uninterp spec fn pattern_compiles(pattern: Seq<char>) -> bool;

/// Whether `Regex::is_match` finds a pattern, one that compiles, in a text.
pub uninterp spec fn pattern_matches(pattern: Seq<char>, text: Seq<char>) -> bool;

/// Trusted: `Regex::new`. It fails exactly on the patterns that do not
/// compile, and keeps the pattern's text otherwise.
#[verifier::external_body]
fn compile(pattern: &str) -> (r: Result<regex::Regex, regex::Error>)
    ensures
        r is Ok <==> pattern_compiles(pattern@),
        r matches Ok(re) ==> pattern_of(re) == pattern@,
{
    regex::Regex::new(pattern)
}

/// Trusted: `Regex::is_match`. The verdict depends on the pattern and the
/// text alone.
#[verifier::external_body]
fn is_match(re: &regex::Regex, text: &str) -> (r: bool)
    ensures
        r == pattern_matches(pattern_of(*re), text@),
{
    re.is_match(text)
}

/// Whether a pattern is found in a text: as a regular expression where it is
/// a valid one, else as a plain substring.
pub open spec fn pattern_hits(pattern: Seq<char>, text: Seq<char>) -> bool {
    if pattern_compiles(pattern) {
        pattern_matches(pattern, text)
    } else {
        occurs(pattern, text)
    }
}

/// The text of the `k`-th component of a path.
pub open spec fn component_text(path: Seq<char>, k: int) -> Seq<char> {
    path.subrange(spans(path)[k].start, spans(path)[k].end)
}

/// Whether one of the patterns is found in a path or in a component of it.
pub open spec fn ignores(patterns: Seq<Seq<char>>, path: Seq<char>) -> bool {
    exists|i: int| 0 <= i < patterns.len() && #[trigger] ignored_by(patterns[i], path)
}

/// Whether a pattern is found in a path or in a component of it.
pub open spec fn ignored_by(pattern: Seq<char>, path: Seq<char>) -> bool {
    ||| pattern_hits(pattern, path)
    ||| exists|k: int|
        0 <= k < spans(path).len() && pattern_hits(pattern, #[trigger] component_text(path, k))
}

/// `compiled` holds, for each pattern, its compiled form where it has one.
pub open spec fn compiled_from(
    compiled: Seq<Option<regex::Regex>>,
    patterns: Seq<Seq<char>>,
) -> bool {
    &&& compiled.len() == patterns.len()
    &&& forall|i: int|
        0 <= i < patterns.len() ==> match #[trigger] compiled[i] {
            Some(re) => pattern_compiles(patterns[i]) && pattern_of(re) == patterns[i],
            None => !pattern_compiles(patterns[i]),
        }
}

/// Where one pattern was found: in the path as a whole, and in which of its
/// components.
#[derive(Debug, Clone)]
pub struct PatternVerdict {
    pub whole: bool,
    pub components: Vec<bool>,
}

/// Whether any of the verdicts is a hit.
pub fn any_hit(verdicts: &Vec<PatternVerdict>) -> (r: bool)
    ensures
        r <==> exists|i: int|
            0 <= i < verdicts@.len() && ((#[trigger] verdicts@[i]).whole
                || verdicts@[i].components@.contains(true)),
{
    let mut i: usize = 0;
    while i < verdicts.len()
        invariant
            i <= verdicts@.len(),
            forall|m: int|
                0 <= m < i ==> !(#[trigger] verdicts@[m]).whole
                    && !verdicts@[m].components@.contains(true),
        decreases verdicts@.len() - i,
    {
        if verdicts[i].whole {
            return true;
        }
        let hits: &Vec<bool> = &verdicts[i].components;
        let mut k: usize = 0;
        while k < hits.len()
            invariant
                k <= hits@.len(),
                i < verdicts@.len(),
                hits@ == verdicts@[i as int].components@,
                forall|m: int| 0 <= m < k ==> !hits@[m],
            decreases hits@.len() - k,
        {
            if hits[k] {
                assert(hits@[k as int]);
                return true;
            }
            k = k + 1;
        }
        i = i + 1;
    }
    false
}

fn pattern_found(re: &Option<regex::Regex>, pattern: &String, text: &str) -> (r: bool)
    requires
        match *re {
            Some(x) => pattern_compiles(pattern@) && pattern_of(x) == pattern@,
            None => !pattern_compiles(pattern@),
        },
    ensures
        r == pattern_hits(pattern@, text@),
{
    match re {
        Some(x) => is_match(x, text),
        // Fallback to simple string matching if the regex is invalid.
        None => contains(text, pattern.as_str()),
    }
}

impl Config {
    /// The place of the configuration file within the home directory.
    pub fn get_config_path(home: &str) -> (r: String)
        ensures
            r@ == crate::path_model::joined_path(
                crate::path_model::joined_path(home@, ".imgfind"@),
                "config.toml"@,
            ),
    {
        join(join(home, ".imgfind").as_str(), "config.toml")
    }

    /// The compiled forms of the ignore patterns, in order; `None` for a
    /// pattern that is no valid regular expression.
    pub fn get_compiled_regexes(&self) -> (r: Vec<Option<regex::Regex>>)
        ensures
            compiled_from(r@, texts(self.ignore_patterns@)),
    {
        let mut out: Vec<Option<regex::Regex>> = Vec::new();
        let mut i: usize = 0;
        while i < self.ignore_patterns.len()
            invariant
                i <= self.ignore_patterns@.len(),
                compiled_from(out@, texts(self.ignore_patterns@).take(i as int)),
            decreases self.ignore_patterns@.len() - i,
        {
            let c: Option<regex::Regex> = match compile(self.ignore_patterns[i].as_str()) {
                Ok(re) => Some(re),
                Err(_) => None,
            };
            out.push(c);
            i = i + 1;
        }
        assert(texts(self.ignore_patterns@).take(i as int) == texts(self.ignore_patterns@));
        out
    }

    /// Check if a path should be ignored based on the configured patterns,
    /// with their compiled forms at hand.
    pub fn ignores_path(&self, compiled: &Vec<Option<regex::Regex>>, path: &str) -> (r: bool)
        requires
            compiled_from(compiled@, texts(self.ignore_patterns@)),
        ensures
            r == ignores(texts(self.ignore_patterns@), path@),
    {
        let a: Vec<char> = chars_of(path);
        let parts: Vec<PathSpan> = components(&a);
        let mut verdicts: Vec<PatternVerdict> = Vec::new();
        let mut i: usize = 0;
        while i < self.ignore_patterns.len()
            invariant
                i <= self.ignore_patterns@.len(),
                i == verdicts@.len(),
                a@ == path@,
                same_spans(parts@, spans(a@)),
                compiled_from(compiled@, texts(self.ignore_patterns@)),
                forall|m: int|
                    0 <= m < i ==> {
                        let p = texts(self.ignore_patterns@)[m];
                        let v = #[trigger] verdicts@[m];
                        &&& v.whole == pattern_hits(p, path@)
                        &&& v.components@.len() == spans(path@).len()
                        &&& forall|k: int|
                            0 <= k < v.components@.len() ==> #[trigger] v.components@[k]
                                == pattern_hits(p, component_text(path@, k))
                    },
            decreases self.ignore_patterns@.len() - i,
        {
            let pattern: &String = &self.ignore_patterns[i];
            assert(texts(self.ignore_patterns@)[i as int] == pattern@);
            let re: &Option<regex::Regex> = &compiled[i];
            let whole: bool = pattern_found(re, pattern, path);
            let mut hits: Vec<bool> = Vec::new();
            let mut k: usize = 0;
            while k < parts.len()
                invariant
                    k <= parts@.len(),
                    k == hits@.len(),
                    a@ == path@,
                    same_spans(parts@, spans(a@)),
                    match *re {
                        Some(x) => pattern_compiles(pattern@) && pattern_of(x) == pattern@,
                        None => !pattern_compiles(pattern@),
                    },
                    forall|m: int|
                        0 <= m < k ==> #[trigger] hits@[m] == pattern_hits(
                            pattern@,
                            component_text(path@, m),
                        ),
                decreases parts@.len() - k,
            {
                proof {
                    crate::paths::span_facts(a@, k as int);
                }
                let part: String = string_of(&a, parts[k].start, parts[k].end);
                assert(part@ == component_text(path@, k as int));
                hits.push(pattern_found(re, pattern, part.as_str()));
                k = k + 1;
            }
            verdicts.push(PatternVerdict { whole, components: hits });
            i = i + 1;
        }
        let r: bool = any_hit(&verdicts);
        proof {
            let ps = texts(self.ignore_patterns@);
            if r {
                let m = choose|m: int|
                    0 <= m < verdicts@.len() && ((#[trigger] verdicts@[m]).whole
                        || verdicts@[m].components@.contains(true));
                if !verdicts@[m].whole {
                    let k = choose|k: int|
                        0 <= k < verdicts@[m].components@.len() && verdicts@[m].components@[k];
                    assert(pattern_hits(ps[m], component_text(path@, k)));
                }
                assert(ignored_by(ps[m], path@));
            }
            if ignores(ps, path@) {
                let m = choose|m: int| 0 <= m < ps.len() && #[trigger] ignored_by(ps[m], path@);
                let v = verdicts@[m];
                if !pattern_hits(ps[m], path@) {
                    let k = choose|k: int|
                        0 <= k < spans(path@).len() && pattern_hits(
                            ps[m],
                            #[trigger] component_text(path@, k),
                        );
                    assert(v.components@[k]);
                    assert(v.components@.contains(true));
                }
            }
        }
        r
    }

    /// Check if a path should be ignored based on the configured patterns
    pub fn should_ignore_path(&self, path: &str) -> (r: bool)
        ensures
            r == ignores(texts(self.ignore_patterns@), path@),
    {
        let compiled: Vec<Option<regex::Regex>> = self.get_compiled_regexes();
        self.ignores_path(&compiled, path)
    }
}

/// The directories of tools, caches and version control are left out from
/// the start, and nothing else is.
pub proof fn defaults_leave_out_tool_directories(p: Seq<char>)
    ensures
        default_ignores().len() == 10,
        default_ignores().contains(p) <==> {
            ||| p == "node_modules"@
            ||| p == ".git"@
            ||| p == ".svn"@
            ||| p == ".hg"@
            ||| p == "target"@
            ||| p == "build"@
            ||| p == "dist"@
            ||| p == ".cache"@
            ||| p == "tmp"@
            ||| p == "temp"@
        },
{
    let d = default_ignores();
    assert(d[0] == "node_modules"@ && d[1] == ".git"@ && d[2] == ".svn"@ && d[3] == ".hg"@);
    assert(d[4] == "target"@ && d[5] == "build"@ && d[6] == "dist"@ && d[7] == ".cache"@);
    assert(d[8] == "tmp"@ && d[9] == "temp"@);
}

/// Each pattern counts for itself: a path is ignored by two lists together
/// exactly where one of them ignores it, so that a further pattern never
/// brings an ignored path back, the order of the patterns makes no
/// difference, and without patterns nothing is ignored.
pub proof fn patterns_count_one_by_one(a: Seq<Seq<char>>, b: Seq<Seq<char>>, path: Seq<char>)
    ensures
        ignores(a + b, path) <==> ignores(a, path) || ignores(b, path),
        !ignores(Seq::empty(), path),
{
    let both = a + b;
    if ignores(a, path) {
        let i = choose|i: int| 0 <= i < a.len() && #[trigger] ignored_by(a[i], path);
        assert(both[i] == a[i]);
    }
    if ignores(b, path) {
        let i = choose|i: int| 0 <= i < b.len() && #[trigger] ignored_by(b[i], path);
        assert(both[a.len() + i] == b[i]);
    }
    if ignores(both, path) {
        let i = choose|i: int| 0 <= i < both.len() && #[trigger] ignored_by(both[i], path);
        if i < a.len() {
            assert(ignored_by(a[i], path));
        } else {
            assert(ignored_by(b[i - a.len()], path));
        }
    }
}

/// A pattern reaches a path in three ways, and in no other: it is found in
/// the path as a whole; it is found in a name on the way, wherever that
/// stands; or it is found in the text of the root, of a leading `.` or of a
/// `..`. What is no regular expression is searched for as it is written.
pub proof fn a_pattern_reaches_the_path_and_every_name(
    pattern: Seq<char>,
    path: Seq<char>,
    k: int,
    name: Seq<char>,
)
    ensures
        ignores(seq![pattern], path) <==> {
            ||| pattern_hits(pattern, path)
            ||| exists|m: int|
                0 <= m < spans(path).len() && pattern_hits(
                    pattern,
                    #[trigger] component_text(path, m),
                )
        },
        pattern_compiles(pattern) && pattern_matches(pattern, path) ==> ignores(
            seq![pattern],
            path,
        ),
        !pattern_compiles(pattern) && occurs(pattern, path) ==> ignores(seq![pattern], path),
        0 <= k < parts(path).len() && parts(path)[k] == Part::Normal(name) ==> {
            &&& component_text(path, k) == name
            &&& pattern_compiles(pattern) && pattern_matches(pattern, name) ==> ignores(
                seq![pattern],
                path,
            )
        },
{
    let one = seq![pattern];
    assert(one[0] == pattern);
    if 0 <= k < parts(path).len() && parts(path)[k] == Part::Normal(name) {
        crate::paths::span_facts(path, k);
        assert(parts(path)[k] == spans(path)[k].part);
        assert(component_text(path, k) == name);
        if pattern_compiles(pattern) && pattern_matches(pattern, name) {
            assert(pattern_hits(pattern, component_text(path, k)));
            assert(ignored_by(one[0], path));
        }
    }
    if ignored_by(pattern, path) {
        assert(ignored_by(one[0], path));
    }
}

/// A new configuration has these settings, and each section on its own has
/// the same.
pub proof fn a_new_configuration_has_these_settings(c: Config)
    requires
        is_default_config(c),
    ensures
        texts(c.ignore_patterns@) == default_ignores(),
        c.index.batch_size == 32,
        c.search.distance_threshold.bits == 0x3fa6_6666,
        c.search.max_k == MaxK(100),
        c.gui.preload_neighbors == 2,
        c.gui.default_sort == SortKey::Name,
        c.gui.default_sort_direction == SortDir::Asc,
        c.default_model is None,
{
}

/// A pattern that is a regular expression is searched for as one and as
/// nothing else; any other is searched for as it is written.
pub proof fn patterns_are_regular_expressions_or_plain(
    pattern: Seq<char>,
    before: Seq<char>,
    behind: Seq<char>,
    text: Seq<char>,
)
    ensures
        pattern_compiles(pattern) ==> (pattern_hits(pattern, text) <==> pattern_matches(
            pattern,
            text,
        )),
        !pattern_compiles(pattern) ==> pattern_hits(pattern, before + pattern + behind),
        !pattern_compiles(pattern) && text.len() < pattern.len() ==> !pattern_hits(pattern, text),
{
    a_text_occurs_between_others(pattern, before, behind, text);
}

} // verus!
