//! Indexing: which files are picked up, what becomes of each of them, and the
//! account that is given of it in the end.
//!
//! Indexing is fast: it walks a directory, hashes files and inserts
//! `(path, hash)` rows. Embeddings and thumbnails are left to processing.

use vstd::prelude::*;
use vstd::string::*;
use crate::config::{compiled_from, ignores, Config};
use crate::decode::{
    every_listed_format_is_supported, is_supported_extension, listed_formats_have_no_dot,
    supported_extension, RAW_EXTENSIONS, STILL_EXTENSIONS,
};
use crate::path_model::{is_name, joined_path, parts, path_after, within};
use crate::paths::{
    abs_to_relative_path, extension, extension_of, extensions_stand_behind_the_last_dot,
    stored_path_resolves_back,
};
use crate::text::{ascii_lower, ascii_lowered, decimal, push_decimal, texts};

verus! {

/// What a directory entry is.
#[derive(Debug, Clone, Copy, PartialEq, Eq, Structural)]
pub enum EntryKind {
    Directory,
    File,
    Other,
}

/// What the walk does about an entry.
#[derive(Debug, Clone, Copy, PartialEq, Eq, Structural)]
pub enum ScanDecision {
    /// Leave it out, and all that is in it.
    SkipTree,
    /// Leave it out.
    Skip,
    /// It is an image to index.
    Keep,
}

/// Whether a path has the extension of a supported image format.
pub open spec fn supported_path(path: Seq<char>) -> bool {
    extension_of(path) matches Some(e) && supported_extension(e)
}

/// What becomes of an entry: ignored paths are left out, with everything in
/// them; of the rest, the files with a supported extension are kept.
pub open spec fn scan_rule(ignored: bool, path: Seq<char>, kind: EntryKind) -> ScanDecision {
    if ignored {
        if kind == EntryKind::Directory {
            ScanDecision::SkipTree
        } else {
            ScanDecision::Skip
        }
    } else if kind == EntryKind::File && supported_path(path) {
        ScanDecision::Keep
    } else {
        ScanDecision::Skip
    }
}

/// Applies the rule to an entry of which it is known whether it is ignored.
pub fn scan_decision(ignored: bool, path: &str, kind: EntryKind) -> (r: ScanDecision)
    ensures
        r == scan_rule(ignored, path@, kind),
{
    if ignored {
        if kind == EntryKind::Directory {
            ScanDecision::SkipTree
        } else {
            ScanDecision::Skip
        }
    } else if kind != EntryKind::File {
        ScanDecision::Skip
    } else {
        match extension(path) {
            Some(e) => {
                if is_supported_extension(e.as_str()) {
                    ScanDecision::Keep
                } else {
                    ScanDecision::Skip
                }
            },
            None => ScanDecision::Skip,
        }
    }
}

/// Decides about an entry of a walk, with the configuration's ignore patterns
/// and their compiled forms.
pub fn scan_entry(
    config: &Config,
    compiled: &Vec<Option<regex::Regex>>,
    path: &str,
    kind: EntryKind,
) -> (r: ScanDecision)
    requires
        compiled_from(compiled@, texts(config.ignore_patterns@)),
    ensures
        r == scan_rule(ignores(texts(config.ignore_patterns@), path@), path@, kind),
{
    scan_decision(config.ignores_path(compiled, path), path, kind)
}

/// Why a directory cannot be indexed.
#[derive(Debug, Clone, Copy, PartialEq, Eq, Structural)]
pub enum TargetError {
    Missing,
    NotADirectory,
}

/// Whether there is a directory to index.
pub fn check_target(exists: bool, is_dir: bool) -> (r: Result<(), TargetError>)
    ensures
        exists && is_dir ==> r is Ok,
        !exists ==> (r matches Err(e) && e == TargetError::Missing),
        exists && !is_dir ==> (r matches Err(e) && e == TargetError::NotADirectory),
{
    if !exists {
        Err(TargetError::Missing)
    } else if !is_dir {
        Err(TargetError::NotADirectory)
    } else {
        Ok(())
    }
}

/// The first line that is printed, unless the run is quiet.
pub fn index_opening(dir: &str) -> (r: String)
    ensures
        r@ == "Indexing directory: "@ + dir@,
{
    "Indexing directory: ".to_owned().concat(dir)
}

/// What is printed once the configuration is loaded, unless the run is quiet.
pub fn config_loaded(ignore_patterns: usize) -> (r: String)
    ensures
        r@ == "Loaded configuration with "@ + decimal(ignore_patterns as nat)
            + " ignore patterns"@,
{
    numbered("Loaded configuration with ", ignore_patterns).concat(" ignore patterns")
}

/// What is printed before the walk, unless the run is quiet.
pub const SCANNING: &'static str = "Scanning for image files...";

/// What is printed after the walk, unless the run is quiet. Where nothing was
/// found the run ends there.
pub fn scan_closing(found: usize) -> (r: Vec<String>)
    ensures
        texts(r@) == if found == 0 {
            seq!["No image files found in the specified directory."@]
        } else {
            seq![
                "Found "@ + decimal(found as nat) + " image files"@,
                "Processing images..."@,
            ]
        },
{
    let lines: Vec<String> = if found == 0 {
        vec!["No image files found in the specified directory.".to_owned()]
    } else {
        vec![
            numbered("Found ", found).concat(" image files"),
            "Processing images...".to_owned(),
        ]
    };
    proof {
        let want = if found == 0 {
            seq!["No image files found in the specified directory."@]
        } else {
            seq![
                "Found "@ + decimal(found as nat) + " image files"@,
                "Processing images..."@,
            ]
        };
        assert(texts(lines@) == want);
    }
    lines
}

/// The number of chunks of `b` that `n` items make.
pub open spec fn chunk_count(n: nat, b: nat) -> nat {
    if b == 0 {
        0
    } else {
        ((n + b - 1) / b as int) as nat
    }
}

/// Chunk number `k` of a list in chunks of `b`: `b` items, or what is left.
pub open spec fn chunk<T>(items: Seq<T>, b: int, k: int) -> Seq<T> {
    items.subrange(
        k * b,
        if (k + 1) * b < items.len() {
            (k + 1) * b
        } else {
            items.len() as int
        },
    )
}

/// A batch size, at least 1.
pub open spec fn at_least_one(batch_size: usize) -> int {
    if batch_size == 0 {
        1
    } else {
        batch_size as int
    }
}

/// Slices of `items` of at most `batch_size` (clamped to >= 1).
pub fn chunk_pending<T>(items: &[T], batch_size: usize) -> (r: Vec<&[T]>)
    ensures
        r@.len() == chunk_count(items@.len(), at_least_one(batch_size) as nat),
        forall|k: int|
            0 <= k < r@.len() ==> (#[trigger] r@[k])@ == chunk(
                items@,
                at_least_one(batch_size),
                k,
            ),
{
    let b: usize = if batch_size == 0 { 1 } else { batch_size };
    let mut out: Vec<&[T]> = Vec::new();
    let mut start: usize = 0;
    assert(0 * b == 0);
    proof {
        if items@.len() == 0 {
            assert((b - 1) / b as int == 0) by (nonlinear_arith)
                requires
                    b >= 1,
            ;
        }
    }
    while start < items.len()
        invariant
            b >= 1,
            b == at_least_one(batch_size),
            start <= items@.len(),
            start < items@.len() ==> start == out@.len() * b,
            start == items@.len() ==> out@.len() == chunk_count(items@.len(), b as nat),
            out@.len() <= items@.len(),
            out@.len() <= start,
            forall|k: int|
                0 <= k < out@.len() ==> (#[trigger] out@[k])@ == chunk(items@, b as int, k),
        decreases items@.len() - start,
    {
        let ghost k = out@.len() as int;
        let end: usize = if items.len() - start <= b { items.len() } else { start + b };
        proof {
            assert((k + 1) * b == k * b + b) by (nonlinear_arith);
            if end == items.len() {
                chunk_count_is(items@.len(), b as nat, (k + 1) as nat);
            }
        }
        out.push(vstd::slice::slice_subrange(items, start, end));
        start = end;
    }
    out
}

proof fn chunk_count_is(n: nat, b: nat, c: nat)
    requires
        b >= 1,
        c >= 1,
        (c - 1) * b < n <= c * b,
    ensures
        chunk_count(n, b) == c,
{
    let q = (n + b - 1) / b as int;
    assert(q == c) by (nonlinear_arith)
        requires
            q == (n + b - 1) / b as int,
            b >= 1,
            c >= 1,
            (c - 1) * b < n <= c * b,
    ;
}

/// The first `n` chunks, put together again.
pub open spec fn rejoined<T>(items: Seq<T>, b: int, n: nat) -> Seq<T>
    decreases n,
{
    if n == 0 {
        Seq::empty()
    } else {
        rejoined(items, b, (n - 1) as nat) + chunk(items, b, n - 1)
    }
}

/// Cutting a list into chunks loses and moves nothing: put together again,
/// the chunks are the list.
pub proof fn chunks_make_up_the_list<T>(items: Seq<T>, b: nat)
    requires
        b >= 1,
    ensures
        rejoined(items, b as int, chunk_count(items.len(), b)) == items,
{
    let n = chunk_count(items.len(), b);
    let len = items.len() as int;
    assert(n * b >= len && (n >= 1 ==> (n - 1) * b < len) && (len == 0 ==> n == 0))
        by (nonlinear_arith)
        requires
            n == (len + b - 1) / b as int,
            b >= 1,
            len >= 0,
    ;
    chunks_so_far(items, b as int, n);
    assert(items.take(len) == items);
}

proof fn chunks_so_far<T>(items: Seq<T>, b: int, n: nat)
    requires
        b >= 1,
        n >= 1 ==> (n - 1) * b < items.len(),
    ensures
        rejoined(items, b, n) == items.take(
            if n * b < items.len() {
                n * b
            } else {
                items.len() as int
            },
        ),
    decreases n,
{
    if n == 0 {
        assert(0 * b == 0) by (nonlinear_arith);
        assert(items.take(0) == Seq::<T>::empty());
    } else {
        let m: int = n - 1;
        assert(n * b == m * b + b) by (nonlinear_arith)
            requires
                n == m + 1,
        ;
        if m >= 1 {
            assert((m - 1) * b <= m * b) by (nonlinear_arith)
                requires
                    b >= 1,
                    m >= 1,
            ;
        }
        assert(m * b >= 0) by (nonlinear_arith)
            requires
                m >= 0,
                b >= 1,
        ;
        chunks_so_far(items, b, m as nat);
        let e: int = if n * b < items.len() {
            n * b
        } else {
            items.len() as int
        };
        assert(chunk(items, b, m) == items.subrange(m * b, e));
        assert(items.take(m * b) + items.subrange(m * b, e) == items.take(e));
    }
}

/// A file to be inserted: its absolute path and its hash.
#[derive(Debug, Clone)]
pub struct PendingFile {
    pub abs_path: String,
    pub hash: String,
}

/// A row to insert: stored path and hash.
#[derive(Debug, Clone)]
pub struct IndexRow {
    pub rel_path: String,
    pub hash: String,
}

/// The row of a file, where the file is within the library.
pub open spec fn row_of(file: PendingFile, parent_dir: Seq<char>) -> Option<
    (Seq<char>, Seq<char>),
> {
    if within(file.abs_path@, parent_dir) {
        Some((path_after(file.abs_path@, parts(parent_dir).len() as int), file.hash@))
    } else {
        None
    }
}

/// The rows of some files, in order; files outside the library have none.
pub open spec fn rows_of(files: Seq<PendingFile>, parent_dir: Seq<char>) -> Seq<
    (Seq<char>, Seq<char>),
>
    decreases files.len(),
{
    if files.len() == 0 {
        Seq::empty()
    } else {
        let before = rows_of(files.drop_last(), parent_dir);
        match row_of(files.last(), parent_dir) {
            Some(row) => before.push(row),
            None => before,
        }
    }
}

/// Rows as plain data.
pub open spec fn row_texts(rows: Seq<IndexRow>) -> Seq<(Seq<char>, Seq<char>)> {
    rows.map_values(|r: IndexRow| (r.rel_path@, r.hash@))
}

/// The rows of a chunk of files. A file that is not within the library has
/// none; how many those are is what the chunk is short by.
pub fn chunk_rows(files: &[PendingFile], parent_dir: &str) -> (r: Vec<IndexRow>)
    ensures
        row_texts(r@) == rows_of(files@, parent_dir@),
        r@.len() <= files@.len(),
{
    let mut out: Vec<IndexRow> = Vec::new();
    let mut i: usize = 0;
    assert(files@.take(0) == Seq::<PendingFile>::empty());
    assert(row_texts(out@) == rows_of(files@.take(0), parent_dir@));
    while i < files.len()
        invariant
            i <= files@.len(),
            out@.len() <= i,
            row_texts(out@) == rows_of(files@.take(i as int), parent_dir@),
        decreases files@.len() - i,
    {
        proof {
            assert(files@.take(i + 1).drop_last() == files@.take(i as int));
            assert(files@.take(i + 1).last() == files@[i as int]);
        }
        if let Ok(rel) = abs_to_relative_path(files[i].abs_path.as_str(), parent_dir) {
            let ghost before = out@;
            let ghost text = rel@;
            out.push(IndexRow { rel_path: rel, hash: files[i].hash.clone() });
            assert(row_texts(out@) == row_texts(before).push((text, files@[i as int].hash@)));
        }
        i = i + 1;
    }
    assert(files@.take(i as int) == files@);
    out
}

/// What to do about a file once its hash has been tried.
#[derive(Debug, Clone, Copy, PartialEq, Eq, Structural)]
pub enum FileStep {
    /// It could not be hashed: it has failed.
    Failed,
    /// Look up whether it is indexed with this hash already.
    LookUp,
    /// It is already indexed: it is skipped.
    Skipped,
    /// It is to be inserted.
    Pending,
}

/// An index run: how many files were found, and where they stand.
#[derive(Debug, Clone, Copy, PartialEq, Eq, Structural)]
pub struct IndexRun {
    pub found: usize,
    /// Not looked at yet.
    pub unseen: usize,
    /// To be inserted.
    pub pending: usize,
    pub indexed: usize,
    pub skipped: usize,
    pub failed: usize,
}

/// A run after the next file was hashed or not, and what to do about the
/// file.
pub open spec fn hashed(run: IndexRun, ok: bool, reindex: bool) -> (IndexRun, FileStep) {
    if !ok {
        (
            IndexRun {
                unseen: (run.unseen - 1) as usize,
                failed: (run.failed + 1) as usize,
                ..run
            },
            FileStep::Failed,
        )
    } else if reindex {
        (
            IndexRun {
                unseen: (run.unseen - 1) as usize,
                pending: (run.pending + 1) as usize,
                ..run
            },
            FileStep::Pending,
        )
    } else {
        (run, FileStep::LookUp)
    }
}

/// A run after the next file was looked up, and what to do about the file.
pub open spec fn looked_up(run: IndexRun, known: bool) -> (IndexRun, FileStep) {
    if known {
        (
            IndexRun {
                unseen: (run.unseen - 1) as usize,
                skipped: (run.skipped + 1) as usize,
                ..run
            },
            FileStep::Skipped,
        )
    } else {
        (
            IndexRun {
                unseen: (run.unseen - 1) as usize,
                pending: (run.pending + 1) as usize,
                ..run
            },
            FileStep::Pending,
        )
    }
}

/// A run after a chunk of `files` files with `rows` rows was inserted or not.
pub open spec fn chunk_written(run: IndexRun, files: usize, rows: usize, ok: bool) -> IndexRun {
    if ok {
        IndexRun {
            pending: (run.pending - files) as usize,
            indexed: (run.indexed + rows) as usize,
            failed: (run.failed + (files - rows)) as usize,
            ..run
        }
    } else {
        IndexRun {
            pending: (run.pending - files) as usize,
            failed: (run.failed + files) as usize,
            ..run
        }
    }
}

impl IndexRun {
    /// Every file that was found stands somewhere, and only there.
    pub open spec fn wf(self) -> bool {
        self.unseen + self.pending + self.indexed + self.skipped + self.failed == self.found
    }

    /// A run over the files that the walk has kept.
    pub fn new(found: usize) -> (r: Self)
        ensures
            r.wf(),
            r == (IndexRun {
                found,
                unseen: found,
                pending: 0,
                indexed: 0,
                skipped: 0,
                failed: 0,
            }),
    {
        IndexRun { found, unseen: found, pending: 0, indexed: 0, skipped: 0, failed: 0 }
    }

    /// Takes in whether the next file could be hashed. `--reindex` inserts it
    /// even where it is indexed already.
    pub fn after_hash(&mut self, hashed: bool, reindex: bool) -> (step: FileStep)
        requires
            old(self).wf(),
            old(self).unseen > 0,
        ensures
            (*final(self), step) == self::hashed(*old(self), hashed, reindex),
            final(self).wf(),
            step == if !hashed {
                FileStep::Failed
            } else if reindex {
                FileStep::Pending
            } else {
                FileStep::LookUp
            },
            *final(self) == match step {
                FileStep::Failed => IndexRun {
                    unseen: (old(self).unseen - 1) as usize,
                    failed: (old(self).failed + 1) as usize,
                    ..*old(self)
                },
                FileStep::Pending => IndexRun {
                    unseen: (old(self).unseen - 1) as usize,
                    pending: (old(self).pending + 1) as usize,
                    ..*old(self)
                },
                _ => *old(self),
            },
    {
        if !hashed {
            self.unseen = self.unseen - 1;
            self.failed = self.failed + 1;
            FileStep::Failed
        } else if reindex {
            self.unseen = self.unseen - 1;
            self.pending = self.pending + 1;
            FileStep::Pending
        } else {
            FileStep::LookUp
        }
    }

    /// Takes in whether the file is indexed with this hash already.
    pub fn after_lookup(&mut self, known: bool) -> (step: FileStep)
        requires
            old(self).wf(),
            old(self).unseen > 0,
        ensures
            (*final(self), step) == looked_up(*old(self), known),
            final(self).wf(),
            step == if known {
                FileStep::Skipped
            } else {
                FileStep::Pending
            },
            *final(self) == if known {
                IndexRun {
                    unseen: (old(self).unseen - 1) as usize,
                    skipped: (old(self).skipped + 1) as usize,
                    ..*old(self)
                }
            } else {
                IndexRun {
                    unseen: (old(self).unseen - 1) as usize,
                    pending: (old(self).pending + 1) as usize,
                    ..*old(self)
                }
            },
    {
        self.unseen = self.unseen - 1;
        if known {
            self.skipped = self.skipped + 1;
            FileStep::Skipped
        } else {
            self.pending = self.pending + 1;
            FileStep::Pending
        }
    }

    /// Takes in a chunk of `files` pending files of which `rows` have a row,
    /// and whether those rows could be inserted. A failed insert drops the
    /// whole chunk.
    pub fn after_chunk(&mut self, files: usize, rows: usize, inserted: bool)
        requires
            old(self).wf(),
            rows <= files <= old(self).pending,
        ensures
            *final(self) == chunk_written(*old(self), files, rows, inserted),
            final(self).wf(),
            *final(self) == if inserted {
                IndexRun {
                    pending: (old(self).pending - files) as usize,
                    indexed: (old(self).indexed + rows) as usize,
                    failed: (old(self).failed + (files - rows)) as usize,
                    ..*old(self)
                }
            } else {
                IndexRun {
                    pending: (old(self).pending - files) as usize,
                    failed: (old(self).failed + files) as usize,
                    ..*old(self)
                }
            },
    {
        self.pending = self.pending - files;
        if inserted {
            self.indexed = self.indexed + rows;
            self.failed = self.failed + (files - rows);
        } else {
            self.failed = self.failed + files;
        }
    }

    /// The lines of the summary.
    pub open spec fn summary_lines(self) -> Seq<Seq<char>> {
        seq![
            "\nIndexing Summary:"@,
            "  \u{1f4c1} Total files found: "@ + decimal(self.found as nat),
            "  \u{2705} Newly indexed: "@ + decimal(self.indexed as nat),
            "  \u{23ed}\u{fe0f}  Already indexed (skipped): "@ + decimal(self.skipped as nat),
        ] + (if self.failed > 0 {
            seq!["  \u{274c} Failed: "@ + decimal(self.failed as nat)]
        } else {
            Seq::empty()
        }) + seq![""@]
    }

    /// The summary that is printed at the end, unless the run is quiet.
    pub fn summary(&self) -> (r: Vec<String>)
        ensures
            texts(r@) == self.summary_lines(),
    {
        let mut lines: Vec<String> = Vec::new();
        lines.push("\nIndexing Summary:".to_owned());
        lines.push(numbered("  \u{1f4c1} Total files found: ", self.found));
        lines.push(numbered("  \u{2705} Newly indexed: ", self.indexed));
        lines.push(numbered("  \u{23ed}\u{fe0f}  Already indexed (skipped): ", self.skipped));
        if self.failed > 0 {
            lines.push(numbered("  \u{274c} Failed: ", self.failed));
        }
        lines.push("".to_owned());
        assert(texts(lines@) == self.summary_lines());
        lines
    }
}

fn numbered(label: &str, n: usize) -> (r: String)
    ensures
        r@ == label@ + decimal(n as nat),
{
    let mut out: String = label.to_owned();
    push_decimal(&mut out, n as u64);
    out
}

/// When no file is left to be looked at or inserted, the summary accounts for
/// every file that was found.
pub proof fn every_file_is_accounted_for(run: IndexRun)
    requires
        run.wf(),
        run.unseen == 0,
        run.pending == 0,
    ensures
        run.indexed + run.skipped + run.failed == run.found,
{
}

/// Nothing that is kept of a walk is ignored, a directory, or of an
/// unsupported kind; and an ignored directory is never entered.
pub proof fn only_wanted_images_are_kept(ignored: bool, path: Seq<char>, kind: EntryKind)
    ensures
        scan_rule(ignored, path, kind) == ScanDecision::Keep <==> !ignored && kind
            == EntryKind::File && supported_path(path),
        ignored && kind == EntryKind::Directory <==> scan_rule(ignored, path, kind)
            == ScanDecision::SkipTree,
{
}

/// Every wanted image is kept: a file that is not ignored, in whatever
/// directory, whose name ends in a dot and one of the still or RAW formats,
/// in small letters or capitals.
pub proof fn every_wanted_image_is_kept(dir: Seq<char>, stem: Seq<char>, ext: Seq<char>, i: int)
    requires
        stem.len() > 0,
        is_name(stem.push('.') + ext),
        ({
            ||| 0 <= i < STILL_EXTENSIONS@.len() && ascii_lowered(ext) == STILL_EXTENSIONS@[i]@
            ||| 0 <= i < RAW_EXTENSIONS@.len() && ascii_lowered(ext) == RAW_EXTENSIONS@[i]@
        }),
    ensures
        scan_rule(false, joined_path(dir, stem.push('.') + ext), EntryKind::File)
            == ScanDecision::Keep,
{
    every_listed_format_is_supported(ext);
    listed_formats_have_no_dot();
    let low = ascii_lowered(ext);
    assert forall|k: int| 0 <= k < ext.len() implies ext[k] != '.' by {
        assert(low[k] == ascii_lower(ext[k]));
    }
    extensions_stand_behind_the_last_dot(dir, stem, ext);
}

/// What is not an image is not kept: a file without an extension, or with
/// one that is none of the formats.
pub proof fn other_files_are_left_out(dir: Seq<char>, stem: Seq<char>, ext: Seq<char>, ignored: bool)
    requires
        stem.len() > 0,
        is_name(stem.push('.') + ext),
        forall|k: int| 0 <= k < ext.len() ==> ext[k] != '.',
        forall|i: int|
            0 <= i < STILL_EXTENSIONS@.len() ==> (#[trigger] STILL_EXTENSIONS@[i])@
                != ascii_lowered(ext),
        forall|i: int|
            0 <= i < RAW_EXTENSIONS@.len() ==> (#[trigger] RAW_EXTENSIONS@[i])@ != ascii_lowered(
                ext,
            ),
    ensures
        scan_rule(ignored, joined_path(dir, stem.push('.') + ext), EntryKind::File)
            == ScanDecision::Skip,
{
    every_listed_format_is_supported(ext);
    extensions_stand_behind_the_last_dot(dir, stem, ext);
}

/// Whether `rows` are the rows of the files at `places`, in order: each has
/// the hash of its file, and its path leads from the library's directory
/// back to that file.
pub open spec fn rows_lead_back(
    rows: Seq<(Seq<char>, Seq<char>)>,
    places: Seq<int>,
    files: Seq<PendingFile>,
    parent_dir: Seq<char>,
) -> bool {
    &&& places.len() == rows.len()
    &&& forall|i: int, j: int| 0 <= i < j < places.len() ==> places[i] < places[j]
    &&& forall|j: int|
        0 <= j < places.len() ==> {
            &&& 0 <= #[trigger] places[j] < files.len()
            &&& rows[j].1 == files[places[j]].hash@
            &&& parts(joined_path(parent_dir, rows[j].0)) == parts(files[places[j]].abs_path@)
        }
}

proof fn rows_places(files: Seq<PendingFile>, parent_dir: Seq<char>) -> (places: Seq<int>)
    ensures
        rows_lead_back(rows_of(files, parent_dir), places, files, parent_dir),
        forall|k: int|
            0 <= k < files.len() ==> (places.contains(k) <==> within(
                (#[trigger] files[k]).abs_path@,
                parent_dir,
            )),
    decreases files.len(),
{
    if files.len() == 0 {
        Seq::empty()
    } else {
        let front = files.drop_last();
        let last = files.len() - 1;
        let before = rows_places(front, parent_dir);
        let rows = rows_of(files, parent_dir);
        let keeps = within(files.last().abs_path@, parent_dir);
        let places = if keeps {
            before.push(last)
        } else {
            before
        };
        if keeps {
            stored_path_resolves_back(files.last().abs_path@, parent_dir);
        }
        assert forall|j: int| 0 <= j < places.len() implies 0 <= #[trigger] places[j] < files.len()
            && rows[j].1 == files[places[j]].hash@ && parts(joined_path(parent_dir, rows[j].0))
            == parts(files[places[j]].abs_path@) by {
            if j < before.len() {
                assert(places[j] == before[j]);
                assert(front[before[j]] == files[before[j]]);
                assert(rows[j] == rows_of(front, parent_dir)[j]);
            }
        }
        assert forall|k: int| 0 <= k < files.len() implies (places.contains(k) <==> within(
            (#[trigger] files[k]).abs_path@,
            parent_dir,
        )) by {
            if k < last {
                assert(front[k] == files[k]);
                if places.contains(k) {
                    let j = choose|j: int| 0 <= j < places.len() && places[j] == k;
                    assert(before[j] == k);
                }
                if before.contains(k) {
                    let j = choose|j: int| 0 <= j < before.len() && before[j] == k;
                    assert(places[j] == k);
                }
            } else {
                if keeps {
                    assert(places[before.len() as int] == k);
                }
                if places.contains(k) && !keeps {
                    let j = choose|j: int| 0 <= j < places.len() && places[j] == k;
                    assert(before[j] < front.len());
                }
            }
        }
        places
    }
}

/// The rows to insert are those of the files within the library: every such
/// file has one row, in the order of the files, with the file's hash and a
/// path that leads from the library's directory back to it; a file outside
/// has none.
pub proof fn every_file_within_gets_its_row(files: Seq<PendingFile>, parent_dir: Seq<char>)
    ensures
        exists|places: Seq<int>|
            {
                &&& #[trigger] rows_lead_back(
                    rows_of(files, parent_dir),
                    places,
                    files,
                    parent_dir,
                )
                &&& forall|k: int|
                    0 <= k < files.len() ==> (places.contains(k) <==> within(
                        (#[trigger] files[k]).abs_path@,
                        parent_dir,
                    ))
            },
{
    let places = rows_places(files, parent_dir);
}

/// A metadata backfill: how many images lacked metadata, and how it went.
#[derive(Debug, Clone, Copy, PartialEq, Eq, Structural)]
pub struct BackfillRun {
    pub found: usize,
    pub extracted: usize,
    pub failed: usize,
}

impl BackfillRun {
    /// No more images are done than were found.
    pub open spec fn wf(self) -> bool {
        self.extracted + self.failed <= self.found
    }

    pub fn new(found: usize) -> (r: Self)
        ensures
            r.wf(),
            r == (BackfillRun { found, extracted: 0, failed: 0 }),
    {
        BackfillRun { found, extracted: 0, failed: 0 }
    }

    /// Takes in how one image went: its metadata counts only where it was both
    /// extracted and stored.
    pub fn on_image(&mut self, extracted: bool, stored: bool)
        requires
            old(self).wf(),
            old(self).extracted + old(self).failed < old(self).found,
        ensures
            final(self).wf(),
            *final(self) == if extracted && stored {
                BackfillRun { extracted: (old(self).extracted + 1) as usize, ..*old(self) }
            } else {
                BackfillRun { failed: (old(self).failed + 1) as usize, ..*old(self) }
            },
    {
        if extracted && stored {
            self.extracted = self.extracted + 1;
        } else {
            self.failed = self.failed + 1;
        }
    }

    /// What is printed before the first image: nothing where there is none,
    /// or where the run is quiet.
    pub fn opening(&self, quiet: bool) -> (r: Option<String>)
        ensures
            r is Some <==> !quiet && self.found > 0,
            r matches Some(line) ==> line@ == "Found "@ + decimal(self.found as nat)
                + " images missing metadata, extracting..."@,
    {
        if quiet || self.found == 0 {
            return None;
        }
        Some(numbered("Found ", self.found).concat(" images missing metadata, extracting..."))
    }

    /// What is printed after the last image.
    pub fn closing(&self, quiet: bool) -> (r: Vec<String>)
        ensures
            texts(r@) == if quiet || self.found == 0 {
                Seq::empty()
            } else {
                seq!["  \u{1f4ca} Metadata extracted: "@ + decimal(self.extracted as nat)] + if self.failed > 0 {
                    seq!["  \u{26a0}\u{fe0f}  Failed: "@ + decimal(self.failed as nat)]
                } else {
                    Seq::empty()
                }
            },
    {
        let mut lines: Vec<String> = Vec::new();
        if !quiet && self.found > 0 {
            lines.push(numbered("  \u{1f4ca} Metadata extracted: ", self.extracted));
            if self.failed > 0 {
                lines.push(numbered("  \u{26a0}\u{fe0f}  Failed: ", self.failed));
            }
        }
        proof {
            let want = if quiet || self.found == 0 {
                Seq::empty()
            } else {
                seq!["  \u{1f4ca} Metadata extracted: "@ + decimal(self.extracted as nat)] + if self.failed > 0 {
                    seq!["  \u{26a0}\u{fe0f}  Failed: "@ + decimal(self.failed as nat)]
                } else {
                    Seq::empty()
                }
            };
            assert(texts(lines@) == want);
        }
        lines
    }
}

/// The summary gives every number of a run: what was found, what is new, what
/// was there already, and what failed where anything did.
pub proof fn the_summary_gives_every_number(run: IndexRun)
    ensures
        run.summary_lines()[1] == "  \u{1f4c1} Total files found: "@ + decimal(run.found as nat),
        run.summary_lines()[2] == "  \u{2705} Newly indexed: "@ + decimal(run.indexed as nat),
        run.summary_lines()[3] == "  \u{23ed}\u{fe0f}  Already indexed (skipped): "@ + decimal(
            run.skipped as nat,
        ),
        run.failed > 0 ==> run.summary_lines().len() == 6 && run.summary_lines()[4]
            == "  \u{274c} Failed: "@ + decimal(run.failed as nat),
        run.failed == 0 ==> run.summary_lines().len() == 5,
{
}

/// Every chunk is full but the last one, and none is empty: chunk number `k`
/// begins `k` times the batch size into the list.
pub proof fn chunks_are_full_but_the_last<T>(items: Seq<T>, b: nat, k: int)
    requires
        b >= 1,
        0 <= k < chunk_count(items.len(), b),
    ensures
        1 <= chunk(items, b as int, k).len() <= b,
        k + 1 < chunk_count(items.len(), b) ==> chunk(items, b as int, k).len() == b,
        forall|i: int|
            0 <= i < chunk(items, b as int, k).len() ==> #[trigger] chunk(items, b as int, k)[i]
                == items[k * b + i],
{
    let n = chunk_count(items.len(), b) as int;
    let len = items.len() as int;
    assert(n * b < len + b && len >= 1) by (nonlinear_arith)
        requires
            n == (len + b - 1) / b as int,
            b >= 1,
            len >= 0,
            n >= 1,
    ;
    assert(k * b < len && (k + 1) * b == k * b + b && k * b >= 0 && (k + 1 < n ==> (k + 1) * b
        < len)) by (nonlinear_arith)
        requires
            0 <= k < n,
            n * b < len + b,
            b >= 1,
    ;
}

/// A batch size of zero counts as one.
pub proof fn batches_are_never_empty(batch_size: usize)
    ensures
        at_least_one(batch_size) >= 1,
        batch_size >= 1 ==> at_least_one(batch_size) == batch_size,
        batch_size == 0 ==> at_least_one(batch_size) == 1,
{
}

/// A file that cannot be hashed has failed. Any other is inserted where that
/// was asked for in any case, and else looked up first: one that is known is
/// skipped, one that is not is inserted. Nothing else changes.
pub proof fn known_files_are_skipped(run: IndexRun, reindex: bool)
    requires
        run.wf(),
        run.unseen > 0,
    ensures
        hashed(run, false, reindex).1 == FileStep::Failed,
        hashed(run, false, reindex).0.failed == run.failed + 1,
        hashed(run, false, reindex).0.pending == run.pending,
        hashed(run, true, true).1 == FileStep::Pending,
        hashed(run, true, true).0.pending == run.pending + 1,
        hashed(run, true, true).0.failed == run.failed,
        hashed(run, true, false) == (run, FileStep::LookUp),
        looked_up(run, true).1 == FileStep::Skipped,
        looked_up(run, true).0.skipped == run.skipped + 1,
        looked_up(run, true).0.pending == run.pending,
        looked_up(run, false).1 == FileStep::Pending,
        looked_up(run, false).0.skipped == run.skipped,
        looked_up(run, false).0.pending == run.pending + 1,
        forall|known: bool|
            {
                let next = (#[trigger] looked_up(run, known)).0;
                &&& next.wf()
                &&& next.found == run.found
                &&& next.unseen == run.unseen - 1
                &&& next.indexed == run.indexed
                &&& next.failed == run.failed
            },
{
}

/// Of a chunk that was inserted, the files with a row count as indexed and
/// the others as failed; of one that was not, all count as failed. Either way
/// none of them is pending any more.
pub proof fn chunks_are_indexed_or_failed(run: IndexRun, files: usize, rows: usize)
    requires
        run.wf(),
        rows <= files <= run.pending,
    ensures
        chunk_written(run, files, rows, true).indexed == run.indexed + rows,
        chunk_written(run, files, rows, true).failed == run.failed + (files - rows),
        chunk_written(run, files, rows, false).indexed == run.indexed,
        chunk_written(run, files, rows, false).failed == run.failed + files,
        forall|ok: bool|
            {
                let next = #[trigger] chunk_written(run, files, rows, ok);
                &&& next.wf()
                &&& next.pending == run.pending - files
                &&& next.found == run.found
                &&& next.unseen == run.unseen
                &&& next.skipped == run.skipped
            },
{
}

} // verus!
