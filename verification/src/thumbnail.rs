//! Thumbnails: which renditions there are, what is generated when, and how
//! finished ones are written in batches.

use vstd::prelude::*;
use vstd::string::*;
use crate::locate::{db_file, db_file_in};
use crate::path_model::{parts, path_after, within};
use crate::paths::{AbsolutePath, RelativePath};
use crate::picture::{
    can_scale_to, crop, encodable, fit, fitted_size, image_height, image_width, jpeg, jpeg_bytes, picture,
    picture_height, picture_width,
};
use crate::text::{decimal, push_decimal};
use crate::units::{ThumbnailSize, ThumbnailSpec};

verus! {

/// Long-edge target, in pixels, for the GUI lightbox/preview cached render.
pub const LIGHTBOX_SIZE: u32 = 2048;

/// Thumbnail sizes the GUI requests: grid (300 px), detail panel (512 px),
/// and lightbox/preview (2048 px). Pre-generating all three avoids decode
/// latency on first view at each size.
pub const GUI_THUMBNAIL_SIZES: [u32; 3] = [300, 512, LIGHTBOX_SIZE];

/// The size that is generated where none is asked for.
pub const DEFAULT_THUMBNAIL_SIZE: u32 = 300;

/// A thumbnail request that was refused.
#[derive(Debug, Clone, Copy, PartialEq, Eq, Structural)]
pub enum SizeError {
    /// A size of zero pixels.
    Zero,
}

/// The elements of a list without those that stand earlier in it already.
pub open spec fn first_occurrences(list: Seq<u32>) -> Seq<u32>
    decreases list.len(),
{
    if list.len() == 0 {
        Seq::empty()
    } else {
        let before = first_occurrences(list.drop_last());
        if before.contains(list.last()) {
            before
        } else {
            before.push(list.last())
        }
    }
}

/// The sizes that a request stands for, before duplicates are taken out.
pub open spec fn requested_sizes(sizes: Seq<u32>, gui_sizes: bool) -> Seq<u32> {
    if gui_sizes {
        GUI_THUMBNAIL_SIZES@
    } else if sizes.len() == 0 {
        seq![DEFAULT_THUMBNAIL_SIZE]
    } else {
        sizes
    }
}

/// Resolve the set of thumbnail sizes to generate.
///
/// - `gui_sizes`: the GUI's sizes (300, 512, 2048).
/// - `sizes` non-empty: the provided list.
/// - Both empty/false: `[300]`.
///
/// Duplicates are removed while preserving the first-occurrence order.
/// A size of 0 is refused, since there is no picture of that size.
pub fn resolve_thumbnail_sizes(sizes: &[u32], gui_sizes: bool) -> (r: Result<Vec<u32>, SizeError>)
    ensures
        sizes@.contains(0) ==> r == Err::<Vec<u32>, SizeError>(SizeError::Zero),
        !sizes@.contains(0) ==> r is Ok,
        r matches Ok(list) ==> list@ == first_occurrences(requested_sizes(sizes@, gui_sizes)),
{
    let mut i: usize = 0;
    while i < sizes.len()
        invariant
            i <= sizes@.len(),
            forall|k: int| 0 <= k < i ==> sizes@[k] != 0,
        decreases sizes@.len() - i,
    {
        if sizes[i] == 0 {
            assert(sizes@[i as int] == 0);
            return Err(SizeError::Zero);
        }
        i = i + 1;
    }
    let raw: Vec<u32> = if gui_sizes {
        vec![GUI_THUMBNAIL_SIZES[0], GUI_THUMBNAIL_SIZES[1], GUI_THUMBNAIL_SIZES[2]]
    } else if sizes.len() == 0 {
        vec![DEFAULT_THUMBNAIL_SIZE]
    } else {
        vstd::slice::slice_to_vec(sizes)
    };
    assert(raw@ == requested_sizes(sizes@, gui_sizes));
    let mut out: Vec<u32> = Vec::new();
    let mut j: usize = 0;
    assert(raw@.take(0) == Seq::<u32>::empty());
    while j < raw.len()
        invariant
            j <= raw@.len(),
            out@ == first_occurrences(raw@.take(j as int)),
        decreases raw@.len() - j,
    {
        proof {
            assert(raw@.take(j + 1).drop_last() == raw@.take(j as int));
            assert(raw@.take(j + 1).last() == raw@[j as int]);
        }
        let mut seen: bool = false;
        let mut k: usize = 0;
        while k < out.len()
            invariant
                k <= out@.len(),
                j < raw@.len(),
                seen <==> exists|m: int| 0 <= m < k && out@[m] == raw@[j as int],
            decreases out@.len() - k,
        {
            if out[k] == raw[j] {
                seen = true;
            }
            k = k + 1;
        }
        assert(seen <==> out@.contains(raw@[j as int]));
        if !seen {
            out.push(raw[j]);
        }
        j = j + 1;
    }
    assert(raw@.take(j as int) == raw@);
    Ok(out)
}

/// No size is generated twice, every size asked for is generated, and nothing
/// else is; sizes keep the order in which they were first asked for.
pub proof fn sizes_come_once_each(list: Seq<u32>)
    ensures
        first_occurrences(list).no_duplicates(),
        forall|s: u32| #[trigger] first_occurrences(list).contains(s) <==> list.contains(s),
        list.no_duplicates() ==> first_occurrences(list) == list,
    decreases list.len(),
{
    if list.len() > 0 {
        let front = list.drop_last();
        sizes_come_once_each(front);
        let before = first_occurrences(front);
        let now = first_occurrences(list);
        assert forall|s: u32| #[trigger] now.contains(s) <==> list.contains(s) by {
            if list.contains(s) {
                let k = choose|k: int| 0 <= k < list.len() && list[k] == s;
                if k < front.len() {
                    assert(front[k] == s);
                    assert(before.contains(s));
                    let m = choose|m: int| 0 <= m < before.len() && before[m] == s;
                    assert(now[m] == s);
                } else if before.contains(list.last()) {
                } else {
                    assert(now[now.len() - 1] == s);
                }
            }
            if now.contains(s) {
                let m = choose|m: int| 0 <= m < now.len() && now[m] == s;
                if m < before.len() {
                    assert(before[m] == s);
                    assert(before.contains(s));
                    let k = choose|k: int| 0 <= k < front.len() && front[k] == s;
                    assert(list[k] == s);
                } else {
                    assert(list[list.len() - 1] == s);
                }
            }
        }
        if list.no_duplicates() {
            assert(front.no_duplicates());
            if front.contains(list.last()) {
                let k = choose|k: int| 0 <= k < front.len() && front[k] == list.last();
                assert(list[k] == list[list.len() - 1]);
            }
            assert(front.push(list.last()) == list);
        }
    }
}

/// How a rendition is made.
#[derive(Debug, Clone, Copy, PartialEq, Eq, Structural)]
pub enum RenderPlan {
    /// Decode, then scale to fit a square of this many pixels.
    Scaled(ThumbnailSize),
    /// Decode at full resolution.
    Full,
    /// Decode in linear light, scale, then apply the edits.
    EditedScaled(ThumbnailSize),
    /// Decode in linear light, then apply the edits.
    EditedFull,
}

/// How a rendition is made.
pub open spec fn planned(spec: ThumbnailSpec, unedited: bool) -> RenderPlan {
    match (spec, unedited) {
        (ThumbnailSpec::ScaleSize(size), true) => RenderPlan::Scaled(size),
        (ThumbnailSpec::ScaleSize(size), false) => RenderPlan::EditedScaled(size),
        (ThumbnailSpec::FullSize, true) => RenderPlan::Full,
        (ThumbnailSpec::FullSize, false) => RenderPlan::EditedFull,
    }
}

/// A rendition is made in the size that was asked for, and edits are applied
/// exactly where there are any.
pub proof fn edits_are_applied_at_the_size_asked_for(spec: ThumbnailSpec, unedited: bool)
    ensures
        planned(spec, unedited) is Scaled || planned(spec, unedited) is Full <==> unedited,
        planned(spec, unedited) is Full || planned(spec, unedited) is EditedFull <==> spec
            == ThumbnailSpec::FullSize,
        planned(spec, unedited) matches RenderPlan::Scaled(size) ==> spec
            == ThumbnailSpec::ScaleSize(size),
        planned(spec, unedited) matches RenderPlan::EditedScaled(size) ==> spec
            == ThumbnailSpec::ScaleSize(size),
{
}

/// How to make a rendition: unedited images take the fast path, edited ones
/// the high-fidelity path in linear light.
pub fn render_plan(spec: ThumbnailSpec, unedited: bool) -> (r: RenderPlan)
    ensures
        r == planned(spec, unedited),
        r == match spec {
            ThumbnailSpec::ScaleSize(size) => if unedited {
                RenderPlan::Scaled(size)
            } else {
                RenderPlan::EditedScaled(size)
            },
            ThumbnailSpec::FullSize => if unedited {
                RenderPlan::Full
            } else {
                RenderPlan::EditedFull
            },
        },
{
    match spec {
        ThumbnailSpec::ScaleSize(size) => {
            if unedited {
                RenderPlan::Scaled(size)
            } else {
                RenderPlan::EditedScaled(size)
            }
        },
        ThumbnailSpec::FullSize => {
            if unedited {
                RenderPlan::Full
            } else {
                RenderPlan::EditedFull
            }
        },
    }
}

/// Why a rendition could not be encoded.
#[derive(Debug, Clone, Copy, PartialEq, Eq, Structural)]
pub enum EncodeError {
    /// A JPEG file holds 1 to 65535 pixels each way.
    InvalidSize,
}

/// Whether a picture has a scaled rendition that a JPEG file can hold. Sizes
/// above the format's limit have none; only a picture without any pixels,
/// which is scaled to a single one, fits whatever the size is, but it cannot
/// be scaled to none.
pub open spec fn can_scale(p: Seq<u8>, size: u32) -> bool {
    if picture_width(p) == 0 && picture_height(p) == 0 {
        size > 0
    } else {
        size <= 65535
    }
}

/// The side of the square that a picture is scaled to fit: the size that was
/// asked for, or one pixel where that is zero or beyond the format's limit.
pub open spec fn fitting_side(size: u32) -> u32 {
    if 1 <= size <= 65535 {
        size
    } else {
        1
    }
}

/// A scaled rendition of a decoded picture, as a JPEG file: the picture is
/// scaled to fit a square of `size` pixels, and left as it is where it is
/// such a square already. What is encoded is one of the pictures that scaling
/// this one can give; which one is left open, because the resampling filter is
/// made of sines, whose precision is not fixed.
pub fn scaled_jpeg(img: &image::DynamicImage, size: ThumbnailSize) -> (r: Result<
    Vec<u8>,
    EncodeError,
>)
    ensures
        can_scale(picture(*img), size.0) ==> r is Ok,
        !can_scale(picture(*img), size.0) ==> r == Err::<Vec<u8>, EncodeError>(
            EncodeError::InvalidSize,
        ),
        r matches Ok(bytes) ==> exists|p: Seq<u8>|
            {
                &&& #[trigger] jpeg_bytes(p) == bytes@
                &&& can_scale_to(picture(*img), fitting_side(size.0), fitting_side(size.0), p)
                &&& (picture_width(p), picture_height(p)) == fitted_size(
                    picture_width(picture(*img)),
                    picture_height(picture(*img)),
                    fitting_side(size.0),
                    fitting_side(size.0),
                )
                &&& 1 <= picture_width(p) <= fitting_side(size.0)
                &&& 1 <= picture_height(p) <= fitting_side(size.0)
                &&& picture_width(picture(*img)) == fitting_side(size.0) && picture_height(
                    picture(*img),
                ) == fitting_side(size.0) ==> p == picture(*img)
            },
{
    let px: u32 = size.get();
    let empty: bool = image_width(img) == 0 && image_height(img) == 0;
    if (empty && px == 0) || (!empty && px > 65535) {
        return Err(EncodeError::InvalidSize);
    }
    let side: u32 = if 1 <= px && px <= 65535 {
        px
    } else {
        1
    };
    let fitted: image::DynamicImage = fit(img, side, side);
    let r: Result<Vec<u8>, EncodeError> = full_jpeg(&fitted);
    assert(r matches Ok(bytes) ==> jpeg_bytes(picture(fitted)) == bytes@);
    r
}

/// The rendition of a decoded picture at its own size, as a JPEG file.
pub fn full_jpeg(img: &image::DynamicImage) -> (r: Result<Vec<u8>, EncodeError>)
    ensures
        encodable(picture(*img)) ==> r is Ok,
        !encodable(picture(*img)) ==> r == Err::<Vec<u8>, EncodeError>(EncodeError::InvalidSize),
        r matches Ok(bytes) ==> bytes@ == jpeg_bytes(picture(*img)),
{
    let whole: image::DynamicImage = crop(img, 0, 0, image_width(img), image_height(img));
    match jpeg(&whole) {
        Ok(bytes) => Ok(bytes),
        Err(_) => Err(EncodeError::InvalidSize),
    }
}

/// The stored path under which to look up an image's edits. An image outside
/// the library has none.
pub fn edits_key(abs_path: &AbsolutePath, parent_dir: &str) -> (r: Option<RelativePath>)
    ensures
        r is Some <==> within(abs_path.0@, parent_dir@),
        r matches Some(rel) ==> rel.0@ == path_after(abs_path.0@, parts(parent_dir@).len() as int),
{
    match abs_path.to_relative(parent_dir) {
        Ok(rel) => Some(rel),
        Err(_) => None,
    }
}

/// The database that finished thumbnails are written to: the one of the
/// library they were asked for, wherever the process runs.
pub fn writer_db_path(parent_dir: &str) -> (r: String)
    ensures
        r@ == db_file(parent_dir@),
{
    db_file_in(parent_dir)
}

/// A message from a thumbnail-generation worker to the single DB writer.
#[derive(Debug)]
pub enum ThumbMsg {
    /// Successfully generated JPEG bytes for `(hash, size)`.
    Generated { hash: String, size: u32, data: Vec<u8> },
    /// Generation failed for `(hash, size)`; record a permanent marker.
    Failed { hash: String, size: u32, error: String },
}

/// A generated thumbnail as plain data.
pub struct ThumbModel {
    pub hash: Seq<char>,
    pub size: u32,
    pub data: Seq<u8>,
}

/// A thumbnail that waits to be written: hash, size and JPEG bytes.
#[derive(Debug)]
pub struct Thumb {
    pub hash: String,
    pub size: u32,
    pub data: Vec<u8>,
}

impl View for Thumb {
    type V = ThumbModel;

    open spec fn view(&self) -> ThumbModel {
        ThumbModel { hash: self.hash@, size: self.size, data: self.data@ }
    }
}

/// Thumbnails as plain data.
pub open spec fn thumbs(list: Seq<Thumb>) -> Seq<ThumbModel> {
    list.map_values(|t: Thumb| t@)
}

/// The thumbnail that a message carries, if it carries one.
pub open spec fn carried(msg: ThumbMsg) -> Seq<ThumbModel> {
    match msg {
        ThumbMsg::Generated { hash, size, data } => seq![
            ThumbModel { hash: hash@, size, data: data@ },
        ],
        ThumbMsg::Failed { .. } => Seq::empty(),
    }
}

/// What the writer is to do about a message.
#[derive(Debug)]
pub enum WriterAction {
    /// Nothing yet.
    Wait,
    /// Write these thumbnails in one transaction, and report how it went.
    Flush(Vec<Thumb>),
    /// Record that generation failed for this image and size.
    RecordFailure { hash: String, size: u32, error: String },
}

/// Thumbnails are written in batches of this many.
pub const FLUSH_AT: usize = 40;

/// The single writer: thumbnails that wait, and how many were written.
#[derive(Debug)]
pub struct ThumbWriter {
    pub buffer: Vec<Thumb>,
    pub written: usize,
}

/// What an action takes out of the buffer.
pub open spec fn flushed(action: WriterAction) -> Seq<ThumbModel> {
    match action {
        WriterAction::Flush(batch) => thumbs(batch@),
        _ => Seq::empty(),
    }
}

/// What becomes of the buffer when a message carries `more`: what stays in it,
/// and what is handed out to be written.
pub open spec fn writer_step(buffer: Seq<ThumbModel>, more: Seq<ThumbModel>) -> (
    Seq<ThumbModel>,
    Seq<ThumbModel>,
) {
    let all = buffer + more;
    if all.len() >= FLUSH_AT {
        (Seq::empty(), all)
    } else {
        (all, Seq::empty())
    }
}

/// The buffer after a whole history of messages.
pub open spec fn buffer_after(history: Seq<Seq<ThumbModel>>) -> Seq<ThumbModel>
    decreases history.len(),
{
    if history.len() == 0 {
        Seq::empty()
    } else {
        writer_step(buffer_after(history.drop_last()), history.last()).0
    }
}

/// All that was handed out to be written in a history of messages, in order.
pub open spec fn handed_out(history: Seq<Seq<ThumbModel>>) -> Seq<ThumbModel>
    decreases history.len(),
{
    if history.len() == 0 {
        Seq::empty()
    } else {
        handed_out(history.drop_last()) + writer_step(
            buffer_after(history.drop_last()),
            history.last(),
        ).1
    }
}

/// All thumbnails of a history of messages, in order.
pub open spec fn all_carried(history: Seq<Seq<ThumbModel>>) -> Seq<ThumbModel>
    decreases history.len(),
{
    if history.len() == 0 {
        Seq::empty()
    } else {
        all_carried(history.drop_last()) + history.last()
    }
}

/// No generated thumbnail is lost or written twice: what was handed out,
/// followed by what still waits (the last batch), is exactly what the
/// messages carried, in order.
pub proof fn no_thumbnail_is_lost(history: Seq<Seq<ThumbModel>>)
    ensures
        handed_out(history) + buffer_after(history) == all_carried(history),
    decreases history.len(),
{
    if history.len() > 0 {
        no_thumbnail_is_lost(history.drop_last());
        let before = history.drop_last();
        assert(handed_out(before) + (buffer_after(before) + history.last()) == (handed_out(before)
            + buffer_after(before)) + history.last());
        assert(handed_out(history) + buffer_after(history) == all_carried(history));
    }
}

impl ThumbWriter {
    /// The buffer is below its limit.
    pub open spec fn wf(&self) -> bool {
        self.buffer@.len() < FLUSH_AT
    }

    pub fn new() -> (r: Self)
        ensures
            r.wf(),
            thumbs(r.buffer@) == Seq::<ThumbModel>::empty(),
            r.written == 0,
    {
        let w: ThumbWriter = ThumbWriter { buffer: Vec::new(), written: 0 };
        assert(thumbs(w.buffer@) == Seq::<ThumbModel>::empty());
        w
    }

    /// Takes in a message. Thumbnails are collected, and handed out together
    /// once there are [`FLUSH_AT`] of them; a failure is passed on at once.
    pub fn on_message(&mut self, msg: ThumbMsg) -> (action: WriterAction)
        requires
            old(self).wf(),
        ensures
            final(self).wf(),
            final(self).written == old(self).written,
            (thumbs(final(self).buffer@), flushed(action)) == writer_step(
                thumbs(old(self).buffer@),
                carried(msg),
            ),
            match msg {
                ThumbMsg::Failed { hash, size, error } => action == (WriterAction::RecordFailure {
                    hash,
                    size,
                    error,
                }),
                ThumbMsg::Generated { .. } => match action {
                    WriterAction::Wait => old(self).buffer@.len() + 1 < FLUSH_AT,
                    WriterAction::Flush(batch) => batch@.len() == FLUSH_AT,
                    WriterAction::RecordFailure { .. } => false,
                },
            },
    {
        match msg {
            ThumbMsg::Generated { hash, size, data } => {
                let ghost before = self.buffer@;
                let thumb: Thumb = Thumb { hash, size, data };
                self.buffer.push(thumb);
                assert(thumbs(self.buffer@) == thumbs(before) + seq![thumb@]);
                if self.buffer.len() >= FLUSH_AT {
                    let batch: Vec<Thumb> = self.take_buffer();
                    assert(thumbs(self.buffer@) == Seq::<ThumbModel>::empty());
                    WriterAction::Flush(batch)
                } else {
                    WriterAction::Wait
                }
            },
            ThumbMsg::Failed { hash, size, error } => {
                assert(thumbs(self.buffer@) + Seq::<ThumbModel>::empty() == thumbs(self.buffer@));
                WriterAction::RecordFailure { hash, size, error }
            },
        }
    }

    fn take_buffer(&mut self) -> (batch: Vec<Thumb>)
        ensures
            batch@ == old(self).buffer@,
            final(self).buffer@ == Seq::<Thumb>::empty(),
            final(self).written == old(self).written,
    {
        let mut batch: Vec<Thumb> = Vec::new();
        core::mem::swap(&mut self.buffer, &mut batch);
        batch
    }

    /// The last batch, once all messages are in; nothing where none is left.
    pub fn finish(&mut self) -> (batch: Option<Vec<Thumb>>)
        requires
            old(self).wf(),
        ensures
            final(self).buffer@ == Seq::<Thumb>::empty(),
            final(self).written == old(self).written,
            batch is None <==> old(self).buffer@.len() == 0,
            batch matches Some(b) ==> b@ == old(self).buffer@,
    {
        let batch: Vec<Thumb> = self.take_buffer();
        if batch.len() == 0 {
            None
        } else {
            Some(batch)
        }
    }

    /// Takes in how a batch of `n` thumbnails went: only what was committed
    /// counts as written.
    pub fn on_flushed(&mut self, n: usize, committed: bool)
        requires
            old(self).written + n <= usize::MAX,
        ensures
            final(self).buffer == old(self).buffer,
            final(self).written == old(self).written + if committed {
                n as int
            } else {
                0
            },
    {
        if committed {
            self.written = self.written + n;
        }
    }
}

/// The error of a writer that panicked, with the panic's text where it had one.
pub fn writer_join_result(panicked: Option<Option<String>>) -> (r: Result<(), String>)
    ensures
        panicked is None ==> r is Ok,
        panicked matches Some(payload) ==> (r matches Err(e) && e@
            == "thumbnail writer thread panicked: "@ + match payload {
            Some(msg) => msg@,
            None => "writer thread panicked"@,
        }),
{
    match panicked {
        None => Ok(()),
        Some(payload) => {
            let msg: String = match payload {
                Some(m) => m,
                None => "writer thread panicked".to_owned(),
            };
            Err("thumbnail writer thread panicked: ".to_owned().concat(msg.as_str()))
        },
    }
}

/// A thumbnail request between two steps.
#[derive(Debug, Clone, Copy, PartialEq, Eq, Structural)]
pub enum FetchStep {
    /// Look in the cache.
    Lookup,
    /// Generate the rendition.
    Generate,
    /// Record that generating failed; then give up.
    RecordFailure(ThumbnailSize),
    /// Store what was generated, then read it back.
    Store,
    /// Read back what was stored.
    ReadBack,
    /// Return what was found in the cache.
    Found,
    /// Give up.
    Fail,
}

/// The step after a thumbnail request's step that worked or did not.
pub open spec fn next_fetch(step: FetchStep, spec: ThumbnailSpec, ok: bool) -> FetchStep {
    match step {
        FetchStep::Lookup => if ok {
            FetchStep::Found
        } else {
            FetchStep::Generate
        },
        FetchStep::Generate => if ok {
            FetchStep::Store
        } else {
            match spec {
                ThumbnailSpec::ScaleSize(size) => FetchStep::RecordFailure(size),
                ThumbnailSpec::FullSize => FetchStep::Fail,
            }
        },
        FetchStep::Store => if ok {
            FetchStep::ReadBack
        } else {
            FetchStep::Fail
        },
        FetchStep::ReadBack => if ok {
            FetchStep::Found
        } else {
            FetchStep::Fail
        },
        FetchStep::RecordFailure(_) => FetchStep::Fail,
        FetchStep::Found => FetchStep::Found,
        FetchStep::Fail => FetchStep::Fail,
    }
}

/// How many steps a thumbnail request has left at most.
pub open spec fn fetch_left(step: FetchStep) -> nat {
    match step {
        FetchStep::Lookup => 4,
        FetchStep::Generate => 3,
        FetchStep::Store => 2,
        FetchStep::ReadBack | FetchStep::RecordFailure(_) => 1,
        FetchStep::Found | FetchStep::Fail => 0,
    }
}

/// A thumbnail request ends, and ends well only with a rendition that is in
/// the cache: one that was found there, or that was stored and read back.
pub proof fn a_request_ends_with_a_cached_rendition(
    step: FetchStep,
    spec: ThumbnailSpec,
    ok: bool,
)
    ensures
        fetch_left(step) > 0 ==> fetch_left(next_fetch(step, spec, ok)) < fetch_left(step),
        next_fetch(step, spec, ok) == FetchStep::Found ==> step == FetchStep::Found || (ok && (step
            == FetchStep::Lookup || step == FetchStep::ReadBack)),
{
}

/// A failure is recorded for a scaled rendition, under its size, and never
/// for a full-size one.
pub proof fn only_scaled_failures_are_recorded(step: FetchStep, spec: ThumbnailSpec, ok: bool)
    ensures
        next_fetch(FetchStep::Generate, spec, false) == match spec {
            ThumbnailSpec::ScaleSize(size) => FetchStep::RecordFailure(size),
            ThumbnailSpec::FullSize => FetchStep::Fail,
        },
        next_fetch(step, spec, ok) is RecordFailure ==> step == FetchStep::Generate && !ok && spec
            is ScaleSize,
{
}

/// What to do next about a thumbnail request, given the step just made and
/// whether it worked. A hit in the cache ends it; a miss has the rendition
/// generated, stored and read back. A failure to generate leaves a marker for
/// a scaled rendition, and none for a full-size one.
pub fn fetch_next(step: FetchStep, spec: ThumbnailSpec, ok: bool) -> (r: FetchStep)
    ensures
        r == next_fetch(step, spec, ok),
{
    match step {
        FetchStep::Lookup => {
            if ok {
                FetchStep::Found
            } else {
                FetchStep::Generate
            }
        },
        FetchStep::Generate => {
            if ok {
                FetchStep::Store
            } else {
                match spec {
                    ThumbnailSpec::ScaleSize(size) => FetchStep::RecordFailure(size),
                    ThumbnailSpec::FullSize => FetchStep::Fail,
                }
            }
        },
        FetchStep::Store => {
            if ok {
                FetchStep::ReadBack
            } else {
                FetchStep::Fail
            }
        },
        FetchStep::ReadBack => {
            if ok {
                FetchStep::Found
            } else {
                FetchStep::Fail
            }
        },
        FetchStep::RecordFailure(_) => FetchStep::Fail,
        FetchStep::Found => FetchStep::Found,
        FetchStep::Fail => FetchStep::Fail,
    }
}

/// The renditions to make anew when an image's edits change: one for each
/// size that is stored.
pub fn regenerate_thumbnails_for_image(sizes: &Vec<u32>) -> (r: Vec<ThumbnailSpec>)
    ensures
        r@ == sizes@.map_values(|n: u32| ThumbnailSpec::of_db_size(n)),
{
    let mut out: Vec<ThumbnailSpec> = Vec::new();
    let ghost want = sizes@.map_values(|n: u32| ThumbnailSpec::of_db_size(n));
    let mut i: usize = 0;
    while i < sizes.len()
        invariant
            i <= sizes@.len(),
            want == sizes@.map_values(|n: u32| ThumbnailSpec::of_db_size(n)),
            out@ == want.take(i as int),
        decreases sizes@.len() - i,
    {
        out.push(ThumbnailSpec::from_db_size(sizes[i]));
        assert(want.take(i + 1) == want.take(i as int).push(want[i as int]));
        i = i + 1;
    }
    assert(want.take(i as int) == want);
    out
}

/// A batch that could not be run.
#[derive(Debug, Clone, Copy, PartialEq, Eq, Structural)]
pub enum BatchError {
    /// Counting or generating failed.
    Failed,
    /// More was generated than can be counted.
    TooMany,
}

/// Abstraction over "how many thumbnails are missing" and "generate one batch",
/// so the loop control in `run_until_complete` can be tested with a fake.
pub trait ThumbnailBatcher {
    /// What the batcher has answered so far, in order. It stands in contracts
    /// only. A verified implementation says here where it keeps its history;
    /// with the default, it cannot meet the contracts below. An implementation
    /// in ordinary Rust leaves the default, and stands outside the proof: that
    /// it answers as these contracts say is then taken on trust.
    closed spec fn given(&self) -> Seq<Answer> {
        arbitrary()
    }

    /// How many thumbnails are missing.
    fn remaining(&mut self) -> (r: Result<usize, BatchError>)
        ensures
            final(self).given() == old(self).given().push(Answer::Remaining(r)),
    ;

    /// Generates one batch, and says how many thumbnails came of it.
    fn generate_batch(&mut self) -> (r: Result<usize, BatchError>)
        ensures
            final(self).given() == old(self).given().push(Answer::Generated(r)),
    ;
}

/// An answer of a batcher: how much remains, or how much was generated.
#[derive(Debug, Clone, Copy, PartialEq, Eq)]
pub enum Answer {
    Remaining(Result<usize, BatchError>),
    Generated(Result<usize, BatchError>),
}

/// The outcome of a run once it has ended: the total, or the error that ended
/// it.
pub open spec fn run_result(answers: Seq<Answer>, total: int) -> Option<Result<int, BatchError>>
    decreases answers.len(),
{
    if answers.len() == 0 {
        None
    } else {
        let rest = answers.skip(1);
        match answers[0] {
            Answer::Remaining(Err(e)) => Some(Err(e)),
            Answer::Remaining(Ok(n)) => if n == 0 {
                Some(Ok(total))
            } else {
                run_result(rest, total)
            },
            Answer::Generated(Err(e)) => Some(Err(e)),
            Answer::Generated(Ok(n)) => if n == 0 {
                Some(Ok(total))
            } else if total + n > usize::MAX {
                Some(Err(BatchError::TooMany))
            } else {
                run_result(rest, total + n)
            },
        }
    }
}

/// Counting and generating take turns, beginning with counting.
pub open spec fn takes_turns(answers: Seq<Answer>) -> bool {
    forall|i: int|
        0 <= i < answers.len() ==> if i % 2 == 0 {
            #[trigger] answers[i] is Remaining
        } else {
            answers[i] is Generated
        }
}

/// What is decided about one answer.
#[derive(Debug, Clone, Copy, PartialEq, Eq)]
pub enum Verdict {
    /// Go on with this total.
    GoOn(usize),
    /// The run has ended.
    End(Result<usize, BatchError>),
}

/// The decision about one answer, given the total so far: nothing left ends
/// the run, and so does a batch without forward progress.
pub open spec fn verdict(total: usize, answer: Answer) -> Verdict {
    match answer {
        Answer::Remaining(Err(e)) => Verdict::End(Err(e)),
        Answer::Remaining(Ok(n)) => if n == 0 {
            Verdict::End(Ok(total))
        } else {
            Verdict::GoOn(total)
        },
        Answer::Generated(Err(e)) => Verdict::End(Err(e)),
        Answer::Generated(Ok(n)) => if n == 0 {
            Verdict::End(Ok(total))
        } else if total + n > usize::MAX {
            Verdict::End(Err(BatchError::TooMany))
        } else {
            Verdict::GoOn((total + n) as usize)
        },
    }
}

/// Decides about one answer.
pub fn judge(total: usize, answer: Answer) -> (r: Verdict)
    ensures
        r == verdict(total, answer),
{
    match answer {
        Answer::Remaining(Ok(n)) => {
            if n == 0 {
                Verdict::End(Ok(total))
            } else {
                Verdict::GoOn(total)
            }
        },
        Answer::Remaining(Err(e)) => Verdict::End(Err(e)),
        Answer::Generated(Ok(n)) => {
            if n == 0 {
                Verdict::End(Ok(total))
            } else {
                match total.checked_add(n) {
                    Some(sum) => Verdict::GoOn(sum),
                    None => Verdict::End(Err(BatchError::TooMany)),
                }
            }
        },
        Answer::Generated(Err(e)) => Verdict::End(Err(e)),
    }
}

/// The result with its total as a number.
pub open spec fn as_total(r: Result<usize, BatchError>) -> Result<int, BatchError> {
    match r {
        Ok(n) => Ok(n as int),
        Err(e) => Err(e),
    }
}

/// Adding an answer to a run that has not ended.
proof fn run_goes_on(answers: Seq<Answer>, total: int, more: Answer, sum: usize)
    requires
        run_result(answers, total) is None,
        run_total(answers, total) == sum,
    ensures
        run_result(answers.push(more), total) == (match verdict(sum, more) {
            Verdict::End(r) => Some(as_total(r)),
            Verdict::GoOn(_) => None,
        }),
        verdict(sum, more) matches Verdict::GoOn(t) ==> run_total(answers.push(more), total) == t,
    decreases answers.len(),
{
    let all = answers.push(more);
    if answers.len() == 0 {
        assert(all[0] == more);
        assert(all.skip(1) == Seq::<Answer>::empty());
        reveal_with_fuel(run_result, 2);
        reveal_with_fuel(run_total, 2);
    } else {
        assert(all[0] == answers[0]);
        assert(all.skip(1) == answers.skip(1).push(more));
        match answers[0] {
            Answer::Generated(Ok(n)) => {
                run_goes_on(answers.skip(1), total + n, more, sum);
            },
            _ => {
                run_goes_on(answers.skip(1), total, more, sum);
            },
        }
    }
}

/// What was generated in a run that has not ended, on top of `total`.
spec fn run_total(answers: Seq<Answer>, total: int) -> int
    decreases answers.len(),
{
    if answers.len() == 0 {
        total
    } else {
        match answers[0] {
            Answer::Generated(Ok(n)) => run_total(answers.skip(1), total + n),
            _ => run_total(answers.skip(1), total),
        }
    }
}

/// Drive batched generation to completion. Stops when nothing remains, OR when a
/// batch makes zero forward progress (guards against permanently-undecodable
/// images so the loop can never run forever). Returns the total generated.
///
/// What the batcher answers is up to its implementation. Whatever it answers,
/// it is asked in turn, beginning with how much remains, and up to the first
/// answer that ends the run; the result is the one that [`run_result`] gives
/// for these answers.
pub fn run_until_complete<B: ThumbnailBatcher>(b: &mut B) -> (r: Result<usize, BatchError>)
    ensures
        exists|answers: Seq<Answer>|
            {
                &&& #[trigger] takes_turns(answers)
                &&& final(b).given() == old(b).given() + answers
                &&& answers.len() > 0
                &&& run_result(answers.drop_last(), 0) is None
                &&& run_result(answers, 0) == Some(as_total(r))
            },
{
    let mut total: usize = 0;
    let ghost start = b.given();
    let ghost mut answers: Seq<Answer> = Seq::empty();
    assert(start + answers == start);
    loop
        invariant
            start == old(b).given(),
            b.given() == start + answers,
            takes_turns(answers),
            answers.len() % 2 == 0,
            run_result(answers, 0) is None,
            run_total(answers, 0) == total,
        decreases usize::MAX - total,
    {
        let left: Answer = Answer::Remaining(b.remaining());
        proof {
            run_goes_on(answers, 0, left, total);
            assert(answers.push(left).drop_last() == answers);
            assert(start + answers.push(left) == (start + answers).push(left));
            answers = answers.push(left);
        }
        match judge(total, left) {
            Verdict::End(r) => {
                assert(takes_turns(answers));
                return r;
            },
            Verdict::GoOn(_) => {},
        }
        let done: Answer = Answer::Generated(b.generate_batch());
        proof {
            run_goes_on(answers, 0, done, total);
            assert(answers.push(done).drop_last() == answers);
            assert(start + answers.push(done) == (start + answers).push(done));
            answers = answers.push(done);
        }
        match judge(total, done) {
            Verdict::End(r) => {
                assert(takes_turns(answers));
                return r;
            },
            Verdict::GoOn(sum) => {
                total = sum;
            },
        }
    }
}

/// The sum of what a list of answers says was generated.
pub open spec fn generated_sum(answers: Seq<Answer>) -> int
    decreases answers.len(),
{
    if answers.len() == 0 {
        0
    } else {
        generated_sum(answers.drop_last()) + match answers.last() {
            Answer::Generated(Ok(n)) => n as int,
            _ => 0,
        }
    }
}

/// Whether an answer says that there is nothing left or that nothing came of
/// a batch.
pub open spec fn says_stop(answer: Answer) -> bool {
    match answer {
        Answer::Remaining(Ok(n)) => n == 0,
        Answer::Generated(Ok(n)) => n == 0,
        _ => false,
    }
}

/// Whether no answer is an error.
pub open spec fn all_fine(answers: Seq<Answer>) -> bool {
    forall|i: int|
        0 <= i < answers.len() ==> match #[trigger] answers[i] {
            Answer::Remaining(r) => r is Ok,
            Answer::Generated(r) => r is Ok,
        }
}

proof fn open_run_has_no_stop(answers: Seq<Answer>)
    requires
        run_result(answers, 0) is None,
    ensures
        forall|i: int| 0 <= i < answers.len() ==> !says_stop(#[trigger] answers[i]),
        all_fine(answers),
        run_total(answers, 0) == generated_sum(answers),
        0 <= generated_sum(answers) <= usize::MAX,
    decreases answers.len(),
{
    if answers.len() > 0 {
        let front = answers.drop_last();
        let more = answers.last();
        assert(front.push(more) == answers);
        run_prefix_is_open(front, 0, more);
        open_run_has_no_stop(front);
        run_goes_on(front, 0, more, generated_sum(front) as usize);
        assert forall|i: int| 0 <= i < answers.len() implies !says_stop(#[trigger] answers[i]) by {
            if i < front.len() {
                assert(front[i] == answers[i]);
            }
        }
        assert forall|i: int| 0 <= i < answers.len() implies match #[trigger] answers[i] {
            Answer::Remaining(r) => r is Ok,
            Answer::Generated(r) => r is Ok,
        } by {
            if i < front.len() {
                assert(front[i] == answers[i]);
            }
        }
    }
}

proof fn run_prefix_is_open(front: Seq<Answer>, total: int, more: Answer)
    requires
        run_result(front.push(more), total) is None,
    ensures
        run_result(front, total) is None,
    decreases front.len(),
{
    if front.len() > 0 {
        let all = front.push(more);
        assert(all[0] == front[0]);
        assert(all.skip(1) == front.skip(1).push(more));
        match front[0] {
            Answer::Generated(Ok(n)) => {
                run_prefix_is_open(front.skip(1), total + n, more);
            },
            _ => {
                run_prefix_is_open(front.skip(1), total, more);
            },
        }
    }
}

/// A run whose answers are all fine, and whose sum can be counted, ends with
/// the first answer that says that nothing is left or that nothing was
/// generated, and not before; its result is the sum of what was generated.
pub proof fn a_run_sums_up_to_its_stop(answers: Seq<Answer>)
    requires
        answers.len() > 0,
        run_result(answers.drop_last(), 0) is None,
        run_result(answers, 0) is Some,
        all_fine(answers),
        generated_sum(answers) <= usize::MAX,
    ensures
        says_stop(answers.last()),
        forall|i: int| 0 <= i < answers.len() - 1 ==> !says_stop(#[trigger] answers[i]),
        run_result(answers, 0) == Some(Ok::<int, BatchError>(generated_sum(answers))),
{
    let front = answers.drop_last();
    let more = answers.last();
    assert(front.push(more) == answers);
    open_run_has_no_stop(front);
    run_goes_on(front, 0, more, generated_sum(front) as usize);
    assert(answers[answers.len() - 1] == more);
    assert forall|i: int| 0 <= i < answers.len() - 1 implies !says_stop(#[trigger] answers[i]) by {
        assert(front[i] == answers[i]);
    }
}

/// What `thumbnails` prints after a batch.
pub fn batch_message(generated: usize, size: u32, remaining: usize) -> (r: Vec<String>)
    ensures
        crate::text::texts(r@) == if generated == 0 {
            seq![
                "No images found that need thumbnails of size "@ + decimal(size as nat) + "px"@,
            ]
        } else {
            seq![
                "Generated "@ + decimal(generated as nat) + " thumbnails of size "@ + decimal(
                    size as nat,
                ) + "px"@,
                if remaining != 0 {
                    "There are more images without thumbnails ("@ + decimal(remaining as nat)
                        + "). Run the command again to generate more."@
                } else {
                    "All images now have thumbnails of size "@ + decimal(size as nat) + "px"@
                },
            ]
        },
{
    let mut lines: Vec<String> = Vec::new();
    if generated == 0 {
        let mut line: String = "No images found that need thumbnails of size ".to_owned();
        push_decimal(&mut line, size as u64);
        line.append("px");
        lines.push(line);
        assert(crate::text::texts(lines@) == seq![line@]);
    } else {
        let mut first: String = "Generated ".to_owned();
        push_decimal(&mut first, generated as u64);
        first.append(" thumbnails of size ");
        push_decimal(&mut first, size as u64);
        first.append("px");
        lines.push(first);
        let mut second: String = String::new();
        if remaining != 0 {
            second.append("There are more images without thumbnails (");
            push_decimal(&mut second, remaining as u64);
            second.append("). Run the command again to generate more.");
            assert(second@ == "There are more images without thumbnails ("@ + decimal(
                remaining as nat,
            ) + "). Run the command again to generate more."@);
        } else {
            second.append("All images now have thumbnails of size ");
            push_decimal(&mut second, size as u64);
            second.append("px");
            assert(second@ == "All images now have thumbnails of size "@ + decimal(size as nat)
                + "px"@);
        }
        lines.push(second);
        assert(crate::text::texts(lines@) == seq![first@, second@]);
    }
    lines
}

/// Sizes keep the order in which they were first asked for: the j-th size to
/// generate is the one at place `places[j]` of the request, which does not
/// stand earlier in it, and the places rise.
pub proof fn sizes_keep_their_first_order(list: Seq<u32>) -> (places: Seq<int>)
    ensures
        places.len() == first_occurrences(list).len(),
        forall|i: int, j: int| 0 <= i < j < places.len() ==> places[i] < places[j],
        forall|j: int|
            0 <= j < places.len() ==> {
                &&& 0 <= #[trigger] places[j] < list.len()
                &&& first_occurrences(list)[j] == list[places[j]]
                &&& forall|k: int| 0 <= k < places[j] ==> #[trigger] list[k] != list[places[j]]
            },
    decreases list.len(),
{
    if list.len() == 0 {
        Seq::empty()
    } else {
        let front = list.drop_last();
        let last = list.len() - 1;
        let before = sizes_keep_their_first_order(front);
        sizes_come_once_each(front);
        let seen = first_occurrences(front).contains(list.last());
        let places = if seen {
            before
        } else {
            before.push(last)
        };
        assert forall|j: int| 0 <= j < places.len() implies {
            &&& 0 <= #[trigger] places[j] < list.len()
            &&& first_occurrences(list)[j] == list[places[j]]
            &&& forall|k: int| 0 <= k < places[j] ==> #[trigger] list[k] != list[places[j]]
        } by {
            if j < before.len() {
                assert(places[j] == before[j]);
                assert(first_occurrences(list)[j] == first_occurrences(front)[j]);
                assert(front[before[j]] == list[before[j]]);
                assert forall|k: int| 0 <= k < places[j] implies #[trigger] list[k] != list[places[j]] by {
                    assert(front[k] == list[k]);
                }
            } else {
                assert forall|k: int| 0 <= k < last implies #[trigger] list[k] != list[last] by {
                    assert(front[k] == list[k]);
                    assert(front.contains(front[k]));
                }
            }
        }
        places
    }
}

/// What a request for thumbnails stands for: the three sizes of the user
/// interface where those are asked for, whatever else is; the sizes that are
/// given, where there are any; and else the smallest of the three.
pub proof fn a_request_stands_for_these_sizes(sizes: Seq<u32>)
    ensures
        requested_sizes(sizes, true).len() == 3,
        requested_sizes(sizes, true)[0] == 300,
        requested_sizes(sizes, true)[1] == 512,
        requested_sizes(sizes, true)[2] == 2048,
        sizes.len() > 0 ==> requested_sizes(sizes, false) == sizes,
        sizes.len() == 0 ==> requested_sizes(sizes, false).len() == 1 && requested_sizes(
            sizes,
            false,
        )[0] == 300,
{
}

/// Thumbnails are written in full batches: as long as fewer than forty wait
/// nothing is written, and as soon as there are forty all of them are; so
/// never do forty wait.
pub proof fn thumbnails_are_written_in_full_batches(
    buffer: Seq<ThumbModel>,
    more: Seq<ThumbModel>,
)
    ensures
        buffer.len() + more.len() < 40 ==> writer_step(buffer, more).1.len() == 0,
        buffer.len() + more.len() >= 40 ==> writer_step(buffer, more).1 == buffer + more,
        writer_step(buffer, more).0.len() < 40,
        writer_step(buffer, more).1 + writer_step(buffer, more).0 == buffer + more,
{
    assert(writer_step(buffer, more).1 + writer_step(buffer, more).0 == buffer + more);
}

/// A message carries the thumbnail that it reports, and a failure carries
/// none.
pub proof fn failures_carry_no_thumbnail(msg: ThumbMsg)
    ensures
        msg is Failed <==> carried(msg).len() == 0,
        msg matches ThumbMsg::Generated { hash, size, data } ==> carried(msg).len() == 1 && carried(
            msg,
        )[0].hash == hash@ && carried(msg)[0].size == size && carried(msg)[0].data == data@,
{
}

/// A rendition that is not in the cache is generated, stored and read back,
/// one after the other; one that is there is not generated again; and where
/// storing or reading back fails, so does the request.
pub proof fn a_missing_rendition_is_generated_and_stored(spec: ThumbnailSpec, ok: bool)
    ensures
        next_fetch(FetchStep::Lookup, spec, true) == FetchStep::Found,
        next_fetch(FetchStep::Lookup, spec, false) == FetchStep::Generate,
        next_fetch(FetchStep::Generate, spec, true) == FetchStep::Store,
        next_fetch(FetchStep::Store, spec, true) == FetchStep::ReadBack,
        next_fetch(FetchStep::ReadBack, spec, true) == FetchStep::Found,
        next_fetch(FetchStep::Store, spec, false) == FetchStep::Fail,
        next_fetch(FetchStep::ReadBack, spec, false) == FetchStep::Fail,
        next_fetch(FetchStep::Found, spec, ok) == FetchStep::Found,
        next_fetch(FetchStep::Fail, spec, ok) == FetchStep::Fail,
{
}

/// An error ends a run with that error; a count of zero or a batch without
/// progress ends it with the total; and whatever makes progress lets it go
/// on, adding what was generated.
pub proof fn runs_end_for_a_reason(answers: Seq<Answer>, more: Answer)
    requires
        run_result(answers, 0) is None,
    ensures
        more matches Answer::Remaining(Err(e)) ==> run_result(answers.push(more), 0) == Some(
            Err::<int, BatchError>(e),
        ),
        more matches Answer::Generated(Err(e)) ==> run_result(answers.push(more), 0) == Some(
            Err::<int, BatchError>(e),
        ),
        more == Answer::Remaining(Ok(0)) || more == Answer::Generated(Ok(0)) ==> run_result(
            answers.push(more),
            0,
        ) == Some(Ok::<int, BatchError>(generated_sum(answers))),
        more matches Answer::Remaining(Ok(n)) && n > 0 ==> run_result(answers.push(more), 0)
            is None,
        more matches Answer::Generated(Ok(n)) && n > 0 && generated_sum(answers) + n
            <= usize::MAX ==> run_result(answers.push(more), 0) is None,
{
    open_run_has_no_stop(answers);
    run_goes_on(answers, 0, more, generated_sum(answers) as usize);
}

/// A thumbnail has the size that was asked for: any picture can be scaled to
/// fit a square of 1 to 65535 pixels, and that is the square; above that, a
/// picture with pixels has no thumbnail.
pub proof fn thumbnails_have_the_size_asked_for(p: Seq<u8>, size: u32)
    ensures
        1 <= size <= 65535 ==> can_scale(p, size) && fitting_side(size) == size,
        size > 65535 && (picture_width(p) > 0 || picture_height(p) > 0) ==> !can_scale(p, size),
        size > 65535 || size == 0 ==> fitting_side(size) == 1,
        size == 0 ==> (can_scale(p, size) <==> picture_width(p) > 0 || picture_height(p) > 0),
{
}

} // verus!
