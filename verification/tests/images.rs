//! Decoding rules, metadata, hashing, thumbnails, processing, indexing.

use image::{DynamicImage, ImageFormat, Rgb, RgbImage};
use imgfind::decode::{
    apply_exif_orientation, apply_orientation, decoder_panic_message, is_raw_extension,
    is_raw_path, is_supported_extension, panic_message, preview_meets_full_threshold, RawDecode,
    RawNext, RawPurpose, RawRead, RawResult,
};
use imgfind::exif::{
    extract_image_metadata, parse_gps_coordinate, position, words, GpsFields, GpsFormatError,
};
use imgfind::hashing::{hash_contents, hash_file, needs_contents, FastHash, HashError};
use imgfind::indexing::{
    check_target, chunk_pending, chunk_rows, config_loaded, index_opening, scan_closing,
    BackfillRun, FileStep, IndexRun, PendingFile, TargetError, SCANNING,
};
use imgfind::paths::AbsolutePath;
use imgfind::processing::{
    count_successes, counts, process_next_batch, ProcessCounts, ProcessError, ProcessPhase,
    ProcessRun, RunAction, RunEvent, Work,
};
use imgfind::thumbnail::{
    batch_message, edits_key, fetch_next, full_jpeg, judge, regenerate_thumbnails_for_image, render_plan,
    resolve_thumbnail_sizes, run_until_complete, scaled_jpeg, writer_db_path, writer_join_result,
    Answer, BatchError, EncodeError, FetchStep, RenderPlan, SizeError, ThumbMsg, ThumbWriter, ThumbnailBatcher, Verdict,
    WriterAction, FLUSH_AT, GUI_THUMBNAIL_SIZES, LIGHTBOX_SIZE,
};
use imgfind::units::{ThumbnailSize, ThumbnailSpec};

#[test]
fn preview_threshold_uses_long_edge() {
    assert!(preview_meets_full_threshold(2000, 100));
    assert!(preview_meets_full_threshold(100, 2500));
    assert!(preview_meets_full_threshold(3000, 2000));
    assert!(!preview_meets_full_threshold(1999, 1999));
}

#[test]
fn recognizes_still_extensions_case_insensitively() {
    assert!(is_supported_extension("jpg"));
    assert!(is_supported_extension("JPG"));
    assert!(is_supported_extension("Png"));
    assert!(!is_raw_extension("jpg"));
}

#[test]
fn recognizes_raw_extensions_case_insensitively() {
    assert!(is_raw_extension("nef"));
    assert!(is_raw_extension("NEF"));
    assert!(is_raw_extension("dng"));
    assert!(is_raw_extension("orf"));
    assert!(is_supported_extension("nef")); // union includes raw
}

#[test]
fn rejects_unknown_extension() {
    assert!(!is_supported_extension("txt"));
    assert!(!is_raw_extension("txt"));
    assert!(!is_supported_extension(""));
}

#[test]
fn raw_files_are_known_by_their_extension() {
    assert!(is_raw_path("/x/y.NEF"));
    assert!(!is_raw_path("/x/y.jpg"));
    assert!(!is_raw_path("/x/nef"));
}

fn blank(w: u32, h: u32) -> DynamicImage {
    DynamicImage::ImageRgb8(RgbImage::from_pixel(w, h, Rgb([0, 0, 0])))
}

fn width_of(next: RawNext) -> Option<u32> {
    match next {
        RawNext::Done(img) => Some(img.width()),
        _ => None,
    }
}

#[test]
fn fast_raw_decoding_takes_the_first_picture() {
    let mut d = RawDecode::start(RawPurpose::Fast);
    assert!(matches!(
        d.on_result(RawResult::Absent),
        RawNext::Read(RawRead::Preview)
    ));
    assert_eq!(width_of(d.on_result(RawResult::Picture(blank(5, 4)))), Some(5));
    let mut d = RawDecode::start(RawPurpose::Fast);
    d.on_result(RawResult::Absent);
    assert!(matches!(
        d.on_result(RawResult::Absent),
        RawNext::Read(RawRead::Demosaic)
    ));
    assert!(matches!(
        d.on_result(RawResult::Failed),
        RawNext::Fail(RawRead::Demosaic)
    ));
    let mut d = RawDecode::start(RawPurpose::Fast);
    assert!(matches!(
        d.on_result(RawResult::Failed),
        RawNext::Fail(RawRead::FullImage)
    ));
}

#[test]
fn full_raw_decoding_falls_back_to_a_small_preview() {
    let mut d = RawDecode::start(RawPurpose::FullView);
    assert_eq!(
        width_of(d.on_result(RawResult::Picture(blank(2000, 4)))),
        Some(2000)
    );
    let mut d = RawDecode::start(RawPurpose::FullView);
    assert!(matches!(
        d.on_result(RawResult::Picture(blank(5, 4))),
        RawNext::Read(RawRead::Demosaic)
    ));
    assert_eq!(width_of(d.on_result(RawResult::Failed)), Some(5));
    let mut d = RawDecode::start(RawPurpose::FullView);
    d.on_result(RawResult::Picture(blank(5, 4)));
    assert_eq!(width_of(d.on_result(RawResult::Picture(blank(9, 9)))), Some(9));
    let mut d = RawDecode::start(RawPurpose::FullView);
    d.on_result(RawResult::Absent);
    assert!(matches!(
        d.on_result(RawResult::Failed),
        RawNext::Fail(RawRead::Preview)
    ));
}

#[test]
fn contained_panics_name_the_file() {
    assert_eq!(
        decoder_panic_message("/a.orf", "boom"),
        "image decoder panicked on /a.orf: boom"
    );
    assert_eq!(panic_message(Some("boom".to_string())), "boom");
    assert_eq!(panic_message(None), "non-string panic payload");
}

/// JPEG bytes carrying an EXIF Orientation tag: a minimal big-endian EXIF APP1
/// segment (single SHORT Orientation entry) right after the SOI marker.
fn jpeg_with_orientation(w: u32, h: u32, exif_orientation: u8) -> Vec<u8> {
    let mut jpeg = Vec::new();
    blank(w, h)
        .write_to(&mut std::io::Cursor::new(&mut jpeg), ImageFormat::Jpeg)
        .expect("encode jpeg");
    let app1: Vec<u8> = vec![
        0xFF, 0xE1, 0x00, 0x22, b'E', b'x', b'i', b'f', 0, 0, b'M', b'M', 0x00, 0x2A, 0, 0, 0, 8, 0,
        1, 0x01, 0x12, 0x00, 0x03, 0, 0, 0, 1, 0x00, exif_orientation, 0, 0, 0, 0, 0, 0,
    ];
    let mut out = jpeg[..2].to_vec();
    out.extend_from_slice(&app1);
    out.extend_from_slice(&jpeg[2..]);
    out
}

#[test]
fn exif_orientation_turns_the_picture() {
    let mut img = blank(4, 2);
    apply_exif_orientation(&mut img, &jpeg_with_orientation(4, 2, 6));
    assert_eq!((img.width(), img.height()), (2, 4));
    let mut img = blank(4, 2);
    apply_exif_orientation(&mut img, &jpeg_with_orientation(4, 2, 1));
    assert_eq!((img.width(), img.height()), (4, 2));
    // No readable EXIF block: the picture is left alone.
    apply_exif_orientation(&mut img, b"not an image");
    assert_eq!((img.width(), img.height()), (4, 2));
}

#[test]
fn orientation_values_turn_the_picture() {
    let mut img = blank(2, 1);
    img.as_mut_rgb8().unwrap().put_pixel(0, 0, Rgb([255, 0, 0]));
    let mut flipped = img.clone();
    apply_orientation(&mut flipped, Some(2));
    assert_eq!(flipped.as_rgb8().unwrap().get_pixel(1, 0), &Rgb([255, 0, 0]));
    let mut same = img.clone();
    apply_orientation(&mut same, Some(9));
    apply_orientation(&mut same, None);
    assert_eq!(same, img);
}

#[test]
fn words_and_coordinates() {
    assert_eq!(words("  a\tb  c "), vec!["a", "b", "c"]);
    assert_eq!(
        words("a\u{b}b\u{85}c\u{a0}d\u{2003}e\u{3000}f\u{200b}g"),
        vec!["a", "b", "c", "d", "e", "f\u{200b}g"]
    );
    assert!(words("   ").is_empty());
    let g = parse_gps_coordinate("40 deg 42 min 51.45 sec", "S").unwrap();
    assert_eq!(
        (g.degrees.as_str(), g.minutes.as_str(), g.seconds.as_str()),
        ("40", "42", "51.45")
    );
    assert!(g.negative);
    assert!(!parse_gps_coordinate("1 deg 2 min 3 sec", "E").unwrap().negative);
    assert_eq!(
        parse_gps_coordinate("40.7", "N").unwrap_err(),
        GpsFormatError
    );
    let mut fields = GpsFields {
        latitude: Some("1 deg 2 min 3 sec".to_string()),
        latitude_ref: Some("N".to_string()),
        longitude: Some("4 deg 5 min 6 sec".to_string()),
        longitude_ref: Some("W".to_string()),
    };
    let (lat, lon) = position(&fields).unwrap();
    assert_eq!(lat.degrees, "1");
    assert!(lon.negative);
    fields.longitude_ref = None;
    assert!(position(&fields).is_none());
}

#[test]
fn metadata_of_a_file() {
    let bytes = jpeg_with_orientation(4, 2, 6);
    let m = extract_image_metadata(Some(12), Some((4, 2)), Some(&bytes));
    assert_eq!(m.file_size, Some(12));
    assert_eq!((m.width, m.height), (Some(4), Some(2)));
    assert_eq!(m.camera_make, None);
    assert!(m.coords.is_none());
    let m = extract_image_metadata(None, None, None);
    assert_eq!((m.file_size, m.width, m.height), (None, None, None));
}

/// A bare TIFF with one ASCII `Make` entry.
#[test]
fn metadata_shows_the_camera() {
    let mut tiff: Vec<u8> = vec![b'M', b'M', 0x00, 0x2A, 0, 0, 0, 8, 0, 1];
    tiff.extend_from_slice(&[0x01, 0x0F, 0x00, 0x02, 0, 0, 0, 6, 0, 0, 0, 26]);
    tiff.extend_from_slice(&[0, 0, 0, 0]);
    tiff.extend_from_slice(b"Canon\0");
    let m = extract_image_metadata(None, None, Some(&tiff));
    assert_eq!(m.camera_make, Some("\"Canon\"".to_string()));
    assert_eq!(m.camera_model, None);
}

#[test]
fn empty_file_hashes_via_md5() {
    let h = hash_contents(b"");
    assert_eq!(h.len(), 32);
    assert_eq!(h, "d41d8cd98f00b204e9800998ecf8427e");
    assert_eq!(hash_contents(b"abc"), "900150983cd24fb0d6963f7d28e17f72");
}

#[test]
fn small_files_fall_back_to_their_contents() {
    assert!(needs_contents(&FastHash::TooSmall));
    assert!(!needs_contents(&FastHash::Failed));
    assert_eq!(
        hash_file(FastHash::Hash("0123456789abcdef".to_string()), None),
        Ok("0123456789abcdef".to_string())
    );
    assert_eq!(
        hash_file(FastHash::TooSmall, Some(b"")),
        Ok("d41d8cd98f00b204e9800998ecf8427e".to_string())
    );
    assert_eq!(
        hash_file(FastHash::TooSmall, None),
        Err(HashError::Unreadable)
    );
    assert_eq!(
        hash_file(FastHash::Failed, Some(b"x")),
        Err(HashError::Unreadable)
    );
}

#[test]
fn resolve_sizes_default_is_300() {
    assert_eq!(resolve_thumbnail_sizes(&[], false).unwrap(), vec![300]);
}

#[test]
fn resolve_sizes_gui_flag_expands() {
    assert_eq!(
        resolve_thumbnail_sizes(&[], true).unwrap(),
        vec![300, 512, 2048]
    );
}

#[test]
fn resolve_sizes_explicit_dedup_preserves_order() {
    assert_eq!(
        resolve_thumbnail_sizes(&[512, 300, 512], false).unwrap(),
        vec![512, 300]
    );
}

/// `--size 0` must be rejected before it reaches the resampler.
#[test]
fn resolve_sizes_rejects_zero() {
    assert!(resolve_thumbnail_sizes(&[0], false).is_err());
}

#[test]
fn resolve_sizes_rejects_zero_mixed_with_valid() {
    assert!(resolve_thumbnail_sizes(&[300, 0, 512], false).is_err());
    assert_eq!(
        resolve_thumbnail_sizes(&[300, 0, 512], true),
        Err(SizeError::Zero)
    );
}

#[test]
fn resolve_sizes_accepts_positive() {
    assert!(resolve_thumbnail_sizes(&[300], false).is_ok());
}

#[test]
fn gui_sizes_are_300_512_2048() {
    assert_eq!(
        GUI_THUMBNAIL_SIZES.map(ThumbnailSize),
        [ThumbnailSize(300), ThumbnailSize(512), ThumbnailSize(2048)]
    );
    assert_eq!(ThumbnailSize(LIGHTBOX_SIZE), ThumbnailSize(2048));
}

/// Scripted fake batcher: `remaining` and `generated` are popped front-to-back;
/// when a sequence is exhausted its last value repeats.
struct FakeBatcher {
    remaining: Vec<usize>,
    generated: Vec<usize>,
}

fn pop(seq: &mut Vec<usize>) -> usize {
    if seq.len() > 1 {
        seq.remove(0)
    } else {
        seq[0]
    }
}

impl ThumbnailBatcher for FakeBatcher {
    fn remaining(&mut self) -> Result<usize, BatchError> {
        Ok(pop(&mut self.remaining))
    }

    fn generate_batch(&mut self) -> Result<usize, BatchError> {
        Ok(pop(&mut self.generated))
    }
}

#[test]
fn run_until_complete_stops_when_none_remain() {
    let mut b = FakeBatcher {
        remaining: vec![5, 0],
        generated: vec![5],
    };
    assert_eq!(run_until_complete(&mut b).unwrap(), 5);
}

#[test]
fn run_until_complete_stops_on_zero_progress() {
    // 2 images remain forever (undecodable); each batch generates 0.
    let mut b = FakeBatcher {
        remaining: vec![2],
        generated: vec![0],
    };
    // Must terminate (not hang) and report zero generated.
    assert_eq!(run_until_complete(&mut b).unwrap(), 0);
}

#[test]
fn run_until_complete_sums_then_stops_on_zero_progress() {
    let mut b = FakeBatcher {
        remaining: vec![4, 2, 2],
        generated: vec![2, 0],
    };
    assert_eq!(run_until_complete(&mut b).unwrap(), 2);
}

/// Notes the calls it gets.
struct NotingBatcher {
    script: FakeBatcher,
    calls: Vec<char>,
}

impl ThumbnailBatcher for NotingBatcher {
    fn remaining(&mut self) -> Result<usize, BatchError> {
        self.calls.push('r');
        self.script.remaining()
    }

    fn generate_batch(&mut self) -> Result<usize, BatchError> {
        self.calls.push('g');
        self.script.generate_batch()
    }
}

#[test]
fn run_until_complete_asks_in_turn_and_no_further() {
    let run = |remaining: Vec<usize>, generated: Vec<usize>| {
        let mut b = NotingBatcher {
            script: FakeBatcher { remaining, generated },
            calls: Vec::new(),
        };
        let r = run_until_complete(&mut b);
        (r, b.calls.into_iter().collect::<String>())
    };
    assert_eq!(run(vec![0], vec![9]), (Ok(0), "r".to_string()));
    assert_eq!(run(vec![4, 2, 2], vec![2, 0]), (Ok(2), "rgrg".to_string()));
    assert_eq!(run(vec![9, 5, 0], vec![4, 5]), (Ok(9), "rgrgr".to_string()));
}

struct FailingBatcher;

impl ThumbnailBatcher for FailingBatcher {
    fn remaining(&mut self) -> Result<usize, BatchError> {
        Ok(1)
    }

    fn generate_batch(&mut self) -> Result<usize, BatchError> {
        Err(BatchError::Failed)
    }
}

#[test]
fn run_until_complete_passes_errors_on() {
    assert_eq!(
        run_until_complete(&mut FailingBatcher),
        Err(BatchError::Failed)
    );
    assert_eq!(
        judge(usize::MAX, Answer::Generated(Ok(1))),
        Verdict::End(Err(BatchError::TooMany))
    );
    assert_eq!(judge(3, Answer::Remaining(Ok(1))), Verdict::GoOn(3));
    assert_eq!(judge(3, Answer::Generated(Ok(2))), Verdict::GoOn(5));
}

#[test]
fn writer_join_result_propagates_panic_message() {
    let err = writer_join_result(Some(Some("boom".to_string()))).unwrap_err();
    assert!(err.contains("boom"));
    assert_eq!(
        writer_join_result(Some(None)).unwrap_err(),
        "thumbnail writer thread panicked: writer thread panicked"
    );
}

#[test]
fn writer_join_result_ok_on_normal_return() {
    assert!(writer_join_result(None).is_ok());
}

#[test]
fn writer_hands_out_full_batches_and_the_rest() {
    let mut w = ThumbWriter::new();
    for i in 0..FLUSH_AT - 1 {
        let action = w.on_message(ThumbMsg::Generated {
            hash: format!("h{i}"),
            size: 300,
            data: vec![1],
        });
        assert!(matches!(action, WriterAction::Wait));
    }
    let action = w.on_message(ThumbMsg::Failed {
        hash: "bad".to_string(),
        size: 300,
        error: "e".to_string(),
    });
    assert!(matches!(action, WriterAction::RecordFailure { hash, .. } if hash == "bad"));
    let action = w.on_message(ThumbMsg::Generated {
        hash: "last".to_string(),
        size: 300,
        data: vec![2],
    });
    match action {
        WriterAction::Flush(batch) => {
            assert_eq!(batch.len(), FLUSH_AT);
            assert_eq!(batch[0].hash, "h0");
            assert_eq!(batch[FLUSH_AT - 1].hash, "last");
            w.on_flushed(batch.len(), true);
        }
        _ => panic!("expected a flush"),
    }
    assert!(w.finish().is_none());
    w.on_message(ThumbMsg::Generated {
        hash: "x".to_string(),
        size: 512,
        data: vec![],
    });
    let rest = w.finish().unwrap();
    w.on_flushed(rest.len(), false);
    assert_eq!(w.written, FLUSH_AT);
}

#[test]
fn render_plans_and_cache_steps() {
    let scaled = ThumbnailSpec::ScaleSize(ThumbnailSize(300));
    assert_eq!(
        render_plan(scaled, true),
        RenderPlan::Scaled(ThumbnailSize(300))
    );
    assert_eq!(
        render_plan(scaled, false),
        RenderPlan::EditedScaled(ThumbnailSize(300))
    );
    assert_eq!(render_plan(ThumbnailSpec::FullSize, true), RenderPlan::Full);
    assert_eq!(
        render_plan(ThumbnailSpec::FullSize, false),
        RenderPlan::EditedFull
    );
    assert_eq!(fetch_next(FetchStep::Lookup, scaled, true), FetchStep::Found);
    assert_eq!(
        fetch_next(FetchStep::Lookup, scaled, false),
        FetchStep::Generate
    );
    assert_eq!(
        fetch_next(FetchStep::Generate, scaled, false),
        FetchStep::RecordFailure(ThumbnailSize(300))
    );
    assert_eq!(
        fetch_next(FetchStep::Generate, ThumbnailSpec::FullSize, false),
        FetchStep::Fail
    );
    assert_eq!(
        fetch_next(FetchStep::Generate, scaled, true),
        FetchStep::Store
    );
    assert_eq!(
        fetch_next(FetchStep::Store, scaled, true),
        FetchStep::ReadBack
    );
    assert_eq!(
        fetch_next(FetchStep::RecordFailure(ThumbnailSize(300)), scaled, true),
        FetchStep::Fail
    );
    assert_eq!(
        regenerate_thumbnails_for_image(&vec![0, 512]),
        vec![
            ThumbnailSpec::FullSize,
            ThumbnailSpec::ScaleSize(ThumbnailSize(512))
        ]
    );
    let abs = AbsolutePath("/lib/a.jpg".to_string());
    assert_eq!(edits_key(&abs, "/lib").unwrap().0, "a.jpg");
    assert!(edits_key(&abs, "/other").is_none());
    assert_eq!(writer_db_path("/lib"), "/lib/.imgfind/imgfind.db");
}

#[test]
fn thumbnail_batch_messages() {
    assert_eq!(
        batch_message(0, 300, 7),
        vec!["No images found that need thumbnails of size 300px"]
    );
    assert_eq!(
        batch_message(2, 300, 7),
        vec![
            "Generated 2 thumbnails of size 300px",
            "There are more images without thumbnails (7). Run the command again to generate more."
        ]
    );
    assert_eq!(
        batch_message(2, 512, 0)[1],
        "All images now have thumbnails of size 512px"
    );
}

#[test]
fn next_phase_walks_in_order_then_none() {
    let c = ProcessCounts {
        thumbs300: 0,
        embeddings: 0,
        full_thumbs: 0,
    };
    assert_eq!(c.next_phase(), None);

    let c = ProcessCounts {
        thumbs300: 0,
        embeddings: 3,
        full_thumbs: 5,
    };
    assert_eq!(c.next_phase(), Some(ProcessPhase::Embeddings));

    let c = ProcessCounts {
        thumbs300: 2,
        embeddings: 3,
        full_thumbs: 5,
    };
    assert_eq!(c.next_phase(), Some(ProcessPhase::Thumbnails300));

    let c = ProcessCounts {
        thumbs300: 0,
        embeddings: 0,
        full_thumbs: 4,
    };
    assert_eq!(c.next_phase(), Some(ProcessPhase::FullThumbnails));
}

#[test]
fn total_remaining_sums_all_phases() {
    let c = ProcessCounts {
        thumbs300: 1,
        embeddings: 2,
        full_thumbs: 3,
    };
    assert_eq!(c.total_remaining(), 6);

    let c = ProcessCounts {
        thumbs300: 0,
        embeddings: 0,
        full_thumbs: 0,
    };
    assert_eq!(c.total_remaining(), 0);

    let c = ProcessCounts {
        thumbs300: 10,
        embeddings: 0,
        full_thumbs: 0,
    };
    assert_eq!(c.total_remaining(), 10);
    assert_eq!(counts(1, 2, 3, 4).full_thumbs, 7);
}

#[test]
fn processing_runs_through_its_phases() {
    let sizes = vec![ThumbnailSize(512)];
    let t300 = Work::Thumbnails(ThumbnailSize(300));
    let t512 = Work::Thumbnails(ThumbnailSize(512));
    let mut run = ProcessRun::new(&sizes, true, true);
    assert_eq!(run.on_event(RunEvent::Start), RunAction::Count(t300));
    assert_eq!(run.phase(), Some(ProcessPhase::Thumbnails300));
    assert_eq!(
        run.on_event(RunEvent::Remaining(2)),
        RunAction::Generate(t300)
    );
    assert_eq!(run.on_event(RunEvent::BatchDone(1)), RunAction::Count(t300));
    assert_eq!(
        run.on_event(RunEvent::Remaining(1)),
        RunAction::Generate(t300)
    );
    // No forward progress: move on.
    assert_eq!(run.on_event(RunEvent::BatchDone(0)), RunAction::Backfill);
    assert_eq!(
        run.on_event(RunEvent::BackfillDone),
        RunAction::Count(Work::Embeddings)
    );
    assert_eq!(run.on_event(RunEvent::Remaining(0)), RunAction::Count(t512));
    assert_eq!(run.on_event(RunEvent::Remaining(0)), RunAction::Done);
    assert_eq!(run.on_event(RunEvent::Start), RunAction::Done);
    let mut run = ProcessRun::new(&sizes, false, false);
    run.on_event(RunEvent::Remaining(0));
    assert_eq!(
        run.on_event(RunEvent::BackfillDone),
        RunAction::Count(t512)
    );
    let mut run = ProcessRun::new(&sizes, true, false);
    run.on_event(RunEvent::Remaining(0));
    assert_eq!(
        run.on_event(RunEvent::BackfillDone),
        RunAction::Fail(ProcessError::EmbedderRequired)
    );
}

#[test]
fn single_batches_of_a_phase() {
    assert_eq!(
        process_next_batch(ProcessPhase::FullThumbnails, false).unwrap(),
        vec![
            Work::Thumbnails(ThumbnailSize(512)),
            Work::Thumbnails(ThumbnailSize(2048))
        ]
    );
    assert_eq!(
        process_next_batch(ProcessPhase::Embeddings, false),
        Err(ProcessError::EmbedderRequired)
    );
    assert_eq!(
        process_next_batch(ProcessPhase::Embeddings, true).unwrap(),
        vec![Work::Embeddings]
    );
    assert_eq!(
        process_next_batch(ProcessPhase::Thumbnails300, false)
            .unwrap()
            .len(),
        1
    );
    assert_eq!(count_successes(&vec![true, false, true]), 2);
}

#[test]
fn chunks_pending_respects_batch_size() {
    let items: Vec<u32> = (0..10).collect();
    let chunks: Vec<Vec<u32>> = chunk_pending(&items, 4).iter().map(|c| c.to_vec()).collect();
    assert_eq!(chunks.len(), 3);
    assert_eq!(chunks[0], vec![0, 1, 2, 3]);
    assert_eq!(chunks[2], vec![8, 9]);
}

#[test]
fn chunks_pending_empty_input_yields_no_chunks() {
    let items: Vec<u32> = vec![];
    assert_eq!(chunk_pending(&items, 4).len(), 0);
}

#[test]
fn chunks_pending_clamps_zero_batch_size_to_one() {
    let items: Vec<u32> = (0..3).collect();
    assert_eq!(chunk_pending(&items, 0).len(), 3);
}

#[test]
fn chunk_rows_leave_out_foreign_files() {
    let file = |p: &str| PendingFile {
        abs_path: p.to_string(),
        hash: format!("h{p}"),
    };
    let files = vec![file("/lib/a.jpg"), file("/other/b.jpg"), file("/lib/c/d.png")];
    let rows = chunk_rows(&files, "/lib");
    assert_eq!(rows.len(), 2);
    assert_eq!(rows[0].rel_path, "a.jpg");
    assert_eq!(rows[1].rel_path, "c/d.png");
    assert_eq!(rows[1].hash, "h/lib/c/d.png");
}

#[test]
fn index_runs_account_for_every_file() {
    let mut run = IndexRun::new(4);
    assert_eq!(run.after_hash(false, false), FileStep::Failed);
    assert_eq!(run.after_hash(true, false), FileStep::LookUp);
    assert_eq!(run.after_lookup(true), FileStep::Skipped);
    assert_eq!(run.after_hash(true, false), FileStep::LookUp);
    assert_eq!(run.after_lookup(false), FileStep::Pending);
    assert_eq!(run.after_hash(true, true), FileStep::Pending);
    run.after_chunk(2, 1, true);
    assert_eq!(
        (run.indexed, run.skipped, run.failed, run.pending),
        (1, 1, 2, 0)
    );
    assert_eq!(
        run.summary(),
        vec![
            "\nIndexing Summary:",
            "  \u{1f4c1} Total files found: 4",
            "  \u{2705} Newly indexed: 1",
            "  \u{23ed}\u{fe0f}  Already indexed (skipped): 1",
            "  \u{274c} Failed: 2",
            "",
        ]
    );
    let mut run = IndexRun::new(1);
    run.after_hash(true, true);
    run.after_chunk(1, 1, false);
    assert_eq!(run.failed, 1);
    assert_eq!(IndexRun::new(0).summary().len(), 5);
}

#[test]
fn metadata_backfill_reports() {
    let mut run = BackfillRun::new(3);
    run.on_image(true, true);
    run.on_image(true, false);
    run.on_image(false, false);
    assert_eq!((run.extracted, run.failed), (1, 2));
    assert_eq!(
        run.opening(false).unwrap(),
        "Found 3 images missing metadata, extracting..."
    );
    assert_eq!(
        run.closing(false),
        vec![
            "  \u{1f4ca} Metadata extracted: 1",
            "  \u{26a0}\u{fe0f}  Failed: 2"
        ]
    );
    assert!(run.opening(true).is_none());
    assert!(run.closing(true).is_empty());
    assert!(BackfillRun::new(0).opening(false).is_none());
}

#[test]
fn thumbnails_are_scaled_jpeg_files() {
    let bytes = scaled_jpeg(&blank(100, 50), ThumbnailSize(20)).unwrap();
    let back = image::load_from_memory_with_format(&bytes, ImageFormat::Jpeg).unwrap();
    assert_eq!((back.width(), back.height()), (20, 10));
    let bytes = full_jpeg(&blank(7, 3)).unwrap();
    let back = image::load_from_memory_with_format(&bytes, ImageFormat::Jpeg).unwrap();
    assert_eq!((back.width(), back.height()), (7, 3));
    assert_eq!(
        scaled_jpeg(&blank(2, 2), ThumbnailSize(65536)),
        Err(EncodeError::InvalidSize)
    );
    // A size of zero leaves one pixel; a picture without pixels is scaled to
    // one, whatever the size, but not to none.
    let size_of = |bytes: Vec<u8>| {
        let back = image::load_from_memory_with_format(&bytes, ImageFormat::Jpeg).unwrap();
        (back.width(), back.height())
    };
    let tiny = scaled_jpeg(&blank(30, 20), ThumbnailSize(0)).unwrap();
    assert_eq!(size_of(tiny), (1, 1));
    let filled = scaled_jpeg(&blank(0, 0), ThumbnailSize(300)).unwrap();
    assert_eq!(size_of(filled), (1, 1));
    let filled = scaled_jpeg(&blank(0, 0), ThumbnailSize(65536)).unwrap();
    assert_eq!(size_of(filled), (1, 1));
    assert_eq!(
        scaled_jpeg(&blank(0, 0), ThumbnailSize(0)),
        Err(EncodeError::InvalidSize)
    );
    // A square of the asked size is encoded as it is.
    assert_eq!(
        scaled_jpeg(&blank(9, 9), ThumbnailSize(9)),
        full_jpeg(&blank(9, 9))
    );
    assert_eq!(full_jpeg(&blank(0, 0)), Err(EncodeError::InvalidSize));
    assert_eq!(full_jpeg(&blank(65536, 1)), Err(EncodeError::InvalidSize));
    // A buffer that is longer than its picture is encoded like any other.
    let long = RgbImage::from_raw(2, 2, vec![0; 100]).unwrap();
    let bytes = scaled_jpeg(&DynamicImage::ImageRgb8(long), ThumbnailSize(2)).unwrap();
    let back = image::load_from_memory_with_format(&bytes, ImageFormat::Jpeg).unwrap();
    assert_eq!((back.width(), back.height()), (2, 2));
}

#[test]
fn index_messages() {
    assert_eq!(check_target(true, true), Ok(()));
    assert_eq!(check_target(true, false), Err(TargetError::NotADirectory));
    assert_eq!(check_target(false, false), Err(TargetError::Missing));
    assert_eq!(index_opening("/p"), "Indexing directory: /p");
    assert_eq!(
        config_loaded(3),
        "Loaded configuration with 3 ignore patterns"
    );
    assert_eq!(SCANNING, "Scanning for image files...");
    assert_eq!(
        scan_closing(0),
        vec!["No image files found in the specified directory."]
    );
    assert_eq!(
        scan_closing(12),
        vec!["Found 12 image files", "Processing images..."]
    );
}

#[test]
fn identity_thumbnail_matches_plain_decode() {
    let img = DynamicImage::ImageRgb8(RgbImage::from_pixel(80, 80, Rgb([90, 90, 90])));
    assert_eq!(
        render_plan(ThumbnailSpec::ScaleSize(ThumbnailSize(64)), true),
        RenderPlan::Scaled(ThumbnailSize(64))
    );
    let via_seam = scaled_jpeg(&img, ThumbnailSize(64)).unwrap();
    let resized = img.resize(64, 64, image::imageops::FilterType::Lanczos3);
    let mut want = Vec::new();
    resized
        .write_to(&mut std::io::Cursor::new(&mut want), ImageFormat::Jpeg)
        .unwrap();
    assert_eq!(via_seam, want);
    // The same for a picture with something to see, and not a square.
    let img = DynamicImage::ImageRgb8(RgbImage::from_fn(90, 50, |x, y| {
        Rgb([(x * 2) as u8, (y * 5) as u8, (x + y) as u8])
    }));
    let mut want = Vec::new();
    img.resize(64, 64, image::imageops::FilterType::Lanczos3)
        .write_to(&mut std::io::Cursor::new(&mut want), ImageFormat::Jpeg)
        .unwrap();
    assert_eq!(scaled_jpeg(&img, ThumbnailSize(64)).unwrap(), want);
}

#[test]
fn small_file_uses_md5_32_hex_stable_and_content_sensitive() {
    let hash = |bytes: &[u8]| hash_file(FastHash::TooSmall, Some(bytes)).expect("hash small file");
    let contents = b"small file contents that are well under 128 KB";
    let h1 = hash(contents);
    let h2 = hash(contents);
    assert_eq!(h1.len(), 32, "md5 hex is 32 chars, got {h1:?}");
    assert!(h1
        .chars()
        .all(|c| c.is_ascii_hexdigit() && !c.is_ascii_uppercase()));
    assert_eq!(h1, h2, "md5 must be stable for identical content");
    let h3 = hash(b"different small contents");
    assert_ne!(h1, h3, "different content must hash differently");
}
