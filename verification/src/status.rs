//! The status report of a database.

use vstd::prelude::*;
use vstd::string::*;
use crate::paths::AbsolutePath;
use crate::processing::ProcessCounts;
use crate::text::{decimal, push_decimal, push_signed_decimal, signed_decimal, texts};

verus! {

/// How many sample images are shown.
pub const SAMPLE_SIZE: usize = 5;

/// The lines of the samples, numbered from 1.
pub open spec fn sample_lines(paths: Seq<AbsolutePath>) -> Seq<Seq<char>> {
    Seq::new(paths.len(), |i: int| "  "@ + decimal((i + 1) as nat) + ". "@ + paths[i].0@)
}

/// The part of the report on the indexed images.
pub open spec fn image_lines(total: i64, sample: Seq<AbsolutePath>) -> Seq<Seq<char>> {
    seq!["Total indexed images: "@ + signed_decimal(total as int)] + if total > 0 {
        seq!["\nSample images:"@] + sample_lines(sample) + if total > SAMPLE_SIZE {
            seq!["  ... and "@ + signed_decimal(total - SAMPLE_SIZE) + " more"@]
        } else {
            Seq::empty()
        }
    } else {
        Seq::empty()
    }
}

/// The part of the report on what is left to process.
pub open spec fn work_lines(c: ProcessCounts) -> Seq<Seq<char>> {
    seq![
        "\nUnprocessed:"@,
        "  300px thumbnails: "@ + decimal(c.thumbs300 as nat),
        "  Embeddings: "@ + decimal(c.embeddings as nat),
        "  512px and 2048px thumbnails: "@ + decimal(c.full_thumbs as nat),
    ]
}

/// The part of the report on the size of the database file, where it is known.
pub open spec fn size_lines(megabytes: Option<&str>) -> Seq<Seq<char>> {
    match megabytes {
        Some(mb) => seq!["\nDatabase size: "@ + mb@ + " MB"@],
        None => Seq::empty(),
    }
}

/// The whole report.
pub open spec fn report_lines(
    db_path: Seq<char>,
    total: i64,
    sample: Seq<AbsolutePath>,
    counts: ProcessCounts,
    megabytes: Option<&str>,
) -> Seq<Seq<char>> {
    seq!["Database: "@ + db_path, "imgfind Database Status"@, "======================"@]
        + image_lines(total, sample) + work_lines(counts) + size_lines(megabytes) + seq![""@]
}

fn push_line(lines: &mut Vec<String>, line: String)
    ensures
        texts(final(lines)@) == texts(old(lines)@) + seq![line@],
{
    let ghost before = lines@;
    lines.push(line);
    assert(texts(lines@) == texts(before) + seq![line@]);
}

fn count_line(label: &str, n: usize) -> (r: String)
    ensures
        r@ == label@ + decimal(n as nat),
{
    let mut out: String = label.to_owned();
    push_decimal(&mut out, n as u64);
    out
}

fn push_samples(lines: &mut Vec<String>, sample: &Vec<AbsolutePath>)
    requires
        sample@.len() < usize::MAX,
    ensures
        texts(final(lines)@) == texts(old(lines)@) + sample_lines(sample@),
{
    let ghost before = texts(lines@);
    let ghost all = sample_lines(sample@);
    let mut i: usize = 0;
    assert(before + all.take(0) == before);
    while i < sample.len()
        invariant
            i <= sample@.len() < usize::MAX,
            all == sample_lines(sample@),
            texts(lines@) == before + all.take(i as int),
        decreases sample@.len() - i,
    {
        let mut line: String = count_line("  ", i + 1);
        line.append(". ");
        line.append(sample[i].as_str());
        push_line(lines, line);
        assert(all.take(i + 1) == all.take(i as int) + seq![all[i as int]]);
        assert(before + all.take(i + 1) == (before + all.take(i as int)) + seq![all[i as int]]);
        i = i + 1;
    }
    assert(all.take(i as int) == all);
}

/// The status report of the database at `db_path`: how many images are
/// indexed, the newest few of them, what is left to process, and the size of
/// the file in megabytes where it is known.
pub fn show_status(
    db_path: &str,
    total: i64,
    sample: &Vec<AbsolutePath>,
    counts: ProcessCounts,
    megabytes: Option<&str>,
) -> (r: Vec<String>)
    requires
        sample@.len() < usize::MAX,
    ensures
        texts(r@) == report_lines(db_path@, total, sample@, counts, megabytes),
{
    let mut lines: Vec<String> = vec![
        "Database: ".to_owned().concat(db_path),
        "imgfind Database Status".to_owned(),
        "======================".to_owned(),
    ];
    let ghost head = texts(lines@);
    assert(head == seq![
        "Database: "@ + db_path@,
        "imgfind Database Status"@,
        "======================"@,
    ]);
    let mut indexed: String = "Total indexed images: ".to_owned();
    push_signed_decimal(&mut indexed, total);
    push_line(&mut lines, indexed);
    if total > 0 {
        push_line(&mut lines, "\nSample images:".to_owned());
        push_samples(&mut lines, sample);
        if total > SAMPLE_SIZE as i64 {
            let mut more: String = "  ... and ".to_owned();
            push_signed_decimal(&mut more, total - SAMPLE_SIZE as i64);
            more.append(" more");
            push_line(&mut lines, more);
        }
    }
    assert(texts(lines@) == head + image_lines(total, sample@));
    let ghost so_far = texts(lines@);
    push_line(&mut lines, "\nUnprocessed:".to_owned());
    push_line(&mut lines, count_line("  300px thumbnails: ", counts.thumbs300));
    push_line(&mut lines, count_line("  Embeddings: ", counts.embeddings));
    push_line(&mut lines, count_line("  512px and 2048px thumbnails: ", counts.full_thumbs));
    assert(texts(lines@) == so_far + work_lines(counts));
    let ghost so_far = texts(lines@);
    if let Some(mb) = megabytes {
        push_line(&mut lines, "\nDatabase size: ".to_owned().concat(mb).concat(" MB"));
    }
    assert(texts(lines@) == so_far + size_lines(megabytes));
    push_line(&mut lines, "".to_owned());
    lines
}

/// The report accounts for every indexed image: the samples are listed in
/// order and counted from 1, and where there are more images than samples are
/// asked for, the last line says how many more. Without images there are no
/// samples.
pub proof fn samples_are_listed_in_order(total: i64, sample: Seq<AbsolutePath>)
    ensures
        ({
            let lines = image_lines(total, sample);
            &&& lines[0] == "Total indexed images: "@ + signed_decimal(total as int)
            &&& total <= 0 ==> lines.len() == 1
            &&& 0 < total <= 5 ==> lines.len() == 2 + sample.len()
            &&& total > 5 ==> lines.len() == 3 + sample.len() && lines.last() == "  ... and "@
                + signed_decimal(total - 5) + " more"@
            &&& total > 0 ==> forall|i: int|
                0 <= i < sample.len() ==> #[trigger] lines[2 + i] == "  "@ + decimal(
                    (i + 1) as nat,
                ) + ". "@ + sample[i].0@
        }),
{
}

/// Each kind of work that is left has a line of its own with its own number,
/// in the order in which the work is done.
pub proof fn every_kind_of_work_is_reported(c: ProcessCounts)
    ensures
        work_lines(c).len() == 4,
        work_lines(c)[1] == "  300px thumbnails: "@ + decimal(c.thumbs300 as nat),
        work_lines(c)[2] == "  Embeddings: "@ + decimal(c.embeddings as nat),
        work_lines(c)[3] == "  512px and 2048px thumbnails: "@ + decimal(c.full_thumbs as nat),
{
}

/// The report names the database first, then gives its images, then the work
/// that is left, then its size where that is known.
pub proof fn the_report_is_complete(
    db_path: Seq<char>,
    total: i64,
    sample: Seq<AbsolutePath>,
    counts: ProcessCounts,
    megabytes: Option<&str>,
)
    ensures
        ({
            let lines = report_lines(db_path, total, sample, counts, megabytes);
            let images = image_lines(total, sample).len() as int;
            &&& lines[0] == "Database: "@ + db_path
            &&& lines.subrange(3, 3 + images) == image_lines(total, sample)
            &&& lines.subrange(3 + images, 7 + images) == work_lines(counts)
            &&& megabytes matches Some(mb) ==> lines.len() == 9 + images && lines[7 + images]
                == "\nDatabase size: "@ + mb@ + " MB"@
            &&& megabytes is None ==> lines.len() == 8 + images
        }),
{
    let lines = report_lines(db_path, total, sample, counts, megabytes);
    let images = image_lines(total, sample).len() as int;
    assert(lines.subrange(3, 3 + images) == image_lines(total, sample));
    assert(lines.subrange(3 + images, 7 + images) == work_lines(counts));
}

} // verus!
