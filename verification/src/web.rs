//! The web front end's rules: which embedded asset a request path names, with
//! which content type it is sent, and how request parameters are read.

use vstd::prelude::*;
use vstd::string::*;
use crate::text::{chars_of, decimal, decimal_is_digits, digit, string_of};

verus! {

/// A path of the embedded site.
pub struct StaticFile<T>(pub T);

/// The place of the first character that is not a slash.
pub open spec fn leading_slashes(s: Seq<char>) -> int
    decreases s.len(),
{
    if s.len() == 0 || s[0] != '/' {
        0
    } else {
        1 + leading_slashes(s.skip(1))
    }
}

/// `s` with every occurrence of `dist/` taken out, from left to right.
pub open spec fn without_dist(s: Seq<char>) -> Seq<char>
    decreases s.len(),
{
    if s.len() == 0 {
        Seq::empty()
    } else if begins_with_dist(s) {
        without_dist(s.skip(5))
    } else {
        seq![s[0]] + without_dist(s.skip(1))
    }
}

/// Whether `s` begins with `dist/`.
pub open spec fn begins_with_dist(s: Seq<char>) -> bool {
    s.len() >= 5 && s[0] == 'd' && s[1] == 'i' && s[2] == 's' && s[3] == 't' && s[4] == '/'
}

/// The asset that a request path names: the path without its leading slashes,
/// and, where that begins with `dist/`, without any `dist/`.
pub open spec fn asset_of(path: Seq<char>) -> Seq<char> {
    let rest = path.skip(leading_slashes(path));
    if begins_with_dist(rest) {
        without_dist(rest)
    } else {
        rest
    }
}

proof fn leading_slashes_bounds(s: Seq<char>)
    ensures
        0 <= leading_slashes(s) <= s.len(),
    decreases s.len(),
{
    if s.len() > 0 && s[0] == '/' {
        leading_slashes_bounds(s.skip(1));
    }
}

fn dist_at(s: &Vec<char>, i: usize) -> (r: bool)
    requires
        i <= s@.len(),
    ensures
        r == begins_with_dist(s@.skip(i as int)),
{
    if s.len() - i < 5 {
        return false;
    }
    s[i] == 'd' && s[i + 1] == 'i' && s[i + 2] == 's' && s[i + 3] == 't' && s[i + 4] == '/'
}

/// The embedded asset that a request path names.
pub fn static_handler(path: &str) -> (r: StaticFile<String>)
    ensures
        r.0@ == asset_of(path@),
{
    let s: Vec<char> = chars_of(path);
    let mut i: usize = 0;
    proof {
        leading_slashes_bounds(s@);
        assert(s@.skip(0) == s@);
    }
    while i < s.len() && s[i] == '/'
        invariant
            i <= s@.len(),
            leading_slashes(s@) == i + leading_slashes(s@.skip(i as int)),
        decreases s@.len() - i,
    {
        assert(s@.skip(i as int).skip(1) == s@.skip(i + 1));
        i = i + 1;
    }
    let ghost rest = s@.skip(i as int);
    assert(leading_slashes(rest) == 0);
    if !dist_at(&s, i) {
        assert(s@.subrange(i as int, s@.len() as int) == rest);
        return StaticFile(string_of(&s, i, s.len()));
    }
    let mut out: Vec<char> = Vec::new();
    assert(out@ + without_dist(rest) == without_dist(rest));
    while i < s.len()
        invariant
            i <= s@.len(),
            out@ + without_dist(s@.skip(i as int)) == without_dist(rest),
        decreases s@.len() - i,
    {
        let ghost here = s@.skip(i as int);
        if dist_at(&s, i) {
            assert(here.skip(5) == s@.skip(i + 5));
            i = i + 5;
        } else {
            let ghost before = out@;
            out.push(s[i]);
            proof {
                assert(here.skip(1) == s@.skip(i + 1));
                assert(without_dist(here) == seq![here[0]] + without_dist(here.skip(1)));
                assert(out@ + without_dist(here.skip(1)) == before + (seq![here[0]] + without_dist(
                    here.skip(1),
                )));
            }
            i = i + 1;
        }
    }
    assert(out@ + without_dist(s@.skip(i as int)) == out@);
    assert(out@.subrange(0, out@.len() as int) == out@);
    StaticFile(string_of(&out, 0, out.len()))
}

/// The content type that the `mime_guess` crate gives a path by its extension.
pub uninterp spec fn guessed_type(path: Seq<char>) -> Seq<char>;

/// Trusted: `mime_guess::from_path` and `first_or_octet_stream`, as text.
#[verifier::external_body]
fn guess_type(path: &str) -> (r: String)
    ensures
        r@ == guessed_type(path@),
        r@.len() > 0,
{
    mime_guess::from_path(path).first_or_octet_stream().as_ref().to_string()
}

/// How a request for an asset is answered.
#[derive(Debug, PartialEq)]
pub enum Answer {
    /// With the asset, under this content type.
    Found { content_type: String },
    /// With status 404 and this text.
    NotFound { body: &'static str },
}

/// How a request for the asset at `path` is answered, given whether the site
/// holds it.
pub fn into_response(path: &str, embedded: bool) -> (r: Answer)
    ensures
        match r {
            Answer::Found { content_type } => embedded && content_type@ == guessed_type(path@),
            Answer::NotFound { body } => !embedded && body@ == "404 Not Found"@,
        },
{
    if embedded {
        Answer::Found { content_type: guess_type(path) }
    } else {
        Answer::NotFound { body: "404 Not Found" }
    }
}

/// A failure that a request is answered with.
#[derive(Debug, Clone)]
pub struct AppError {
    /// What went wrong, in detail.
    pub detail: String,
}

impl AppError {
    /// Status and body of the answer.
    pub fn into_response(&self) -> (r: (u16, String))
        ensures
            r.0 == 500,
            r.1@ == "Something went wrong: "@ + self.detail@,
    {
        (500, "Something went wrong: ".to_owned().concat(self.detail.as_str()))
    }
}

/// Whether every character is a decimal digit.
pub open spec fn all_digits(s: Seq<char>) -> bool {
    forall|i: int| 0 <= i < s.len() ==> '0' <= #[trigger] s[i] && s[i] <= '9'
}

/// The number that some digits write.
pub open spec fn digits_value(s: Seq<char>) -> nat
    decreases s.len(),
{
    if s.len() == 0 {
        0
    } else {
        digits_value(s.drop_last()) * 10 + (s.last() as u32 - 48) as nat
    }
}

/// The 32-bit number that a text writes: digits, behind a plus sign if any.
pub open spec fn number_in(s: Seq<char>) -> Option<u32> {
    let d = if s.len() > 0 && s[0] == '+' {
        s.skip(1)
    } else {
        s
    };
    if d.len() > 0 && all_digits(d) && digits_value(d) <= u32::MAX {
        Some(digits_value(d) as u32)
    } else {
        None
    }
}

proof fn digits_value_grows(s: Seq<char>, n: int)
    requires
        0 <= n <= s.len(),
        all_digits(s),
    ensures
        digits_value(s.take(n)) <= digits_value(s),
    decreases s.len(),
{
    if n == s.len() {
        assert(s.take(n) == s);
    } else {
        assert(s.drop_last().take(n) == s.take(n));
        digits_value_grows(s.drop_last(), n);
    }
}

/// The number that a text writes.
pub fn parse_number(text: &str) -> (r: Option<u32>)
    ensures
        r == number_in(text@),
{
    let s: Vec<char> = chars_of(text);
    let start: usize = if s.len() > 0 && s[0] == '+' { 1 } else { 0 };
    let ghost d = s@.skip(start as int);
    proof {
        if start == 0 {
            assert(s@.skip(0) == s@);
        }
    }
    if s.len() == start {
        return None;
    }
    let mut value: u64 = 0;
    let mut i: usize = start;
    assert(d.take(0) == Seq::<char>::empty());
    while i < s.len()
        invariant
            start <= i <= s@.len(),
            d == s@.skip(start as int),
            value <= u32::MAX,
            all_digits(d.take(i - start)),
            value == digits_value(d.take(i - start)),
            d == if text@.len() > 0 && text@[0] == '+' {
                text@.skip(1)
            } else {
                text@
            },
        decreases s@.len() - i,
    {
        let c: char = s[i];
        let ghost k = i - start;
        assert(d[k] == c);
        assert(d.take(k + 1).drop_last() == d.take(k));
        assert(d.take(k + 1).last() == c);
        if !('0' <= c && c <= '9') {
            assert(!all_digits(d));
            return None;
        }
        value = value * 10 + (c as u64 - 48);
        assert(all_digits(d.take(k + 1))) by {
            assert forall|j: int| 0 <= j < k + 1 implies '0' <= #[trigger] d.take(k + 1)[j]
                && d.take(k + 1)[j] <= '9' by {
                if j < k {
                    assert(d.take(k + 1)[j] == d.take(k)[j]);
                }
            }
        }
        assert(value == digits_value(d.take(k + 1)));
        if value > u32::MAX as u64 {
            proof {
                if all_digits(d) {
                    digits_value_grows(d, k + 1);
                }
            }
            return None;
        }
        i = i + 1;
    }
    assert(d.take(i - start) == d);
    Some(value as u32)
}

/// The size that a thumbnail request asks for; 300 where it is no number.
pub fn thumb_size(text: &str) -> (r: u32)
    ensures
        r == match number_in(text@) {
            Some(n) => n,
            None => 300,
        },
{
    match parse_number(text) {
        Some(n) => n,
        None => 300,
    }
}

/// The number of results of a plain API search.
pub const API_SEARCH_LIMIT: usize = 80;

/// The page that a GraphQL search asks for: limit and offset, with their
/// defaults.
pub fn search_page(limit: Option<i32>, offset: Option<i32>) -> (r: (usize, usize))
    ensures
        r.0 == match limit {
            Some(n) => n as usize,
            None => 80,
        },
        r.1 == match offset {
            Some(n) => n as usize,
            None => 0,
        },
{
    (
        match limit {
            Some(n) => n as usize,
            None => 80,
        },
        match offset {
            Some(n) => n as usize,
            None => 0,
        },
    )
}

proof fn digits_write_their_number(n: nat)
    ensures
        digits_value(decimal(n)) == n,
        decimal(n).len() > 0,
    decreases n,
{
    if n < 10 {
        assert(decimal(n).drop_last() == Seq::<char>::empty());
        assert(digits_value(Seq::<char>::empty()) == 0);
        assert(decimal(n).last() == digit(n));
        assert(digit(n) as u32 - 48 == n);
    } else {
        digits_write_their_number(n / 10);
        assert(decimal(n).last() == digit(n % 10));
        assert(digit(n % 10) as u32 - 48 == n % 10);
        assert(decimal(n).drop_last() == decimal(n / 10));
    }
}

/// A number that was written in base ten is read back, with or without a
/// plus sign before it; one that does not fit into 32 bits is not.
pub proof fn written_numbers_are_read_back(n: nat)
    ensures
        n <= u32::MAX ==> number_in(decimal(n)) == Some(n as u32),
        n <= u32::MAX ==> number_in(seq!['+'] + decimal(n)) == Some(n as u32),
        n > u32::MAX ==> number_in(decimal(n)) is None,
        number_in(seq!['-'] + decimal(n)) is None,
{
    digits_write_their_number(n);
    decimal_is_digits(n);
    let plus = seq!['+'] + decimal(n);
    assert(plus.skip(1) == decimal(n));
    let minus = seq!['-'] + decimal(n);
    assert(minus[0] == '-');
    assert(decimal(n)[0] != '+');
}

/// A text with a character that is no digit, other than a leading plus sign,
/// writes no number.
pub proof fn only_digits_write_numbers(s: Seq<char>, i: int)
    requires
        0 <= i < s.len(),
        !('0' <= s[i] && s[i] <= '9'),
        !(i == 0 && s[i] == '+'),
    ensures
        number_in(s) is None,
{
    if s[0] == '+' {
        assert(s.skip(1)[i - 1] == s[i]);
    }
}

/// Leading slashes make no difference to which asset is meant.
pub proof fn leading_slashes_make_no_difference(path: Seq<char>)
    ensures
        asset_of(seq!['/'] + path) == asset_of(path),
{
    let more = seq!['/'] + path;
    assert(more.skip(1) == path);
    leading_slashes_bounds(path);
    assert(more.skip(leading_slashes(more)) == path.skip(leading_slashes(path)));
}

/// A path without a leading slash names itself, unless it begins with
/// `dist/`.
pub proof fn plain_paths_name_themselves(path: Seq<char>)
    requires
        path.len() == 0 || path[0] != '/',
        !begins_with_dist(path),
    ensures
        asset_of(path) == path,
{
    assert(path.skip(0) == path);
}

proof fn nothing_to_take_out(s: Seq<char>)
    requires
        forall|i: int| 0 <= i <= s.len() ==> !begins_with_dist(#[trigger] s.skip(i)),
    ensures
        without_dist(s) == s,
    decreases s.len(),
{
    if s.len() > 0 {
        assert(s.skip(0) == s);
        let rest = s.skip(1);
        assert forall|i: int| 0 <= i <= rest.len() implies !begins_with_dist(
            #[trigger] rest.skip(i),
        ) by {
            assert(rest.skip(i) == s.skip(i + 1));
        }
        nothing_to_take_out(rest);
        assert(seq![s[0]] + rest == s);
    }
}

/// The directory `dist` is not part of an asset's name: a path within it
/// names what stands behind it, and so does that path on its own.
pub proof fn dist_is_not_part_of_the_name(rest: Seq<char>)
    requires
        forall|i: int| 0 <= i <= rest.len() ==> !begins_with_dist(#[trigger] rest.skip(i)),
    ensures
        asset_of("dist/"@ + rest) == rest,
        rest.len() == 0 || rest[0] != '/' ==> asset_of(rest) == rest,
{
    reveal_strlit("dist/");
    let path = "dist/"@ + rest;
    assert(path.skip(0) == path);
    assert(path.skip(5) == rest);
    nothing_to_take_out(rest);
    assert(rest.skip(0) == rest);
}

} // verus!
