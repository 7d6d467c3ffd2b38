//! The texts of the terminal UI.

use vstd::prelude::*;
use vstd::string::*;
use crate::text::{decimal, push_decimal, texts};

verus! {

/// Single source of truth for the help overlay. One entry per binding.
pub const KEYBINDINGS: [&'static str; 10] = [
    "e          edit search",
    "h/j/k/l    move focus",
    "H/L        previous / next page",
    "1-9        zoom that image",
    "Enter      zoom focused image",
    "Esc        close zoom / help",
    "scroll     zoom in/out (in zoom view)",
    "right-click reset zoom",
    "?          toggle this help",
    "q / Ctrl-C quit",
];

/// The lines of the help overlay.
pub fn keybindings_help() -> (r: Vec<String>)
    ensures
        texts(r@) == KEYBINDINGS@.map_values(|s: &str| s@),
{
    let mut out: Vec<String> = Vec::new();
    let ghost want = KEYBINDINGS@.map_values(|s: &str| s@);
    let mut i: usize = 0;
    assert(texts(out@) == want.take(0));
    while i < KEYBINDINGS.len()
        invariant
            i <= KEYBINDINGS@.len(),
            want == KEYBINDINGS@.map_values(|s: &str| s@),
            texts(out@) == want.take(i as int),
        decreases KEYBINDINGS@.len() - i,
    {
        let ghost before = out@;
        out.push(KEYBINDINGS[i].to_owned());
        proof {
            assert(texts(out@) == texts(before).push(want[i as int]));
            assert(want.take(i + 1) == want.take(i as int).push(want[i as int]));
        }
        i = i + 1;
    }
    assert(want.take(i as int) == want);
    out
}

/// The number of pages that some results fill, at least one.
pub open spec fn page_count(results: int) -> int {
    if results == 0 {
        1
    } else {
        (results + 8) / 9
    }
}

/// The line under the grid: which page is shown, of how many.
pub fn pagination_text(page: usize, result_count: usize) -> (r: String)
    requires
        page < usize::MAX,
    ensures
        r@ == "Page "@ + decimal((page + 1) as nat) + "/"@ + decimal(
            page_count(result_count as int) as nat,
        ) + " ("@ + decimal(result_count as nat) + " results) [H prev | L next]"@,
{
    let mut out: String = "Page ".to_owned();
    push_decimal(&mut out, page as u64 + 1);
    out.append("/");
    let pages: usize = if result_count == 0 {
        1
    } else if result_count % 9 == 0 {
        result_count / 9
    } else {
        result_count / 9 + 1
    };
    push_decimal(&mut out, pages as u64);
    out.append(" (");
    push_decimal(&mut out, result_count as u64);
    out.append(" results) [H prev | L next]");
    out
}

/// The title of the search box.
pub fn search_title(last_search: Option<&str>, is_searching: bool) -> (r: String)
    ensures
        r@ == match last_search {
            Some(query) => if is_searching {
                "Search query (searching '"@ + query@ + "'...)"@
            } else {
                "Search query (current: "@ + query@ + ")"@
            },
            None => "Search query"@,
        },
{
    match last_search {
        Some(query) => {
            if is_searching {
                "Search query (searching '".to_owned().concat(query).concat("'...)")
            } else {
                "Search query (current: ".to_owned().concat(query).concat(")")
            }
        },
        None => "Search query".to_owned(),
    }
}

/// The size of the help box: its text with a little padding for borders, and
/// never more than the screen.
pub fn help_size(longest_line: u16, lines: u16, area_width: u16, area_height: u16) -> (r: (u16, u16))
    requires
        longest_line + 4 <= u16::MAX,
        lines + 2 <= u16::MAX,
    ensures
        r.0 == if longest_line + 4 < area_width {
            longest_line + 4
        } else {
            area_width as int
        },
        r.1 == if lines + 2 < area_height {
            lines + 2
        } else {
            area_height as int
        },
{
    let width: u16 = longest_line + 4;
    let height: u16 = lines + 2;
    (
        if width < area_width {
            width
        } else {
            area_width
        },
        if height < area_height {
            height
        } else {
            area_height
        },
    )
}

/// The pages hold all results, and none of them is empty but the one that is
/// shown where there is nothing.
pub proof fn the_pages_hold_all_results(results: int)
    requires
        results >= 0,
    ensures
        page_count(results) >= 1,
        results <= 9 * page_count(results),
        results > 0 ==> 9 * (page_count(results) - 1) < results,
        results == 0 ==> page_count(results) == 1,
{
}

} // verus!
