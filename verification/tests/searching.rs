//! Searching, its report, the web front end, the terminal UI, session state.

use imgfind::database::Database;
use imgfind::filters::Filters;
use imgfind::search::{
    absolute_paths, clean_message, empty_database_message, filter_results, search_report,
    search_with_thumbnails, Hit, Output, RawHit, SearchEngine, ShownHit,
};
use imgfind::sort::Sort;
use imgfind::paths::AbsolutePath;
use imgfind::processing::ProcessCounts;
use imgfind::status::show_status;
use imgfind::tui::app::{
    App, AppEffect, AppEvent, Cell, FocalChange, InputMode, Key, KeyAction, MouseKind, ZoomEffect,
    ZoomedImage,
};
use imgfind::tui::focus::{calculate_new_focus_index, FocusDirection};
use imgfind::tui::layout::{clicked_area, nine_block, Area};
use imgfind::tui::results::{handle_search, FoundImage, SearchResult, ThumbnailOutcome};
use imgfind::tui::ui::{help_size, keybindings_help, pagination_text, search_title};
use imgfind::ui_state::{default_true, PersistedMode, TagBrush, UiState};
use imgfind::units::MaxK;
use imgfind::web::{
    into_response, parse_number, search_page, static_handler, thumb_size, Answer, AppError,
};

fn hit(path: &str) -> Hit {
    Hit {
        path: path.to_string(),
        distance_bits: 0.9f32.to_bits(),
    }
}

/// Filters as a search does: paths are resolved against `parent_dir`.
fn filtered(path: &str, parent_dir: &str, current_dir: &str, all: bool) -> usize {
    let hits = vec![hit(path)];
    let real = absolute_paths(&hits, parent_dir);
    filter_results(&hits, &real, current_dir, all, 10).len()
}

#[test]
fn filter_results_uses_parent_dir_not_cwd() {
    assert_eq!(filtered("main.rs", "/work/src", "/work/src", false), 1);
}

#[test]
fn filter_results_includes_nested_subdirectory() {
    assert_eq!(filtered("src/main.rs", "/work", "/work", false), 1);
}

#[test]
fn filter_results_excludes_when_current_dir_differs() {
    assert_eq!(filtered("Cargo.toml", "/work", "/tmp", false), 0);
}

#[test]
fn filter_results_all_bypasses_directory_filter() {
    assert_eq!(filtered("Cargo.toml", "/work", "/tmp", true), 1);
}

#[test]
fn filter_results_stops_at_the_limit() {
    let hits = vec![hit("a"), hit("x/b"), hit("c")];
    let real = absolute_paths(&hits, "/w");
    let got = filter_results(&hits, &real, "/w", false, 2);
    assert_eq!(got.len(), 2);
    assert_eq!(got[1].path, "x/b");
    let got = filter_results(&hits, &real, "/w/x", false, 2);
    assert_eq!(got.len(), 1);
    assert_eq!(got[0].path, "x/b");
    assert!(filter_results(&hits, &real, "/w", true, 0).is_empty());
}

fn shown(path: &str, similarity: &str) -> ShownHit {
    ShownHit {
        path: path.to_string(),
        similarity: similarity.to_string(),
    }
}

fn line(s: &str) -> Output {
    Output::Line(s.to_string())
}

#[test]
fn search_reports() {
    let hits = vec![shown("a.jpg", "0.9000")];
    assert_eq!(
        search_report(&hits, "cat", false, true, false, "/lib"),
        vec![
            line("\nFound 1 result for \"cat\" in the database:\n"),
            line(&format!("  1. {:<60} (similarity: 0.9000)", "a.jpg")),
            line(""),
        ]
    );
    let hits = vec![shown("a.jpg", "0.9000"), shown("b.jpg", "0.8000")];
    assert_eq!(
        search_report(&hits, "cat", true, false, true, "/lib"),
        vec![
            line("a.jpg"),
            Output::Picture("/lib/a.jpg".to_string()),
            line("b.jpg"),
            Output::Picture("/lib/b.jpg".to_string()),
        ]
    );
    let report = search_report(&hits, "cat", false, false, false, "/lib");
    assert_eq!(
        report[0],
        line("\nFound 2 results for \"cat\" in the current directory and subdirectories:\n")
    );
    let none: Vec<ShownHit> = vec![];
    assert!(search_report(&none, "cat", true, true, false, "/lib").is_empty());
    assert_eq!(
        search_report(&none, "cat", false, true, false, "/lib")[0],
        line("No images found matching the query \"cat\".")
    );
    assert_eq!(
        search_report(&none, "cat", false, false, false, "/lib")[0],
        line("No images found matching the query \"cat\" in the current directory or subdirectories.")
    );
    assert_eq!(empty_database_message(false).len(), 2);
    assert!(empty_database_message(true).is_empty());
    assert_eq!(
        clean_message(0),
        "Database is clean - no missing files found."
    );
    assert_eq!(clean_message(3), "Removed 3 entries for missing files.");
}

#[test]
fn long_paths_and_ranks_are_not_cut() {
    let long = "p".repeat(70);
    let mut hits = Vec::new();
    for _ in 0..1000 {
        hits.push(shown(&long, "0.1"));
    }
    let report = search_report(&hits, "x", false, true, false, "/");
    assert_eq!(
        report[1000],
        line(&format!("1000. {long} (similarity: 0.1)"))
    );
    assert_eq!(report[99], line(&format!(" 99. {long} (similarity: 0.1)")));
}

#[test]
fn thumbnails_become_base64() {
    let hits = vec![
        RawHit {
            path: "a".to_string(),
            distance_bits: 1,
            thumbnail: Some(b"Man".to_vec()),
        },
        RawHit {
            path: "b".to_string(),
            distance_bits: 2,
            thumbnail: None,
        },
        RawHit {
            path: "c".to_string(),
            distance_bits: 3,
            thumbnail: Some(b"M".to_vec()),
        },
    ];
    let got = search_with_thumbnails(&hits);
    assert_eq!(got[0].thumbnail_base64, Some("TWFu".to_string()));
    assert_eq!(got[1].thumbnail_base64, None);
    assert_eq!(got[2].thumbnail_base64, Some("TQ==".to_string()));
    assert_eq!(got[2].distance_bits, 3);
    let odd = vec![RawHit {
        path: "d".to_string(),
        distance_bits: 4,
        thumbnail: Some(vec![251, 255, 191, 0]),
    }];
    assert_eq!(
        search_with_thumbnails(&odd)[0].thumbnail_base64,
        Some("+/+/AA==".to_string())
    );
    assert_eq!(got[1].path, "b");
}

#[test]
fn search_engine_builds_the_same_statements() {
    let db = Database {
        parent_dir: "/lib".to_string(),
    };
    let engine = SearchEngine::new(&db);
    assert_eq!(
        engine.search("v", vec![1], 5, "1.3", MaxK(100)),
        Database::search_similar_images("v", vec![1], 5, "1.3", MaxK(100))
    );
    assert_eq!(
        engine.search_with_thumbnails_raw("v", vec![1], 99, 0, "1.3", MaxK(100)),
        Database::search_similar_images_with_raw_blob("v", vec![1], 99, 0, "1.3", MaxK(100))
    );
    let f = Filters::default();
    assert_eq!(
        engine.search_meta("v", vec![1], 5, 2, "1.3", MaxK(100), &f),
        Database::search_similar_images_meta("v", vec![1], 5, 2, "1.3", MaxK(100), &f)
    );
}

#[test]
fn assets_and_their_types() {
    assert_eq!(static_handler("/index.html").0, "index.html");
    assert_eq!(static_handler("//a/b").0, "a/b");
    assert_eq!(static_handler("/dist/app.js").0, "app.js");
    assert_eq!(static_handler("/dist/x/dist/y").0, "x/y");
    assert_eq!(static_handler("/x/dist/y").0, "x/dist/y");
    assert_eq!(
        into_response("index.html", true),
        Answer::Found {
            content_type: "text/html".to_string()
        }
    );
    assert_eq!(
        into_response("thing.unknownext", true),
        Answer::Found {
            content_type: "application/octet-stream".to_string()
        }
    );
    assert_eq!(
        into_response("x", false),
        Answer::NotFound {
            body: "404 Not Found"
        }
    );
    let e = AppError {
        detail: "boom".to_string(),
    };
    assert_eq!(
        e.into_response(),
        (500, "Something went wrong: boom".to_string())
    );
}

#[test]
fn request_parameters() {
    assert_eq!(parse_number("512"), Some(512));
    assert_eq!(parse_number("+7"), Some(7));
    assert_eq!(parse_number("4294967295"), Some(u32::MAX));
    assert_eq!(parse_number("4294967296"), None);
    assert_eq!(parse_number(""), None);
    assert_eq!(parse_number("+"), None);
    assert_eq!(parse_number("-1"), None);
    assert_eq!(parse_number("12a"), None);
    assert_eq!(thumb_size("big"), 300);
    assert_eq!(thumb_size("64"), 64);
    assert_eq!(search_page(None, None), (80, 0));
    assert_eq!(search_page(Some(5), Some(10)), (5, 10));
}

#[test]
fn it_calculates_correct_right_indexes() {
    assert_eq!(calculate_new_focus_index(9, 0, FocusDirection::Right), 1);
    assert_eq!(calculate_new_focus_index(9, 8, FocusDirection::Right), 0);
}

#[test]
fn it_calculates_correct_left_indexes() {
    assert_eq!(calculate_new_focus_index(9, 0, FocusDirection::Left), 8);
    assert_eq!(calculate_new_focus_index(9, 8, FocusDirection::Left), 7);
}

#[test]
fn it_calculates_correct_up_indexes() {
    let up = FocusDirection::Up;
    assert_eq!(calculate_new_focus_index(9, 0, up), 6);
    assert_eq!(calculate_new_focus_index(9, 1, up), 7);
    assert_eq!(calculate_new_focus_index(9, 2, up), 8);
    assert_eq!(calculate_new_focus_index(9, 3, up), 0);
    assert_eq!(calculate_new_focus_index(9, 4, up), 1);
    assert_eq!(calculate_new_focus_index(9, 5, up), 2);
    assert_eq!(calculate_new_focus_index(9, 6, up), 3);
    assert_eq!(calculate_new_focus_index(9, 7, up), 4);
    assert_eq!(calculate_new_focus_index(9, 8, up), 5);
    assert_eq!(calculate_new_focus_index(6, 0, up), 3);
    assert_eq!(calculate_new_focus_index(6, 1, up), 4);
    assert_eq!(calculate_new_focus_index(6, 2, up), 5);
    assert_eq!(calculate_new_focus_index(8, 0, up), 6);
    assert_eq!(calculate_new_focus_index(8, 1, up), 7);
    assert_eq!(calculate_new_focus_index(8, 2, up), 7);
    assert_eq!(calculate_new_focus_index(7, 0, up), 6);
    assert_eq!(calculate_new_focus_index(7, 1, up), 6);
    assert_eq!(calculate_new_focus_index(7, 2, up), 6);
}

#[test]
fn it_calculates_correct_down_indexes() {
    let down = FocusDirection::Down;
    assert_eq!(calculate_new_focus_index(9, 0, down), 3);
    assert_eq!(calculate_new_focus_index(9, 1, down), 4);
    assert_eq!(calculate_new_focus_index(9, 2, down), 5);
    assert_eq!(calculate_new_focus_index(9, 3, down), 6);
    assert_eq!(calculate_new_focus_index(9, 4, down), 7);
    assert_eq!(calculate_new_focus_index(9, 5, down), 8);
    assert_eq!(calculate_new_focus_index(9, 6, down), 0);
    assert_eq!(calculate_new_focus_index(9, 7, down), 1);
    assert_eq!(calculate_new_focus_index(9, 8, down), 2);
    assert_eq!(calculate_new_focus_index(6, 0, down), 3);
    assert_eq!(calculate_new_focus_index(6, 1, down), 4);
    assert_eq!(calculate_new_focus_index(6, 2, down), 5);
    assert_eq!(calculate_new_focus_index(6, 3, down), 0);
    assert_eq!(calculate_new_focus_index(6, 4, down), 1);
    assert_eq!(calculate_new_focus_index(6, 5, down), 2);
    assert_eq!(calculate_new_focus_index(8, 6, down), 0);
    assert_eq!(calculate_new_focus_index(8, 7, down), 1);
}

#[test]
fn keybindings_help_lists_core_keys() {
    let lines = keybindings_help();
    assert!(!lines.is_empty());
    let joined = lines.join(" ");
    for key in ["e", "h/j/k/l", "H/L", "1-9", "Enter", "Esc", "?", "q"] {
        assert!(joined.contains(key), "help should mention {key}");
    }
}

#[test]
fn keys_are_commands_in_normal_mode() {
    let mut app = App::new();
    let mut press = |key: Key, control: bool| app.handle_key_events(key, control);
    assert_eq!(
        press(Key::Char('q'), false),
        KeyAction::Send(AppEvent::Quit)
    );
    assert_eq!(press(Key::Char('c'), true), KeyAction::Send(AppEvent::Quit));
    assert_eq!(press(Key::Char('c'), false), KeyAction::Nothing);
    assert_eq!(
        press(Key::Char('L'), false),
        KeyAction::Send(AppEvent::NextPage)
    );
    assert_eq!(
        press(Key::Char('H'), false),
        KeyAction::Send(AppEvent::PreviousPage)
    );
    assert_eq!(
        press(Key::Char('j'), false),
        KeyAction::Send(AppEvent::Focus(FocusDirection::Down))
    );
    assert_eq!(
        press(Key::Char('7'), false),
        KeyAction::Send(AppEvent::ZoomImage(Some(6)))
    );
    assert_eq!(
        press(Key::Enter, false),
        KeyAction::Send(AppEvent::ZoomImage(Some(0)))
    );
    assert_eq!(
        press(Key::Esc, false),
        KeyAction::Send(AppEvent::ZoomImage(None))
    );
    // Help is modal.
    assert_eq!(press(Key::Char('?'), false), KeyAction::Nothing);
    assert_eq!(press(Key::Char('L'), false), KeyAction::Nothing);
    assert_eq!(press(Key::Esc, false), KeyAction::Nothing);
    assert!(!app.show_help);
}

#[test]
fn keys_edit_the_search_box_in_editing_mode() {
    let mut app = App::new();
    assert_eq!(
        app.handle_key_events(Key::Char('e'), false),
        KeyAction::Nothing
    );
    assert_eq!(app.input_mode, InputMode::Editing);
    assert_eq!(
        app.handle_key_events(Key::Char('q'), false),
        KeyAction::EditInput
    );
    assert_eq!(app.handle_key_events(Key::Enter, false), KeyAction::Submit);
    assert_eq!(app.input_mode, InputMode::Normal);
    app.begin_search("cat");
    assert!(app.is_searching);
    assert_eq!(app.last_search, Some("cat".to_string()));
}

fn result(n: usize) -> SearchResult {
    SearchResult {
        images: (0..n).map(|i| format!("{i}.jpg")).collect(),
        result_count: n,
        query: "cat".to_string(),
    }
}

#[test]
fn pages_hold_nine_images() {
    let mut app = App::new();
    assert_eq!(app.result_count(), None);
    assert_eq!(
        app.handle_search_result(result(20)),
        AppEffect::ShowPage { from: 0, to: 9 }
    );
    assert_eq!(app.result_count(), Some(20));
    assert_eq!(
        app.handle_event(AppEvent::NextPage),
        AppEffect::ShowPage { from: 9, to: 18 }
    );
    assert_eq!(
        app.handle_event(AppEvent::NextPage),
        AppEffect::ShowPage { from: 18, to: 20 }
    );
    assert_eq!(app.images, vec!["18.jpg", "19.jpg"]);
    assert_eq!(app.handle_event(AppEvent::NextPage), AppEffect::Nothing);
    assert_eq!(app.page, 2);
    app.handle_event(AppEvent::PreviousPage);
    app.handle_event(AppEvent::PreviousPage);
    app.handle_event(AppEvent::PreviousPage);
    assert_eq!(app.page, 0);
    assert_eq!(app.images.len(), 9);
    app.handle_event(AppEvent::Focus(FocusDirection::Left));
    assert_eq!(app.focused_image_index, 8);
    app.handle_event(AppEvent::Quit);
    assert!(!app.running);
}

#[test]
fn zooming_an_image() {
    let cell = Cell { column: 3, row: 4 };
    let mut app = App::new();
    app.handle_search_result(result(3));
    assert_eq!(app.handle_mouse_event(MouseKind::ScrollUp, cell), None);
    assert_eq!(
        app.handle_event(AppEvent::ZoomImage(Some(1))),
        AppEffect::Zoom {
            focal: FocalChange::Center,
            zoom: ZoomEffect::Load {
                index: 1,
                reuse: false
            }
        }
    );
    app.zoomed_image = Some(ZoomedImage {
        path: "1.jpg".to_string(),
        current_zoom: 1,
        has_original: true,
    });
    app.rect_known = true;
    assert_eq!(
        app.handle_mouse_event(MouseKind::ScrollUp, cell),
        Some(AppEvent::ZoomIn(cell))
    );
    assert_eq!(
        app.handle_event(AppEvent::ZoomIn(cell)),
        AppEffect::Zoom {
            focal: FocalChange::AtCursor {
                cell,
                old_zoom: 1,
                new_zoom: 2
            },
            zoom: ZoomEffect::Load {
                index: 1,
                reuse: true
            }
        }
    );
    for _ in 0..5 {
        app.handle_event(AppEvent::ZoomIn(cell));
    }
    assert_eq!(app.zoom_level, 4);
    app.handle_event(AppEvent::ZoomOut(cell));
    assert_eq!(app.zoom_level, 3);
    assert_eq!(
        app.handle_event(AppEvent::ZoomReset),
        AppEffect::Zoom {
            focal: FocalChange::Center,
            zoom: ZoomEffect::Unchanged
        }
    );
    assert_eq!(
        app.handle_zoom_image(Some(7)),
        ZoomEffect::Missing
    );
    assert_eq!(
        app.handle_event(AppEvent::ClickLeft(cell)),
        AppEffect::CloseZoom
    );
    assert_eq!(app.handle_zoom_image(None), ZoomEffect::Closed);
    assert!(app.zoomed_image.is_none());
    assert_eq!(
        app.handle_event(AppEvent::ClickLeft(cell)),
        AppEffect::Nothing
    );
    assert_eq!(app.mouse_click, Some(cell));
    assert_eq!(app.handle_event(AppEvent::ZoomIn(cell)), AppEffect::Nothing);
}

#[test]
fn background_searches_show_what_can_be_shown() {
    let found = |path: &str, thumbnail: ThumbnailOutcome| FoundImage {
        path: path.to_string(),
        thumbnail,
    };
    let list = vec![
        found("a", ThumbnailOutcome::Decoded),
        found("b", ThumbnailOutcome::Absent),
        found("c", ThumbnailOutcome::Decoded),
    ];
    let r = handle_search("q", Some(&list));
    assert_eq!(r.images, vec!["a", "c"]);
    assert_eq!(r.result_count, 3);
    assert_eq!(r.query, "q");
    let broken = vec![
        found("a", ThumbnailOutcome::Decoded),
        found("b", ThumbnailOutcome::Broken),
    ];
    let r = handle_search("q", Some(&broken));
    assert!(r.images.is_empty());
    assert_eq!(r.result_count, 0);
    assert_eq!(handle_search("q", None).result_count, 0);
}

#[test]
fn the_grid_has_nine_cells() {
    let area = Area {
        x: 0,
        y: 0,
        width: 100,
        height: 100,
    };
    let cells = nine_block(area);
    assert_eq!(cells.len(), 9);
    assert_eq!(
        cells[0],
        Area {
            x: 0,
            y: 0,
            width: 33,
            height: 33
        }
    );
    assert_eq!(
        cells[4],
        Area {
            x: 33,
            y: 33,
            width: 34,
            height: 34
        }
    );
    assert_eq!(clicked_area(&cells, 50, 50), Some(4));
    assert_eq!(clicked_area(&cells, 99, 99), Some(8));
    assert_eq!(clicked_area(&cells, 100, 0), None);
}

#[test]
fn texts_of_the_terminal_ui() {
    assert_eq!(
        pagination_text(0, 0),
        "Page 1/1 (0 results) [H prev | L next]"
    );
    assert_eq!(
        pagination_text(1, 19),
        "Page 2/3 (19 results) [H prev | L next]"
    );
    assert_eq!(
        pagination_text(0, 18),
        "Page 1/2 (18 results) [H prev | L next]"
    );
    assert_eq!(search_title(None, true), "Search query");
    assert_eq!(
        search_title(Some("cat"), true),
        "Search query (searching 'cat'...)"
    );
    assert_eq!(
        search_title(Some("cat"), false),
        "Search query (current: cat)"
    );
    assert_eq!(help_size(30, 10, 100, 100), (34, 12));
    assert_eq!(help_size(30, 10, 20, 5), (20, 5));
}

#[test]
fn default_is_browse_empty() {
    let st = UiState::default();
    assert_eq!(st.mode, PersistedMode::Browse);
    assert!(st.result_ids.is_empty());
    assert_eq!(st.sort, Sort::default());
    assert!(st.rail_visible);
    assert!(default_true());
    assert_eq!(st.brushes[4], TagBrush::default());
}

#[test]
fn status_report() {
    let counts = ProcessCounts {
        thumbs300: 1,
        embeddings: 2,
        full_thumbs: 3,
    };
    let work = vec![
        "\nUnprocessed:",
        "  300px thumbnails: 1",
        "  Embeddings: 2",
        "  512px and 2048px thumbnails: 3",
    ];
    let head = vec![
        "Database: /d",
        "imgfind Database Status",
        "======================",
    ];
    let mut want = head.clone();
    want.push("Total indexed images: 0");
    want.extend(work.iter());
    want.push("");
    assert_eq!(show_status("/d", 0, &vec![], counts, None), want);
    let mut want = head;
    want.push("Total indexed images: 7");
    want.push("\nSample images:");
    want.push("  1. /a");
    want.push("  2. /b");
    want.push("  ... and 2 more");
    want.extend(work.iter());
    want.push("\nDatabase size: 1.50 MB");
    want.push("");
    let sample = vec![
        AbsolutePath("/a".to_string()),
        AbsolutePath("/b".to_string()),
    ];
    assert_eq!(show_status("/d", 7, &sample, counts, Some("1.50")), want);
}
