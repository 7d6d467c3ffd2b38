//! The telnet search server: protocol, rendering, sessions, passwords.

use image::{DynamicImage, RgbImage};
use imgfind::telnet::auth::{hash_password, verify_password};
use imgfind::telnet::protocol::{
    initial_negotiation, parse_subneg, TelnetEvent, TelnetParser, MAX_SUBNEG_LEN,
};
use imgfind::telnet::render::{cover_rect, halfblock_art, render_halfblock, CropRect};
use imgfind::telnet::server::{
    session_max_k, ServerAction, ServerError, ServerEvent, ServerPhase, ServerState,
};
use imgfind::telnet::session::{caption, next_screen_on_key, Screen};

// Telnet command bytes for building test inputs.
const IAC: u8 = 255;
const DO: u8 = 253;
const WILL: u8 = 251;
const SB: u8 = 250;
const SE: u8 = 240;
const NAWS: u8 = 31;

#[test]
fn plain_data_passes_through() {
    let mut p = TelnetParser::new();
    let events = p.feed(b"hi");
    assert_eq!(
        events,
        vec![TelnetEvent::Data(b'h'), TelnetEvent::Data(b'i')]
    );
}

#[test]
fn naws_subnegotiation_yields_window_size() {
    // IAC SB NAWS 0 120 0 40 IAC SE  => 120 cols, 40 rows
    let mut p = TelnetParser::new();
    let bytes = [IAC, SB, NAWS, 0, 120, 0, 40, IAC, SE];
    let events = p.feed(&bytes);
    assert_eq!(
        events,
        vec![TelnetEvent::WindowSize {
            cols: 120,
            rows: 40
        }]
    );
}

#[test]
fn sequence_split_across_feeds_is_handled() {
    let mut p = TelnetParser::new();
    // Feed a WILL negotiation one byte at a time; expect no Data events.
    assert!(p.feed(&[IAC]).is_empty());
    let ev = p.feed(&[WILL]);
    assert!(ev.iter().all(|e| !matches!(e, TelnetEvent::Data(_))));
    let ev = p.feed(&[NAWS]);
    assert_eq!(ev, vec![TelnetEvent::Negotiation]);
    // Then real data still flows.
    assert_eq!(p.feed(b"x"), vec![TelnetEvent::Data(b'x')]);
}

#[test]
fn escaped_iac_is_a_single_data_byte() {
    let mut p = TelnetParser::new();
    // IAC IAC => literal 0xFF data byte.
    assert_eq!(p.feed(&[IAC, IAC]), vec![TelnetEvent::Data(0xFF)]);
}

#[test]
fn do_command_consumes_option_byte() {
    let mut p = TelnetParser::new();
    // IAC DO NAWS then a data byte.
    let ev = p.feed(&[IAC, DO, NAWS, b'z']);
    assert_eq!(ev, vec![TelnetEvent::Negotiation, TelnetEvent::Data(b'z')]);
}

#[test]
fn runaway_subnegotiation_is_capped_and_recovers() {
    // IAC SB NAWS then 200 arbitrary bytes with no terminating IAC SE: the
    // payload must never grow past `MAX_SUBNEG_LEN`, and once the cap is hit
    // the parser abandons the subnegotiation and falls back to normal data
    // parsing for whatever follows.
    let mut p = TelnetParser::new();
    assert!(p.feed(&[IAC, SB, NAWS]).is_empty());
    let filler = [b'a'; 200];
    for chunk in filler.chunks(7) {
        p.feed(chunk);
        assert!(p.pending_len() <= MAX_SUBNEG_LEN);
    }
    assert!(p.pending_len() <= MAX_SUBNEG_LEN);
    // The parser has abandoned the subnegotiation and returned to normal data
    // flow, so a normal byte now parses as ordinary input.
    assert_eq!(p.feed(b"x"), vec![TelnetEvent::Data(b'x')]);
}

#[test]
fn escaped_bytes_do_not_outgrow_the_cap_either() {
    let mut p = TelnetParser::default();
    assert!(p.feed(&[IAC, SB, NAWS]).is_empty());
    for _ in 0..200 {
        p.feed(&[IAC, IAC]);
        assert!(p.pending_len() <= MAX_SUBNEG_LEN);
    }
}

#[test]
fn window_size_with_escaped_bytes() {
    let mut p = TelnetParser::new();
    // 0x00FF columns: the 0xFF byte is sent twice.
    let ev = p.feed(&[IAC, SB, NAWS, 0, IAC, IAC, 1, 2, IAC, SE]);
    assert_eq!(
        ev,
        vec![TelnetEvent::WindowSize {
            cols: 255,
            rows: 258
        }]
    );
}

#[test]
fn feeding_in_pieces_gives_the_same_events() {
    let bytes = [b'a', IAC, SB, NAWS, 0, 80, 0, 24, IAC, SE, b'b', IAC, IAC];
    let mut whole = TelnetParser::new();
    let expected = whole.feed(&bytes);
    for cut in 0..bytes.len() {
        let mut p = TelnetParser::new();
        let mut got = p.feed(&bytes[..cut]);
        got.extend(p.feed(&bytes[cut..]));
        assert_eq!(got, expected);
    }
}

#[test]
fn short_or_foreign_subnegotiations_say_nothing() {
    assert_eq!(parse_subneg(&[NAWS, 0, 80, 0]), None);
    assert_eq!(parse_subneg(&[24, 0, 80, 0, 24]), None);
    assert_eq!(
        parse_subneg(&[NAWS, 1, 0, 0, 24]),
        Some(TelnetEvent::WindowSize {
            cols: 256,
            rows: 24
        })
    );
}

#[test]
fn initial_negotiation_requests_echo_sga_naws() {
    let bytes = initial_negotiation();
    // Must contain IAC WILL ECHO, IAC WILL SGA, IAC DO NAWS.
    assert!(bytes.windows(3).any(|w| w == [IAC, WILL, 1])); // ECHO=1
    assert!(bytes.windows(3).any(|w| w == [IAC, WILL, 3])); // SGA=3
    assert!(bytes.windows(3).any(|w| w == [IAC, DO, NAWS])); // NAWS=31
}

fn solid(w: u32, h: u32, rgb: [u8; 3]) -> DynamicImage {
    DynamicImage::ImageRgb8(RgbImage::from_pixel(w, h, image::Rgb(rgb)))
}

#[test]
fn single_cell_solid_red_has_fg_bg_and_halfblock() {
    let img = solid(4, 4, [255, 0, 0]);
    let out = render_halfblock(&img, 1, 1);
    // Truecolor fg + bg for red, upper-half-block glyph, CRLF line ending.
    assert!(out.contains("\u{1b}[38;2;255;0;0m"));
    assert!(out.contains("\u{1b}[48;2;255;0;0m"));
    assert!(out.contains('\u{2580}'));
    assert!(out.contains("\r\n"));
}

#[test]
fn output_row_count_matches_requested_rows() {
    let img = solid(10, 10, [10, 20, 30]);
    let out = render_halfblock(&img, 8, 5);
    // One CRLF per rendered row.
    assert_eq!(out.matches("\r\n").count(), 5);
}

#[test]
fn aspect_fit_never_exceeds_requested_bounds() {
    // Wide image into a square budget: width fills, height <= budget.
    let img = solid(200, 50, [0, 0, 0]);
    let out = render_halfblock(&img, 40, 40);
    assert!(out.matches("\r\n").count() <= 40);
}

#[test]
fn ends_with_reset() {
    let img = solid(4, 4, [1, 2, 3]);
    let out = render_halfblock(&img, 2, 2);
    assert!(out.trim_end().ends_with("\u{1b}[0m") || out.contains("\u{1b}[0m"));
}

#[test]
fn extreme_aspect_source_fills_exact_row_count_without_distortion() {
    // A 1000x4 (very wide) source into a 40x20 cell budget must still
    // produce exactly `rows` rows and fill each; the crop-then-resize path
    // keeps the intermediate bounded by the source, not by scale*source.
    let img = solid(1000, 4, [80, 160, 240]);
    let out = render_halfblock(&img, 40, 20);
    assert_eq!(out.matches("\r\n").count(), 20);
    assert!(out.contains("\u{1b}[38;2;80;160;240m"));
}

#[test]
fn attacker_controlled_max_dimensions_are_clamped() {
    // A malicious/misreported NAWS window size (u16::MAX x u16::MAX)
    // must not blow up the pixel buffer or output String: `render_halfblock`
    // clamps internally to `MAX_RENDER_DIM` regardless of caller input.
    let img = solid(4, 4, [255, 0, 0]);
    let out = render_halfblock(&img, u16::MAX, u16::MAX);
    assert!(out.len() < 50_000_000);
    assert!(out.contains('\u{2580}'));
}

#[test]
fn rendering_has_one_glyph_for_each_cell() {
    let out = render_halfblock(&solid(7, 3, [9, 8, 7]), 6, 4);
    assert_eq!(out.matches('\u{2580}').count(), 24);
    assert!(out.ends_with("\u{1b}[0m\r\n"));
}

#[test]
fn rendering_crops_before_it_stretches() {
    // Left half black, right half white; a square budget keeps the middle.
    let mut img = RgbImage::from_pixel(8, 2, image::Rgb([0, 0, 0]));
    for x in 4..8 {
        for y in 0..2 {
            img.put_pixel(x, y, image::Rgb([255, 255, 255]));
        }
    }
    let out = render_halfblock(&DynamicImage::ImageRgb8(img), 2, 1);
    assert_eq!(
        out,
        "\u{1b}[38;2;0;0;0m\u{1b}[48;2;0;0;0m\u{2580}\u{1b}[38;2;255;255;255m\u{1b}[48;2;255;255;255m\u{2580}\u{1b}[0m\r\n"
    );
}

#[test]
fn crop_rectangles_keep_the_target_proportions() {
    assert_eq!(
        cover_rect(1000, 4, 40, 40),
        CropRect {
            x: 498,
            y: 0,
            width: 4,
            height: 4
        }
    );
    assert_eq!(
        cover_rect(10, 100, 20, 40),
        CropRect {
            x: 0,
            y: 40,
            width: 10,
            height: 20
        }
    );
    assert_eq!(
        cover_rect(3, 3, 1, 1200),
        CropRect {
            x: 1,
            y: 0,
            width: 1,
            height: 3
        }
    );
}

#[test]
fn art_of_given_samples() {
    let rgb: Vec<u8> = vec![1, 2, 3, 4, 5, 6];
    assert_eq!(
        halfblock_art(&rgb, 1, 1),
        "\u{1b}[38;2;1;2;3m\u{1b}[48;2;4;5;6m\u{2580}\u{1b}[0m\r\n"
    );
    assert_eq!(halfblock_art(&Vec::new(), 0, 0), "");
}

#[test]
fn any_key_on_results_opens_search_box() {
    assert_eq!(
        next_screen_on_key(Screen::Results, b'x', true),
        Screen::SearchBox
    );
    assert_eq!(
        next_screen_on_key(Screen::Results, b' ', true),
        Screen::SearchBox
    );
}

#[test]
fn esc_in_search_box_returns_to_results_when_art_exists() {
    // ESC = 0x1b
    assert_eq!(
        next_screen_on_key(Screen::SearchBox, 0x1b, true),
        Screen::Results
    );
}

#[test]
fn esc_in_search_box_with_no_art_stays_in_search_box() {
    assert_eq!(
        next_screen_on_key(Screen::SearchBox, 0x1b, false),
        Screen::SearchBox
    );
}

#[test]
fn any_key_on_no_results_opens_search_box() {
    assert_eq!(
        next_screen_on_key(Screen::NoResults, b'k', false),
        Screen::SearchBox
    );
}

#[test]
fn login_stays_login() {
    assert_eq!(next_screen_on_key(Screen::Login, 0x1b, true), Screen::Login);
}

#[test]
fn caption_includes_filename_and_percent() {
    let c = caption("beach.jpg", 92);
    assert!(c.contains("beach.jpg"));
    assert!(c.contains("92%"));
    assert_eq!(c, "beach.jpg \u{00b7} 92% match");
}

#[test]
fn hash_is_not_plaintext_and_verifies() {
    let hash = hash_password("hunter2").unwrap();
    assert_ne!(hash, "hunter2");
    assert!(hash.starts_with("$argon2"));
    assert!(verify_password("hunter2", &hash));
}

#[test]
fn wrong_password_is_rejected() {
    let hash = hash_password("hunter2").unwrap();
    assert!(!verify_password("hunter3", &hash));
}

#[test]
fn malformed_hash_never_panics() {
    assert!(!verify_password("anything", "not-a-valid-phc-string"));
}

#[test]
fn two_hashes_of_same_password_differ() {
    // Random salt => different PHC strings, both verify.
    let a = hash_password("same").unwrap();
    let b = hash_password("same").unwrap();
    assert_ne!(a, b);
    assert!(verify_password("same", &a));
    assert!(verify_password("same", &b));
}

#[test]
fn server_starts_step_by_step_and_caps_connections() {
    let mut s = ServerState::new(1);
    assert_eq!(
        s.on_event(ServerEvent::ModelResolved { ok: true }),
        ServerAction::LoadModel
    );
    // Nothing is accepted before the listener is bound.
    assert_eq!(s.on_event(ServerEvent::Accepted), ServerAction::Ignore);
    assert_eq!(
        s.on_event(ServerEvent::WorkerReady { ok: true }),
        ServerAction::Bind
    );
    assert_eq!(
        s.on_event(ServerEvent::Bound { ok: true }),
        ServerAction::Listen
    );
    assert_eq!(s.on_event(ServerEvent::Accepted), ServerAction::Serve);
    assert_eq!(s.on_event(ServerEvent::Accepted), ServerAction::Refuse);
    assert_eq!(s.on_event(ServerEvent::SessionEnded), ServerAction::Listen);
    assert_eq!(s.on_event(ServerEvent::Accepted), ServerAction::Serve);
    assert_eq!(
        s.on_event(ServerEvent::AcceptFailed),
        ServerAction::Fail(ServerError::AcceptFailed)
    );
    assert_eq!(s.phase, ServerPhase::Stopped);
    assert_eq!(session_max_k().get(), 200);
}

#[test]
fn server_reports_each_start_up_failure() {
    let mut s = ServerState::new(3);
    assert_eq!(
        s.on_event(ServerEvent::ModelResolved { ok: false }),
        ServerAction::Fail(ServerError::NoActiveModel)
    );
    let mut s = ServerState::new(3);
    s.on_event(ServerEvent::ModelResolved { ok: true });
    let mut t = s;
    assert_eq!(
        s.on_event(ServerEvent::WorkerReady { ok: false }),
        ServerAction::Fail(ServerError::ModelLoadFailed)
    );
    assert_eq!(
        t.on_event(ServerEvent::WorkerDied),
        ServerAction::Fail(ServerError::WorkerDied)
    );
    let mut u = ServerState::new(3);
    u.on_event(ServerEvent::ModelResolved { ok: true });
    u.on_event(ServerEvent::WorkerReady { ok: true });
    assert_eq!(
        u.on_event(ServerEvent::Bound { ok: false }),
        ServerAction::Fail(ServerError::BindFailed)
    );
}

#[test]
fn only_the_covered_part_of_a_picture_shows() {
    let picture = |change: Option<(u32, u32)>| {
        let mut img = image::RgbImage::from_fn(100, 10, |x, y| {
            image::Rgb([(x * 2) as u8, (y * 20) as u8, 7])
        });
        if let Some((x, y)) = change {
            img.put_pixel(x, y, image::Rgb([255, 0, 255]));
        }
        render_halfblock(&image::DynamicImage::ImageRgb8(img), 10, 5)
    };
    // Ten by five cells are a square: columns 45 to 54 are drawn.
    assert_eq!(picture(Some((44, 3))), picture(None));
    assert_eq!(picture(Some((55, 3))), picture(None));
    assert_ne!(picture(Some((45, 3))), picture(None));
    assert_ne!(picture(Some((54, 3))), picture(None));
}
