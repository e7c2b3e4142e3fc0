use tune::app::{App, Screen};
use tune::load::Answer;
use tune::pane::LINES_ABOVE;
use tune::playback::{Artist, Device, Item, Playback, Playlist, RepeatState, Track};
use tune::releases::Release;
use tune::screen::{
    artist_row, cover_area, fmt_ms, layout, progress_bar, releases_area, track_row, truncate, Area, Line, Span, INDENT,
};
use tune::theme::{ACCENT, AMBER, CYAN, FG, FG_BRIGHT, FG_DIM, FG_MUTED, OK};

fn text(l: &Line) -> String {
    l.spans.iter().map(|s| s.text.as_str()).collect()
}

fn texts(v: &[Line]) -> Vec<String> {
    v.iter().map(text).collect()
}

fn track(name: &str) -> Track {
    Track {
        id: None,
        name: name.to_string(),
        artists: vec!["A".to_string(), "B".to_string()],
        duration_ms: 61_500,
        images: Vec::new(),
    }
}

fn device(name: &str, is_active: bool, volume_percent: Option<u32>) -> Device {
    Device { id: None, name: name.to_string(), kind: "Speaker".to_string(), is_active, volume_percent }
}

fn playback(is_playing: bool) -> Playback {
    Playback {
        device: device("Kitchen", true, None),
        repeat_state: RepeatState::Track,
        shuffle_state: true,
        progress_ns: Some(5_999_000_000),
        item: Some(Item::Track(track("Song"))),
        is_playing,
    }
}

fn app() -> App {
    App::new("me".to_string(), 80, 40, String::new())
}

fn ones(s: &str) -> Vec<usize> {
    s.chars().map(|_| 1).collect()
}

#[test]
fn a_text_that_fits_is_left_alone() {
    assert_eq!(truncate("abc", &ones("abc"), 3, 3), "abc");
    assert_eq!(truncate("", &Vec::new(), 0, 0), "");
}

#[test]
fn a_text_that_is_too_long_ends_in_an_ellipsis() {
    assert_eq!(truncate("abcdef", &ones("abcdef"), 6, 4), "abc…");
    assert_eq!(truncate("漢字仮名", &vec![2, 2, 2, 2], 8, 4), "漢…");
    assert_eq!(truncate("漢字仮名", &vec![2, 2, 2, 2], 8, 5), "漢字…");
    assert_eq!(truncate("ab", &ones("ab"), 2, 1), "…");
    assert_eq!(truncate("ab", &ones("ab"), 2, 0), "…");
}

#[test]
fn only_a_column_is_cut() {
    let long = Span { text: "abcdef".to_string(), color: None, bold: false, fit: Some(3), width: 3 };
    assert_eq!(long.shown(&ones("abcdef"), 6), "ab…");
    let free = Span { text: "abcdef".to_string(), color: None, bold: false, fit: None, width: 3 };
    assert_eq!(free.shown(&ones("abcdef"), 6), "abcdef");
}

#[test]
fn a_column_is_filled_up_unless_it_has_a_style() {
    let plain = Span { text: "ab".to_string(), color: None, bold: false, fit: Some(4), width: 4 };
    assert_eq!(plain.shown(&ones("ab"), 2), "ab  ");
    let tinted = Span { text: "ab".to_string(), color: Some(OK), bold: false, fit: Some(4), width: 4 };
    assert_eq!(tinted.shown(&ones("ab"), 2), "ab");
    let bold = Span { text: "ab".to_string(), color: None, bold: true, fit: None, width: 4 };
    assert_eq!(bold.shown(&ones("ab"), 2), "ab");
}

#[test]
fn times_are_minutes_and_seconds() {
    assert_eq!(fmt_ms(0), "0:00");
    assert_eq!(fmt_ms(61_999), "1:01");
    assert_eq!(fmt_ms(3_600_000), "60:00");
}

#[test]
fn the_bar_fills_its_width() {
    let b = progress_bar(100, 10, 4);
    assert_eq!((b[0].text.as_str(), b[0].color), ("━━━━", Some(ACCENT)));
    assert_eq!((b[1].text.as_str(), b[1].color), ("──────", Some(FG_DIM)));
    let b = progress_bar(0, 5, 3);
    assert_eq!((b.len(), b[0].text.as_str(), b[0].color), (1, "—————", None));
    let b = progress_bar(100, 3, 3);
    assert_eq!((b.len(), b[0].text.as_str()), (1, "———"));
    let b = progress_bar(100, 4, 9);
    assert_eq!(b[1].text, "");
}

#[test]
fn a_track_row_has_columns() {
    let r = track_row(&track("Song"), false);
    assert_eq!(texts(&[r])[0], "     Song  A, B  1:01");
    let r = track_row(&track("Song"), true);
    assert_eq!(text(&r), "  ▸  Song  A, B  1:01");
    assert_eq!((r.color, r.bold), (Some(FG_BRIGHT), true));
    let fits: Vec<(Option<usize>, usize)> = r.spans.iter().map(|s| (s.fit, s.width)).collect();
    assert_eq!(fits, [(None, 0), (Some(40), 40), (None, 0), (Some(28), 28), (None, 0), (None, 0)]);
    assert_eq!(r.spans[5].color, Some(FG_DIM));
}

#[test]
fn an_artist_row_is_told_from_a_track() {
    let a = Artist { id: "x".to_string(), name: "Band".to_string() };
    let r = artist_row(&a, false);
    assert_eq!((text(&r).as_str(), r.color, r.bold), ("     ♪ Band  artist", Some(CYAN), false));
    assert_eq!((r.spans[1].fit, r.spans[1].width), (Some(60), 60));
    let r = artist_row(&a, true);
    assert_eq!((text(&r).as_str(), r.color, r.bold), ("  ▸  ♪ Band  artist", Some(FG_BRIGHT), true));
}

#[test]
fn the_search_shows_its_query_and_results() {
    let mut a = app();
    assert_eq!(texts(&a.main_lines()), ["", "  /  Press / to search…", ""]);
    a.begin_search("miles");
    assert_eq!(texts(&a.main_lines()), ["", "  /  query:  miles", "", "  (no results)"]);
    let band = Artist { id: "x".to_string(), name: "Band".to_string() };
    a.finish_search(Answer::Items(vec![band]), Answer::Items(vec![track("Song")]));
    let lines = a.main_lines();
    assert_eq!(text(&lines[3]), "  ▸  ♪ Band  artist");
    assert_eq!(text(&lines[4]), "     Song  A, B  1:01");
    assert_eq!(lines.len(), 5);
}

#[test]
fn lists_show_what_stands_in_their_place() {
    let mut a = app();
    for (screen, expected) in [
        (Screen::Playlists, ["", "  Your playlists", "", "  Loading…"]),
        (Screen::PlaylistTracks, ["", "  Playlist", "", "  Loading…"]),
        (Screen::Saved, ["", "  Your liked songs", "", "  Loading…"]),
        (Screen::Queue, ["", "  Up next", "", "  (queue empty — Spotify shows context-driven autoplay here)"]),
        (
            Screen::Devices,
            ["", "  Spotify Connect devices", "", "  No devices available (open Spotify on your phone or desktop first)."],
        ),
    ] {
        a.screen = screen;
        let lines = a.main_lines();
        assert_eq!(texts(&lines), expected);
        assert_eq!((lines[1].spans[1].color, lines[1].spans[1].bold), (Some(ACCENT), true));
    }
}

#[test]
fn playlists_show_how_many_tracks_they_hold() {
    let mut a = app();
    a.screen = Screen::Playlists;
    let p = |name: &str, total: u32| Playlist { id: String::new(), name: name.to_string(), total };
    a.ensure_playlists_loaded(vec![p("Jazz", 12), p("Rock", 0)]);
    a.playlists_idx = 1;
    assert_eq!(texts(&a.main_lines())[3..], ["     Jazz  12 tracks", "  ▸  Rock  0 tracks"]);
}

#[test]
fn devices_show_whether_they_are_active() {
    let mut a = app();
    a.screen = Screen::Devices;
    a.load_devices(vec![device("Desk", false, Some(30)), device("Phone", true, None), device("TV", false, None)]);
    let lines = a.main_lines();
    assert_eq!(
        texts(&lines)[3..],
        ["  ▸  ○ Desk  Speaker  vol 30%", "     ● Phone  Speaker  vol —", "     ○ TV  Speaker  vol —"]
    );
    assert_eq!(lines[3].color, Some(FG_BRIGHT));
    assert_eq!((lines[4].color, lines[4].bold), (Some(OK), false));
    assert_eq!(lines[5].color, None);
    assert_eq!((lines[3].spans[4].fit, lines[3].spans[4].width), (None, 10));
}

#[test]
fn the_cursor_marks_one_row_below_the_heading() {
    let mut a = app();
    a.screen = Screen::Saved;
    a.ensure_saved_loaded(vec![track("a"), track("b"), track("c")]);
    a.saved_idx = 1;
    let lines = a.main_lines();
    let bold: Vec<bool> = lines[LINES_ABOVE..].iter().map(|l| l.bold).collect();
    assert_eq!(bold, [false, true, false]);
}

#[test]
fn the_help_lists_the_keys() {
    let mut a = app();
    a.screen = Screen::Help;
    let lines = a.main_lines();
    let all = texts(&lines);
    assert_eq!(all.len(), 30);
    assert_eq!(all[..6], ["", "  tune — keys", "", "  Views", "    / Search", "    P Playlists"]);
    assert_eq!(all[18], "    r Cycle repeat mode (off / context / track)");
    assert_eq!(all[27..], ["  Misc", "    R Refresh now-playing", "    q Quit"]);
    assert_eq!((lines[4].spans[1].color, lines[4].spans[1].width), (Some(ACCENT), 8));
}

#[test]
fn the_header_names_the_screen_and_the_device() {
    let mut a = app();
    assert_eq!(text(&a.header_left()), " tune  [Search]");
    assert_eq!(text(&a.header_right()), "me  ◆ —  v0.3.0 ");
    a.poll_state(Some(playback(true)));
    assert_eq!(text(&a.header_right()), "me  ◆ Kitchen  v0.3.0 ");
    assert_eq!(a.header_right().spans[0].color, Some(FG_MUTED));
    a.screen = Screen::PlaylistTracks;
    assert_eq!(text(&a.header_left()), " tune  [Playlist]");
    a.load_playlist_tracks(Playlist { id: String::new(), name: "Jazz".to_string(), total: 0 }, Vec::new(), Vec::new());
    assert_eq!(text(&a.header_left()), " tune  [Jazz]");
    assert_eq!(a.header_gap(15, 20), 45);
    assert_eq!(a.header_gap(60, 30), 0);
}

#[test]
fn what_plays_is_shown_beside_the_cover() {
    let mut a = app();
    let pad = " ".repeat(INDENT);
    assert_eq!(
        texts(&a.now_lines(0)),
        [
            String::new(),
            format!("{}Nothing playing.", pad),
            format!("{}Press SPACE to resume on your last device, or `d` to pick one.", pad),
        ]
    );
    assert_eq!(a.progress(), (0, 0, 37));
    a.poll_state(Some(playback(true)));
    assert_eq!(a.progress(), (5_999, 61_500, 37));
    let lines = a.now_lines(4);
    assert_eq!(text(&lines[1]), format!("{}▶ Song  —  A, B  [🔀 🔂]", pad));
    assert_eq!((lines[1].spans[1].color, lines[1].spans[7].color), (Some(OK), Some(FG)));
    assert_eq!(text(&lines[2]), format!("{}0:05  {}{}  1:01", pad, "━".repeat(4), "─".repeat(33)));
    let mut p = playback(false);
    p.shuffle_state = false;
    p.repeat_state = RepeatState::Context;
    p.progress_ns = None;
    p.item = None;
    a.poll_state(Some(p));
    let lines = a.now_lines(0);
    assert_eq!(text(&lines[1]), format!("{}⏸ —  —  —  [   🔁]", pad));
    assert_eq!(lines[1].spans[1].color, Some(AMBER));
    assert_eq!(text(&lines[2]), format!("{}0:00  {}  0:00", pad, "—".repeat(37)));
}

#[test]
fn the_footer_shows_the_message_or_the_keys() {
    let mut a = app();
    let l = a.footer_line();
    assert_eq!(text(&l), " /:search  P:playlists  L:saved  Q:queue  d:devices  ?:help  q:quit ");
    assert_eq!(l.spans[0].color, Some(FG_MUTED));
    a.set_status("Playing", OK);
    let l = a.footer_line();
    assert_eq!((text(&l).as_str(), l.spans[0].color), (" Playing", Some(OK)));
}

#[test]
fn panes_stand_one_below_the_other() {
    let l = layout(80, 40);
    assert_eq!(l.header, Area { x: 1, y: 1, w: 80, h: 1 });
    assert_eq!(l.main, Area { x: 1, y: 2, w: 80, h: 27 });
    assert_eq!(l.now, Area { x: 1, y: 30, w: 80, h: 10 });
    assert_eq!(l.footer, Area { x: 1, y: 40, w: 80, h: 1 });
    assert_eq!(layout(80, 12).main.h, 0);
    assert_eq!(cover_area(40), Area { x: 2, y: 31, w: 20, h: 10 });
    assert_eq!(cover_area(5), Area { x: 2, y: 1, w: 20, h: 10 });
}

#[test]
fn releases_stand_beside_the_search_results() {
    let mut a = app();
    assert!(a.releases_lines().is_none());
    let r = |name: &str, date: &str| Release { id: None, name: name.to_string(), date: date.to_string() };
    let band = Artist { id: "x".to_string(), name: "Band".to_string() };
    a.load_releases(band, vec![r("Old", "1981"), r("New", "2020-05-01")]);
    let lines = a.releases_lines().unwrap();
    assert_eq!(
        texts(&lines),
        ["", "  Band", "", "  ▸  ♪ Artist radio", "     New  2020-05-01", "     Old  1981"]
    );
    assert_eq!((lines[3].bold, lines[4].spans[3].color), (true, Some(FG_DIM)));
    a.handle("h");
    assert_eq!(text(&a.releases_lines().unwrap()[3]), "     ♪ Artist radio");
    a.handle("?");
    assert!(a.releases_lines().is_none());
    assert_eq!(releases_area(81, 40), Area { x: 41, y: 2, w: 41, h: 27 });
}
