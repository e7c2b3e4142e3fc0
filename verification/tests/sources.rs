use tune::app::{App, Screen};
use tune::command::{polls_after, Activation, Command};
use tune::keys::Step;
use tune::local::{Entry, LocalKey, Report, Source};
use tune::pane::CoverAction;
use tune::playback::{Device, Playback, RepeatState, Track};
use tune::radio::Station;
use tune::screen::Line;
use tune::sources::typed_text;
use tune::theme::ERR;

fn app() -> App {
    App::new("me".to_string(), 80, 40, String::new())
}

fn entry(name: &str, is_dir: bool) -> Entry {
    Entry { name: name.to_string(), is_dir }
}

fn folder() -> Vec<Entry> {
    vec![entry("b.mp3", false), entry("notes.txt", false), entry("Live", true), entry("A.flac", false), entry(".git", true)]
}

fn station(name: &str) -> Station {
    Station {
        name: name.to_string(),
        url: format!("http://{}", name),
        uuid: format!("id-{}", name),
        country: "Norway".to_string(),
        codec: "MP3".to_string(),
        bitrate: 128,
        ..Default::default()
    }
}

fn names(a: &App) -> Vec<&str> {
    a.kept.iter().map(|s| s.name.as_str()).collect()
}

fn playing(device_id: &str, is_playing: bool) -> Playback {
    Playback {
        device: Device {
            id: Some(device_id.to_string()),
            name: "tune".to_string(),
            kind: "Speaker".to_string(),
            is_active: true,
            volume_percent: Some(40),
        },
        repeat_state: RepeatState::Off,
        shuffle_state: false,
        progress_ns: None,
        item: None,
        is_playing,
    }
}

fn silent() -> Report {
    Report {
        paused: Some(false),
        pos_ms: Some(61_000),
        duration_ms: Some(120_000),
        index: None,
        count: None,
        media: Some("b.mp3".to_string()),
        metadata: None,
        path: Some("/m/b.mp3".to_string()),
    }
}

fn text(l: &Line) -> String {
    l.spans.iter().map(|s| s.text.as_str()).collect()
}

#[test]
fn f_shows_the_files_and_opens_the_first_folder_once() {
    let mut a = app();
    a.scroll = 4;
    assert_eq!(a.handle("f"), Step::OpenMusic);
    assert_eq!((a.screen, a.scroll), (Screen::Files, 0));
    assert_eq!(a.show_folder("/m".to_string(), &folder()), [2, 3, 0]);
    let rows: Vec<(&str, bool)> = a.files.iter().map(|e| (e.name.as_str(), e.is_dir)).collect();
    assert_eq!(rows, [("Live", true), ("A.flac", false), ("b.mp3", false)]);
    a.handle("P");
    assert_eq!(a.handle("f"), Step::Stay);
    assert_eq!(a.screen, Screen::Files);
    assert_eq!(a.handle("h"), Step::FolderUp);
    a.handle("G");
    assert_eq!(a.current_list_indices(), (2, Some(3)));
    a.show_folder("/".to_string(), &Vec::new());
    assert_eq!(a.current_list_indices(), (0, Some(0)));
}

#[test]
fn enter_opens_a_folder_and_plays_a_file_with_the_rest_of_its_folder() {
    let mut a = app();
    a.handle("f");
    assert!(matches!(a.list_activate(), Activation::Nothing));
    a.show_folder("/m".to_string(), &folder());
    assert!(matches!(a.list_activate(), Activation::Folder(0)));
    a.handle("G");
    assert!(matches!(a.list_activate(), Activation::File(2)));
    assert_eq!(a.files_from(2), (vec![1, 2], 1));
    assert_eq!(a.files_from(1), (vec![1, 2], 0));
}

#[test]
fn a_adds_a_file_to_the_files_that_play() {
    let mut a = app();
    a.handle("f");
    a.show_folder("/m".to_string(), &folder());
    a.handle("G");
    assert_eq!(a.handle("a"), Step::Append);
    assert!(a.append_file("/m/b.mp3").is_none());
    a.play_local(Source::Files, 2, 1);
    assert_eq!(a.append_file("/m/b.mp3").unwrap(), ["loadfile", "/m/b.mp3", "append-play"]);
    assert_eq!(a.mpv.as_ref().unwrap().state.count, 3);
    a.handle("g");
    assert!(a.append_file("/m/Live").is_none());
    a.handle("G");
    a.play_local(Source::Radio(station("P1")), 0, 0);
    assert!(a.append_file("/m/b.mp3").is_none());
}

#[test]
fn t_shows_the_stations_and_once_more_leaves_those_found() {
    let mut a = app();
    a.load_stations(vec![station("P1"), station("P2")]);
    assert_eq!(a.handle("t"), Step::Stay);
    assert_eq!(a.screen, Screen::Radio);
    assert_eq!(a.current_list_indices(), (0, Some(2)));
    assert_eq!(a.handle("/"), Step::PromptStations);
    assert_eq!(a.handle("c"), Step::PromptCountry);
    assert_eq!(a.screen, Screen::Radio);
    a.finish_stations(Ok(vec![station("Jazz"), station("P2"), station("News")]));
    a.handle("G");
    assert_eq!(a.current_list_indices(), (2, Some(3)));
    a.handle("t");
    assert_eq!(a.current_list_indices(), (0, Some(2)));
    a.handle("j");
    a.handle("t");
    assert_eq!(a.current_list_indices(), (1, Some(2)));
}

#[test]
fn outside_the_radio_its_keys_mean_something_else() {
    let mut a = app();
    assert_eq!(a.handle("c"), Step::Stay);
    assert_eq!(a.handle("D"), Step::Stay);
    assert_eq!(a.handle("/"), Step::Prompt);
    assert_eq!(a.handle("a"), Step::Enqueue);
    assert_eq!(a.handle("x"), Step::Stay);
}

#[test]
fn stations_are_kept_once_and_removed() {
    let mut a = app();
    a.handle("t");
    a.finish_stations(Ok(vec![station("Jazz"), station("News")]));
    assert_eq!(a.handle("a"), Step::Keep);
    assert!(a.keep_station());
    assert!(!a.keep_station());
    a.handle("j");
    assert!(a.keep_station());
    assert_eq!(names(&a), ["Jazz", "News"]);
    a.handle("t");
    a.handle("G");
    assert_eq!(a.handle("D"), Step::Remove);
    assert!(a.remove_station());
    assert_eq!((names(&a), a.radio_idx), (vec!["Jazz"], 0));
    assert!(a.remove_station());
    assert!(!a.remove_station());
    assert!(!a.keep_station());
    assert_eq!(a.current_list_indices(), (0, Some(0)));
}

#[test]
fn a_found_station_can_be_removed_from_those_kept() {
    let mut a = app();
    a.load_stations(vec![station("P1"), station("P2")]);
    a.handle("t");
    a.finish_stations(Ok(vec![station("Jazz"), station("P1")]));
    a.handle("j");
    assert!(a.remove_station());
    assert_eq!((names(&a), a.radio_idx), (vec!["P2"], 1));
    a.handle("k");
    assert!(!a.remove_station());
}

#[test]
fn a_search_for_stations_that_fails_is_told() {
    let mut a = app();
    a.load_stations(vec![station("P1")]);
    a.handle("t");
    a.finish_stations(Err("timed out".to_string()));
    assert_eq!(a.status, Some((" Search failed: timed out".to_string(), ERR)));
    assert_eq!(a.current_list_indices(), (0, Some(1)));
    assert_eq!(typed_text("  jazz @NO "), Some("jazz @NO".to_string()));
    assert_eq!(typed_text("  "), None);
}

#[test]
fn enter_plays_a_station() {
    let mut a = app();
    a.load_stations(vec![station("P1"), station("P2")]);
    a.handle("t");
    a.handle("j");
    match a.list_activate() {
        Activation::Station(s) => assert_eq!(s, station("P2")),
        other => panic!("{:?}", other),
    }
}

#[test]
fn mpv_pauses_spotify_on_the_own_device_only() {
    let mut a = app();
    a.own_device = "me".to_string();
    assert!(a.play_local(Source::Files, 1, 0).is_none());
    a.poll_state(Some(playing("phone", true)));
    assert!(a.play_local(Source::Files, 1, 0).is_none());
    a.poll_state(Some(playing("me", false)));
    assert!(a.play_local(Source::Files, 1, 0).is_none());
    a.poll_state(Some(playing("me", true)));
    match a.play_local(Source::Radio(station("P1")), 0, 0) {
        Some(Command::Pause { device }) => assert_eq!(device, "me"),
        other => panic!("{:?}", other),
    }
    a.own_device = String::new();
    a.poll_state(Some(playing("", true)));
    assert!(a.play_local(Source::Files, 1, 0).is_none());
}

#[test]
fn playing_from_spotify_ends_mpv_and_so_does_x() {
    let mut a = app();
    let t = Track {
        id: Some("t".to_string()),
        name: "T".to_string(),
        artists: Vec::new(),
        duration_ms: 1,
        images: Vec::new(),
    };
    a.poll_state(Some(playing("phone", false)));
    a.ensure_saved_loaded(vec![t]);
    a.handle("L");
    a.play_local(Source::Files, 1, 0);
    assert!(matches!(a.list_activate(), Activation::Send(_)));
    assert!(a.mpv.is_none());
    a.play_local(Source::Files, 1, 0);
    assert_eq!(a.handle("x"), Step::StopMpv);
    assert!(a.mpv.is_none());
    a.play_local(Source::Files, 1, 0);
    a.local_failed("mpv: not found");
    assert!(a.mpv.is_none());
    assert_eq!(a.status, Some((" mpv: not found".to_string(), ERR)));
}

#[test]
fn playback_keys_go_to_mpv_while_it_is_there() {
    let keys = ["SPACE", "n", "b", "+", "-", "]", "[", "s", "r"];
    let mut a = app();
    for k in keys {
        assert!(!matches!(a.handle(k), Step::Local(_)));
    }
    a.play_local(Source::Files, 2, 0);
    let steps: Vec<Step> = keys.iter().map(|k| a.handle(k)).collect();
    let local = [
        LocalKey::Pause,
        LocalKey::Next,
        LocalKey::Previous,
        LocalKey::Volume(5),
        LocalKey::Volume(-5),
        LocalKey::Seek(5),
        LocalKey::Seek(-5),
        LocalKey::Shuffle,
        LocalKey::Repeat,
    ];
    assert_eq!(steps, local.map(Step::Local));
    assert_eq!(a.press_local(LocalKey::Volume(-5)), [["set", "volume", "95"]]);
    assert_eq!(a.mpv.as_ref().unwrap().volume, 95);
    a.mpv_ended();
    assert!(a.press_local(LocalKey::Pause).is_empty());
}

#[test]
fn nothing_is_asked_while_mpv_is_paused() {
    let mut a = app();
    assert!(!a.mpv_due(5_000_000_000) && a.spotify_due(2_000_000_000, 2));
    a.play_local(Source::Files, 2, 0);
    assert!(!a.mpv_due(999_999_999) && a.mpv_due(1_000_000_000));
    assert!(a.spotify_due(2_000_000_000, 2) && !a.spotify_due(1_999_999_999, 2));
    a.press_local(LocalKey::Pause);
    assert!(!a.mpv_due(5_000_000_000) && !a.spotify_due(5_000_000_000, 2));
}

#[test]
fn mpv_is_shown_while_it_plays() {
    let mut a = app();
    a.poll_state(Some(playing("phone", true)));
    a.play_local(Source::Files, 2, 0);
    a.mpv_reports(silent());
    assert_eq!(a.progress(), (61_000, 120_000, 37));
    let lines = a.now_lines(18);
    assert!(text(&lines[1]).trim_start().starts_with("▶ b.mp3"));
    assert!(text(&lines[2]).trim_start().starts_with("1:01  ━"));
    assert!(text(&lines[2]).ends_with("2:00"));
    a.press_local(LocalKey::Pause);
    assert!(text(&a.now_lines(18)[1]).contains("⏸"));
    a.mpv_ended();
    assert_eq!(a.progress().1, 0);
}

#[test]
fn a_station_shows_its_logo_and_a_file_the_image_beside_it() {
    let mut a = app();
    let mut s = station("P1");
    a.play_local(Source::Radio(s.clone()), 0, 0);
    assert!(matches!(a.sync_cover(), CoverAction::Nothing));
    s.favicon = "http://logo".to_string();
    a.play_local(Source::Radio(s.clone()), 0, 0);
    match a.sync_cover() {
        CoverAction::Fetch { id, url } => assert_eq!((id.as_str(), url.as_str()), ("id-P1", "http://logo")),
        other => panic!("{:?}", other),
    }
    s.uuid = String::new();
    a.play_local(Source::Radio(s), 0, 0);
    match a.sync_cover() {
        CoverAction::Fetch { id, .. } => assert!(id.len() == 16 && !id.contains('/')),
        other => panic!("{:?}", other),
    }
    a.cover_placed("old".to_string());
    a.play_local(Source::Files, 1, 0);
    assert!(matches!(a.sync_cover(), CoverAction::Erase));
    a.mpv_reports(silent());
    match a.sync_cover() {
        CoverAction::Beside { path } => assert_eq!(path, "/m/b.mp3"),
        other => panic!("{:?}", other),
    }
    a.cover_placed("/m/b.mp3".to_string());
    assert!(matches!(a.sync_cover(), CoverAction::Nothing));
    assert!(matches!(a.no_cover(), CoverAction::Erase));
    assert!(matches!(a.no_cover(), CoverAction::Nothing));
}

#[test]
fn files_and_stations_have_their_rows() {
    let mut a = app();
    a.handle("f");
    assert_eq!(text(&a.main_lines()[1]).trim(), "Files");
    assert_eq!(text(&a.main_lines()[3]).trim(), "No folders or music files here.");
    a.show_folder("/m".to_string(), &folder());
    let lines: Vec<String> = a.main_lines().iter().map(text).collect();
    assert_eq!(lines[1].trim(), "/m");
    assert!(lines[3].ends_with("Live/") && lines[4].ends_with("A.flac") && lines[5].ends_with("b.mp3"));
    a.load_stations(vec![station("P1")]);
    a.handle("t");
    assert!(text(&a.main_lines()[3]).contains("★ P1"));
    a.finish_stations(Ok(vec![station("Jazz"), station("P1")]));
    let lines: Vec<String> = a.main_lines().iter().map(text).collect();
    assert!(!lines[3].contains('★') && lines[3].ends_with("Jazz  Norway  MP3 128"));
    assert!(lines[4].contains("★ P1"));
    a.finish_stations(Ok(Vec::new()));
    assert_eq!(text(&a.main_lines()[3]).trim(), "No stations found.");
}

#[test]
fn what_plays_is_asked_for_after_most_commands() {
    assert!(polls_after(&Command::Next { device: None }));
    assert!(polls_after(&Command::Pause { device: String::new() }));
    assert!(polls_after(&Command::Seek { ms: 0, device: None }));
    assert!(!polls_after(&Command::Volume { percent: 5, device: None }));
    assert!(!polls_after(&Command::Enqueue { track: String::new(), device: None }));
    assert!(Activation::Nothing.polls());
    assert!(Activation::Send(Command::Next { device: None }).polls());
    assert!(!Activation::Stop.polls());
}
