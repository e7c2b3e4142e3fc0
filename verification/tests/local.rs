use tune::json::{parse, Json};
use tune::local::{
    cover_candidates, data_of, folder_cover, frame, get_property, into_data, is_audio, list_by, list_dir, read_reply, reply_of, request, sock_path, Entry, LocalKey, Mpv, Repeat, Reply, Report, Source,
};
use tune::radio::Station;

fn entry(name: &str, is_dir: bool) -> Entry {
    Entry { name: name.to_string(), is_dir }
}

fn report(metadata: &str) -> Report {
    Report {
        paused: Some(false),
        pos_ms: Some(61_500),
        duration_ms: Some(200_000),
        index: Some(1),
        count: Some(3),
        media: Some("b.mp3".to_string()),
        metadata: Some(parse(metadata).unwrap()),
        path: Some("/music/b.mp3".to_string()),
    }
}

#[test]
fn a_folder_lists_subfolders_first_then_audio_files() {
    let entries = vec![
        entry("B album", true),
        entry(".hidden", true),
        entry("b.mp3", false),
        entry("A.FLAC", false),
        entry("notes.txt", false),
        entry("cover.jpg", false),
    ];
    let names: Vec<&str> = list_dir(&entries).iter().map(|i| entries[*i].name.as_str()).collect();
    assert_eq!(names, ["B album", "A.FLAC", "b.mp3"]);
    let files: Vec<String> = entries.iter().filter(|e| !e.is_dir).map(|e| format!("/music/{}", e.name)).collect();
    assert_eq!(folder_cover("/music/b.mp3", &files), Some("/music/cover.jpg".to_string()));
}

#[test]
fn names_that_tie_stay_as_they_came() {
    let entries = vec![entry("Ä.mp3", false), entry("a.mp3", false), entry("A.MP3", false), entry("ä.MP3", false)];
    assert_eq!(list_dir(&entries), [1, 2, 0, 3]);
    assert!(list_dir(&Vec::new()).is_empty());
    let keys = ["d", "c", "b", "a"].map(String::from).to_vec();
    assert_eq!(list_by(&entries, &keys), [3, 2, 1, 0]);
}

#[test]
fn audio_files_are_known_by_their_extension() {
    for p in ["a.mp3", "/x/b.OGG", "c.tar.Flac", "d.mka"] {
        assert!(is_audio(p), "{}", p);
    }
    for p in ["a.txt", "mp3", ".mp3", "a.mp3/b", "a.mp"] {
        assert!(!is_audio(p), "{}", p);
    }
}

#[test]
fn covers_are_tried_in_order() {
    let all = cover_candidates("/m/a.mp3");
    assert_eq!(all.len(), 18);
    assert_eq!(all[..4], ["/m/cover.jpg", "/m/cover.jpeg", "/m/cover.png", "/m/folder.jpg"]);
    assert_eq!(all[17], "/m/Front.png");
    let present = vec!["/m/Front.png".to_string(), "/m/front.jpg".to_string()];
    assert_eq!(folder_cover("/m/a.mp3", &present), Some("/m/front.jpg".to_string()));
    assert_eq!(folder_cover("/m/a.mp3", &Vec::new()), None);
    assert_eq!(folder_cover("/", &present), None);
}

#[test]
fn mpv_is_started_on_files_or_on_a_station() {
    let m = Mpv::start(Source::Files, 3, 1);
    assert_eq!((m.state.index, m.state.count, m.volume, m.repeat), (1, 3, 100, Repeat::Off));
    assert_eq!(
        m.start_args("/run/x.sock"),
        ["--no-video", "--really-quiet", "--no-terminal", "--input-ipc-server=/run/x.sock", "--playlist-start=1"]
    );
    let s = Station { url: "http://s".into(), ..Default::default() };
    let m = Mpv::start(Source::Radio(s), 0, 0);
    assert_eq!(m.state.count, 1);
    assert_eq!(m.start_args("x")[4..], ["--playlist-start=0", "http://s"]);
    assert_eq!(sock_path("/run/user/1", 42), "/run/user/1/tune-mpv-42.sock");
}

#[test]
fn a_file_shows_its_tags() {
    let mut m = Mpv::start(Source::Files, 3, 0);
    m.refresh(report("{\"TITLE\": \" Song \", \"Artist\": \"Band\", \"album\": \"Record\"}"));
    assert_eq!((m.state.title.as_str(), m.state.artist.as_str()), ("Song", "Band · Record"));
    assert_eq!((m.state.index, m.state.count, m.state.path.as_str()), (1, 3, "/music/b.mp3"));
    m.refresh(report("{\"album\": \"Record\"}"));
    assert_eq!((m.state.title.as_str(), m.state.artist.as_str()), ("b.mp3", "Record"));
    assert_eq!((m.state.pos_ms, m.state.duration_ms), (61_500, 200_000));
    m.refresh(Report {
        paused: Some(true),
        pos_ms: None,
        duration_ms: None,
        index: None,
        count: None,
        media: None,
        metadata: None,
        path: None,
    });
    assert!(m.state.paused);
    assert_eq!((m.state.pos_ms, m.state.duration_ms), (0, 0));
    assert_eq!((m.state.index, m.state.count), (1, 3));
    assert_eq!((m.state.title.as_str(), m.state.artist.as_str(), m.state.path.as_str()), ("", "", ""));
}

#[test]
fn a_station_shows_its_song_and_its_name() {
    let s = Station { name: "NRK P1".into(), url: "http://s".into(), ..Default::default() };
    let mut m = Mpv::start(Source::Radio(s), 0, 0);
    m.refresh(report("{\"icy-name\": \"\", \"ICY-Title\": \"A song\"}"));
    assert_eq!((m.state.title.as_str(), m.state.artist.as_str(), m.state.path.as_str()), ("A song", "NRK P1", ""));
    assert_eq!((m.state.pos_ms, m.state.duration_ms), (61_500, 0));
    m.refresh(report("{\"icy-name\": \"P1\"}"));
    assert_eq!((m.state.title.as_str(), m.state.artist.as_str()), ("P1", "P1"));
    m.refresh(report("[]"));
    assert_eq!((m.state.title.as_str(), m.state.artist.as_str()), ("NRK P1", "NRK P1"));
}

#[test]
fn mpv_that_does_not_answer_changes_nothing() {
    let mut m = Mpv::start(Source::Files, 2, 1);
    let mut r = report("{\"title\": \"x\"}");
    r.paused = None;
    m.refresh(r);
    assert_eq!((m.state.title.as_str(), m.state.index, m.state.count), ("", 1, 2));
}

#[test]
fn keys_become_commands_for_mpv() {
    let mut m = Mpv::start(Source::Files, 2, 0);
    assert_eq!(m.toggle_pause(), ["cycle", "pause"]);
    assert!(m.state.paused);
    assert_eq!(m.toggle_pause(), ["cycle", "pause"]);
    assert!(!m.state.paused);
    assert_eq!(m.next(), ["playlist-next"]);
    assert_eq!(m.prev(), ["playlist-prev"]);
    assert_eq!(m.seek(-5), ["seek", "-5", "relative"]);
    assert_eq!(m.shuffle(), ["playlist-shuffle"]);
    assert_eq!(m.quit(), ["quit"]);
    assert_eq!(m.append("/m/c.mp3"), ["loadfile", "/m/c.mp3", "append-play"]);
    assert_eq!(m.state.count, 3);
    assert_eq!(get_property("pause"), ["get_property", "pause"]);
}

#[test]
fn playback_keys_are_told_to_mpv() {
    let mut m = Mpv::start(Source::Files, 2, 0);
    assert_eq!(m.press(LocalKey::Pause), [["cycle", "pause"]]);
    assert!(m.state.paused);
    m.press(LocalKey::Pause);
    assert!(!m.state.paused);
    assert_eq!(m.press(LocalKey::Next), [["playlist-next"]]);
    assert_eq!(m.press(LocalKey::Previous), [["playlist-prev"]]);
    assert_eq!(m.press(LocalKey::Volume(-30)), [["set", "volume", "70"]]);
    assert_eq!(m.press(LocalKey::Volume(50)), [["set", "volume", "100"]]);
    assert_eq!(m.press(LocalKey::Seek(-5)), [["seek", "-5", "relative"]]);
    assert_eq!(m.press(LocalKey::Shuffle), [["playlist-shuffle"]]);
    assert_eq!(m.press(LocalKey::Repeat), [["set", "loop-playlist", "inf"], ["set", "loop-file", "no"]]);
    assert_eq!(m.repeat, Repeat::List);
}

#[test]
fn the_volume_of_mpv_stays_in_range() {
    let mut m = Mpv::start(Source::Files, 1, 0);
    assert_eq!(m.add_volume(5), ["set", "volume", "100"]);
    assert_eq!(m.add_volume(-30), ["set", "volume", "70"]);
    assert_eq!(m.add_volume(-500), ["set", "volume", "0"]);
    assert_eq!(m.volume, 0);
}

#[test]
fn repeat_goes_from_the_list_to_the_track_and_off() {
    let mut m = Mpv::start(Source::Files, 1, 0);
    let (list, file) = m.cycle_repeat();
    assert_eq!((m.repeat, list[2].as_str(), file[2].as_str()), (Repeat::List, "inf", "no"));
    assert_eq!((list[1].as_str(), file[1].as_str()), ("loop-playlist", "loop-file"));
    let (list, file) = m.cycle_repeat();
    assert_eq!((m.repeat, list[2].as_str(), file[2].as_str()), (Repeat::Track, "no", "inf"));
    let (list, file) = m.cycle_repeat();
    assert_eq!((m.repeat, list[2].as_str(), file[2].as_str()), (Repeat::Off, "no", "no"));
}

#[test]
fn a_command_is_one_line_of_json() {
    let words = vec!["loadfile".to_string(), "a\nb".to_string()];
    assert_eq!(request(&words), "{\"command\":[\"loadfile\",\"a\\nb\"]}\n");
    assert_eq!(frame("[]"), "{\"command\":[]}\n");
    let mut object = serde_json::Map::new();
    object.insert("command".to_string(), serde_json::Value::from(words.clone()));
    assert_eq!(request(&words), serde_json::Value::Object(object).to_string() + "\n");
}

#[test]
fn answers_are_told_from_events() {
    match read_reply("{\"data\":true,\"error\":\"success\"}\n") {
        Reply::Answer(v) => assert_eq!(data_of(&v).and_then(|d| d.as_bool()), Some(true)),
        other => panic!("{:?}", other),
    }
    assert!(matches!(read_reply("{\"event\":\"idle\"}\n"), Reply::Event));
    assert!(matches!(read_reply("oops"), Reply::Broken));
    assert!(matches!(reply_of(Json::Null), Reply::Event));
}

#[test]
fn an_answer_that_is_no_success_has_no_data() {
    let v = parse("{\"data\":1,\"error\":\"property unavailable\"}").unwrap();
    assert!(data_of(&v).is_none());
    assert!(into_data(v).is_none());
    let v = parse("{\"error\":\"success\"}").unwrap();
    assert!(data_of(&v).is_none());
    assert!(into_data(Json::Null).is_none());
    let v = parse("{\"data\":{\"title\":\"x\"},\"error\":\"success\"}").unwrap();
    assert_eq!(into_data(v).unwrap().get_str("title"), Some("x"));
}
