use tune::json::{parse, Json};
use tune::radio::{
    agent, count_play, country_name, fetch, in_country, keep, keeps, remove, same_station, saved_path, search, search_on, search_url, server,
    station, stations, Fetch, Search, Station, SERVERS,
};

fn text(s: &str) -> Json {
    Json::Text(s.to_string())
}

fn object(members: Vec<(&str, Json)>) -> Json {
    Json::Object(members.into_iter().map(|(k, v)| (k.to_string(), v)).collect())
}

fn pairs(v: &[(String, String)]) -> Vec<(&str, &str)> {
    v.iter().map(|(a, b)| (a.as_str(), b.as_str())).collect()
}

#[test]
fn a_directory_entry_becomes_a_station() {
    let v = object(vec![
        ("name", text(" NRK P1 ")),
        ("url", text("http://a/p1.pls")),
        ("url_resolved", text("https://b/p1_mp3_h")),
        ("countrycode", text("NO")),
        ("codec", text("MP3")),
        ("bitrate", Json::Number("192".to_string(), Some(192))),
        ("tags", text("news")),
        ("favicon", text("")),
        ("stationuuid", text("u1")),
    ]);
    let s = station(&v).unwrap();
    assert_eq!((s.name.as_str(), s.url.as_str(), s.bitrate), ("NRK P1", "https://b/p1_mp3_h", 192));
    let no_resolved = object(vec![("name", text("X")), ("url", text("http://a/x"))]);
    assert_eq!(station(&no_resolved).unwrap().url, "http://a/x");
    assert!(station(&object(vec![("name", text("Y"))])).is_none());
}

#[test]
fn a_directory_entry_is_read_out_of_json_text() {
    let v = parse(
        "{\"name\": \" NRK P1 \", \"url\": \"http://a/p1.pls\", \"url_resolved\": \"https://b/p1_mp3_h\", \
         \"countrycode\": \"NO\", \"codec\": \"MP3\", \"bitrate\": 192, \"tags\": \"news\", \"favicon\": \"\", \
         \"stationuuid\": \"u1\"}",
    )
    .unwrap();
    let s = station(&v).unwrap();
    assert_eq!(
        s,
        Station {
            name: "NRK P1".into(),
            url: "https://b/p1_mp3_h".into(),
            country: "NO".into(),
            codec: "MP3".into(),
            bitrate: 192,
            tags: "news".into(),
            favicon: "".into(),
            uuid: "u1".into(),
        }
    );
}

#[test]
fn a_bitrate_keeps_its_low_32_bits() {
    let v = parse("{\"url\": \"u\", \"bitrate\": 4294967298}").unwrap();
    assert_eq!(station(&v).unwrap().bitrate, 2);
    let v = parse("{\"url\": \"u\", \"bitrate\": -1}").unwrap();
    assert_eq!(station(&v).unwrap().bitrate, 0);
}

#[test]
fn stations_sharing_a_stream_are_still_different_stations() {
    let kept = Station { name: "CNN INTERNATIONAL".into(), url: "http://s/2868".into(), uuid: "u1".into(), ..Default::default() };
    let other = Station { name: "CNN".into(), url: "http://s/2868".into(), uuid: "u2".into(), ..Default::default() };
    let no_id = Station { name: "CNN".into(), url: "http://s/2868".into(), ..Default::default() };
    assert!(same_station(&kept, &kept.clone()));
    assert!(!same_station(&kept, &other));
    assert!(same_station(&kept, &no_id), "an entry without an id falls back to its URL");
}

#[test]
fn sameness_does_not_depend_on_the_order() {
    let a = Station { url: "x".into(), uuid: "u1".into(), ..Default::default() };
    let b = Station { url: "x".into(), ..Default::default() };
    let c = Station { url: "y".into(), ..Default::default() };
    assert!(same_station(&a, &b) && same_station(&b, &a));
    assert!(!same_station(&a, &c) && !same_station(&c, &a));
}

#[test]
fn country_names_are_capitalized_the_way_the_directory_has_them() {
    assert_eq!(country_name("norway"), "Norway");
    assert_eq!(country_name("united  KINGDOM"), "United Kingdom");
}

#[test]
fn country_names_beyond_ascii_change_their_case_too() {
    assert_eq!(country_name("ÅLAND éIRE"), "Åland Éire");
    assert_eq!(country_name("ßx"), "SSx");
    assert_eq!(country_name("  "), "");
}

#[test]
fn entries_without_a_stream_are_left_out() {
    let list = vec![
        object(vec![("name", text("A")), ("url", text("http://a"))]),
        object(vec![("name", text("B")), ("url", text("   "))]),
        Json::Null,
        object(vec![("name", text("C")), ("url_resolved", text(" http://c "))]),
    ];
    let found = stations(&list);
    let names: Vec<(&str, &str)> = found.iter().map(|s| (s.name.as_str(), s.url.as_str())).collect();
    assert_eq!(names, [("A", "http://a"), ("C", "http://c")]);
}

#[test]
fn a_search_asks_by_name_first() {
    let q = search("jazz");
    assert_eq!(
        pairs(&q.params()),
        [("name", "jazz"), ("limit", "100"), ("hidebroken", "true"), ("order", "clickcount"), ("reverse", "true")]
    );
}

#[test]
fn a_search_can_keep_to_one_country() {
    assert_eq!(pairs(&search("jazz @no").filter), [("name", "jazz"), ("countrycode", "NO")]);
    assert_eq!(pairs(&search("news @Norway").filter), [("name", "news"), ("country", "Norway")]);
    assert_eq!(pairs(&search("jazz @ ").filter), [("name", "jazz @ ")]);
    assert_eq!(pairs(&search(" jazz ").filter), [("name", " jazz ")]);
    assert_eq!(pairs(&search("@NO").filter), [("name", ""), ("countrycode", "NO")]);
    assert_eq!(pairs(&search("r@dio @ norway ").filter), [("name", "r@dio"), ("country", "Norway")]);
}

#[test]
fn a_name_that_matches_nothing_is_tried_as_a_tag() {
    let found = vec![Station { url: "x".into(), ..Default::default() }];
    match search_on("jazz", Ok(found.clone())) {
        Search::Done(Ok(v)) => assert_eq!(v, found),
        other => panic!("{:?}", other),
    }
    match search_on("jazz @NO", Ok(Vec::new())) {
        Search::Ask(q) => {
            assert_eq!(pairs(&q.filter), [("tag", "jazz"), ("countrycode", "NO")]);
            assert_eq!(q.limit, 100);
        }
        other => panic!("{:?}", other),
    }
    match search_on("jazz", Err("down".into())) {
        Search::Done(Err(e)) => assert_eq!(e, "down"),
        other => panic!("{:?}", other),
    }
}

#[test]
fn a_country_is_asked_for_by_code_or_name() {
    let code = in_country(" no ");
    assert_eq!(pairs(&code.filter), [("countrycode", "NO")]);
    assert_eq!(code.limit, 500);
    assert_eq!(pairs(&in_country("norway").filter), [("country", "Norway")]);
    assert_eq!(pairs(&in_country("é").filter), [("country", "É")]);
    assert_eq!(pairs(&in_country("n1").filter), [("country", "N1")]);
}

#[test]
fn a_server_that_fails_hands_over_to_the_next() {
    match fetch(0, Err("timeout".into())) {
        Fetch::Ask(i) => assert_eq!(i, 1),
        other => panic!("{:?}", other),
    }
    match fetch(SERVERS - 1, Err("refused".into())) {
        Fetch::Done(Err(e)) => assert_eq!(e, "refused"),
        other => panic!("{:?}", other),
    }
}

#[test]
fn an_answer_ends_the_request_whether_it_can_be_read_or_not() {
    match fetch(0, Ok("[{\"name\":\"A\",\"url\":\"http://a\"},{\"name\":\"B\"}]".into())) {
        Fetch::Done(Ok(v)) => assert_eq!(v.iter().map(|s| s.name.as_str()).collect::<Vec<_>>(), ["A"]),
        other => panic!("{:?}", other),
    }
    match fetch(0, Ok("<html>".into())) {
        Fetch::Done(Err(e)) => assert_eq!(e, "expected value at line 1 column 1"),
        other => panic!("{:?}", other),
    }
}

#[test]
fn the_directory_is_told_what_was_played() {
    assert_eq!(count_play("u1"), Some("https://all.api.radio-browser.info/json/url/u1".to_string()));
    assert_eq!(count_play(""), None);
}

#[test]
fn requests_go_to_the_directory_under_the_name_of_tune() {
    assert_eq!(agent(), "tune/0.3.0");
    assert_eq!(search_url(&server(0)), "https://de1.api.radio-browser.info/json/stations/search");
    assert_eq!(search_url(&server(1)), "https://all.api.radio-browser.info/json/stations/search");
}

#[test]
fn kept_stations_stand_in_their_own_file() {
    assert_eq!(saved_path(&Some("/home/me".into())), "/home/me/.tune/radio.yml");
    assert_eq!(saved_path(&None), "/tmp/.tune/radio.yml");
}

#[test]
fn an_at_sign_inside_a_word_belongs_to_the_word() {
    assert_eq!(pairs(&search("R@dio").filter), [("name", "R@dio")]);
    match search_on("R@dio", Ok(Vec::new())) {
        Search::Ask(q) => assert_eq!(pairs(&q.filter), [("tag", "R@dio")]),
        other => panic!("{:?}", other),
    }
}

#[test]
fn a_station_is_kept_once_and_removed_whatever_its_name() {
    let a = Station { name: "A".into(), url: "http://s".into(), uuid: "1".into(), ..Default::default() };
    let b = Station { name: "B".into(), url: "http://s".into(), uuid: "2".into(), ..Default::default() };
    let renamed = Station { name: "C".into(), url: "http://t".into(), uuid: "1".into(), ..Default::default() };
    let mut list = Vec::new();
    assert!(keep(&mut list, &a) && keep(&mut list, &b));
    assert!(!keep(&mut list, &renamed));
    assert_eq!(list, [a.clone(), b.clone()]);
    assert!(keeps(&list, &renamed));
    assert!(remove(&mut list, &renamed));
    assert!(!remove(&mut list, &a));
    assert_eq!(list, [b]);
}
