use tune::json::{parse, Json};
use tune::playback::{
    cover_cache_path, cover_id_and_url, heading_of, signed_of, signed_total_ms_of, total_ms_of, unknown_duration_ms,
    unknown_title_artists, unsigned_of, whole_ms_of, Episode, Image, Item, Track,
};

fn image(width: Option<u32>, url: &str) -> Image {
    Image { width, url: url.to_string() }
}

fn track(id: Option<&str>, images: Vec<Image>) -> Track {
    Track {
        id: id.map(|s| s.to_string()),
        name: "Song".to_string(),
        artists: vec!["A".to_string(), "B".to_string()],
        duration_ms: 61_500,
        images,
    }
}

fn pair(a: &str, b: &str) -> Option<(String, String)> {
    Some((a.to_string(), b.to_string()))
}

#[test]
fn the_narrowest_cover_is_chosen() {
    let t = track(Some("t1"), vec![image(Some(640), "l"), image(Some(64), "s"), image(None, "n"), image(Some(64), "s2")]);
    assert_eq!(cover_id_and_url(&Item::Track(t)), pair("t1", "s"));
    let t = track(Some("t1"), vec![image(None, "n"), image(None, "m")]);
    assert_eq!(cover_id_and_url(&Item::Track(t)), pair("t1", "n"));
}

#[test]
fn an_item_without_an_id_or_image_has_no_cover() {
    assert_eq!(cover_id_and_url(&Item::Track(track(None, vec![image(None, "n")]))), None);
    assert_eq!(cover_id_and_url(&Item::Track(track(Some("t1"), Vec::new()))), None);
}

#[test]
fn an_episode_has_its_own_cover() {
    let e = Episode {
        id: "e1".to_string(),
        name: "Ep".to_string(),
        show: "Show".to_string(),
        duration_ms: 1,
        images: vec![image(Some(300), "b"), image(Some(64), "c")],
    };
    let item = Item::Episode(e);
    assert_eq!(cover_id_and_url(&item), pair("e1", "c"));
    let item = Some(item);
    assert_eq!(heading_of(&item), ("Ep".to_string(), "Show".to_string()));
    assert_eq!(total_ms_of(&item), 1);
}

#[test]
fn an_unknown_item_is_read_as_json() {
    let j = parse(
        "{\"id\":\"u1\",\"name\":\"N\",\"duration_ms\":5,\"artists\":[{\"name\":\"A\"},{\"x\":1},{\"name\":\"B\"}],\
         \"album\":{\"images\":[{\"url\":\"big\",\"width\":640},{\"url\":\"small\",\"width\":64},{\"url\":\"none\"}]}}",
    )
    .unwrap();
    assert_eq!(unknown_title_artists(&j), ("N".to_string(), "A, B".to_string()));
    assert_eq!(unknown_duration_ms(&j), 5);
    assert_eq!(cover_id_and_url(&Item::Unknown(j)), pair("u1", "small"));
    let bare = parse("{\"id\":\"u2\",\"album\":{},\"images\":[{\"url\":\"only\"}]}").unwrap();
    assert_eq!(cover_id_and_url(&Item::Unknown(bare)), pair("u2", "only"));
    let no_url = parse("{\"id\":\"u2\",\"images\":[{\"width\":1},{\"url\":\"x\",\"width\":2}]}").unwrap();
    assert_eq!(cover_id_and_url(&Item::Unknown(no_url)), None);
}

#[test]
fn what_an_unknown_item_does_not_say_is_a_dash() {
    assert_eq!(unknown_title_artists(&Json::Null), ("—".to_string(), "—".to_string()));
    let j = parse("{\"artists\":[{}]}").unwrap();
    assert_eq!(unknown_title_artists(&j).1, "—");
    assert_eq!(unknown_duration_ms(&j), 0);
    assert_eq!(heading_of(&None), ("—".to_string(), "—".to_string()));
    assert_eq!(total_ms_of(&None), 0);
}

#[test]
fn a_track_is_named_with_its_artists() {
    let item = Some(Item::Track(track(None, Vec::new())));
    assert_eq!(heading_of(&item), ("Song".to_string(), "A, B".to_string()));
    assert_eq!(total_ms_of(&item), 61_500);
    assert_eq!(signed_total_ms_of(&item), 61_500);
}

#[test]
fn times_are_told_in_whole_milliseconds() {
    assert_eq!(whole_ms_of(1_999_999), 1);
    assert_eq!(whole_ms_of(-1_999_999), -1);
    assert_eq!(unsigned_of(-1), u64::MAX);
    assert_eq!(signed_of(u64::MAX), -1);
    assert_eq!((unsigned_of(7), signed_of(7)), (7, 7));
}

#[test]
fn covers_are_kept_by_the_id_of_their_item() {
    assert_eq!(cover_cache_path(&Some("/home/me".into()), "t1"), "/home/me/.tune/cover_cache/t1.jpg");
    assert_eq!(cover_cache_path(&None, "t1"), "/tmp/.tune/cover_cache/t1.jpg");
}
