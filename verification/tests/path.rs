use tune::path::{extension_of, file_name_of, join_path, parent_of};

#[test]
fn the_last_name_of_a_path() {
    assert_eq!(file_name_of("/music/a.mp3").as_deref(), Some("a.mp3"));
    assert_eq!(file_name_of("/music/album//").as_deref(), Some("album"));
    assert_eq!(file_name_of("album/.").as_deref(), Some("album"));
    assert_eq!(file_name_of("/"), None);
    assert_eq!(file_name_of(""), None);
    assert_eq!(file_name_of("."), None);
    assert_eq!(file_name_of("a/.."), None);
}

#[test]
fn the_extension_of_a_path() {
    assert_eq!(extension_of("a.tar.gz").as_deref(), Some("gz"));
    assert_eq!(extension_of("a.").as_deref(), Some(""));
    assert_eq!(extension_of(".mp3"), None);
    assert_eq!(extension_of("mp3"), None);
    assert_eq!(extension_of("dir.d/file"), None);
}

#[test]
fn paths_are_read_the_way_the_standard_library_does() {
    let all = [
        "", "/", ".", "..", "./", "../", "a", "a/", "a/b", "a//b", "a/./b", "/a", "/./a", "./a", "a/..", "a/../b", "a/b/.",
        ".hidden", "a/.hidden", "a.b/c", "x.", "..x", "/a/b/c.FLAC", "//a", "...",
    ];
    for p in all {
        let q = std::path::Path::new(p);
        assert_eq!(file_name_of(p).as_deref(), q.file_name().map(|s| s.to_str().unwrap()), "{}", p);
        assert_eq!(extension_of(p).as_deref(), q.extension().map(|s| s.to_str().unwrap()), "{}", p);
        assert_eq!(parent_of(p).as_deref(), q.parent().map(|s| s.to_str().unwrap()), "{}", p);
        for name in ["", "x", "/x", "x/y"] {
            assert_eq!(join_path(p, name), q.join(name).to_str().unwrap(), "{} {}", p, name);
        }
    }
}

#[test]
fn a_joined_name_comes_back() {
    let p = join_path("/music/album/", "cover.jpg");
    assert_eq!(p, "/music/album/cover.jpg");
    assert_eq!(file_name_of(&p).as_deref(), Some("cover.jpg"));
    assert_eq!(parent_of(&p).as_deref(), Some("/music/album"));
}
