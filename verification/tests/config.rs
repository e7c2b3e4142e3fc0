use tune::config::{
    config_path, default_device_name, default_poll_s, default_true, launch_mode, log_path, music_folder, tune_dir, Config,
    Launch,
};

fn args(v: &[&str]) -> Vec<String> {
    v.iter().map(|s| s.to_string()).collect()
}

#[test]
fn settings_that_are_not_given_have_their_documented_values() {
    let c = Config::default();
    assert_eq!(c.client_id, "");
    assert_eq!(c.poll_s, 2);
    assert_eq!(c.default_device, "");
    assert!(c.local_player);
    assert_eq!(c.device_name, "tune");
    assert_eq!(c.music_dir, "");
    assert_eq!((default_poll_s(), default_true(), default_device_name()), (2, true, "tune".to_string()));
}

#[test]
fn files_stand_in_a_folder_of_their_own() {
    let home = Some("/home/me".to_string());
    assert_eq!(tune_dir(&home), "/home/me/.tune");
    assert_eq!(config_path(&home), "/home/me/.tune/config.yml");
    assert_eq!(log_path(&home), "/home/me/.tune/tune.log");
    assert_eq!(config_path(&None), "/tmp/.tune/config.yml");
}

#[test]
fn a_client_id_is_asked_for_until_there_is_one() {
    let mut c = Config::default();
    assert!(c.needs_client_id());
    assert!(!c.enter_client_id("  \n"));
    assert!(c.needs_client_id());
    assert!(c.enter_client_id(" abc123\n"));
    assert_eq!(c.client_id, "abc123");
    assert!(!c.needs_client_id());
    c.client_id = " \t".to_string();
    assert!(c.needs_client_id());
}

#[test]
fn the_first_argument_that_means_something_decides() {
    assert_eq!(launch_mode(&args(&[])), Launch::Screen);
    assert_eq!(launch_mode(&args(&["x", "-v", "--help"])), Launch::Version);
    assert_eq!(launch_mode(&args(&["-V"])), Launch::Version);
    assert_eq!(launch_mode(&args(&["--version"])), Launch::Version);
    assert_eq!(launch_mode(&args(&["-h", "-v"])), Launch::Help);
    assert_eq!(launch_mode(&args(&["--help"])), Launch::Help);
    assert_eq!(launch_mode(&args(&["--Version"])), Launch::Screen);
}

#[test]
fn browsing_starts_in_the_music_folder() {
    let home = Some("/home/me".to_string());
    let mut c = Config::default();
    assert_eq!(music_folder(&home), "/home/me/Music");
    assert_eq!(c.music_root(&home, true), "/home/me/Music");
    assert_eq!(c.music_root(&home, false), "/home/me");
    assert_eq!(c.music_root(&None, false), "/tmp");
    c.music_dir = "/srv/music".to_string();
    assert_eq!(c.music_root(&home, true), "/srv/music");
    assert_eq!(c.music_root(&home, false), "/srv/music");
}
