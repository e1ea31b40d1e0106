use std::path::PathBuf;

use arena_builder::paths::{beside_executable, data_path, get_default_path, no_parent};
use arena_builder::{Args, DATA_FILENAME, GAME_ID, GAME_TITLE};

#[test]
fn crate_constants() {
    assert_eq!(DATA_FILENAME, "arena-builder.pk3");
    assert_eq!(GAME_ID, "arena-builder");
    assert_eq!(GAME_TITLE, "ArenaBuilder");
}

#[test]
fn given_path_wins() {
    let args = Args {
        data_path: Some(PathBuf::from("custom/data.pk3")),
    };
    let path = data_path(&args, || panic!("asked for the executable")).unwrap();
    assert_eq!(path, PathBuf::from("custom/data.pk3"));
}

#[test]
fn default_path_lies_beside_the_executable() {
    let args = Args { data_path: None };
    let path = data_path(&args, || Ok(PathBuf::from("/opt/game/bin/arena"))).unwrap();
    assert_eq!(path, PathBuf::from("/opt/game/bin").join("arena-builder.pk3"));
    let path = get_default_path(Ok(PathBuf::from("dir/exe"))).unwrap();
    assert_eq!(path, PathBuf::from("dir").join(DATA_FILENAME));
}

#[test]
fn default_path_needs_the_executable_path() {
    let args = Args { data_path: None };
    let err = data_path(&args, || {
        Err(std::io::Error::new(std::io::ErrorKind::Other, "no such thing"))
    })
    .unwrap_err();
    assert_eq!(err.to_text(), "can't get executable path: no such thing");
}

#[test]
fn default_path_needs_a_parent() {
    let err = get_default_path(Ok(PathBuf::from("/"))).unwrap_err();
    assert_eq!(err.to_text(), "/: can't get parent of executable path");
    let err = get_default_path(Ok(PathBuf::from(""))).unwrap_err();
    assert_eq!(err.to_text(), ": can't get parent of executable path");
}

#[test]
fn beside_executable_joins_the_data_file_name() {
    let path = beside_executable("x/y", Some(PathBuf::from("x"))).unwrap();
    assert_eq!(path, PathBuf::from("x").join("arena-builder.pk3"));
    let err = beside_executable("x/y", None).unwrap_err();
    assert_eq!(err.to_text(), "x/y: can't get parent of executable path");
    assert_eq!(no_parent("exe").to_text(), "exe: can't get parent of executable path");
}
