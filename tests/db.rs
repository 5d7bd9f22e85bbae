use coloratura::color::{Color, ColorError};
use coloratura::db::{data, Guild};

#[test]
fn data_dir_of_guild() {
    assert_eq!(data("1234"), "./data/1234");
}

#[test]
fn table_names() {
    assert_eq!(Guild::Colors.name(), "colors");
    assert_eq!(Guild::Users.name(), "users");
}

#[test]
fn table_paths() {
    assert_eq!(Guild::Colors.path("./data/1"), "./data/1/colors.cdb");
    assert_eq!(Guild::Users.path("./data/1"), "./data/1/users.cdb");
    assert_eq!(Guild::Colors.tmp_path("./data/1"), "./data/1/colors.cdb.tmp");
    assert_eq!(Guild::Users.tmp_path("./data/1"), "./data/1/users.cdb.tmp");
}

#[test]
fn table_paths_join_like_paths() {
    assert_eq!(Guild::Users.path("dir/"), "dir/users.cdb");
    assert_eq!(Guild::Users.path(""), "users.cdb");
}

#[test]
fn parse_colors() {
    assert_eq!(Color::parse("ff0000"), Ok(Color(255, 0, 0)));
    assert_eq!(Color::parse("#00Ff10"), Ok(Color(0, 255, 16)));
    assert_eq!(Color::parse("#abcdef"), Ok(Color(0xab, 0xcd, 0xef)));
}

#[test]
fn reject_non_colors() {
    assert_eq!(Color::parse("ff000"), Err(ColorError::NotHex));
    assert_eq!(Color::parse("##ff0000"), Err(ColorError::NotHex));
    assert_eq!(Color::parse("gg0000"), Err(ColorError::NotHex));
    assert_eq!(Color::parse(""), Err(ColorError::NotHex));
}

#[test]
fn color_keys_are_lower_case_hex() {
    assert_eq!(Color(255, 0, 16).to_hex(), b"ff0010".to_vec());
    assert_eq!(Color::parse("#ABCDEF").unwrap().to_hex(), b"abcdef".to_vec());
}
