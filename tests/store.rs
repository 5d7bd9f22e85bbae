use coloratura::db::Guild;
use coloratura::store::{GuildFiles, StoreError};
use coloratura::table::Table;

fn table(pairs: &[(&str, &str)]) -> Table {
    let mut t = Table::new();
    for (k, v) in pairs {
        t.push(k.as_bytes().to_vec(), v.as_bytes().to_vec());
    }
    t
}

fn pairs(t: &Table) -> Vec<(Vec<u8>, Vec<u8>)> {
    (0..t.len())
        .map(|i| (t.entry(i).key.clone(), t.entry(i).value.clone()))
        .collect()
}

#[test]
fn fresh_guild_has_no_data() {
    let files = GuildFiles::new();
    assert!(files.open(Guild::Colors).is_none());
    assert!(files.open(Guild::Users).is_none());
}

#[test]
fn set_needs_the_directory() {
    let mut files = GuildFiles::new();
    assert_eq!(files.set(Guild::Users, table(&[("1", "2")])), Err(StoreError::IoFailure));
    assert!(files.open(Guild::Users).is_none());
}

#[test]
fn set_then_open() {
    let mut files = GuildFiles::new();
    files.ensure_dir();
    assert_eq!(files.set(Guild::Users, table(&[("1", "2")])), Ok(()));
    let t = files.open(Guild::Users).unwrap();
    assert_eq!(t.find(b"1"), Some(&b"2".to_vec()));
    assert!(files.open(Guild::Colors).is_none());
}

#[test]
fn rebuild_with_same_pairs_keeps_lookups() {
    let mut files = GuildFiles::new();
    files.ensure_dir();
    files.set(Guild::Colors, table(&[("ff0000", "10"), ("00ff00", "11")])).unwrap();
    let before = pairs(files.open(Guild::Colors).unwrap());
    let mut again = Table::new();
    for (k, v) in &before {
        again.push(k.clone(), v.clone());
    }
    files.set(Guild::Colors, again).unwrap();
    let t = files.open(Guild::Colors).unwrap();
    assert_eq!(t.find(b"ff0000"), Some(&b"10".to_vec()));
    assert_eq!(t.find(b"00ff00"), Some(&b"11".to_vec()));
    assert_eq!(t.find(b"0000ff"), None);
}

#[test]
fn interrupted_rebuild_keeps_old_snapshot() {
    let mut files = GuildFiles::new();
    files.ensure_dir();
    files.set(Guild::Users, table(&[("1", "10")])).unwrap();
    files.write_tmp(Guild::Users, table(&[("1", "99")])).unwrap();
    assert_eq!(files.open(Guild::Users).unwrap().find(b"1"), Some(&b"10".to_vec()));
    files.rm_tmp(Guild::Users);
    assert_eq!(files.replace(Guild::Users), Err(StoreError::IoFailure));
    assert_eq!(files.set(Guild::Users, table(&[("1", "20")])), Ok(()));
    assert_eq!(files.open(Guild::Users).unwrap().find(b"1"), Some(&b"20".to_vec()));
}

#[test]
fn repeated_steps_change_nothing() {
    let mut files = GuildFiles::new();
    files.ensure_dir();
    files.ensure_dir();
    files.rm_tmp(Guild::Colors);
    files.rm_tmp(Guild::Colors);
    assert_eq!(files.set(Guild::Colors, table(&[("a", "b")])), Ok(()));
    assert!(files.open(Guild::Colors).is_some());
}
