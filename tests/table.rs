use coloratura::table::Table;

fn table(pairs: &[(&str, &str)]) -> Table {
    let mut t = Table::new();
    for (k, v) in pairs {
        t.push(k.as_bytes().to_vec(), v.as_bytes().to_vec());
    }
    t
}

fn pairs(t: &Table) -> Vec<(String, String)> {
    (0..t.len())
        .map(|i| {
            let e = t.entry(i);
            (
                String::from_utf8(e.key.clone()).unwrap(),
                String::from_utf8(e.value.clone()).unwrap(),
            )
        })
        .collect()
}

#[test]
fn find_first_match() {
    let t = table(&[("a", "1"), ("b", "2"), ("a", "3")]);
    assert_eq!(t.find(b"a"), Some(&b"1".to_vec()));
    assert_eq!(t.find(b"b"), Some(&b"2".to_vec()));
    assert_eq!(t.find(b"c"), None);
    assert_eq!(Table::new().find(b""), None);
}

#[test]
fn with_entry_replaces_key() {
    let t = table(&[("a", "1"), ("b", "2")]);
    let n = t.with_entry(b"a", b"9");
    assert_eq!(
        pairs(&n),
        vec![("b".to_string(), "2".to_string()), ("a".to_string(), "9".to_string())]
    );
    assert_eq!(n.find(b"a"), Some(&b"9".to_vec()));
}

#[test]
fn without_key_drops_key() {
    let t = table(&[("a", "1"), ("b", "2"), ("a", "3")]);
    let n = t.without_key(b"a");
    assert_eq!(pairs(&n), vec![("b".to_string(), "2".to_string())]);
    assert_eq!(n.find(b"a"), None);
}

#[test]
fn clean_keeps_worn_colors() {
    let colors = table(&[("ff0000", "10"), ("00ff00", "11"), ("0000ff", "12")]);
    let users = table(&[("1", "11"), ("2", "11")]);
    let kept = colors.used_by(&users);
    assert_eq!(pairs(&kept), vec![("00ff00".to_string(), "11".to_string())]);
    assert_eq!(colors.unused_by(&users), vec![b"10".to_vec(), b"12".to_vec()]);
}

#[test]
fn unused_roles_listed_once() {
    let colors = table(&[("ff0000", "10"), ("ee0000", "10")]);
    let users = Table::new();
    assert_eq!(colors.unused_by(&users), vec![b"10".to_vec()]);
    assert_eq!(colors.used_by(&users).len(), 0);
}
