use file_browser::alias_map::AliasMap;

#[test]
fn insert_replaces_existing_name() {
    let mut m = AliasMap::new();
    assert_eq!(m.len(), 0);
    m.insert("home".to_string(), "/a".to_string());
    m.insert("music".to_string(), "/a/Music".to_string());
    m.insert("home".to_string(), "/b".to_string());
    assert_eq!(m.len(), 2);
    assert_eq!(m.get("home").unwrap(), "/b");
    assert_eq!(m.get("music").unwrap(), "/a/Music");
    assert!(m.get("videos").is_none());
}

#[test]
fn entries_cover_every_name() {
    let mut m = AliasMap::new();
    m.insert("x".to_string(), "/x".to_string());
    m.insert("y".to_string(), "/y".to_string());
    let mut names: Vec<String> = (0..m.len()).map(|i| m.entry(i).0.clone()).collect();
    names.sort();
    assert_eq!(names, vec!["x".to_string(), "y".to_string()]);
    for i in 0..m.len() {
        let (name, path) = m.entry(i);
        assert_eq!(m.get(name), Some(path));
    }
}
