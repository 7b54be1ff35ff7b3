use compressor::{find_all_jpegs, is_jpeg_name, ListedEntry};

fn named(name: &str, path: &str) -> ListedEntry {
    ListedEntry::Named { name: name.to_string(), path: path.to_string() }
}

#[test]
fn jpeg_suffixes_are_case_sensitive() {
    assert!(is_jpeg_name("a.jpg"));
    assert!(is_jpeg_name("a.JPG"));
    assert!(is_jpeg_name("a.jpeg"));
    assert!(is_jpeg_name("jpg"));
    assert!(!is_jpeg_name("a.Jpg"));
    assert!(!is_jpeg_name("a.JPEG"));
    assert!(!is_jpeg_name("a.png"));
    assert!(!is_jpeg_name("jpg.txt"));
    assert!(!is_jpeg_name(""));
}

#[test]
fn listing_keeps_only_jpegs_in_order() {
    let entries = vec![
        named("b.jpg", "d/b.jpg"),
        named("notes.txt", "d/notes.txt"),
        ListedEntry::Unreadable,
        named("A.JPG", "d/A.JPG"),
        ListedEntry::BadName,
        named("sub", "d/sub"),
        named("c.jpeg", "d/c.jpeg"),
        named("e.Jpeg", "d/e.Jpeg"),
    ];
    let found = find_all_jpegs(&entries);
    assert_eq!(found, vec!["d/b.jpg".to_string(), "d/A.JPG".to_string(), "d/c.jpeg".to_string()]);
}

#[test]
fn empty_listing_finds_nothing() {
    assert!(find_all_jpegs(&vec![]).is_empty());
    assert!(find_all_jpegs(&vec![ListedEntry::Unreadable, ListedEntry::BadName]).is_empty());
}

#[test]
fn mixed_case_suffixes_are_told_apart() {
    let names = ["a.jpg", "b.JPG", "c.jpeg", "d.JPEG", "e.Jpg", "f.jPeG", "g.png", "h.jpg.bak"];
    let entries: Vec<ListedEntry> = names.iter().map(|n| named(n, &format!("dir/{}", n))).collect();
    assert_eq!(
        find_all_jpegs(&entries),
        vec!["dir/a.jpg".to_string(), "dir/b.JPG".to_string(), "dir/c.jpeg".to_string()]
    );
}
