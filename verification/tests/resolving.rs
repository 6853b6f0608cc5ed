use peer_lifecycle::bytes::{bytes_eq, contains_bytes, contains_bytes_ci, to_lower};
use peer_lifecycle::resolver::{
    any_name_contains_ci, count_matching_names, lookup_name, MappingEntry,
};

fn entry(id: &[u8], name: &[u8]) -> MappingEntry {
    MappingEntry::new(id.to_vec(), name.to_vec())
}

#[test]
fn byte_equality_and_lower_casing() {
    assert!(bytes_eq(&b"abc".to_vec(), &b"abc".to_vec()));
    assert!(!bytes_eq(&b"abc".to_vec(), &b"abd".to_vec()));
    assert!(!bytes_eq(&b"abc".to_vec(), &b"ab".to_vec()));
    assert_eq!(to_lower(&b"GEdit 3.0!".to_vec()), b"gedit 3.0!".to_vec());
    // bytes outside the ASCII letters are untouched
    assert_eq!(to_lower(&vec![0xC3, 0xA9]), vec![0xC3, 0xA9]);
}

#[test]
fn substring_search_exact_and_case_insensitive() {
    assert!(contains_bytes(&b"org.gnome.gedit".to_vec(), &b"gedit".to_vec()));
    assert!(!contains_bytes(&b"org.gnome.Gedit".to_vec(), &b"gedit".to_vec()));
    assert!(contains_bytes_ci(&b"org.gnome.Gedit".to_vec(), &b"GEDIT".to_vec()));
    assert!(contains_bytes_ci(&b"Firefox".to_vec(), &b"firefox".to_vec()));
    assert!(!contains_bytes_ci(&b"evince".to_vec(), &b"gedit".to_vec()));
    // the empty needle occurs in every haystack
    assert!(contains_bytes(&b"".to_vec(), &b"".to_vec()));
    assert!(contains_bytes_ci(&b"x".to_vec(), &b"".to_vec()));
    // a needle longer than the haystack never occurs
    assert!(!contains_bytes(&b"ab".to_vec(), &b"abc".to_vec()));
}

#[test]
fn lookup_finds_the_first_matching_entry() {
    let mapping = vec![
        entry(b":1.1", b"Files"),
        entry(b":1.2", b"Gedit"),
        entry(b":1.2", b"shadowed"),
    ];
    assert_eq!(lookup_name(&mapping, &b":1.2".to_vec()), Some(&b"Gedit".to_vec()));
    assert_eq!(lookup_name(&mapping, &b":1.1".to_vec()), Some(&b"Files".to_vec()));
    assert_eq!(lookup_name(&mapping, &b":9.9".to_vec()), None);
}

#[test]
fn empty_mapping_resolves_nothing_and_is_not_an_error() {
    let mapping: Vec<MappingEntry> = Vec::new();
    assert_eq!(lookup_name(&mapping, &b":1.1".to_vec()), None);
    assert!(!any_name_contains_ci(&mapping, &b"gedit".to_vec()));
    assert_eq!(count_matching_names(&mapping, &b"gedit".to_vec()), 0);
}

#[test]
fn matching_names_are_counted_case_insensitively() {
    let mapping = vec![
        entry(b":1.1", b"Gedit"),
        entry(b":1.2", b"Firefox"),
        entry(b":1.3", b"gedit text editor"),
    ];
    assert_eq!(count_matching_names(&mapping, &b"gedit".to_vec()), 2);
    assert_eq!(count_matching_names(&mapping, &b"firefox".to_vec()), 1);
    assert_eq!(count_matching_names(&mapping, &b"evince".to_vec()), 0);
    assert!(any_name_contains_ci(&mapping, &b"FIREFOX".to_vec()));
}
