use cdo::locator::{entry_is_target, find_substring, is_cpp_file_name, locate_source, SourceEntry};

fn entry(name: &[u8], content: &[u8]) -> SourceEntry {
    SourceEntry { name: name.to_vec(), content: content.to_vec() }
}

#[test]
fn find_substring_present() {
    assert!(find_substring(b"int main() {}", b"int main"));
    assert!(find_substring(b"xxint mainxx", b"int main"));
}

#[test]
fn find_substring_absent() {
    assert!(!find_substring(b"void main() {}", b"int main"));
    assert!(!find_substring(b"int  main", b"int main"));
}

#[test]
fn find_substring_empty_needle_always_matches() {
    assert!(find_substring(b"anything", b""));
    assert!(find_substring(b"", b""));
}

#[test]
fn find_substring_needle_longer_than_hay() {
    assert!(!find_substring(b"int", b"int main"));
}

#[test]
fn find_substring_match_at_ends() {
    assert!(find_substring(b"int main|rest", b"int main"));
    assert!(find_substring(b"prefix|int main", b"int main"));
}

#[test]
fn cpp_names_need_stem_and_extension() {
    assert!(is_cpp_file_name(b"a.cpp"));
    assert!(is_cpp_file_name(b"main.cpp"));
    assert!(is_cpp_file_name(b"a.b.cpp"));
    assert!(!is_cpp_file_name(b".cpp"));
    assert!(!is_cpp_file_name(b"a.c"));
    assert!(!is_cpp_file_name(b"acpp"));
    assert!(!is_cpp_file_name(b"a.cpp.txt"));
}

#[test]
fn entry_needs_both_name_and_marker() {
    assert!(entry_is_target(&entry(b"main.cpp", b"int main() { return 0; }")));
    assert!(!entry_is_target(&entry(b"main.cpp", b"void helper();")));
    assert!(!entry_is_target(&entry(b"notes.txt", b"int main() { return 0; }")));
}

#[test]
fn locate_source_picks_first_match_in_order() {
    let entries = vec![
        entry(b"util.cpp", b"void helper() {}"),
        entry(b"readme.md", b"int main is described here"),
        entry(b"first.cpp", b"int main() { return 0; }"),
        entry(b"second.cpp", b"int main() { return 1; }"),
    ];
    assert_eq!(locate_source(&entries), Some(2));
}

#[test]
fn locate_source_none_when_nothing_matches() {
    let entries = vec![
        entry(b"util.cpp", b"void helper() {}"),
        entry(b"readme.md", b"int main is described here"),
    ];
    assert_eq!(locate_source(&entries), None);
}

#[test]
fn locate_source_none_on_empty_directory() {
    assert_eq!(locate_source(&Vec::new()), None);
}
