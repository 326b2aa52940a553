use cdo::fingerprint::fingerprint;

#[test]
fn fingerprint_of_empty_is_offset_basis() {
    assert_eq!(fingerprint(b""), 0xcbf29ce484222325);
}

#[test]
fn fingerprint_matches_known_vectors() {
    assert_eq!(fingerprint(b"a"), 0xaf63dc4c8601ec8c);
    assert_eq!(fingerprint(b"foobar"), 0x85944171f73967e8);
}

#[test]
fn fingerprint_is_deterministic_across_calls() {
    let content = b"int main() { return 0; }\n";
    let first = fingerprint(content);
    let second = fingerprint(content);
    assert_eq!(first, second);
}

#[test]
fn fingerprint_distinguishes_different_contents() {
    let a = fingerprint(b"int main() { return 0; }");
    let b = fingerprint(b"int main() { return 1; }");
    assert_ne!(a, b);
}

#[test]
fn fingerprint_sensitive_to_single_byte_change() {
    let a = fingerprint(b"abc");
    let b = fingerprint(b"abd");
    assert_ne!(a, b);
}
