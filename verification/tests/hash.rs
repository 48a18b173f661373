use pinokio::hash::{digest, ContentHasher};

#[test]
fn known_digests() {
    assert_eq!(
        digest(b""),
        "e3b0c44298fc1c149afbf4c8996fb92427ae41e4649b934ca495991b7852b855"
    );
    assert_eq!(
        digest(b"abc"),
        "ba7816bf8f01cfea414140de5dae2223b00361a396177a9cb410ff61f20015ad"
    );
}

#[test]
fn chunks_do_not_matter() {
    let mut hasher = ContentHasher::new();
    hasher.update(b"hello");
    hasher.update(b"");
    hasher.update(b" wor");
    hasher.update(b"ld");
    assert_eq!(
        hasher.finish(),
        "b94d27b9934d3e08a52e52d7da7dabfac484efe37a5380ee9088f7ace2efcde9"
    );
    assert_eq!(
        digest(b"hello world"),
        "b94d27b9934d3e08a52e52d7da7dabfac484efe37a5380ee9088f7ace2efcde9"
    );
}
