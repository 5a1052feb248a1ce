use plexel::hashing::{sha256_hex, term_counts, token_bucket, VECTOR_DIMENSIONS};

#[test]
fn sha256_hex_of_empty_input() {
    assert_eq!(
        sha256_hex(b""),
        "e3b0c44298fc1c149afbf4c8996fb92427ae41e4649b934ca495991b7852b855"
    );
}

#[test]
fn sha256_hex_of_abc() {
    assert_eq!(
        sha256_hex(b"abc"),
        "ba7816bf8f01cfea414140de5dae2223b00361a396177a9cb410ff61f20015ad"
    );
}

#[test]
fn fingerprint_is_64_lowercase_hex_digits() {
    let h = sha256_hex("Screen text".as_bytes());
    assert_eq!(h.len(), 64);
    assert!(h.chars().all(|c| c.is_ascii_hexdigit() && !c.is_ascii_uppercase()));
}

#[test]
fn bucket_of_hello() {
    // SHA-256("hello") starts with 0x2c 0xf2.
    assert_eq!(token_bucket("hello"), (0x2c * 256 + 0xf2) % 256);
    assert_eq!(token_bucket("hello"), 242);
}

#[test]
fn term_counts_cover_all_tokens() {
    let counts = term_counts("Hello hello, world");
    assert_eq!(counts.len(), VECTOR_DIMENSIONS);
    assert_eq!(counts.iter().sum::<u64>(), 3);
    assert_eq!(counts[token_bucket("hello")], 2 + if token_bucket("world") == 242 { 1 } else { 0 });
}

#[test]
fn term_counts_of_wordless_text_are_zero() {
    let counts = term_counts(" ... \n");
    assert_eq!(counts.len(), 256);
    assert!(counts.iter().all(|&c| c == 0));
}

#[test]
fn term_counts_ignore_order_and_case() {
    assert_eq!(term_counts("alpha beta beta"), term_counts("Beta, ALPHA; beta"));
}
