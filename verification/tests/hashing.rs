use ledger_engine::hashing::sha256_hex;

#[test]
fn sha256_of_known_texts() {
    assert_eq!(
        sha256_hex(""),
        "e3b0c44298fc1c149afbf4c8996fb92427ae41e4649b934ca495991b7852b855"
    );
    assert_eq!(
        sha256_hex("abc"),
        "ba7816bf8f01cfea414140de5dae2223b00361a396177a9cb410ff61f20015ad"
    );
}

#[test]
fn sha256_reads_the_utf8_bytes_of_a_text() {
    assert_eq!(
        sha256_hex("héllo wörld"),
        "a1003f7d04a4115711d0b48a2eaf1359ce565d2d2a6fd65098dfcffadeeef59f"
    );
}

#[test]
fn sha256_hex_is_not_its_input() {
    let text = "e3b0c44298fc1c149afbf4c8996fb92427ae41e4649b934ca495991b7852b855";
    assert_ne!(sha256_hex(text), text);
    assert_eq!(sha256_hex(text).len(), 64);
}
