use ledger_engine::codec::{decode, encode, MAX_DECODED_CHARS, MAX_ENCODED_BYTES};

#[test]
fn encode_known_byte_strings() {
    assert_eq!(encode(b""), "");
    assert_eq!(encode(b"abc"), "ZiCa");
    assert_eq!(encode(b"\0\0abc"), "11ZiCa");
    assert_eq!(encode(&[255]), "5Q");
    assert_eq!(encode(&[0u8; 32]), "11111111111111111111111111111111");
}

#[test]
fn decode_known_texts() {
    assert_eq!(decode(""), Ok(vec![]));
    assert_eq!(decode("ZiCa"), Ok(b"abc".to_vec()));
    assert_eq!(decode("11ZiCa"), Ok(b"\0\0abc".to_vec()));
    assert_eq!(decode("5Q"), Ok(vec![255]));
}

#[test]
fn decode_gives_back_what_was_encoded() {
    let bytes: Vec<u8> = (1..=64).collect();
    let text = encode(&bytes);
    assert_eq!(
        text,
        "2Ana1pUpv2ZbMVkwF5FXapYeBEjdxDatLn7nvJkhgTSXbs59SyZSx866bXirPgj8QQVB57uxHJBG1YFvkRbFj4T"
    );
    assert_eq!(decode(&text), Ok(bytes));
    let longest: Vec<u8> = vec![0xff; 94];
    let text = encode(&longest);
    assert!(text.chars().count() <= MAX_DECODED_CHARS);
    assert_eq!(decode(&text), Ok(longest));
}

#[test]
fn encode_takes_the_longest_input() {
    let bytes = vec![0xabu8; MAX_ENCODED_BYTES];
    let text = encode(&bytes);
    assert!(text.chars().count() > MAX_DECODED_CHARS);
    assert_eq!(decode(&text), Err("InvalidBase58Length".to_string()));
}

#[test]
fn decode_names_the_character_that_is_no_digit() {
    assert_eq!(decode("0"), Err("InvalidBase58Character('0', 0)".to_string()));
    assert_eq!(decode("3mJr0"), Err("InvalidBase58Character('0', 4)".to_string()));
    assert_eq!(decode("Zl"), Err("InvalidBase58Character('l', 1)".to_string()));
    assert!(decode("é").is_err());
}

#[test]
fn decode_turns_down_texts_that_are_too_long() {
    let fits = "1".repeat(MAX_DECODED_CHARS);
    assert_eq!(decode(&fits), Ok(vec![0u8; MAX_DECODED_CHARS]));
    let long = "1".repeat(MAX_DECODED_CHARS + 1);
    assert_eq!(decode(&long), Err("InvalidBase58Length".to_string()));
    let long = "z".repeat(200);
    assert_eq!(decode(&long), Err("InvalidBase58Length".to_string()));
}

#[test]
fn every_short_byte_string_comes_back_and_its_text_is_short() {
    let mut state: u32 = 0x2545_f491;
    for length in 0..=94usize {
        for round in 0..4 {
            let mut bytes = Vec::new();
            for position in 0..length {
                state ^= state << 13;
                state ^= state >> 17;
                state ^= state << 5;
                let leading_zero = round % 2 == 1 && position < round;
                bytes.push(if leading_zero { 0 } else { (state >> 8) as u8 });
            }
            let text = encode(&bytes);
            assert!(text.chars().count() <= length * 138 / 100 + 1);
            assert!(text.chars().count() <= MAX_DECODED_CHARS);
            assert_eq!(decode(&text), Ok(bytes));
        }
    }
}
