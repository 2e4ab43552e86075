use ledger_engine::error::BlockchainError;
use ledger_engine::wallet::Wallet;

const PAIR_A: &str = "9d61b19deffd5a60ba844af492ec2cc44449c5697b326919703bac031cae7f60\
d75a980182b10ab7d54bfed3c964073a0ee172f3daa62325af021a68f707511a";
const PAIR_B: &str = "4ccd089b28ff96da9db6c346ec114e0f5b8a319f35aba624da8cf6ed4fb8a6fb\
3d4017c3e843895a92b70aa74d1b7ebc9c982ccf2ec4968cc0cd55f12af4660c";
const KEY_A: &str = "FVen3X669xLzsi6N2V91DoiyzHzg1uAgqiT8jZ9nS96Z";
const KEY_B: &str = "586Z7H2vpX9qNhN2T4e9Utugie3ogjbxzGaMtM3E6HR5";
const SIG_A_EMPTY: &str =
    "5awYiUvGiDFA33EJjj4TXJG44a5afJc8QjWRpGgQiu6b23jCr7yndW2fmp9ujwqJVe32J456wV3VF78Asb1obnTc";
const SIG_A_HELLO: &str =
    "2d4MUkzBrJ4m51MmL5XYaMdXDuLf2NFhLg29sKHAHT8znzkXabQx9mmym36JJJJYjPh8C1qomveKJNLHFcufTRNu";

fn pair_bytes(hex: &str) -> Vec<u8> {
    (0..hex.len() / 2)
        .map(|i| u8::from_str_radix(&hex[2 * i..2 * i + 2], 16).unwrap())
        .collect()
}

fn wallet_of(hex: &str) -> Wallet {
    Wallet::from_pair_bytes(pair_bytes(hex)).unwrap()
}

fn wallet_error(result: Result<bool, BlockchainError>) -> String {
    match result {
        Err(BlockchainError::WalletError(detail)) => detail,
        other => panic!("expected a wallet error, got {:?}", other),
    }
}

#[test]
fn public_identifier_is_the_base58_text_of_the_public_key() {
    let a = wallet_of(PAIR_A);
    assert_eq!(a.public_key, KEY_A);
    assert_eq!(a.public_identifier(), KEY_A);
    let b = wallet_of(PAIR_B);
    assert_eq!(b.public_key, KEY_B);
}

#[test]
fn signature_of_a_known_key_on_known_messages() {
    let a = wallet_of(PAIR_A);
    assert_eq!(a.sign("").unwrap(), SIG_A_EMPTY);
    assert_eq!(a.sign("hello").unwrap(), SIG_A_HELLO);
    assert_eq!(a.sign("hello").unwrap(), a.sign("hello").unwrap());
}

#[test]
fn what_an_identity_signs_verifies_under_its_identifier() {
    let a = wallet_of(PAIR_A);
    let signature = a.sign("hello").unwrap();
    assert_eq!(Wallet::verify(&a.public_key, "hello", &signature).unwrap(), true);
    assert_eq!(Wallet::verify(KEY_A, "", SIG_A_EMPTY).unwrap(), true);
}

#[test]
fn signature_fails_under_another_identifier_or_message() {
    assert_eq!(Wallet::verify(KEY_B, "hello", SIG_A_HELLO).unwrap(), false);
    assert_eq!(Wallet::verify(KEY_A, "hello!", SIG_A_HELLO).unwrap(), false);
    assert_eq!(Wallet::verify(KEY_A, "hello", SIG_A_EMPTY).unwrap(), false);
}

#[test]
fn fresh_identities_sign_and_verify() {
    let a = Wallet::new().unwrap();
    let b = Wallet::new().unwrap();
    assert_ne!(a.public_key, b.public_key);
    let signature = a.sign("pay bob").unwrap();
    assert_eq!(Wallet::verify(&a.public_key, "pay bob", &signature).unwrap(), true);
    assert_eq!(Wallet::verify(&b.public_key, "pay bob", &signature).unwrap(), false);
}

#[test]
fn pair_of_another_length_is_turned_down() {
    match Wallet::from_pair_bytes(vec![7u8; 63]) {
        Err(BlockchainError::WalletError(detail)) => assert_eq!(detail, "Invalid key pair length"),
        other => panic!("expected a wallet error, got {:?}", other),
    }
    assert!(Wallet::from_pair_bytes(Vec::new()).is_err());
    assert!(Wallet::from_pair_bytes(vec![7u8; 65]).is_err());
}

#[test]
fn broken_pair_cannot_sign() {
    let mut bytes = vec![0u8; 64];
    bytes[32] = 2;
    let broken = Wallet::from_pair_bytes(bytes).unwrap();
    assert_eq!(broken.public_key, "8opHzTAnfzRpPEx21XtnrVTX28YQuCpAjcn1PczScKh");
    match broken.sign("hello") {
        Err(BlockchainError::SignatureError(detail)) => assert_eq!(detail, "Invalid key pair"),
        other => panic!("expected a signature error, got {:?}", other),
    }
}

#[test]
fn identifier_that_is_not_base58_is_an_error() {
    assert_eq!(
        wallet_error(Wallet::verify("0", "hello", SIG_A_HELLO)),
        "Invalid public key: InvalidBase58Character('0', 0)"
    );
    let long = "1".repeat(133);
    assert_eq!(
        wallet_error(Wallet::verify(&long, "hello", SIG_A_HELLO)),
        "Invalid public key: InvalidBase58Length"
    );
}

#[test]
fn signature_that_is_not_base58_is_an_error() {
    assert_eq!(
        wallet_error(Wallet::verify(KEY_A, "hello", "not base58!")),
        "Invalid signature: InvalidBase58Character(' ', 3)"
    );
    assert_eq!(
        wallet_error(Wallet::verify("ZiCa", "hello", "Zl")),
        "Invalid signature: InvalidBase58Character('l', 1)"
    );
}

#[test]
fn identifier_of_another_layout_is_an_error() {
    assert_eq!(
        wallet_error(Wallet::verify("ZiCa", "hello", SIG_A_HELLO)),
        "Invalid public key format: signature error: PublicKey must be 32 bytes in length"
    );
    assert_eq!(
        wallet_error(Wallet::verify(
            "8opHzTAnfzRpPEx21XtnrVTX28YQuCpAjcn1PczScKh",
            "hello",
            SIG_A_HELLO
        )),
        "Invalid public key format: signature error: Cannot decompress Edwards point"
    );
    assert_eq!(
        wallet_error(Wallet::verify("ZiCa", "hello", "ZiCa")),
        "Invalid public key format: signature error: PublicKey must be 32 bytes in length"
    );
}

#[test]
fn signature_of_another_layout_is_an_error() {
    assert_eq!(
        wallet_error(Wallet::verify(KEY_A, "hello", "ZiCa")),
        "Invalid signature format: signature error"
    );
    let high_bits =
        "2AXDGYSE4f2sz7tvMMzyHvUfcoJmxudvdhBcmiUSo6ijwfYmfZYsKRxboQMPh3R4kUhXRVdtSXFXMheka4Rc4TQ";
    assert_eq!(
        wallet_error(Wallet::verify(KEY_A, "hello", high_bits)),
        "Invalid signature format: signature error"
    );
}

#[test]
fn well_formed_signature_that_does_not_verify_gives_false() {
    let zeros = "1".repeat(64);
    assert_eq!(Wallet::verify(KEY_A, "hello", &zeros).unwrap(), false);
}

#[test]
fn signatures_of_fresh_identities_have_the_layout_and_verify() {
    for round in 0..8 {
        let wallet = Wallet::new().unwrap();
        let key = ledger_engine::codec::decode(&wallet.public_key).unwrap();
        assert_eq!(key.len(), 32);
        let message = format!("message {}", round);
        let signature = wallet.sign(&message).unwrap();
        let bytes = ledger_engine::codec::decode(&signature).unwrap();
        assert_eq!(bytes.len(), 64);
        assert_eq!(bytes[63] & 0xe0, 0);
        assert_eq!(Wallet::verify(&wallet.public_key, &message, &signature).unwrap(), true);
        assert_eq!(Wallet::verify(&wallet.public_key, "other", &signature).unwrap(), false);
    }
}

#[test]
fn identifiers_and_signatures_are_base58_text_and_never_the_system_sender() {
    let alphabet = "123456789ABCDEFGHJKLMNPQRSTUVWXYZabcdefghijkmnopqrstuvwxyz";
    for _ in 0..8 {
        let wallet = Wallet::new().unwrap();
        assert!(!wallet.public_key.is_empty());
        assert!(wallet.public_key.chars().all(|c| alphabet.contains(c)));
        assert_ne!(wallet.public_key, "0");
        let signature = wallet.sign("m").unwrap();
        assert!(signature.chars().all(|c| alphabet.contains(c)));
    }
    assert!(ledger_engine::codec::encode(&[0u8; 3]).chars().all(|c| alphabet.contains(c)));
}
