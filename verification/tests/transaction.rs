use ledger_engine::error::BlockchainError;
use ledger_engine::transaction::Transaction;
use ledger_engine::wallet::Wallet;

const ENTRY_PAIR_A: &str = "9d61b19deffd5a60ba844af492ec2cc44449c5697b326919703bac031cae7f60\
d75a980182b10ab7d54bfed3c964073a0ee172f3daa62325af021a68f707511a";
const ENTRY_PAIR_B: &str = "4ccd089b28ff96da9db6c346ec114e0f5b8a319f35aba624da8cf6ed4fb8a6fb\
3d4017c3e843895a92b70aa74d1b7ebc9c982ccf2ec4968cc0cd55f12af4660c";
const ENTRY_KEY_A: &str = "FVen3X669xLzsi6N2V91DoiyzHzg1uAgqiT8jZ9nS96Z";
const ENTRY_KEY_B: &str = "586Z7H2vpX9qNhN2T4e9Utugie3ogjbxzGaMtM3E6HR5";

fn entry_wallet(hex: &str) -> Wallet {
    let bytes = (0..hex.len() / 2)
        .map(|i| u8::from_str_radix(&hex[2 * i..2 * i + 2], 16).unwrap())
        .collect();
    Wallet::from_pair_bytes(bytes).unwrap()
}

fn first_entry() -> Transaction {
    Transaction::assemble(
        "entry-1".to_string(),
        1700000000,
        &entry_wallet(ENTRY_PAIR_A),
        ENTRY_KEY_B.to_string(),
        10,
    )
    .unwrap()
}

#[test]
fn assembled_entry_has_the_given_content_and_is_signed() {
    let entry = first_entry();
    assert_eq!(entry.id, "entry-1");
    assert_eq!(entry.from, ENTRY_KEY_A);
    assert_eq!(entry.to, ENTRY_KEY_B);
    assert_eq!(entry.amount, 10);
    assert_eq!(entry.timestamp, 1700000000);
    assert_eq!(
        entry.signature.as_deref(),
        Some(
            "3G6sE3P1XdytNTZyBS1gaDxJKzj722zXA6jwTVxs1NvBW37mJPXXwwAokSavtDVvGNwfjycWd4mXNS96PHnB3tpa"
        )
    );
}

#[test]
fn content_hash_covers_id_sender_recipient_amount_and_time() {
    let entry = first_entry();
    assert_eq!(
        entry.calculate_hash(),
        "93c6441befe76851f3ea9b171b6cf48b3affbc139b9c18efbad2144df5376519"
    );
    let mut unsigned = entry.clone();
    unsigned.signature = None;
    assert_eq!(unsigned.calculate_hash(), entry.calculate_hash());
    let mut other = entry.clone();
    other.amount = 11;
    assert_ne!(other.calculate_hash(), entry.calculate_hash());
    let mut other = entry.clone();
    other.timestamp = 1700000001;
    assert_ne!(other.calculate_hash(), entry.calculate_hash());
    let mut other = entry.clone();
    other.id = "entry-2".to_string();
    assert_ne!(other.calculate_hash(), entry.calculate_hash());
}

#[test]
fn entry_signed_by_its_sender_is_valid() {
    assert_eq!(first_entry().is_valid().unwrap(), true);
    let a = Wallet::new().unwrap();
    let b = Wallet::new().unwrap();
    let entry = Transaction::new(&a, b.public_key.clone(), 10).unwrap();
    assert_eq!(entry.from, a.public_key);
    assert_eq!(entry.to, b.public_key);
    assert_eq!(entry.amount, 10);
    assert!(entry.signature.is_some());
    assert_eq!(entry.is_valid().unwrap(), true);
}

#[test]
fn entry_is_not_valid_under_another_sender() {
    let mut entry = first_entry();
    entry.from = ENTRY_KEY_B.to_string();
    assert_eq!(entry.is_valid().unwrap(), false);
    let hash = first_entry().calculate_hash();
    let signature = first_entry().signature.unwrap();
    assert_eq!(Wallet::verify(ENTRY_KEY_A, &hash, &signature).unwrap(), true);
    assert_eq!(Wallet::verify(ENTRY_KEY_B, &hash, &signature).unwrap(), false);
}

#[test]
fn entry_changed_after_signing_is_not_valid() {
    let mut entry = first_entry();
    entry.amount = 999;
    assert_eq!(entry.is_valid().unwrap(), false);
    let mut entry = first_entry();
    entry.to = ENTRY_KEY_A.to_string();
    assert_eq!(entry.is_valid().unwrap(), false);
}

#[test]
fn entry_without_signature_is_an_error() {
    let mut entry = first_entry();
    entry.signature = None;
    match entry.is_valid() {
        Err(BlockchainError::ValidationError(detail)) => assert_eq!(detail, "No signature"),
        other => panic!("expected a validation error, got {:?}", other),
    }
}

#[test]
fn entry_with_malformed_sender_is_an_error() {
    let mut entry = first_entry();
    entry.from = "not a key".to_string();
    match entry.is_valid() {
        Err(BlockchainError::WalletError(detail)) => {
            assert_eq!(detail, "Invalid public key: InvalidBase58Character(' ', 3)")
        }
        other => panic!("expected a wallet error, got {:?}", other),
    }
}

#[test]
fn system_issued_entry_is_valid_as_it_stands() {
    let entry = Transaction {
        id: "reward".to_string(),
        from: "0".to_string(),
        to: ENTRY_KEY_A.to_string(),
        amount: 50,
        signature: None,
        timestamp: 1,
    };
    assert_eq!(entry.is_valid().unwrap(), true);
}

#[test]
fn only_the_sender_signs_an_entry() {
    let mut entry = first_entry();
    entry.signature = None;
    let before = entry.clone();
    match entry.sign(&entry_wallet(ENTRY_PAIR_B)) {
        Err(BlockchainError::SignatureError(detail)) => {
            assert_eq!(detail, "Cannot sign transaction for other wallets")
        }
        other => panic!("expected a signature error, got {:?}", other),
    }
    assert_eq!(entry.signature, None);
    assert_eq!(entry.calculate_hash(), before.calculate_hash());
    entry.sign(&entry_wallet(ENTRY_PAIR_A)).unwrap();
    assert_eq!(entry.signature, first_entry().signature);
    assert_eq!(entry.is_valid().unwrap(), true);
}

#[test]
fn broken_pair_cannot_sign_an_entry() {
    let mut bytes = vec![0u8; 64];
    bytes[32] = 2;
    let broken = Wallet::from_pair_bytes(bytes).unwrap();
    match Transaction::assemble("x".to_string(), 1, &broken, "bob".to_string(), 1) {
        Err(BlockchainError::SignatureError(detail)) => assert_eq!(detail, "Invalid key pair"),
        other => panic!("expected a signature error, got {:?}", other),
    }
}

#[test]
fn fresh_entries_get_identifiers_of_their_own() {
    let a = Wallet::new().unwrap();
    let first = Transaction::new(&a, "bob".to_string(), 1).unwrap();
    let second = Transaction::new(&a, "bob".to_string(), 1).unwrap();
    assert_ne!(first.id, second.id);
    assert!(first.timestamp > 1_600_000_000);
}
