use ledger_engine::hashing::sha256_hex;
use ledger_engine::merkle::merkle_root_of;

const H1: &str = "93c6441befe76851f3ea9b171b6cf48b3affbc139b9c18efbad2144df5376519";
const H2: &str = "92ecde5ae8f8faead4d77b46055b97d4808fa460fa4ba81dd9db31b1826a12f5";
const H3: &str = "87067f80ea612dddde39068af52cc6cbeb690b3f7c4fb4510d297c7f0f12313d";

fn leaves(hashes: &[&str]) -> Vec<String> {
    hashes.iter().map(|h| h.to_string()).collect()
}

fn pair(left: &str, right: &str) -> String {
    sha256_hex(&format!("{}{}", left, right))
}

#[test]
fn root_of_no_leaves_is_zero() {
    assert_eq!(merkle_root_of(&leaves(&[])), "0");
}

#[test]
fn root_of_one_leaf_is_the_leaf_paired_with_itself() {
    let root = merkle_root_of(&leaves(&[H1]));
    assert_eq!(root, "bd3a54b9696c88ce804088d1986fe989ff020b002aeb18e916b2e6366fd9fd28");
    assert_eq!(root, pair(H1, H1));
    assert_ne!(root, H1);
}

#[test]
fn root_of_two_leaves_is_their_parent() {
    let root = merkle_root_of(&leaves(&[H1, H2]));
    assert_eq!(root, "c8fdb0a04207eedac42e3ba8a9a119f96eba50232bd4bf7c991a1d6adc9ddcee");
    assert_eq!(root, pair(H1, H2));
}

#[test]
fn root_of_three_leaves_pairs_the_last_with_itself() {
    let root = merkle_root_of(&leaves(&[H1, H2, H3]));
    assert_eq!(root, "26c3b3c4233d1a1ba763080f2fcf9fc95a9153d6ace15678bef9fa6c393bbb5b");
    assert_eq!(root, pair(&pair(H1, H2), &pair(H3, H3)));
    assert_ne!(root, pair(&pair(H1, H2), H3));
}

#[test]
fn root_of_five_leaves_climbs_three_levels() {
    let root = merkle_root_of(&leaves(&["a", "b", "c", "d", "e"]));
    let left = pair(&pair("a", "b"), &pair("c", "d"));
    let right = pair(&pair("e", "e"), &pair("e", "e"));
    assert_eq!(root, pair(&left, &right));
}

#[test]
fn root_depends_on_the_order_of_the_leaves() {
    let forward = merkle_root_of(&leaves(&[H1, H2]));
    let backward = merkle_root_of(&leaves(&[H2, H1]));
    assert_eq!(backward, "0166233aa1492245d643c2e2a01933e1857bae4e4c1f5a062edee49060ef6b0e");
    assert_ne!(forward, backward);
}

#[test]
fn root_is_the_same_when_taken_again() {
    let list = leaves(&[H1, H2, H3]);
    assert_eq!(merkle_root_of(&list), merkle_root_of(&list));
    let same = leaves(&[H1, H1]);
    assert_eq!(merkle_root_of(&same), merkle_root_of(&leaves(&[H1])));
}
