use cypher::discriminator::{get_ix_data, hash, hashv, sighash, Hasher};

const ABC_DIGEST: [u8; 32] = [
    186, 120, 22, 191, 143, 1, 207, 234, 65, 65, 64, 222, 93, 174, 34, 35, 176, 3, 97, 163, 150,
    23, 122, 156, 180, 16, 255, 97, 242, 0, 21, 173,
];

const EMPTY_DIGEST: [u8; 32] = [
    227, 176, 196, 66, 152, 252, 28, 20, 154, 251, 244, 200, 153, 111, 185, 36, 39, 174, 65, 228,
    100, 155, 147, 76, 164, 149, 153, 27, 120, 82, 184, 85,
];

#[test]
fn hash_known_vectors() {
    assert_eq!(hash(b"abc"), ABC_DIGEST);
    assert_eq!(hash(b""), EMPTY_DIGEST);
}

#[test]
fn hashv_digests_concatenation() {
    assert_eq!(hashv(&[b"ab", b"c"]), ABC_DIGEST);
    assert_eq!(hashv(&[b"a", b"b", b"c"]), ABC_DIGEST);
    assert_eq!(hashv(&[]), EMPTY_DIGEST);
}

#[test]
fn hasher_accumulates() {
    let mut hasher = Hasher::new();
    hasher.hash(b"a");
    hasher.hashv(&[b"b", b"c"]);
    assert_eq!(hasher.result(), ABC_DIGEST);
    let empty: Hasher = Default::default();
    assert_eq!(empty.result(), EMPTY_DIGEST);
}

#[test]
fn sighash_matches_known_discriminator() {
    // the discriminator of "initialize" in the "global" namespace
    assert_eq!(sighash("global", "initialize"), [175, 175, 109, 31, 13, 152, 155, 237]);
    assert_eq!(
        sighash("global", "init_cypher_user"),
        [228, 26, 60, 229, 190, 76, 136, 110],
    );
}

#[test]
fn ix_data_prefixes_discriminator() {
    let data = get_ix_data("initialize", vec![1, 2, 3]);
    assert_eq!(data, vec![175, 175, 109, 31, 13, 152, 155, 237, 1, 2, 3]);
    let bare = get_ix_data("initialize", Vec::new());
    assert_eq!(bare.len(), 8);
}
