use chksum_md5::MD5;

#[test]
fn empty_input_digest() {
    let digest = chksum_md5::hash(b"");
    assert_eq!(digest.to_hex_lowercase(), "d41d8cd98f00b204e9800998ecf8427e");
}

#[test]
fn fresh_hash_digest_is_empty_digest() {
    let hash = chksum_md5::new();
    let digest = hash.digest();
    assert_eq!(digest.to_hex_lowercase(), "d41d8cd98f00b204e9800998ecf8427e");
}

#[test]
fn default_hash_digest_is_empty_digest() {
    let hash = chksum_md5::default();
    let digest = hash.digest();
    assert_eq!(digest.to_hex_lowercase(), "d41d8cd98f00b204e9800998ecf8427e");
}

#[test]
fn example_data_digest() {
    let digest = chksum_md5::hash(b"example data");
    assert_eq!(digest.to_hex_lowercase(), "5c71dbb287630d65ca93764c34d9aa0d");
}

#[test]
fn example_data_digest_via_type() {
    let digest = MD5::hash(b"example data");
    assert_eq!(digest.to_hex_lowercase(), "5c71dbb287630d65ca93764c34d9aa0d");
}

#[test]
fn str_input_digest() {
    let digest = chksum_md5::hash_str("example data");
    assert_eq!(digest.to_hex_lowercase(), "5c71dbb287630d65ca93764c34d9aa0d");
}

#[test]
fn known_vector_abc() {
    let digest = chksum_md5::hash(b"abc");
    assert_eq!(digest.to_hex_lowercase(), "900150983cd24fb0d6963f7d28e17f72");
}

#[test]
fn padding_boundary_lengths() {
    let cases: Vec<(usize, &str)> = vec![
        (55, "ef1772b6dff9a122358552954ad0df65"),
        (56, "3b0c8ac703f828b04c6c197006d17218"),
        (64, "014842d480b571495a4a0363793f7367"),
        (65, "c743a45e0d2e6a95cb859adae0248435"),
        (200, "887f30b43b2867f4a9accceee7d16e6c"),
    ];
    for (len, expected) in cases {
        let data = vec![b'a'; len];
        let digest = chksum_md5::hash(&data);
        assert_eq!(digest.to_hex_lowercase(), expected, "length {len}");
    }
}

#[test]
fn chunked_updates_match_single_update() {
    let mut hash = MD5::new();
    hash.update(b"example");
    hash.update(b" ");
    hash.update(b"data");
    let digest = hash.digest();
    assert_eq!(digest.to_hex_lowercase(), "5c71dbb287630d65ca93764c34d9aa0d");
}

#[test]
fn chunked_updates_match_for_every_split_point() {
    let data = vec![b'a'; 200];
    let whole = chksum_md5::hash(&data).into_inner();
    for cut in 0..=data.len() {
        let mut hash = MD5::new();
        hash.update(&data[..cut]);
        hash.update(&data[cut..]);
        assert_eq!(hash.digest().into_inner(), whole, "cut {cut}");
    }
}

#[test]
fn update_many_matches_concatenation() {
    let chunks: Vec<Vec<u8>> = vec![b"exa".to_vec(), b"mple ".to_vec(), Vec::new(), b"data".to_vec()];
    let mut hash = MD5::new();
    hash.update_many(&chunks);
    let digest = hash.digest();
    assert_eq!(digest.to_hex_lowercase(), "5c71dbb287630d65ca93764c34d9aa0d");
}

#[test]
fn digest_peek_is_idempotent() {
    let mut hash = MD5::new();
    hash.update(b"example data");
    let first = hash.digest();
    let second = hash.digest();
    assert_eq!(first, second);
}

#[test]
fn digest_peek_does_not_consume() {
    let mut hash = MD5::new();
    hash.update(b"exampl");
    let early = hash.digest();
    assert_eq!(early.to_hex_lowercase(), "98bf5cdb0b35f833ef85e1322bf1457a");
    hash.update(b"e data");
    let late = hash.digest();
    assert_eq!(late.to_hex_lowercase(), "5c71dbb287630d65ca93764c34d9aa0d");
}

#[test]
fn reset_restores_empty_digest() {
    let mut hash = MD5::new();
    hash.update(b"example data");
    hash.update(b"more bytes");
    hash.reset();
    let digest = hash.digest();
    assert_eq!(digest.to_hex_lowercase(), "d41d8cd98f00b204e9800998ecf8427e");
    hash.update(b"example data");
    assert_eq!(hash.digest().to_hex_lowercase(), "5c71dbb287630d65ca93764c34d9aa0d");
}

#[test]
fn zero_length_update_is_a_no_op() {
    let mut hash = MD5::new();
    hash.update(b"example data");
    hash.update(b"");
    let digest = hash.digest();
    assert_eq!(digest.to_hex_lowercase(), "5c71dbb287630d65ca93764c34d9aa0d");
}

#[test]
fn entry_order_changes_aggregate_digest() {
    let first: Vec<Vec<u8>> = vec![b"a".to_vec(), b"b".to_vec()];
    let second: Vec<Vec<u8>> = vec![b"b".to_vec(), b"a".to_vec()];
    let mut h1 = MD5::new();
    h1.update_many(&first);
    let mut h2 = MD5::new();
    h2.update_many(&second);
    assert_eq!(h1.digest().to_hex_lowercase(), "187ef4436122d1cc2f40dc2b92f0eba0");
    assert_eq!(h2.digest().to_hex_lowercase(), "07159c47ee1b19ae4fb9c40d480856c4");
    assert_ne!(h1.digest(), h2.digest());
}

#[test]
fn update_many_with_no_chunks_changes_nothing() {
    let chunks: Vec<Vec<u8>> = Vec::new();
    let mut hash = chksum_md5::new();
    hash.update(b"example data");
    hash.update_many(&chunks);
    assert_eq!(hash.digest().to_hex_lowercase(), "5c71dbb287630d65ca93764c34d9aa0d");
}
