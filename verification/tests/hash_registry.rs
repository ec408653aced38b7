use sigma_protocol_standard::HashFunction;

#[test]
fn block_lengths() {
    assert_eq!(HashFunction::Blake2b.block_len(), 128);
    assert_eq!(HashFunction::SHA3_256.block_len(), 136);
}

#[test]
fn digest_lengths() {
    assert_eq!(HashFunction::Blake2b.digest_len(), 64);
    assert_eq!(HashFunction::SHA3_256.digest_len(), 32);
}
