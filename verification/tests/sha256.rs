use chksum_hash::sha2::sha256::new;

#[test]
fn test_new() {
    let digest = new().digest();
    assert_eq!(
        digest,
        [0x6A09E667, 0xBB67AE85, 0x3C6EF372, 0xA54FF53A, 0x510E527F, 0x9B05688C, 0x1F83D9AB, 0x5BE0CD19]
    );
}

#[test]
fn test_default() {
    let digest = chksum_hash::sha2::sha256::default().digest();
    assert_eq!(
        digest,
        [0x6A09E667, 0xBB67AE85, 0x3C6EF372, 0xA54FF53A, 0x510E527F, 0x9B05688C, 0x1F83D9AB, 0x5BE0CD19]
    );
}

#[test]
fn test_empty() {
    let data = [
        0x80000000, 0x00000000, 0x00000000, 0x00000000, 0x00000000, 0x00000000, 0x00000000, 0x00000000,
        0x00000000, 0x00000000, 0x00000000, 0x00000000, 0x00000000, 0x00000000, 0x00000000, 0x00000000,
    ];
    let digest = new().update(data).digest();
    assert_eq!(
        digest,
        [0xE3B0C442, 0x98FC1C14, 0x9AFBF4C8, 0x996FB924, 0x27AE41E4, 0x649B934C, 0xA495991B, 0x7852B855]
    );
}

#[test]
fn two_blocks() {
    // "1234567890" repeated eight times, padded: two blocks of data.
    let mut first = [0u32; 16];
    let text: Vec<u8> = b"1234567890".iter().copied().cycle().take(80).collect();
    for (i, word) in first.iter_mut().enumerate() {
        *word = u32::from_be_bytes([
            text[4 * i],
            text[4 * i + 1],
            text[4 * i + 2],
            text[4 * i + 3],
        ]);
    }
    let mut second = [0u32; 16];
    for (i, word) in second.iter_mut().enumerate().take(4) {
        *word = u32::from_be_bytes([
            text[64 + 4 * i],
            text[64 + 4 * i + 1],
            text[64 + 4 * i + 2],
            text[64 + 4 * i + 3],
        ]);
    }
    second[4] = 0x80000000;
    second[15] = 0x00000280; // 80 bytes = 640 bits
    let digest = new().update(first).update(second).digest();
    assert_eq!(
        digest,
        [0xF371BC4A, 0x311F2B00, 0x9EEF952D, 0xD83CA80E, 0x2B60026C, 0x8E935592, 0xD0F9C308, 0x453C813E]
    );
}

#[test]
fn reset_returns_to_initial_constants() {
    let state = new().update([0u32; 16]);
    assert_ne!(
        state.digest(),
        [0x6A09E667, 0xBB67AE85, 0x3C6EF372, 0xA54FF53A, 0x510E527F, 0x9B05688C, 0x1F83D9AB, 0x5BE0CD19]
    );
    let digest = state.reset().digest();
    assert_eq!(
        digest,
        [0x6A09E667, 0xBB67AE85, 0x3C6EF372, 0xA54FF53A, 0x510E527F, 0x9B05688C, 0x1F83D9AB, 0x5BE0CD19]
    );
}

#[test]
fn update_is_deterministic() {
    let block = [0x31323334u32; 16];
    let a = new().update(block).digest();
    let b = new().update(block).digest();
    assert_eq!(a, b);
}
