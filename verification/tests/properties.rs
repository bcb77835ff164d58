use chksum_hash::sha1::{hash, new};

#[test]
fn known_answers() {
    let digest = hash(b"abc").to_hex_lowercase();
    assert_eq!(digest, "a9993e364706816aba3e25717850c26c9cd0d89d");

    // 56 bytes: the padding must spill into a second block.
    let digest = hash(b"abcdbcdecdefdefgefghfghighijhijkijkljklmklmnlmnomnopnopq").to_hex_lowercase();
    assert_eq!(digest, "84983e441c3bd26ebaae4aa1f95129e5e54670f1");

    let digest = hash("data".as_bytes()).to_hex_lowercase();
    assert_eq!(digest, "a17c9aaa61e80a1bf71d0d850af4e5baa9800bbd");

    let digest = hash("some data".as_bytes()).to_hex_lowercase();
    assert_eq!(digest, "baf34551fecb48acc3da868eb85e1b6dac9de356");

    let digest = new()
        .update("str".as_bytes())
        .update(b"bytes")
        .update(&[0x75, 0x38])
        .digest()
        .to_hex_lowercase();
    assert_eq!(digest, "dccc950173920744f2acdc30c92a552daa6ee914");
}

#[test]
fn chunking_one_byte_at_a_time() {
    let data = b"Hello World";
    let mut acc = new();
    for byte in data.iter() {
        acc = acc.update(std::slice::from_ref(byte));
    }
    assert_eq!(
        acc.digest().to_hex_lowercase(),
        hash(data).to_hex_lowercase()
    );
    assert_eq!(
        acc.digest().to_hex_lowercase(),
        "0a4d55a8d778e5022fab701977c5d840bbc486d0"
    );
}

#[test]
fn chunking_every_split_point() {
    // A three-block message, cut at every possible point into two updates.
    let data: Vec<u8> = (0u8..=191).collect();
    let reference = hash(&data).to_hex_lowercase();
    for cut in 0..=data.len() {
        let digest = new()
            .update(&data[..cut])
            .update(&data[cut..])
            .digest()
            .to_hex_lowercase();
        assert_eq!(digest, reference);
    }
}

#[test]
fn empty_partition_equals_empty_hash() {
    // No update calls at all is the hash of the empty sequence.
    let digest = new().digest().to_hex_lowercase();
    assert_eq!(digest, hash(&[]).to_hex_lowercase());
}

#[test]
fn padding_boundary_lengths() {
    // Lengths that leave exactly 9, 8, 7 ... bytes of room before the end
    // of the block, straddling the spill into a second padding block.
    for len in [55usize, 56, 57, 63, 64, 65] {
        let data = vec![0xABu8; len];
        let reference = hash(&data).to_hex_lowercase();
        assert_eq!(reference.len(), 40);
        // Absorbing the same bytes in two pieces must agree.
        let digest = new()
            .update(&data[..len / 2])
            .update(&data[len / 2..])
            .digest()
            .to_hex_lowercase();
        assert_eq!(digest, reference);
    }
    // Known answers either side of the block boundary.
    let zeros = vec![0u8; 64];
    assert_eq!(
        hash(&zeros[..60]).to_hex_lowercase(),
        "fb3d8fb74570a077e332993f7d3d27603501b987"
    );
    assert_eq!(
        hash(&zeros).to_hex_lowercase(),
        "c8d7d0ef0eedfa82d2ea1aa592845b9a6d4b02b7"
    );
}

#[test]
fn digest_is_deterministic() {
    let finalized = new().update(b"determinism").finalize();
    let first = finalized.digest();
    let second = finalized.digest();
    assert_eq!(first.as_bytes(), second.as_bytes());
    assert_eq!(first.to_hex_lowercase(), second.to_hex_lowercase());
}

#[test]
fn finalize_is_repeatable() {
    let acc = new().update(b"repeat");
    let a = acc.finalize().digest().to_hex_lowercase();
    let b = acc.finalize().digest().to_hex_lowercase();
    assert_eq!(a, b);
}

#[test]
fn reset_equals_fresh_instance() {
    let reset = new().update(b"anything at all, of any length 0123456789").reset();
    assert_eq!(
        reset.digest().to_hex_lowercase(),
        new().digest().to_hex_lowercase()
    );
    // And the recycled accumulator hashes like a fresh one.
    let digest = reset.update(b"data").digest().to_hex_lowercase();
    assert_eq!(digest, "a17c9aaa61e80a1bf71d0d850af4e5baa9800bbd");
}

#[test]
fn hash_of_hash_composes() {
    let inner = hash(b"some data");
    let outer = hash(inner.as_bytes());
    assert_eq!(
        outer.to_hex_lowercase(),
        "46eda4fc379a15b24f99ac5bcd94279fe0493cd1"
    );
    assert_ne!(outer.to_hex_lowercase(), inner.to_hex_lowercase());
    // Reproducible: the same composition again gives the same digest.
    let again = hash(hash(b"some data").as_bytes());
    assert_eq!(again.to_hex_lowercase(), outer.to_hex_lowercase());
}

#[test]
fn digest_renders_twenty_bytes_as_forty_hex_chars() {
    let digest = hash(b"data");
    assert_eq!(digest.as_bytes().len(), 20);
    let hex = digest.to_hex_lowercase();
    assert_eq!(hex.len(), 40);
    assert!(hex.chars().all(|c| c.is_ascii_hexdigit() && !c.is_ascii_uppercase()));
}
