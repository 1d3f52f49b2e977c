use md5_bridge::bridge::{Bridge, BridgeError};

fn hex_of(bytes: &[u8]) -> String {
    let mut s = String::new();
    for b in bytes {
        s.push_str(&format!("{:02x}", b));
    }
    s
}

/// Allocates a buffer holding `data` and returns its offset.
fn stage(b: &mut Bridge, data: &[u8]) -> usize {
    let off = b.md5_alloc_buffer(data.len());
    b.write_region(off, data);
    off
}

#[test]
fn test_hashing() {
    let mut b = Bridge::new();
    let data = b"abc123";
    let off = stage(&mut b, data);

    let hash_off = b.md5_digest(off, data.len()).unwrap();
    let hash = b.read_region(hash_off, 16);

    assert_eq!(
        format!("{:02x?}", hash.as_slice()),
        "[e9, 9a, 18, c4, 28, cb, 38, d5, f2, 60, 85, 36, 78, 92, 2e, 03]"
    );
}

#[test]
fn test_incremental_hashing() {
    let mut b = Bridge::new();
    let data_1 = b"abc";
    let off_1 = stage(&mut b, data_1);
    let data_2 = b"123";
    let off_2 = stage(&mut b, data_2);

    let hasher = b.md5_create_hasher();
    b.md5_update(hasher, off_1, data_1.len()).unwrap();
    b.md5_update(hasher, off_2, data_2.len()).unwrap();
    let hash_off = b.md5_finalize(hasher).unwrap();
    let hash = b.read_region(hash_off, 16);

    assert_eq!(
        format!("{:02x?}", hash.as_slice()),
        "[e9, 9a, 18, c4, 28, cb, 38, d5, f2, 60, 85, 36, 78, 92, 2e, 03]"
    );
}

#[test]
fn digest_of_empty_input() {
    let mut b = Bridge::new();
    let off = b.md5_alloc_buffer(0);
    let hash_off = b.md5_digest(off, 0).unwrap();
    let hash = b.read_region(hash_off, 16);
    assert_eq!(hash.len(), 16);
    assert_eq!(hex_of(&hash), "d41d8cd98f00b204e9800998ecf8427e");
}

#[test]
fn finalize_without_absorbing_equals_empty_digest() {
    let mut b = Bridge::new();
    let hasher = b.md5_create_hasher();
    let hash_off = b.md5_finalize(hasher).unwrap();
    let hash = b.read_region(hash_off, 16);
    assert_eq!(hex_of(&hash), "d41d8cd98f00b204e9800998ecf8427e");
}

#[test]
fn one_shot_equals_many_chunks() {
    let mut b = Bridge::new();
    let chunks: [&[u8]; 4] = [b"he", b"llo ", b"", b"world"];
    let whole = b"hello world";

    let hasher = b.md5_create_hasher();
    for c in chunks {
        let off = stage(&mut b, c);
        b.md5_update(hasher, off, c.len()).unwrap();
    }
    let inc_off = b.md5_finalize(hasher).unwrap();
    let incremental = b.read_region(inc_off, 16);

    let off = stage(&mut b, whole);
    let one_off = b.md5_digest(off, whole.len()).unwrap();
    let one_shot = b.read_region(one_off, 16);

    assert_eq!(incremental, one_shot);
}

#[test]
fn digest_is_deterministic() {
    let mut b = Bridge::new();
    let data = b"determinism";
    let off = stage(&mut b, data);
    let h1 = b.md5_digest(off, data.len()).unwrap();
    let h2 = b.md5_digest(off, data.len()).unwrap();
    assert_ne!(h1, h2, "two digest buffers are distinct allocations");
    assert_eq!(b.read_region(h1, 16), b.read_region(h2, 16));
}

#[test]
fn digest_width_is_sixteen_for_any_input_length() {
    let mut b = Bridge::new();
    for n in [0usize, 1, 63, 64, 65, 1000] {
        let data = vec![0xa5u8; n];
        let off = stage(&mut b, &data);
        let before = b.memory_size();
        let hash_off = b.md5_digest(off, n).unwrap();
        assert_eq!(hash_off, before);
        assert_eq!(b.read_region(hash_off, 16).len(), 16);
        b.md5_dealloc_buffer(hash_off, 16).unwrap();
    }
}

#[test]
fn alloc_dealloc_round_trip() {
    let mut b = Bridge::new();
    let keep = stage(&mut b, b"keep me");
    for size in [0usize, 1, 7, 256] {
        let off = b.md5_alloc_buffer(size);
        assert!(b.md5_dealloc_buffer(off, size).is_ok());
        // the neighbouring region is intact and still the host's to use
        assert_eq!(b.read_region(keep, 7), b"keep me");
    }
    assert!(b.md5_dealloc_buffer(keep, 7).is_ok());
}

#[test]
fn fresh_allocation_is_zeroed() {
    let mut b = Bridge::new();
    let off = b.md5_alloc_buffer(5);
    assert_eq!(b.read_region(off, 5), vec![0u8; 5]);
}

#[test]
fn dealloc_rejects_unknown_offset() {
    let mut b = Bridge::new();
    let off = b.md5_alloc_buffer(4);
    assert_eq!(b.md5_dealloc_buffer(off + 1, 4), Err(BridgeError::UnknownRegion));
}

#[test]
fn dealloc_rejects_mismatched_size() {
    let mut b = Bridge::new();
    let off = b.md5_alloc_buffer(4);
    assert_eq!(b.md5_dealloc_buffer(off, 3), Err(BridgeError::SizeMismatch));
    // the region is still live after the refused call
    assert!(b.md5_dealloc_buffer(off, 4).is_ok());
}

#[test]
fn dealloc_rejects_double_free() {
    let mut b = Bridge::new();
    let off = b.md5_alloc_buffer(4);
    assert!(b.md5_dealloc_buffer(off, 4).is_ok());
    assert_eq!(b.md5_dealloc_buffer(off, 4), Err(BridgeError::UnknownRegion));
}

#[test]
fn update_borrows_region_without_consuming_it() {
    let mut b = Bridge::new();
    let data = b"borrowed";
    let off = stage(&mut b, data);
    let hasher = b.md5_create_hasher();
    b.md5_update(hasher, off, data.len()).unwrap();
    // the region still holds the same bytes, may be reused, and may be freed
    assert_eq!(b.read_region(off, data.len()), data);
    b.md5_update(hasher, off, data.len()).unwrap();
    assert!(b.md5_dealloc_buffer(off, data.len()).is_ok());
    b.md5_finalize(hasher).unwrap();
}

#[test]
fn update_rejects_invalid_handle() {
    let mut b = Bridge::new();
    let off = stage(&mut b, b"x");
    assert_eq!(b.md5_update(7, off, 1), Err(BridgeError::InvalidHandle));
}

#[test]
fn update_rejects_stale_handle() {
    let mut b = Bridge::new();
    let off = stage(&mut b, b"x");
    let hasher = b.md5_create_hasher();
    b.md5_finalize(hasher).unwrap();
    assert_eq!(b.md5_update(hasher, off, 1), Err(BridgeError::StaleHandle));
}

#[test]
fn update_rejects_region_past_memory_end() {
    let mut b = Bridge::new();
    let hasher = b.md5_create_hasher();
    let end = b.memory_size();
    assert_eq!(b.md5_update(hasher, end, 1), Err(BridgeError::RegionOutOfBounds));
}

#[test]
fn finalize_rejects_invalid_and_stale_handles() {
    let mut b = Bridge::new();
    assert_eq!(b.md5_finalize(0), Err(BridgeError::InvalidHandle));
    let hasher = b.md5_create_hasher();
    b.md5_finalize(hasher).unwrap();
    assert_eq!(b.md5_finalize(hasher), Err(BridgeError::StaleHandle));
}

#[test]
fn digest_rejects_region_past_memory_end() {
    let mut b = Bridge::new();
    let end = b.memory_size();
    assert_eq!(b.md5_digest(end, 1), Err(BridgeError::RegionOutOfBounds));
}

#[test]
fn digest_buffer_is_owned_and_freed_by_the_host() {
    let mut b = Bridge::new();
    let off = stage(&mut b, b"abc123");
    let hash_off = b.md5_digest(off, 6).unwrap();
    assert_eq!(b.md5_dealloc_buffer(hash_off, 15), Err(BridgeError::SizeMismatch));
    assert!(b.md5_dealloc_buffer(hash_off, 16).is_ok());
    assert_eq!(b.md5_dealloc_buffer(hash_off, 16), Err(BridgeError::UnknownRegion));
}
