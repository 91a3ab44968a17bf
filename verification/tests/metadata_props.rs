use gencopy::constants::{chunk_align_down, meta_bytes_per_chunk, BYTES_IN_CHUNK, BYTES_IN_WORD};
use gencopy::metadata::MetaSpace;

#[test]
fn chunk_align_down_basics() {
    assert_eq!(chunk_align_down(0), 0);
    assert_eq!(chunk_align_down(BYTES_IN_CHUNK - 1), 0);
    assert_eq!(chunk_align_down(BYTES_IN_CHUNK), BYTES_IN_CHUNK);
    assert_eq!(chunk_align_down(BYTES_IN_CHUNK + 4096), BYTES_IN_CHUNK);
}

#[test]
fn meta_bytes_per_chunk_alloc_map() {
    // one bit per word of a 4 MiB chunk: 65536 bytes of metadata
    assert_eq!(meta_bytes_per_chunk(3, 0), 65536);
}

#[test]
fn map_meta_space_for_chunk_is_idempotent() {
    let mut meta = MetaSpace::new();
    assert!(!meta.meta_space_mapped(0x100));
    meta.map_meta_space_for_chunk(0);
    assert!(meta.meta_space_mapped(0x100));
    meta.map_meta_space_for_chunk(0);
    meta.map_meta_space_for_chunk(0);
    assert!(meta.meta_space_mapped(0x100));
    assert!(!meta.meta_space_mapped(BYTES_IN_CHUNK));
}

#[test]
fn set_then_unset_alloc_bit_returns_to_zero() {
    let mut meta = MetaSpace::new();
    meta.map_meta_space_for_chunk(0);
    assert!(!meta.is_alloced(0x1000));
    meta.set_alloc_bit(0x1000);
    assert!(meta.is_alloced(0x1000));
    meta.unset_alloc_bit(0x1000);
    assert!(!meta.is_alloced(0x1000));
}

#[test]
fn is_alloced_needs_mapped_chunk() {
    let meta = MetaSpace::new();
    assert!(!meta.is_alloced(0x2000));
}

#[test]
fn find_object_scans_back_to_head() {
    let mut meta = MetaSpace::new();
    meta.map_meta_space_for_chunk(0);
    meta.set_alloc_bit(0x3000);
    // an interior pointer five words past the head resolves to the head
    assert_eq!(meta.find_object(0x3000 + 5 * BYTES_IN_WORD), 0x3000);
    assert_eq!(meta.find_object(0x3000), 0x3000);
}

#[test]
fn find_object_head_at_chunk_boundary_stays_in_chunk() {
    let mut meta = MetaSpace::new();
    meta.map_meta_space_for_chunk(BYTES_IN_CHUNK);
    // the head sits exactly at the chunk boundary
    meta.set_alloc_bit(BYTES_IN_CHUNK);
    let r = meta.find_object(BYTES_IN_CHUNK + 3 * BYTES_IN_WORD);
    assert_eq!(r, BYTES_IN_CHUNK);
}

#[test]
fn find_object_picks_nearest_head() {
    let mut meta = MetaSpace::new();
    meta.map_meta_space_for_chunk(0);
    meta.set_alloc_bit(0x3000);
    meta.set_alloc_bit(0x3040);
    assert_eq!(meta.find_object(0x3038), 0x3000);
    assert_eq!(meta.find_object(0x3048), 0x3040);
}
