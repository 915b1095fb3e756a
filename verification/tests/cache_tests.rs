use ma_proxy_engine::cache::DiskCache;
use ma_proxy_engine::errors::ProxyError;

const MB: u64 = 1024 * 1024;

#[test]
fn test_disk_cache_put_and_read() {
    let mut cache = DiskCache::new(10 * MB, 2 * MB).unwrap();

    assert_eq!(cache.total_chunks(), 5);
    assert!(!cache.has_chunk(0));

    // Write chunk 0 (2 MB of 0xAB).
    let data = vec![0xABu8; 2 * MB as usize];
    cache.put_chunk(0, &data).unwrap();

    assert!(cache.has_chunk(0));
    assert!(!cache.has_chunk(1));

    let read_back = cache.read_chunk(0).unwrap();
    assert_eq!(read_back.len(), 2 * MB as usize);
    assert_eq!(read_back, data);

    // Unwritten chunk returns None.
    assert!(cache.read_chunk(1).is_none());

    assert_eq!(cache.cached_bytes(), 2 * MB);
}

#[test]
fn test_disk_cache_buffered_bytes_ahead() {
    let mut cache = DiskCache::new(10 * MB, 2 * MB).unwrap();

    // Cache chunks 0, 1, 2.
    for i in 0..3 {
        let data = vec![i as u8; 2 * MB as usize];
        cache.put_chunk(i, &data).unwrap();
    }

    // From offset 0, contiguous cached = chunks 0+1+2 = 6 MB.
    assert_eq!(cache.buffered_bytes_ahead(0), 6 * MB);

    // From offset 1 MB (middle of chunk 0), still contiguous through chunk 2.
    // Remaining in chunk 0: 1 MB, chunk 1: 2 MB, chunk 2: 2 MB = 5 MB.
    assert_eq!(cache.buffered_bytes_ahead(1 * MB), 5 * MB);

    // From offset 6 MB (start of chunk 3, which is not cached): 0.
    assert_eq!(cache.buffered_bytes_ahead(6 * MB), 0);
}

#[test]
fn test_disk_cache_last_chunk_shorter() {
    // 5 MB file with 2 MB chunks => chunks of 2, 2, 1 MB.
    let mut cache = DiskCache::new(5 * MB, 2 * MB).unwrap();

    assert_eq!(cache.total_chunks(), 3);
    assert_eq!(cache.chunk_len(0), 2 * MB as usize);
    assert_eq!(cache.chunk_len(1), 2 * MB as usize);
    assert_eq!(cache.chunk_len(2), 1 * MB as usize);

    // Write and read the last (shorter) chunk.
    let data = vec![0xCDu8; 1 * MB as usize];
    cache.put_chunk(2, &data).unwrap();
    let read_back = cache.read_chunk(2).unwrap();
    assert_eq!(read_back, data);

    // A full-size payload for the short last chunk is rejected.
    let too_long = vec![0xCDu8; 2 * MB as usize];
    assert_eq!(cache.put_chunk(2, &too_long), Err(ProxyError::InvalidRange));
}

#[test]
fn test_disk_cache_read_range() {
    let mut cache = DiskCache::new(5 * MB, 2 * MB).unwrap();
    let mut chunk0 = vec![0u8; 2 * MB as usize];
    for (i, b) in chunk0.iter_mut().enumerate() {
        *b = (i % 256) as u8;
    }
    let mut chunk1 = vec![0u8; 2 * MB as usize];
    for (i, b) in chunk1.iter_mut().enumerate() {
        *b = ((i + 7) % 256) as u8;
    }
    cache.put_chunk(0, &chunk0).unwrap();
    cache.put_chunk(1, &chunk1).unwrap();

    // A range crossing both chunks comes back in file order.
    let data = cache.read_range(2 * MB - 4, 2 * MB + 4).unwrap();
    assert_eq!(data.len(), 8);
    assert_eq!(&data[..4], &chunk0[(2 * MB - 4) as usize..]);
    assert_eq!(&data[4..], &chunk1[..4]);

    // A range touching the missing chunk 2 is refused whole.
    assert!(cache.read_range(3 * MB, 5 * MB).is_none());
    // Empty and out-of-file ranges are refused.
    assert!(cache.read_range(MB, MB).is_none());
    assert!(cache.read_range(0, 6 * MB).is_none());
}

#[test]
fn test_disk_cache_rejects_zero_geometry() {
    assert!(matches!(DiskCache::new(0, 2 * MB), Err(ProxyError::Internal)));
    assert!(matches!(DiskCache::new(10 * MB, 0), Err(ProxyError::Internal)));
}

#[test]
fn test_disk_cache_put_rewrite_counts_once() {
    let mut cache = DiskCache::new(4 * MB, 2 * MB).unwrap();
    let data = vec![1u8; 2 * MB as usize];
    cache.put_chunk(1, &data).unwrap();
    assert_eq!(cache.cached_bytes(), 2 * MB);
    let data2 = vec![2u8; 2 * MB as usize];
    cache.put_chunk(1, &data2).unwrap();
    // Rewriting a complete chunk replaces its bytes without double counting.
    assert_eq!(cache.cached_bytes(), 2 * MB);
    assert_eq!(cache.read_chunk(1).unwrap(), data2);
}
