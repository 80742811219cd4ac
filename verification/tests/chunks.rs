use debugbunny::chunkify::{Chunk, Chunks, ChunksError, Id, DEFAULT_CHUNK_SIZE};

fn sample_data(len: usize) -> Vec<u8> {
    (0..len).map(|x| (x % 256) as u8).collect()
}

#[test]
fn split_and_contiguous_has_same_id() {
    let data: Vec<_> = (0..7654).map(|x| (x % 256) as u8).collect();

    let chunks0 = Chunks::new(data, DEFAULT_CHUNK_SIZE);
    let id0 = chunks0.id();
    assert_ne!(id0, Id::new(vec![0u8; 32]));

    let chunks1 =
        Chunks::from_chunks(chunks0.iter().into_iter().map(|x| x.clone().into_owned()).collect())
            .unwrap();
    let id1 = chunks1.id();

    assert_eq!(id0, id1);
}

#[test]
fn split_and_contiguous_have_same_content() {
    let data: Vec<_> = (0..7654).map(|x| (x % 256) as u8).collect();

    let chunks0 = Chunks::new(data, DEFAULT_CHUNK_SIZE);
    let mut buf0: Vec<u8> = chunks0.reader().read_to_end();

    let chunks1 =
        Chunks::from_chunks(chunks0.iter().into_iter().map(|x| x.clone().into_owned()).collect())
            .unwrap();
    let mut buf1: Vec<u8> = chunks1.reader().read_to_end();

    assert_ne!(0, buf1.len());
    assert_eq!(buf0, buf1);

    // Reading again from a fresh reader gives the same bytes: reads are
    // non-destructive.
    buf0 = chunks0.reader().read_to_end();
    buf1 = chunks1.reader().read_to_end();
    assert_eq!(buf0, buf1);
}

#[test]
fn content_id_is_the_sha256_of_the_bytes() {
    // A known digest: SHA-256 of "abc".
    let chunks = Chunks::new(b"abc".to_vec(), DEFAULT_CHUNK_SIZE);
    let hex: Vec<u8> = chunks.id().to_hex();
    assert_eq!(
        String::from_utf8(hex).unwrap(),
        "ba7816bf8f01cfea414140de5dae2223b00361a396177a9cb410ff61f20015ad"
    );
}

#[test]
fn empty_buffer_has_no_chunks() {
    // A known digest: SHA-256 of the empty string.
    let chunks = Chunks::new(Vec::new(), DEFAULT_CHUNK_SIZE);
    assert_eq!(chunks.iter().len(), 0);
    assert_eq!(chunks.total_len(), 0);
    assert_eq!(
        String::from_utf8(chunks.id().to_hex()).unwrap(),
        "e3b0c44298fc1c149afbf4c8996fb92427ae41e4649b934ca495991b7852b855"
    );

    // Round trip through an empty chunk list keeps the id.
    let rebuilt = Chunks::from_chunks(Vec::new()).unwrap();
    assert_eq!(rebuilt.id(), chunks.id());
    assert_eq!(rebuilt.reader().read_to_end().len(), 0);
}

#[test]
fn short_buffer_is_one_chunk() {
    // A body shorter than one chunk: exactly one chunk with
    // remaining == data.len() == body length.
    let body = sample_data(100);
    let chunks = Chunks::new(body.clone(), DEFAULT_CHUNK_SIZE);
    let parts = chunks.iter();
    assert_eq!(parts.len(), 1);
    assert_eq!(parts[0].remaining, 100);
    assert_eq!(parts[0].data.len(), 100);
    assert_eq!(parts[0].data, body);
}

#[test]
fn chunk_lengths_and_remaining_telescope() {
    // 7654 = 2 * 2922 + 1810: two full chunks and a shorter last one.
    let data = sample_data(7654);
    let chunks = Chunks::new(data, DEFAULT_CHUNK_SIZE);
    let parts = chunks.iter();
    assert_eq!(parts.len(), 3);
    assert_eq!(parts[0].data.len(), 2922);
    assert_eq!(parts[1].data.len(), 2922);
    assert_eq!(parts[2].data.len(), 1810);
    assert_eq!(parts[0].remaining, 7654);
    assert_eq!(parts[1].remaining, 7654 - 2922);
    assert_eq!(parts[2].remaining, 1810);
    for i in 0..parts.len() - 1 {
        assert_eq!(parts[i].remaining - parts[i].data.len(), parts[i + 1].remaining);
    }
    assert_eq!(parts[2].remaining, parts[2].data.len());
}

#[test]
fn from_chunks_rejects_uneven_chunks() {
    let parts = vec![
        Chunk { remaining: 7, data: vec![1, 2, 3] },
        Chunk { remaining: 4, data: vec![4, 5] },
        Chunk { remaining: 2, data: vec![6, 7] },
    ];
    match Chunks::from_chunks(parts) {
        Err(ChunksError::ChunksSizeMismatch) => {}
        other => panic!("expected a size mismatch, got {:?}", other.map(|c| c.chunk_size())),
    }
}

#[test]
fn from_chunks_rejects_long_last_chunk() {
    let parts = vec![
        Chunk { remaining: 7, data: vec![1, 2, 3] },
        Chunk { remaining: 4, data: vec![4, 5, 6, 7] },
    ];
    match Chunks::from_chunks(parts) {
        Err(ChunksError::ChunksSizeMismatch) => {}
        other => panic!("expected a size mismatch, got {:?}", other.map(|c| c.chunk_size())),
    }
}

#[test]
fn from_chunks_rejects_bad_remaining() {
    let parts = vec![
        Chunk { remaining: 6, data: vec![1, 2, 3] },
        Chunk { remaining: 2, data: vec![4, 5] },
    ];
    match Chunks::from_chunks(parts) {
        Err(ChunksError::InvalidRemainingValue) => {}
        other => panic!("expected a remaining error, got {:?}", other.map(|c| c.chunk_size())),
    }
}

#[test]
fn from_chunks_accepts_consistent_chunks() {
    let parts = vec![
        Chunk { remaining: 5, data: vec![1, 2, 3] },
        Chunk { remaining: 2, data: vec![4, 5] },
    ];
    let chunks = Chunks::from_chunks(parts).unwrap();
    assert_eq!(chunks.chunk_size(), 3);
    assert_eq!(chunks.total_len(), 5);
    assert_eq!(chunks.reader().read_to_end(), vec![1, 2, 3, 4, 5]);
}

#[test]
fn reader_stops_at_chunk_boundaries() {
    let data = sample_data(10);
    let contiguous = Chunks::new(data.clone(), 4);
    let rebuilt = Chunks::from_chunks(contiguous.iter()).unwrap();

    // The contiguous shape serves a large read in one piece.
    let mut r0 = contiguous.reader();
    assert_eq!(r0.read(100), data);

    // The chunked shape stops each read at the current chunk's end.
    let mut r1 = rebuilt.reader();
    assert_eq!(r1.read(100), &data[0..4]);
    assert_eq!(r1.read(100), &data[4..8]);
    assert_eq!(r1.read(100), &data[8..10]);
    assert_eq!(r1.read(100), Vec::<u8>::new());

    // Small reads work on both shapes.
    let mut r2 = contiguous.reader();
    assert_eq!(r2.read(3), &data[0..3]);
    assert_eq!(r2.read(3), &data[3..6]);
    assert_eq!(r2.read_to_end(), &data[6..10]);
}

#[test]
fn rebuild_of_a_seven_kilobyte_buffer_matches() {
    // Build from a contiguous buffer, split, rebuild, and read both back:
    // equal ids and equal bytes.
    let data = sample_data(7654);
    let chunks0 = Chunks::new(data.clone(), 256);
    let parts = chunks0.iter();
    assert_eq!(parts.len(), (7654 + 255) / 256);
    let chunks1 = Chunks::from_chunks(parts).unwrap();
    assert_eq!(chunks0.id(), chunks1.id());
    assert_eq!(chunks0.reader().read_to_end(), data);
    assert_eq!(chunks1.reader().read_to_end(), data);
}
