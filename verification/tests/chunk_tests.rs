use objstore::chunks::{assemble_chunks, split_chunks};

#[test]
fn split_then_assemble_reproduces_the_body() {
    let body: Vec<u8> = (0u8..=255).collect();
    let chunks = split_chunks(&body, 7);
    for c in &chunks {
        assert!(c.len() <= 7);
    }
    assert_eq!(assemble_chunks(&chunks), body);
}

#[test]
fn split_of_empty_body_has_no_chunks() {
    let body: Vec<u8> = Vec::new();
    let chunks = split_chunks(&body, 4);
    assert!(chunks.is_empty());
    assert_eq!(assemble_chunks(&chunks), body);
}

#[test]
fn split_at_exact_multiple_fills_every_chunk() {
    let body = vec![1u8, 2, 3, 4, 5, 6];
    let chunks = split_chunks(&body, 3);
    assert_eq!(chunks.len(), 2);
    assert_eq!(chunks[0], vec![1u8, 2, 3]);
    assert_eq!(chunks[1], vec![4u8, 5, 6]);
}

#[test]
fn chunks_arrive_in_order() {
    let body = vec![9u8, 8, 7, 6, 5];
    let chunks = split_chunks(&body, 2);
    assert_eq!(assemble_chunks(&chunks), vec![9u8, 8, 7, 6, 5]);
}
