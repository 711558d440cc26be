use riffu::ChunkBuilder;
use riffu::ChunkData;
use riffu::FourCC;
use riffu::RiffBuilder;

fn id(name: &str) -> FourCC {
    FourCC::from_text(name).unwrap()
}

#[test]
fn plain_chunk_declared_length_is_unpadded() {
    let c = ChunkBuilder::new_notype(id("data"), ChunkData::RawData(vec![1, 2, 3]));
    assert_eq!(c.payload_len, 3);
    let even = ChunkBuilder::new_notype(id("data"), ChunkData::RawData(vec![1, 2, 3, 4]));
    assert_eq!(even.payload_len, 4);
}

#[test]
fn odd_raw_payload_padded_with_zero() {
    let c = ChunkBuilder::new_notype(id("data"), ChunkData::RawData(vec![1, 2, 3]));
    let mut out = Vec::new();
    c.to_bytes(&mut out);
    assert_eq!(out, b"data\x03\x00\x00\x00\x01\x02\x03\x00");
    assert_eq!(out.len(), 12);
}

#[test]
fn even_raw_payload_not_padded() {
    let c = ChunkBuilder::new_notype(id("data"), ChunkData::RawData(vec![9, 8]));
    let mut out = Vec::new();
    c.to_bytes(&mut out);
    assert_eq!(out, b"data\x02\x00\x00\x00\x09\x08");
}

#[test]
fn empty_raw_payload() {
    let c = ChunkBuilder::new_notype(id("data"), ChunkData::RawData(vec![]));
    assert_eq!(c.payload_len, 0);
    let mut out = Vec::new();
    c.to_bytes(&mut out);
    assert_eq!(out, b"data\x00\x00\x00\x00");
}

#[test]
fn typed_chunk_carries_tag_after_length() {
    let c = ChunkBuilder::new_type(id("LIST"), id("INFO"), ChunkData::RawData(vec![1, 2]));
    assert_eq!(c.payload_len, 2);
    let mut out = Vec::new();
    c.to_bytes(&mut out);
    assert_eq!(out, b"LIST\x02\x00\x00\x00INFO\x01\x02");
}

#[test]
fn list_chunk_declared_length_sums_children() {
    // Plain child: 8 header + 3 declared = 11; typed child: 8 + 4 + 2 = 14.
    let plain = ChunkBuilder::new_notype(id("one "), ChunkData::RawData(vec![1, 2, 3]));
    let typed = ChunkBuilder::new_type(id("two "), id("tagg"), ChunkData::RawData(vec![4, 5]));
    let list = ChunkBuilder::new_notype(id("LIST"), ChunkData::ChunkData(vec![plain, typed]));
    assert_eq!(list.payload_len, 11 + 14);
}

#[test]
fn nested_list_declared_length_recursive() {
    // Inner list: one plain child of declared 2 -> inner declared 8 + 2 = 10.
    // Outer list: inner contributes 8 + 10 = 18; a plain child of declared 1
    // contributes 8 + 1 = 9; outer declared = 27.
    let leaf = ChunkBuilder::new_notype(id("leaf"), ChunkData::RawData(vec![1, 2]));
    let inner = ChunkBuilder::new_notype(id("innr"), ChunkData::ChunkData(vec![leaf]));
    assert_eq!(inner.payload_len, 10);
    let odd = ChunkBuilder::new_notype(id("oddc"), ChunkData::RawData(vec![7]));
    let outer = ChunkBuilder::new_notype(id("outr"), ChunkData::ChunkData(vec![inner, odd]));
    assert_eq!(outer.payload_len, 27);
}

#[test]
fn empty_container_serializes_to_twelve_bytes() {
    let rb = RiffBuilder::new(id("WAVE"));
    let out = rb.to_bytes();
    assert_eq!(out, b"RIFF\x04\x00\x00\x00WAVE");
    assert_eq!(out.len(), 12);
}

#[test]
fn serializing_twice_is_byte_identical() {
    let c = ChunkBuilder::new_notype(id("data"), ChunkData::RawData(vec![1, 2, 3]));
    let rb = RiffBuilder::new(id("WAVE")).add_chunk(c);
    let first = rb.to_bytes();
    let second = rb.to_bytes();
    assert_eq!(first, second);
}

#[test]
fn children_serialize_in_append_order() {
    let a = ChunkBuilder::new_notype(id("aaaa"), ChunkData::RawData(vec![1, 1]));
    let b = ChunkBuilder::new_notype(id("bbbb"), ChunkData::RawData(vec![2, 2]));
    let out = RiffBuilder::new(id("WAVE")).add_chunk(a).add_chunk(b).to_bytes();
    assert_eq!(
        &out[..],
        b"RIFF\x18\x00\x00\x00WAVEaaaa\x02\x00\x00\x00\x01\x01bbbb\x02\x00\x00\x00\x02\x02"
    );

    let a = ChunkBuilder::new_notype(id("aaaa"), ChunkData::RawData(vec![1, 1]));
    let b = ChunkBuilder::new_notype(id("bbbb"), ChunkData::RawData(vec![2, 2]));
    let swapped = RiffBuilder::new(id("WAVE")).add_chunk(b).add_chunk(a).to_bytes();
    assert_eq!(
        &swapped[..],
        b"RIFF\x18\x00\x00\x00WAVEbbbb\x02\x00\x00\x00\x02\x02aaaa\x02\x00\x00\x00\x01\x01"
    );
}

#[test]
fn container_total_counts_pad_byte() {
    let c = ChunkBuilder::new_notype(id("data"), ChunkData::RawData(vec![1, 2, 3]));
    let rb = RiffBuilder::new(id("WAVE")).add_chunk(c);
    // 4 (form type) + 8 (header) + 3 (declared) + 1 (pad correction) = 16.
    assert_eq!(rb.payload_len, 16);
}

#[test]
fn typed_chunk_counts_four_more_in_container() {
    let c = ChunkBuilder::new_type(id("LIST"), id("INFO"), ChunkData::RawData(vec![1, 2]));
    let rb = RiffBuilder::new(id("AVI ")).add_chunk(c);
    // 4 + 8 + 4 (type tag) + 2 = 18.
    assert_eq!(rb.payload_len, 18);
}

#[test]
fn data_chunk_scenario() {
    let c = ChunkBuilder::new_notype(id("data"), ChunkData::RawData(vec![1, 2, 3]));
    assert_eq!(c.payload_len, 3);
    let mut chunk_bytes = Vec::new();
    c.to_bytes(&mut chunk_bytes);
    assert_eq!(chunk_bytes, b"data\x03\x00\x00\x00\x01\x02\x03\x00");

    let rb = RiffBuilder::new(id("WAVE")).add_chunk(c);
    assert_eq!(rb.payload_len, 16);
    let out = rb.to_bytes();
    assert_eq!(out, b"RIFF\x10\x00\x00\x00WAVEdata\x03\x00\x00\x00\x01\x02\x03\x00");
    assert_eq!(out.len(), 24);
}
