use xbr::Block;
use xbr::XBRError;

#[test]
fn block_new_keeps_fields() {
    let block = Block::new(vec![1, 2, 3, 4], 1, 1);
    assert_eq!(block.bytes, vec![1, 2, 3, 4]);
    assert_eq!(block.width, 1);
    assert_eq!(block.height, 1);
}

#[test]
fn flatten_rgba_byte_order() {
    let bytes = Block::flatten_rgba(vec![0x11223344, 0xAABBCCDD]);
    assert_eq!(bytes, vec![0x11, 0x22, 0x33, 0x44, 0xAA, 0xBB, 0xCC, 0xDD]);
}

#[test]
fn into_rgba_packs_chunks() {
    let block = Block::new(vec![1, 2, 3, 4, 5, 6, 7, 8], 2, 1);
    assert_eq!(block.into_rgba(), vec![0x01020304, 0x05060708]);
}

#[test]
fn rgba_roundtrip() {
    let colors = vec![0xFFFFFFFF, 0x000000FF, 0x12345678, 0];
    let block = Block::from_rgba(colors.clone(), 2, 2);
    assert_eq!(block.bytes.len(), 16);
    assert_eq!(block.into_rgba(), colors);
}

#[test]
fn error_kinds() {
    assert_eq!(XBRError::OpeningFile.message(), "XBRError");
    assert_eq!(XBRError::LoadingFromMemory.message(), "XBRError");
    assert_ne!(XBRError::OpeningFile, XBRError::LoadingFromMemory);
}
