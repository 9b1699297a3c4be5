use markup_parser::bytes::{
    byte_is_alphabetic, byte_is_alphanumeric, byte_is_whitespace, BLOCK_CLOSE, BLOCK_OPEN,
    INLINE_CLOSE, INLINE_OPEN, PIPE,
};

#[test]
fn whitespace_is_ascii_whitespace() {
    for byte in 0..=255u8 {
        assert_eq!(byte_is_whitespace(byte), byte.is_ascii_whitespace(), "byte {}", byte);
    }
}

#[test]
fn whitespace_bytes_are_five() {
    let found: Vec<u8> = (0..=255u8).filter(|byte| byte_is_whitespace(*byte)).collect();
    assert_eq!(found, vec![b'\t', b'\n', 0x0c, b'\r', b' ']);
}

#[test]
fn alphabetic_is_ascii_alphabetic() {
    for byte in 0..=255u8 {
        assert_eq!(byte_is_alphabetic(byte), byte.is_ascii_alphabetic(), "byte {}", byte);
    }
}

#[test]
fn alphanumeric_is_ascii_alphanumeric() {
    for byte in 0..=255u8 {
        assert_eq!(byte_is_alphanumeric(byte), byte.is_ascii_alphanumeric(), "byte {}", byte);
    }
}

#[test]
fn structural_bytes_are_the_brackets_and_the_pipe() {
    assert_eq!(INLINE_OPEN, b'[');
    assert_eq!(INLINE_CLOSE, b']');
    assert_eq!(BLOCK_OPEN, b'{');
    assert_eq!(BLOCK_CLOSE, b'}');
    assert_eq!(PIPE, b'|');
}
