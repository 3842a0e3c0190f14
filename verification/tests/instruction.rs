use rust_chip_8::instruction::{get_byte_from_u16, get_nibble_from_byte, Fields};
use rust_chip_8::Chip8Cpu;

#[test]
fn byte_zero_is_the_high_byte() {
    assert_eq!(get_byte_from_u16(0xD123, 0), Ok(0xD1));
    assert_eq!(get_byte_from_u16(0x00FF, 0), Ok(0x00));
    assert_eq!(get_byte_from_u16(0xFFFF, 0), Ok(0xFF));
}

#[test]
fn byte_one_is_the_low_byte() {
    assert_eq!(get_byte_from_u16(0xD123, 1), Ok(0x23));
    assert_eq!(get_byte_from_u16(0xFF00, 1), Ok(0x00));
    assert_eq!(get_byte_from_u16(0xFFFF, 1), Ok(0xFF));
}

#[test]
fn byte_index_out_of_range() {
    assert_eq!(get_byte_from_u16(0xD123, 2), Err("Index out of range"));
    assert_eq!(get_byte_from_u16(0xD123, -1), Err("Index out of range"));
    assert_eq!(get_byte_from_u16(0xD123, isize::MAX), Err("Index out of range"));
    assert_eq!(get_byte_from_u16(0xD123, isize::MIN), Err("Index out of range"));
}

#[test]
fn nibble_zero_is_the_high_nibble() {
    assert_eq!(get_nibble_from_byte(0xD1, 0), Ok(0xD));
    assert_eq!(get_nibble_from_byte(0x0F, 0), Ok(0x0));
}

#[test]
fn nibble_one_is_the_low_nibble() {
    assert_eq!(get_nibble_from_byte(0xD1, 1), Ok(0x1));
    assert_eq!(get_nibble_from_byte(0xF0, 1), Ok(0x0));
}

#[test]
fn nibble_index_out_of_range() {
    assert_eq!(get_nibble_from_byte(0xD1, 2), Err("Index out of range"));
    assert_eq!(get_nibble_from_byte(0xD1, -1), Err("Index out of range"));
}

#[test]
fn bytes_and_nibbles_of_every_word() {
    for word in 0..=u16::MAX {
        let high = get_byte_from_u16(word, 0).unwrap();
        let low = get_byte_from_u16(word, 1).unwrap();
        assert_eq!(high as u16 * 256 + low as u16, word);
        let upper = get_nibble_from_byte(low, 0).unwrap();
        let lower = get_nibble_from_byte(low, 1).unwrap();
        assert!(upper < 16 && lower < 16);
        assert_eq!(upper * 16 + lower, low);
    }
}

#[test]
fn decode_draw_instruction() {
    let fields = Chip8Cpu::decode(0xD123);
    assert_eq!(
        fields,
        Fields { instruction_type: 0xD, x: 0x1, y: 0x2, n: 0x3, nn: 0x23, nnn: 0x123 }
    );
}

#[test]
fn decode_extreme_words() {
    assert_eq!(
        Chip8Cpu::decode(0x0000),
        Fields { instruction_type: 0, x: 0, y: 0, n: 0, nn: 0, nnn: 0 }
    );
    assert_eq!(
        Chip8Cpu::decode(0xFFFF),
        Fields { instruction_type: 0xF, x: 0xF, y: 0xF, n: 0xF, nn: 0xFF, nnn: 0xFFF }
    );
    assert_eq!(
        Chip8Cpu::decode(0xA2F0),
        Fields { instruction_type: 0xA, x: 0x2, y: 0xF, n: 0x0, nn: 0xF0, nnn: 0x2F0 }
    );
}

#[test]
fn decode_fields_put_together_give_the_word() {
    for word in 0..=u16::MAX {
        let fields = Chip8Cpu::decode(word);
        assert!(fields.instruction_type < 16);
        assert!(fields.x < 16);
        assert!(fields.y < 16);
        assert!(fields.n < 16);
        assert!(fields.nnn < 4096);
        assert_eq!(fields.y as u8 * 16 + fields.n, fields.nn);
        assert_eq!(fields.x as u16 * 256 + fields.nn as u16, fields.nnn);
        assert_eq!(fields.instruction_type as u16 * 4096 + fields.nnn, word);
    }
}
