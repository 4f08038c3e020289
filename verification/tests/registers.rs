use pv_monitoring::model::{JsonNumber, Symbol, SymbolValue};
use pv_monitoring::registers::{
    bitfield_flags, enum_name, parse_string, signed_value, string_bytes, unsigned_value,
};

fn symbol(name: &str, value: SymbolValue) -> Symbol {
    Symbol {
        name: name.to_string(),
        value,
        label: None,
        desc: None,
        detail: None,
        notes: None,
        comments: vec![],
    }
}

fn bit(name: &str, n: u64) -> Symbol {
    symbol(name, SymbolValue::Number(JsonNumber::PosInt(n)))
}

#[test]
fn unsigned_value_joins_registers_big_endian() {
    assert_eq!(unsigned_value(&[]), 0);
    assert_eq!(unsigned_value(&[0x1234]), 0x1234);
    assert_eq!(unsigned_value(&[0x0001, 0x0002]), 0x0001_0002);
    assert_eq!(unsigned_value(&[0xFFFF, 0xFFFF, 0xFFFF, 0xFFFF]), u64::MAX);
}

#[test]
fn unsigned_value_keeps_low_64_bits() {
    assert_eq!(unsigned_value(&[0x0001, 0, 0, 0, 5]), 5);
    assert_eq!(unsigned_value(&[0xAAAA, 0x1111, 0x2222, 0x3333, 0x4444]), 0x1111_2222_3333_4444);
}

#[test]
fn signed_value_extends_the_sign() {
    assert_eq!(signed_value(&[0xFFFF]), -1);
    assert_eq!(signed_value(&[0x8000]), -32768);
    assert_eq!(signed_value(&[0x7FFF]), 32767);
    assert_eq!(signed_value(&[0xFFFF, 0xFFFE]), -2);
    assert_eq!(signed_value(&[0x0001, 0x0000]), 65536);
    assert_eq!(signed_value(&[0x8000, 0, 0, 0]), i64::MIN);
    assert_eq!(signed_value(&[0x7FFF, 0xFFFF, 0xFFFF, 0xFFFF]), i64::MAX);
}

#[test]
fn signed_value_range_and_unsigned_reading() {
    // Law: the signed value is the unsigned one, or that minus 2^(16 n) when the sign bit is set.
    let regs = [0xFFF0u16, 0x0001];
    let u = unsigned_value(&regs) as i64;
    assert_eq!(signed_value(&regs), u - (1i64 << 32));
    let regs = [0x0FF0u16, 0x0001];
    assert_eq!(signed_value(&regs), unsigned_value(&regs) as i64);
}

#[test]
fn bitfield_clear_bit_means_flag_set() {
    let syms = vec![bit("A", 0), bit("B", 1), symbol("C", SymbolValue::Other), bit("D", 17)];
    // bit 0 clear (A set), bit 1 set (B not set); register 1 bit 1 clear (D set)
    let (text, skipped) = bitfield_flags(&syms, &[0b10, 0]).unwrap();
    assert_eq!(text, "A|D (0x20000)");
    assert_eq!(skipped, 1);
}

#[test]
fn bitfield_without_flags_shows_hex_only() {
    let syms = vec![bit("A", 0)];
    assert_eq!(bitfield_flags(&syms, &[0xFFFF]).unwrap().0, "(0xffff)");
    // all registers zero: only the hexadecimal part, though flags are "set"
    assert_eq!(bitfield_flags(&syms, &[0]).unwrap().0, "(0x0)");
}

#[test]
fn bitfield_empty_name_gets_no_separator() {
    let syms = vec![bit("", 0), bit("B", 1)];
    assert_eq!(bitfield_flags(&syms, &[0b100]).unwrap().0, "B (0x4)");
}

#[test]
fn bitfield_unreadable_symbols() {
    let out_of_range = vec![bit("A", 16)];
    assert!(bitfield_flags(&out_of_range, &[0]).is_none());
    let negative = vec![symbol("A", SymbolValue::Number(JsonNumber::NegInt(-1)))];
    assert!(bitfield_flags(&negative, &[0]).is_none());
    let float = vec![symbol("A", SymbolValue::Number(JsonNumber::Float("1.5".to_string())))];
    assert!(bitfield_flags(&float, &[0]).is_none());
}

#[test]
fn enum_name_finds_first_symbol() {
    let syms = vec![bit("OFF", 1), bit("ON", 2), bit("ALSO_ON", 2)];
    assert_eq!(enum_name(&syms, 2).unwrap(), "ON (2)");
    assert_eq!(enum_name(&syms, 1).unwrap(), "OFF (1)");
    assert!(enum_name(&syms, 3).is_none());
}

#[test]
fn string_bytes_stop_at_zero() {
    assert_eq!(string_bytes(&[0x4869, 0x2100, 0x4142]), b"Hi!".to_vec());
    assert_eq!(string_bytes(&[0x4142, 0x4344]), b"ABCD".to_vec());
    assert_eq!(string_bytes(&[0x0041]), Vec::<u8>::new());
    assert_eq!(string_bytes(&[]), Vec::<u8>::new());
}

#[test]
fn parse_string_decodes_utf8() {
    assert_eq!(parse_string(&[0x536f, 0x6c61, 0x7245, 0x6467, 0x6500, 0x0000]).unwrap(), "SolarEdge");
    assert_eq!(parse_string(&[0xC3A4, 0x0000]).unwrap(), "ä");
    assert!(parse_string(&[0xFF00]).is_none());
    assert_eq!(parse_string(&[0, 0]).unwrap(), "");
}
