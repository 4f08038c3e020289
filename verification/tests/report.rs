use pv_monitoring::model::{IntOrString, JsonNumber, Point, PointType, Symbol, SymbolValue};
use pv_monitoring::report::{describe, remark, DecodeError, Shown};
use pv_monitoring::sunspec::{Field, State};

fn point(name: &str, typ: PointType, size: u16) -> Point {
    Point {
        name: name.to_string(),
        typ,
        value: None,
        count: None,
        size,
        sf: None,
        units: None,
        writable: false,
        mandatory: true,
        is_static: false,
        label: None,
        desc: None,
        detail: None,
        notes: None,
        comments: vec![],
        symbols: vec![],
        standards: vec![],
    }
}

fn field(point: Point, value: Vec<u16>) -> Field {
    Field { addr: 40070, point, value, state: State::Normal }
}

fn sym(name: &str, v: SymbolValue) -> Symbol {
    Symbol { name: name.to_string(), value: v, label: None, desc: None, detail: None, notes: None, comments: vec![] }
}

#[test]
fn remarks() {
    assert_eq!(remark(false, false), " (opt)");
    assert_eq!(remark(false, true), "");
    assert_eq!(remark(true, false), " (static,opt)");
    assert_eq!(remark(true, true), " (static)");
}

#[test]
fn describe_signed_and_scale_factor() {
    let mut p = point("A", PointType::Int16, 1);
    p.label = Some("Amps".to_string());
    p.sf = Some(IntOrString::String("A_SF".to_string()));
    let r = describe(&field(p, vec![0xFFFE])).unwrap().unwrap();
    assert!(matches!(r.value, Shown::Signed(-2)));
    assert_eq!(r.label, "Amps");
    assert_eq!(r.name, "A");
    assert_eq!(r.addr, 40070);
    assert_eq!(r.scale, Some(IntOrString::String("A_SF".to_string())));
    assert_eq!(r.remark, "");
    let sf = point("A_SF", PointType::Sunssf, 1);
    let r = describe(&field(sf, vec![0xFFFD])).unwrap().unwrap();
    assert!(matches!(r.value, Shown::Signed(-3)));
    assert_eq!(r.label, "Scale Factor");
}

#[test]
fn describe_integer_width_error() {
    let p = point("E", PointType::Int64, 5);
    assert_eq!(describe(&field(p, vec![1, 2, 3, 4, 5])).err(), Some(DecodeError::IntegerWidth));
    let p = point("E", PointType::Int16, 0);
    assert_eq!(describe(&field(p, vec![])).err(), Some(DecodeError::IntegerWidth));
}

#[test]
fn describe_unsigned_and_device_address() {
    let p = point("WH", PointType::Acc32, 2);
    let r = describe(&field(p, vec![0x0001, 0x0000])).unwrap().unwrap();
    assert!(matches!(r.value, Shown::Unsigned(65536)));
    let da = point("DA", PointType::Uint16, 1);
    let r = describe(&field(da, vec![7])).unwrap().unwrap();
    assert!(matches!(r.value, Shown::Unsigned(7)));
    let da0 = point("DA", PointType::Uint16, 0);
    assert_eq!(describe(&field(da0, vec![])).err(), Some(DecodeError::NoRegister));
}

#[test]
fn describe_enum_bitfield_string() {
    let mut e = point("St", PointType::Enum16, 1);
    e.symbols = vec![sym("MPPT", SymbolValue::Number(JsonNumber::PosInt(4)))];
    let r = describe(&field(e, vec![4])).unwrap().unwrap();
    assert!(matches!(&r.value, Shown::Text(t) if t == "MPPT (4)"));
    let mut e = point("St", PointType::Enum16, 1);
    e.symbols = vec![sym("MPPT", SymbolValue::Number(JsonNumber::PosInt(4)))];
    let r = describe(&field(e, vec![5])).unwrap().unwrap();
    assert!(matches!(r.value, Shown::Unsigned(5)));
    let e = point("St", PointType::Enum16, 0);
    assert_eq!(describe(&field(e, vec![])).err(), Some(DecodeError::NoRegister));

    let mut b = point("Evt", PointType::Bitfield16, 1);
    b.symbols = vec![sym("A", SymbolValue::Number(JsonNumber::PosInt(0))), sym("s", SymbolValue::Other)];
    let r = describe(&field(b, vec![0x0002])).unwrap().unwrap();
    assert!(matches!(&r.value, Shown::Text(t) if t == "A (0x2)"));
    assert_eq!(r.ignored_symbols, 1);
    let mut b = point("Evt", PointType::Bitfield16, 1);
    b.symbols = vec![sym("A", SymbolValue::Number(JsonNumber::PosInt(40)))];
    assert_eq!(describe(&field(b, vec![0])).err(), Some(DecodeError::UnreadableSymbol));

    let s = point("Mn", PointType::String, 2);
    let r = describe(&field(s, vec![0x4142, 0x4300])).unwrap().unwrap();
    assert!(matches!(&r.value, Shown::Text(t) if t == "ABC"));
    let s = point("Mn", PointType::String, 1);
    assert_eq!(describe(&field(s, vec![0xC328])).err(), Some(DecodeError::NotUtf8));
}

#[test]
fn describe_raw_and_pad() {
    let p = point("Addr", PointType::Ipaddr, 2);
    let r = describe(&field(p, vec![0xC0A8, 0x0001])).unwrap().unwrap();
    assert!(matches!(&r.value, Shown::Registers(v) if *v == vec![0xC0A8, 0x0001]));
    let mut pad = point("Pad", PointType::Pad, 1);
    pad.is_static = true;
    assert!(describe(&field(pad, vec![0x8000])).unwrap().is_none());
    let mut opt = point("O", PointType::Raw16, 1);
    opt.mandatory = false;
    opt.is_static = true;
    assert_eq!(describe(&field(opt, vec![1])).unwrap().unwrap().remark, " (static,opt)");
}
