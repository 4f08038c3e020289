use pv_monitoring::deviceinfo::{parse_mod1, DeviceInfo};
use pv_monitoring::model::{
    default_group_count, parse_access, parse_mandatory, parse_static, Group, GroupType,
    IntOrString, Point, PointType,
};
use pv_monitoring::sunspec::{Field, State};
use pv_monitoring::text::{push_decimal, push_hexadecimal, push_signed_decimal, push_str, str_equal};

fn point(name: &str, typ: PointType, size: u16) -> Point {
    Point {
        name: name.to_string(),
        typ,
        value: None,
        count: None,
        size,
        sf: None,
        units: None,
        writable: false,
        mandatory: true,
        is_static: true,
        label: None,
        desc: None,
        detail: None,
        notes: None,
        comments: vec!["c".to_string()],
        symbols: vec![],
        standards: vec![],
    }
}

#[test]
fn flags() {
    assert_eq!(parse_access("RW"), Some(true));
    assert_eq!(parse_access("R"), Some(false));
    assert_eq!(parse_access("W"), None);
    assert_eq!(parse_mandatory("M"), Some(true));
    assert_eq!(parse_mandatory("O"), Some(false));
    assert_eq!(parse_mandatory("m"), None);
    assert_eq!(parse_static("S"), Some(true));
    assert_eq!(parse_static("D"), Some(false));
    assert_eq!(parse_static(""), None);
}

#[test]
fn group_count_defaults_to_one() {
    assert_eq!(default_group_count(), IntOrString::Int(1));
}

#[test]
fn group_copies_are_deep() {
    let inner = Group {
        name: "inner".to_string(),
        typ: GroupType::Sync,
        count: IntOrString::String("N".to_string()),
        label: None,
        desc: Some("d".to_string()),
        detail: None,
        notes: None,
        comments: vec![],
        points: vec![point("P", PointType::Uint16, 1)],
        groups: vec![],
    };
    let g = Group {
        name: "outer".to_string(),
        typ: GroupType::Group,
        count: IntOrString::Int(1),
        label: Some("L".to_string()),
        desc: None,
        detail: None,
        notes: None,
        comments: vec!["x".to_string()],
        points: vec![point("A", PointType::Int16, 1)],
        groups: vec![inner],
    };
    let c = g.copied();
    assert_eq!(format!("{:?}", c), format!("{:?}", g));
}

#[test]
fn text_helpers() {
    let mut s = String::new();
    push_str(&mut s, "x");
    push_decimal(&mut s, 1234567890123);
    push_str(&mut s, " ");
    push_signed_decimal(&mut s, i64::MIN);
    push_str(&mut s, " ");
    push_hexadecimal(&mut s, 0xdeadbeef);
    assert_eq!(s, format!("x1234567890123 {} deadbeef", i64::MIN));
    assert!(str_equal("abc", "abc"));
    assert!(!str_equal("abc", "abd"));
    assert!(!str_equal("ab", "abc"));
}

fn strf(name: &str, value: Vec<u16>) -> Field {
    Field { addr: 0, point: point(name, PointType::String, value.len() as u16), value, state: State::Normal }
}

fn mod1_fields() -> Vec<Field> {
    vec![
        strf("Mn", vec![0x5345, 0x0000]),
        strf("Md", vec![0x5345, 0x3130, 0x4b00]),
        strf("Opt", vec![0x0000]),
        strf("Vr", vec![0x3400]),
        strf("SN", vec![0x3132, 0x3300]),
        Field { addr: 0, point: point("DA", PointType::Uint16, 1), value: vec![1], state: State::Normal },
    ]
}

#[test]
fn parse_mod1_reads_identification() {
    let d: DeviceInfo = parse_mod1(&mod1_fields()).unwrap();
    assert_eq!(d.manufacturer, "SE");
    assert_eq!(d.model, "SE10K");
    assert_eq!(d.options, "");
    assert_eq!(d.sn, "123");
}

#[test]
fn parse_mod1_rejects_other_layouts() {
    let mut f = mod1_fields();
    f.pop();
    assert!(parse_mod1(&f).is_none());
    let mut f = mod1_fields();
    f[3].point.name = "Version".to_string();
    assert!(parse_mod1(&f).is_none());
    let mut f = mod1_fields();
    f[5].value = vec![1, 2];
    assert!(parse_mod1(&f).is_none());
    let mut f = mod1_fields();
    f[0].value = vec![0xFF00];
    assert!(parse_mod1(&f).is_none());
}

#[test]
fn device_info_default_is_empty() {
    let d = DeviceInfo::default();
    assert_eq!((d.manufacturer.as_str(), d.model.as_str(), d.options.as_str(), d.sn.as_str()), ("", "", "", ""));
}
