use pv_monitoring::deviceinfo::DeviceInfo;
use pv_monitoring::model::{Group, GroupType, IntOrString, JsonNumber, Point, PointType, Symbol, SymbolValue};
use pv_monitoring::sunspec::{Block, Field, State};
use pv_monitoring::telegraf::{config_text, type_ident};

fn point(name: &str, typ: PointType, size: u16) -> Point {
    Point {
        name: name.to_string(),
        typ,
        value: None,
        count: None,
        size,
        sf: None,
        units: None,
        writable: false,
        mandatory: true,
        is_static: false,
        label: None,
        desc: None,
        detail: None,
        notes: None,
        comments: vec![],
        symbols: vec![],
        standards: vec![],
    }
}

fn symbol(name: &str, value: SymbolValue) -> Symbol {
    Symbol {
        name: name.to_string(),
        value,
        label: None,
        desc: None,
        detail: None,
        notes: None,
        comments: vec![],
    }
}

fn field(addr: u16, point: Point, state: State) -> Field {
    Field { addr, point, value: vec![0], state }
}

fn block(module_id: usize, label: Option<&str>, fields: Vec<Field>) -> Block {
    Block {
        device_id: 1,
        module_id,
        group: Group {
            name: "inverter".to_string(),
            typ: GroupType::Group,
            count: IntOrString::Int(1),
            label: label.map(|s| s.to_string()),
            desc: None,
            detail: None,
            notes: None,
            comments: vec![],
            points: vec![],
            groups: vec![],
        },
        fields,
        device_info: DeviceInfo {
            manufacturer: "SolarEdge".to_string(),
            model: "SE10K".to_string(),
            options: "".to_string(),
            sn: "123".to_string(),
        },
    }
}

const TAIL: &str = "    ]\n\n        [inputs.modbus.metric.tags]\n        manufacturer = \"SolarEdge\"\n        model = \"SE10K\"\n        options = \"\"\n        sn = \"123\"\n\n\n\n";

#[test]
fn type_idents() {
    assert_eq!(type_ident(PointType::Int16), "INT16");
    assert_eq!(type_ident(PointType::Sunssf), "INT16");
    assert_eq!(type_ident(PointType::Int32), "INT32");
    assert_eq!(type_ident(PointType::Int64), "INT64");
    assert_eq!(type_ident(PointType::Enum16), "UINT16");
    assert_eq!(type_ident(PointType::Count), "UINT16");
    assert_eq!(type_ident(PointType::Pad), "UINT16");
    assert_eq!(type_ident(PointType::Acc32), "UINT32");
    assert_eq!(type_ident(PointType::Bitfield64), "UINT64");
    assert_eq!(type_ident(PointType::Float32), "FLOAT32");
    assert_eq!(type_ident(PointType::Float64), "FLOAT64");
    assert_eq!(type_ident(PointType::String), "STRING");
}

#[test]
fn config_of_plain_fields() {
    let mut a = point("A", PointType::Uint16, 1);
    a.sf = Some(IntOrString::Int(-2));
    let mut st = point("St", PointType::String, 8);
    st.is_static = true;
    let b = block(103, Some("Inverter (Three Phase)"), vec![
        field(40071, a, State::Normal),
        field(40072, st, State::Normal),
    ]);
    let expected = "    [[inputs.modbus.metric]] # Sunspec module 103 Inverter (Three Phase)\n".to_string()
        + "    slave_id = 1\n"
        + "    byte_order = \"ABCD\"\n"
        + "    measurement = \"sunspec_103_inverter\"\n"
        + "    fields = [\n"
        + "        { address=40071, name=\"A\", type=\"UINT16\", scale=-2 },\n"
        + "        # { address=40072, name=\"St\", type=\"STRING\", length=8 }, \t# (static)\n"
        + TAIL;
    // the static string has no inline comment parts, so it closes with " },"
    let expected = expected.replace(" }, \t# (static)\n", " },\n");
    assert_eq!(config_text(&b), expected);
}

#[test]
fn config_comments_and_inline_notes() {
    let mut a = point("W", PointType::Int16, 1);
    a.sf = Some(IntOrString::String("W_SF".to_string()));
    a.units = Some("W".to_string());
    a.label = Some("Watts".to_string());
    a.desc = Some("AC Power".to_string());
    let mut sf = point("W_SF", PointType::Sunssf, 1);
    sf.is_static = true;
    let mut vr = point("Vr", PointType::String, 8);
    vr.is_static = true;
    let gone = point("Hz", PointType::Uint16, 1);
    let b = block(1, None, vec![
        field(1, a, State::Normal),
        field(2, sf, State::SFUsedByHasValue),
        field(3, vr, State::Normal),
        field(4, gone, State::ProbablyNotImplemented),
    ]);
    let expected = "    [[inputs.modbus.metric]] # Sunspec module 1\n".to_string()
        + "    slave_id = 1\n"
        + "    byte_order = \"ABCD\"\n"
        + "    measurement = \"sunspec_1_inverter\"\n"
        + "    fields = [\n"
        + "        { address=1, name=\"W\", type=\"INT16\" }, \t# Scale: 10^{W_SF}, Unit: W, Watts, AC Power,\n"
        + "        { address=2, name=\"W_SF\", type=\"INT16\" },\n"
        + "        { address=3, name=\"Vr\", type=\"STRING\", length=8 },\n"
        + "        # { address=4, name=\"Hz\", type=\"UINT16\" },\n"
        + TAIL;
    assert_eq!(config_text(&b), expected);
}

#[test]
fn config_enums_and_bitfields() {
    let mut e = point("St", PointType::Enum16, 1);
    e.desc = Some("Operating state".to_string());
    e.symbols = vec![
        symbol("OFF", SymbolValue::Number(JsonNumber::PosInt(1))),
        symbol("X", SymbolValue::Other),
        symbol("ON", SymbolValue::Number(JsonNumber::PosInt(2))),
    ];
    let mut bf = point("Evt", PointType::Bitfield32, 2);
    bf.symbols = vec![
        symbol("GROUND_FAULT", SymbolValue::Number(JsonNumber::PosInt(0))),
        symbol("DC_OVER_VOLT", SymbolValue::Number(JsonNumber::PosInt(1))),
    ];
    let plain = point("P", PointType::Uint16, 1);
    let b = block(103, None, vec![
        field(10, plain, State::Normal),
        field(11, e, State::Normal),
        field(12, bf, State::Normal),
        field(14, point("Q", PointType::Uint16, 1), State::Normal),
    ]);
    let expected = "    [[inputs.modbus.metric]] # Sunspec module 103\n".to_string()
        + "    slave_id = 1\n"
        + "    byte_order = \"ABCD\"\n"
        + "    measurement = \"sunspec_103_inverter\"\n"
        + "    fields = [\n"
        + "        { address=10, name=\"P\", type=\"UINT16\" },\n"
        + "\n"
        + "        # Enum Operating state: 1:OFF, 2:ON, \n"
        + "        { address=11, name=\"St\", type=\"UINT16\" }, \t# Operating state,\n"
        + "\n"
        + "        { address=12, name=\"Evt\", type=\"UINT32\" },\n"
        + "        # { address=12, name=\"Evt_GROUND_FAULT\", type=\"BIT\", bit=0 }\n"
        + "        # { address=12, name=\"Evt_DC_OVER_VOLT\", type=\"BIT\", bit=1 }\n"
        + "\n"
        + "        { address=14, name=\"Q\", type=\"UINT16\" },\n"
        + TAIL;
    assert_eq!(config_text(&b), expected);
}

#[test]
fn config_first_field_gets_no_empty_line() {
    let mut e = point("St", PointType::Enum32, 2);
    e.symbols = vec![symbol("NEG", SymbolValue::Number(JsonNumber::NegInt(-3)))];
    let b = block(5, None, vec![field(7, e, State::Normal)]);
    let out = config_text(&b);
    assert!(out.contains("    fields = [\n        # Enum St: -3:NEG, \n        { address=7, name=\"St\", type=\"UINT32\" },\n    ]"));
}

#[test]
fn config_comments_follow_state() {
    // Law: a dynamic field with a value is enabled; a not implemented one is commented out.
    let b = block(103, None, vec![
        field(1, point("A", PointType::Uint16, 1), State::Normal),
        field(2, point("B", PointType::Uint16, 1), State::ProbablyNotImplemented),
    ]);
    let out = config_text(&b);
    assert!(out.contains("\n        { address=1,"));
    assert!(out.contains("\n        # { address=2,"));
}
