use pv_monitoring::deviceinfo::DeviceInfo;
use pv_monitoring::model::{Group, GroupType, IntOrString, Module, Point, PointType};
use pv_monitoring::sunspec::{
    process_block, url, CollectError, DiscoveredDevice, Note, State,
};
use pv_monitoring::walk::{Action, Collector, Event, Phase};

fn point(name: &str, typ: PointType, size: u16) -> Point {
    Point {
        name: name.to_string(),
        typ,
        value: None,
        count: None,
        size,
        sf: None,
        units: None,
        writable: false,
        mandatory: true,
        is_static: false,
        label: None,
        desc: None,
        detail: None,
        notes: None,
        comments: vec![],
        symbols: vec![],
        standards: vec![],
    }
}

fn group(name: &str, points: Vec<Point>) -> Group {
    Group {
        name: name.to_string(),
        typ: GroupType::Group,
        count: IntOrString::Int(1),
        label: None,
        desc: None,
        detail: None,
        notes: None,
        comments: vec![],
        points,
        groups: vec![],
    }
}

fn module(id: u16, mut points: Vec<Point>) -> Module {
    let mut id_point = point("ID", PointType::Uint16, 1);
    id_point.value = Some(IntOrString::Int(id as i32));
    let mut all = vec![id_point, point("L", PointType::Uint16, 1)];
    all.append(&mut points);
    Module { id: id as usize, group: group(&format!("model_{}", id), all) }
}

fn common_model() -> Module {
    let mut pts = vec![
        point("Mn", PointType::String, 2),
        point("Md", PointType::String, 2),
        point("Opt", PointType::String, 1),
        point("Vr", PointType::String, 1),
        point("SN", PointType::String, 2),
        point("DA", PointType::Uint16, 1),
        point("Pad", PointType::Pad, 1),
    ];
    for p in pts.iter_mut() {
        p.is_static = true;
    }
    module(1, pts)
}

fn info() -> DeviceInfo {
    DeviceInfo {
        manufacturer: String::new(),
        model: String::new(),
        options: String::new(),
        sn: String::new(),
    }
}

#[test]
fn url_names_the_model_file() {
    assert_eq!(
        url(103),
        "https://github.com/sunspec/models/raw/refs/heads/master/json/model_103.json"
    );
    assert_eq!(url(0), "https://github.com/sunspec/models/raw/refs/heads/master/json/model_0.json");
}

#[test]
fn process_block_records_present_points() {
    let def = module(
        7,
        vec![
            point("Mn", PointType::String, 2),
            point("DA", PointType::Uint16, 1),
            point("Pad", PointType::Pad, 1),
            point("X", PointType::Uint64, 4),
        ],
    );
    let values = vec![0x4142, 0x4300, 5];
    let scan = process_block(&def, 7, 40002, &values, 1, &info()).unwrap();
    assert_eq!(scan.block.device_id, 1);
    assert_eq!(scan.block.module_id, 7);
    assert_eq!(scan.block.group.name, "model_7");
    assert_eq!(scan.block.group.points.len(), 6);
    assert_eq!(scan.block.fields.len(), 2);
    assert_eq!(scan.block.fields[0].addr, 40004);
    assert_eq!(scan.block.fields[0].point.name, "Mn");
    assert_eq!(scan.block.fields[0].value, vec![0x4142, 0x4300]);
    assert_eq!(scan.block.fields[1].addr, 40006);
    assert_eq!(scan.block.fields[1].value, vec![5]);
    assert_eq!(scan.devices, vec![DiscoveredDevice { device_id: 5, in_module: 7 }]);
    assert_eq!(scan.notes.len(), 4);
    assert!(matches!(scan.notes[0], Note::Field(0)));
    assert!(matches!(scan.notes[1], Note::Field(1)));
    assert!(matches!(&scan.notes[2], Note::Missing { name, typ: PointType::Pad } if name == "Pad"));
    assert!(matches!(&scan.notes[3], Note::Missing { name, typ: PointType::Uint64 } if name == "X"));
}

#[test]
fn process_block_skips_missing_point_but_keeps_offset() {
    // A point that does not fit is skipped; a later smaller one still starts at the same offset.
    let def = module(
        9,
        vec![point("Big", PointType::Uint32, 2), point("Small", PointType::Uint16, 1)],
    );
    let values = vec![0x0102];
    let scan = process_block(&def, 9, 100, &values, 3, &info()).unwrap();
    assert_eq!(scan.block.fields.len(), 1);
    assert_eq!(scan.block.fields[0].point.name, "Small");
    assert_eq!(scan.block.fields[0].addr, 102);
    assert_eq!(scan.block.fields[0].value, vec![0x0102]);
}

#[test]
fn fields_in_register_order() {
    // Law: fields follow each other without overlapping.
    let def = module(
        11,
        vec![
            point("A", PointType::Uint16, 1),
            point("B", PointType::Uint32, 2),
            point("C", PointType::Int64, 4),
        ],
    );
    let values = vec![1, 2, 3, 4, 5, 6, 7];
    let scan = process_block(&def, 11, 0, &values, 1, &info()).unwrap();
    let f = &scan.block.fields;
    assert_eq!(f.len(), 3);
    for j in 1..f.len() {
        assert!(f[j - 1].addr as usize + f[j - 1].value.len() <= f[j].addr as usize);
    }
    assert_eq!(f[2].addr as usize + f[2].value.len(), 2 + values.len());
}

#[test]
fn process_block_errors() {
    let good = module(1, vec![point("DA", PointType::Uint16, 1)]);
    assert_eq!(process_block(&good, 2, 0, &vec![1], 1, &info()).err(), Some(CollectError::BadDefinition));
    let mut short = good_clone_free(1);
    short.group.points.truncate(1);
    assert_eq!(process_block(&short, 1, 0, &vec![1], 1, &info()).err(), Some(CollectError::BadDefinition));
    let mut wide_id = good_clone_free(1);
    wide_id.group.points[0].size = 2;
    assert_eq!(process_block(&wide_id, 1, 0, &vec![1], 1, &info()).err(), Some(CollectError::BadDefinition));
    assert_eq!(process_block(&good, 1, 0xFFFE, &vec![1], 1, &info()).err(), Some(CollectError::AddressOverflow));
    let no_reg = module(1, vec![point("DA", PointType::Uint16, 0)]);
    assert_eq!(process_block(&no_reg, 1, 0, &vec![1], 1, &info()).err(), Some(CollectError::MissingRegister));
}

fn good_clone_free(id: u16) -> Module {
    module(id, vec![point("DA", PointType::Uint16, 1)])
}

#[test]
fn field_states() {
    let mut current = point("A", PointType::Int16, 1);
    current.sf = Some(IntOrString::String("A_SF".to_string()));
    let mut sf = point("A_SF", PointType::Sunssf, 1);
    sf.is_static = true;
    let unused_sf = point("V_SF", PointType::Sunssf, 1);
    let absent = point("W", PointType::Uint16, 1);
    let def = module(101, vec![current, sf, unused_sf, absent]);
    let values = vec![0x0010, 0xFFFE, 0x0001, 0xFFFF];
    let scan = process_block(&def, 101, 0, &values, 1, &info()).unwrap();
    let f = &scan.block.fields;
    assert_eq!(f[0].state, State::Normal);
    assert_eq!(f[1].state, State::SFUsedByHasValue);
    assert_eq!(f[2].state, State::Normal);
    assert_eq!(f[3].state, State::ProbablyNotImplemented);
}

#[test]
fn scale_factor_of_unimplemented_value_is_not_used() {
    let mut current = point("A", PointType::Int16, 1);
    current.sf = Some(IntOrString::String("A_SF".to_string()));
    let sf = point("A_SF", PointType::Sunssf, 1);
    let def = module(101, vec![current, sf]);
    let scan = process_block(&def, 101, 0, &vec![0x8000, 0xFFFE], 1, &info()).unwrap();
    assert_eq!(scan.block.fields[0].state, State::ProbablyNotImplemented);
    assert_eq!(scan.block.fields[1].state, State::Normal);
}

fn regs(v: &[u16]) -> Event {
    Event::Registers(v.to_vec())
}

fn mod1_values() -> Vec<u16> {
    // Mn "SE", Md "AB", Opt "", Vr "1", SN "42", DA 1 (no Pad: 9 registers)
    vec![0x5345, 0x0000, 0x4142, 0x0000, 0x0000, 0x3100, 0x3432, 0x0000, 0x0001]
}

#[test]
fn walk_over_two_blocks() {
    let (mut c, a) = Collector::new(1, 40000);
    assert!(matches!(a, Action::Read { addr: 40000, count: 2 }));
    let (a, notes) = c.step(regs(&[0x5375, 0x6e53]));
    assert!(matches!(a, Action::Read { addr: 40002, count: 2 }));
    assert!(notes.is_empty());
    let (a, notes) = c.step(regs(&[1, 9]));
    assert!(matches!(a, Action::Fetch { module_id: 1 }));
    assert!(matches!(notes[0], Note::Block { addr: 40002, module_id: 1, len: 9 }));
    let (a, _) = c.step(Event::Definition(common_model()));
    assert!(matches!(a, Action::Read { addr: 40004, count: 9 }));
    let (a, notes) = c.step(regs(&mod1_values()));
    assert!(matches!(a, Action::Read { addr: 40013, count: 2 }));
    assert_eq!(notes.len(), 7);
    assert!(matches!(&notes[6], Note::Missing { name, .. } if name == "Pad"));
    assert_eq!(c.blocks.len(), 1);
    assert_eq!(c.blocks[0].device_info.manufacturer, "SE");
    assert_eq!(c.blocks[0].device_info.model, "AB");
    assert_eq!(c.blocks[0].device_info.options, "");
    assert_eq!(c.blocks[0].device_info.sn, "42");
    // the same module again: its definition is cached, no fetch
    let (a, notes) = c.step(regs(&[1, 9]));
    assert!(matches!(a, Action::Read { addr: 40015, count: 9 }));
    assert_eq!(notes.len(), 1);
    let (a, _) = c.step(regs(&mod1_values()));
    assert!(matches!(a, Action::Read { addr: 40024, count: 2 }));
    let (a, notes) = c.step(regs(&[0xffff, 0]));
    assert!(notes.is_empty());
    match a {
        Action::Finished(out) => {
            assert_eq!(out.len, 40024 + 1 - 40000);
            assert_eq!(out.blocks.len(), 2);
            assert_eq!(
                out.devices,
                vec![
                    DiscoveredDevice { device_id: 1, in_module: 1 },
                    DiscoveredDevice { device_id: 1, in_module: 1 }
                ]
            );
            assert_eq!(out.blocks[1].device_info.sn, "42");
        },
        other => panic!("unexpected {:?}", other),
    }
    assert!(matches!(c.phase, Phase::Finished));
}

#[test]
fn walk_reads_values_in_chunks_of_100() {
    let (mut c, _) = Collector::new(1, 0);
    c.step(regs(&[0x5375, 0x6e53]));
    c.step(regs(&[50, 150]));
    let (a, _) = c.step(Event::Definition(module(50, vec![point("A", PointType::Uint16, 150)])));
    assert!(matches!(a, Action::Read { addr: 4, count: 100 }));
    let (a, _) = c.step(regs(&vec![7u16; 100]));
    assert!(matches!(a, Action::Read { addr: 104, count: 100 }));
    let (a, notes) = c.step(regs(&vec![7u16; 100]));
    assert!(matches!(a, Action::Read { addr: 154, count: 2 }));
    assert_eq!(notes.len(), 1);
    assert_eq!(c.blocks[0].fields[0].value.len(), 150);
}

#[test]
fn walk_with_empty_block() {
    let (mut c, _) = Collector::new(1, 0);
    c.step(regs(&[0x5375, 0x6e53]));
    c.step(regs(&[64, 0]));
    let (a, _) = c.step(Event::Definition(module(64, vec![])));
    assert!(matches!(a, Action::Read { addr: 4, count: 2 }));
    assert_eq!(c.blocks.len(), 1);
}

#[test]
fn walk_errors() {
    let (mut c, _) = Collector::new(1, 40000);
    let (a, _) = c.step(regs(&[0x5375, 0x6e54]));
    assert!(matches!(a, Action::Failed(CollectError::BadMagic)));
    let (a, _) = c.step(regs(&[0x5375, 0x6e53]));
    assert!(matches!(a, Action::Failed(CollectError::OutOfOrder)));

    let (mut c, _) = Collector::new(1, 40000);
    let (a, _) = c.step(Event::Definition(common_model()));
    assert!(matches!(a, Action::Failed(CollectError::OutOfOrder)));

    let (mut c, _) = Collector::new(1, 40000);
    c.step(regs(&[0x5375, 0x6e53]));
    let (a, _) = c.step(regs(&[1]));
    assert!(matches!(a, Action::Failed(CollectError::ShortRead)));

    let (mut c, _) = Collector::new(1, 0xFFFE);
    let (a, _) = c.step(regs(&[0x5375, 0x6e53]));
    assert!(matches!(a, Action::Failed(CollectError::AddressOverflow)));

    let (mut c, _) = Collector::new(1, 0);
    c.step(regs(&[0x5375, 0x6e53]));
    c.step(regs(&[2, 1]));
    let (a, _) = c.step(Event::Definition(common_model()));
    assert!(matches!(a, Action::Read { .. }));
    let (a, _) = c.step(regs(&[0]));
    assert!(matches!(a, Action::Failed(CollectError::BadDefinition)));
}
