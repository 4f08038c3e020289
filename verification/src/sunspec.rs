//! Discovery of the Sunspec blocks of a device: the decisions of the register walk.
use vstd::prelude::*;
use crate::deviceinfo::DeviceInfo;
use crate::model::{IntOrString, Module, Point, PointType};
use crate::text::{decimal, push_decimal, push_str, str_equal};

verus! {

/// A device address ("DA" point) found while walking the blocks.
#[derive(Debug, Clone, Copy, PartialEq, Eq, Structural)]
pub struct DiscoveredDevice {
    pub device_id: u16,
    pub in_module: u16,
}

/// What the register values of a field say about its use.
#[derive(Debug, Clone, Copy, PartialEq, Eq, Structural)]
pub enum State {
    /// The registers hold a value.
    Normal,
    /// The registers hold the Sunspec marker for "not implemented".
    ProbablyNotImplemented,
    /// A scale factor that a field holding a value refers to.
    SFUsedByHasValue,
}

/// A point of a block with the register address and the register values read for it.
#[derive(Debug)]
pub struct Field {
    pub addr: u16,
    pub point: Point,
    pub value: Vec<u16>,
    pub state: State,
}

/// One Sunspec block (model instance) of a device.
#[derive(Debug)]
pub struct Block {
    pub device_id: u8,
    pub module_id: usize,
    pub group: crate::model::Group,
    pub fields: Vec<Field>,
    pub device_info: DeviceInfo,
}

/// All that the walk over a device's blocks found.
#[derive(Debug)]
pub struct Output {
    pub devices: Vec<DiscoveredDevice>,
    pub blocks: Vec<Block>,
    pub len: u16,
}

/// Why the walk over the blocks stopped.
#[derive(Debug, Clone, Copy, PartialEq, Eq, Structural)]
pub enum CollectError {
    /// The first two registers do not spell "SunS".
    BadMagic,
    /// A read gave back fewer registers than a header needs.
    ShortRead,
    /// A model definition does not start with the ID and L points of its model.
    BadDefinition,
    /// A register address or offset does not fit in 16 bits.
    AddressOverflow,
    /// A device address point has no register.
    MissingRegister,
    /// An event came that the walk did not ask for, or came after its end.
    OutOfOrder,
}

/// A line of the walk's log: a block header (its address, module id and length), a point
/// without registers, or a recorded field (its index among the block's fields).
#[derive(Debug)]
pub enum Note {
    Block { addr: u16, module_id: u16, len: u16 },
    Missing { name: String, typ: PointType },
    Field(usize),
}

/// A processed block, the devices it names, and its log.
#[derive(Debug)]
pub struct BlockScan {
    pub block: Block,
    pub devices: Vec<DiscoveredDevice>,
    pub notes: Vec<Note>,
}

/// The number of registers that the walk compares against: the value count as a 16-bit number.
pub open spec fn register_limit(n: nat) -> int {
    (n % 65536) as int
}

/// Whether a point is the device address of a block.
pub open spec fn is_device_address(p: Point) -> bool {
    p.typ == PointType::Uint16 && p.name@ == "DA"@
}

/// The register offset of point `k` within the block's values, or the error met
/// while walking the points before it. The walk starts after the ID and L points;
/// a point whose registers reach past the values is skipped.
pub open spec fn scan_offset(ps: Seq<Point>, n: nat, haddr: u16, k: int) -> Result<int, CollectError>
    decreases k,
{
    if k <= 2 {
        Ok(0)
    } else {
        match scan_offset(ps, n, haddr, k - 1) {
            Err(e) => Err(e),
            Ok(a) => {
                let p = ps[k - 1];
                if a + p.size > 0xFFFF {
                    Err(CollectError::AddressOverflow)
                } else if a + p.size > register_limit(n) {
                    Ok(a)
                } else if haddr + 2 + a > 0xFFFF {
                    Err(CollectError::AddressOverflow)
                } else if is_device_address(p) && p.size == 0 {
                    Err(CollectError::MissingRegister)
                } else {
                    Ok(a + p.size)
                }
            },
        }
    }
}

/// The offset of point `k` (when the walk reaches it without error).
pub open spec fn point_offset(ps: Seq<Point>, n: nat, haddr: u16, k: int) -> int {
    scan_offset(ps, n, haddr, k)->Ok_0
}

/// Whether the values hold all registers of point `k`.
pub open spec fn point_present(ps: Seq<Point>, n: nat, haddr: u16, k: int) -> bool {
    point_offset(ps, n, haddr, k) + ps[k].size <= register_limit(n)
}

/// Whether point `k` becomes a field of the block: present and no padding.
pub open spec fn point_recorded(ps: Seq<Point>, n: nat, haddr: u16, k: int) -> bool {
    point_present(ps, n, haddr, k) && ps[k].typ != PointType::Pad
}

/// The indices of the points before `k` that become fields, in order.
pub open spec fn recorded_points(ps: Seq<Point>, n: nat, haddr: u16, k: int) -> Seq<int>
    decreases k,
{
    if k <= 2 {
        Seq::empty()
    } else {
        let prev = recorded_points(ps, n, haddr, k - 1);
        if point_recorded(ps, n, haddr, k - 1) {
            prev.push(k - 1)
        } else {
            prev
        }
    }
}

/// The device addresses that the points before `k` give.
pub open spec fn devices_before(ps: Seq<Point>, vals: Seq<u16>, haddr: u16, module_id: u16, k: int) -> Seq<DiscoveredDevice>
    decreases k,
{
    if k <= 2 {
        Seq::empty()
    } else {
        let prev = devices_before(ps, vals, haddr, module_id, k - 1);
        if point_present(ps, vals.len(), haddr, k - 1) && is_device_address(ps[k - 1]) {
            prev.push(DiscoveredDevice {
                device_id: vals[point_offset(ps, vals.len(), haddr, k - 1)],
                in_module: module_id,
            })
        } else {
            prev
        }
    }
}

/// The log of the points before `k`: skipped points by name and type, recorded ones by field index.
pub open spec fn notes_before(ps: Seq<Point>, n: nat, haddr: u16, k: int) -> Seq<Note>
    decreases k,
{
    if k <= 2 {
        Seq::empty()
    } else {
        let prev = notes_before(ps, n, haddr, k - 1);
        if !point_present(ps, n, haddr, k - 1) {
            prev.push(Note::Missing { name: ps[k - 1].name, typ: ps[k - 1].typ })
        } else if ps[k - 1].typ != PointType::Pad {
            prev.push(Note::Field(recorded_points(ps, n, haddr, k - 1).len() as usize))
        } else {
            prev
        }
    }
}

/// A definition fits module `module_id` when it starts with the one-register ID point,
/// whose value is the module id, and the one-register L point.
pub open spec fn definition_fits(def: Module, module_id: u16) -> bool {
    let ps = def.group.points@;
    &&& ps.len() >= 2
    &&& ps[0].size == 1
    &&& ps[1].size == 1
    &&& ps[0].value == Some(IntOrString::Int(module_id as i32))
}

/// Whether all registers hold `x`.
pub open spec fn all_registers(vals: Seq<u16>, x: u16) -> bool {
    forall|i: int| 0 <= i < vals.len() ==> vals[i] == x
}

/// Whether registers hold the Sunspec marker for "not implemented" of their point type:
/// 0x8000 then zeros for signed values and scale factors, all ones for unsigned values,
/// enumerations and bitfields, all zeros for accumulators and strings.
pub open spec fn not_implemented(typ: PointType, vals: Seq<u16>) -> bool {
    vals.len() > 0 && match typ {
        PointType::Int16 | PointType::Int32 | PointType::Int64 | PointType::Sunssf => vals[0] == 0x8000
            && all_registers(vals.drop_first(), 0),
        PointType::Uint16 | PointType::Uint32 | PointType::Uint64 | PointType::Enum16
        | PointType::Enum32 | PointType::Bitfield16 | PointType::Bitfield32
        | PointType::Bitfield64 => all_registers(vals, 0xFFFF),
        PointType::Acc16 | PointType::Acc32 | PointType::Acc64 | PointType::String => all_registers(vals, 0),
        _ => false,
    }
}

/// Whether a field holds a value (no "not implemented" marker).
pub open spec fn has_value(f: Field) -> bool {
    !not_implemented(f.point.typ, f.value@)
}

/// Whether some field holding a value names `name` as its scale factor.
pub open spec fn scale_factor_used(fs: Seq<Field>, name: Seq<char>) -> bool {
    exists|i: int|
        0 <= i < fs.len() && has_value(#[trigger] fs[i]) && (fs[i].point.sf matches Some(
            IntOrString::String(s),
        ) && s@ == name)
}

/// The state of field `j` among the fields of its block.
pub open spec fn field_state(fs: Seq<Field>, j: int) -> State {
    if !has_value(fs[j]) {
        State::ProbablyNotImplemented
    } else if fs[j].point.typ == PointType::Sunssf && scale_factor_used(fs, fs[j].point.name@) {
        State::SFUsedByHasValue
    } else {
        State::Normal
    }
}


/// Field `f` is point `k` of the block, read at its offset.
pub open spec fn field_of_point(f: Field, ps: Seq<Point>, vals: Seq<u16>, haddr: u16, k: int) -> bool {
    let a = point_offset(ps, vals.len(), haddr, k);
    &&& f.addr == haddr + 2 + a
    &&& f.point.model() == ps[k].model()
    &&& f.value@ == vals.subrange(a, a + ps[k].size)
}

proof fn lemma_scan_error_sticks(ps: Seq<Point>, n: nat, haddr: u16, k: int, k2: int)
    requires
        k <= k2,
        scan_offset(ps, n, haddr, k) is Err,
    ensures
        scan_offset(ps, n, haddr, k2) == scan_offset(ps, n, haddr, k),
    decreases k2 - k,
{
    if k < k2 {
        lemma_scan_error_sticks(ps, n, haddr, k, k2 - 1);
        if k2 - 1 < 2 {
            assert(scan_offset(ps, n, haddr, k) == Ok::<int, CollectError>(0));
        }
    }
}

proof fn lemma_offset_bound(ps: Seq<Point>, n: nat, haddr: u16, k: int)
    requires
        scan_offset(ps, n, haddr, k) is Ok,
    ensures
        0 <= point_offset(ps, n, haddr, k) <= register_limit(n),
    decreases k,
{
    if k > 2 {
        lemma_offset_bound(ps, n, haddr, k - 1);
    }
}

/// Whether a point is the device address of a block.
pub fn is_device_address_point(p: &Point) -> (r: bool)
    ensures
        r == is_device_address(*p),
{
    p.typ == PointType::Uint16 && str_equal(p.name.as_str(), "DA")
}

fn registers_all(vals: &[u16], from: usize, x: u16) -> (r: bool)
    requires
        from <= vals.len(),
    ensures
        r == all_registers(vals@.subrange(from as int, vals@.len() as int), x),
{
    let mut i: usize = from;
    while i < vals.len()
        invariant
            from <= i <= vals.len(),
            forall|j: int| from <= j < i ==> vals@[j] == x,
        decreases vals.len() - i,
    {
        if vals[i] != x {
            assert(vals@.subrange(from as int, vals@.len() as int)[i - from] != x);
            return false;
        }
        i = i + 1;
    }
    assert forall|j: int| 0 <= j < vals@.len() - from implies vals@.subrange(from as int, vals@.len() as int)[j] == x by {
        assert(vals@[from + j] == x);
    }
    true
}

/// Whether registers hold the "not implemented" marker of their point type.
pub fn is_not_implemented(typ: PointType, vals: &[u16]) -> (r: bool)
    ensures
        r == not_implemented(typ, vals@),
{
    if vals.len() == 0 {
        return false;
    }
    assert(vals@.subrange(0, vals@.len() as int) =~= vals@);
    assert(vals@.subrange(1, vals@.len() as int) =~= vals@.drop_first());
    match typ {
        PointType::Int16 | PointType::Int32 | PointType::Int64 | PointType::Sunssf => {
            vals[0] == 0x8000 && registers_all(vals, 1, 0)
        },
        PointType::Uint16 | PointType::Uint32 | PointType::Uint64 | PointType::Enum16
        | PointType::Enum32 | PointType::Bitfield16 | PointType::Bitfield32
        | PointType::Bitfield64 => registers_all(vals, 0, 0xFFFF),
        PointType::Acc16 | PointType::Acc32 | PointType::Acc64 | PointType::String => {
            registers_all(vals, 0, 0)
        },
        _ => false,
    }
}

/// A copy of `v[from..to]`.
pub fn copy_range(v: &Vec<u16>, from: usize, to: usize) -> (r: Vec<u16>)
    requires
        from <= to <= v.len(),
    ensures
        r@ == v@.subrange(from as int, to as int),
{
    let mut r: Vec<u16> = Vec::new();
    let mut i: usize = from;
    while i < to
        invariant
            from <= i <= to <= v.len(),
            r@ == v@.subrange(from as int, i as int),
        decreases to - i,
    {
        r.push(v[i]);
        i = i + 1;
        assert(r@ =~= v@.subrange(from as int, i as int));
    }
    r
}

/// Gives each field its state among the fields of the block.
pub fn assign_states(fields: Vec<Field>) -> (r: Vec<Field>)
    ensures
        r@.len() == fields@.len(),
        forall|j: int| 0 <= j < r@.len() ==> {
            &&& (#[trigger] r@[j]).addr == fields@[j].addr
            &&& r@[j].point == fields@[j].point
            &&& r@[j].value == fields@[j].value
            &&& r@[j].state == field_state(fields@, j)
            &&& r@[j].state == field_state(r@, j)
        },
{
    let n = fields.len();
    let mut valued: Vec<bool> = Vec::new();
    let mut i: usize = 0;
    while i < n
        invariant
            n == fields@.len(),
            i <= n,
            valued@.len() == i,
            forall|j: int| 0 <= j < i ==> valued@[j] == has_value(#[trigger] fields@[j]),
        decreases n - i,
    {
        let v = !is_not_implemented(fields[i].point.typ, fields[i].value.as_slice());
        valued.push(v);
        i = i + 1;
    }
    let mut states: Vec<State> = Vec::new();
    let mut j: usize = 0;
    while j < n
        invariant
            n == fields@.len(),
            valued@.len() == n,
            forall|x: int| 0 <= x < n ==> valued@[x] == has_value(#[trigger] fields@[x]),
            j <= n,
            states@.len() == j,
            forall|x: int| 0 <= x < j ==> states@[x] == field_state(fields@, x),
        decreases n - j,
    {
        let st = if !valued[j] {
            State::ProbablyNotImplemented
        } else if fields[j].point.typ == PointType::Sunssf {
            let mut used = false;
            let mut i2: usize = 0;
            let ghost mut witness: int = 0;
            while i2 < n && !used
                invariant
                    n == fields@.len(),
                    valued@.len() == n,
                    forall|x: int| 0 <= x < n ==> valued@[x] == has_value(#[trigger] fields@[x]),
                    j < n,
                    i2 <= n,
                    used ==> 0 <= witness < n && has_value(fields@[witness]) && (fields@[witness].point.sf matches Some(
                            IntOrString::String(s),
                        ) && s@ == fields@[j as int].point.name@),
                    !used ==> forall|x: int|
                        0 <= x < i2 ==> !(has_value(#[trigger] fields@[x]) && (fields@[x].point.sf matches Some(
                            IntOrString::String(s),
                        ) && s@ == fields@[j as int].point.name@)),
                decreases n - i2,
            {
                if valued[i2] {
                    if let Some(IntOrString::String(s)) = &fields[i2].point.sf {
                        if *s == fields[j].point.name {
                            used = true;
                            proof { witness = i2 as int; }
                        }
                    }
                }
                i2 = i2 + 1;
            }
            proof {
                if used {
                    assert(scale_factor_used(fields@, fields@[j as int].point.name@));
                }
            }
            if used {
                State::SFUsedByHasValue
            } else {
                State::Normal
            }
        } else {
            State::Normal
        };
        states.push(st);
        j = j + 1;
    }
    let ghost orig = fields@;
    let mut fields = fields;
    let mut reversed: Vec<Field> = Vec::new();
    while fields.len() > 0
        invariant
            fields@.len() + reversed@.len() == n,
            orig.len() == n,
            forall|x: int| 0 <= x < fields@.len() ==> #[trigger] fields@[x] == orig[x],
            forall|x: int| 0 <= x < reversed@.len() ==> #[trigger] reversed@[x] == orig[n - 1 - x],
        decreases fields@.len(),
    {
        let f = fields.pop().unwrap();
        reversed.push(f);
    }
    let mut out: Vec<Field> = Vec::new();
    while reversed.len() > 0
        invariant
            reversed@.len() + out@.len() == n,
            orig.len() == n,
            states@.len() == n,
            forall|x: int| 0 <= x < n ==> states@[x] == field_state(orig, x),
            forall|x: int| 0 <= x < reversed@.len() ==> #[trigger] reversed@[x] == orig[n - 1 - x],
            forall|x: int| 0 <= x < out@.len() ==> {
                &&& (#[trigger] out@[x]).addr == orig[x].addr
                &&& out@[x].point == orig[x].point
                &&& out@[x].value == orig[x].value
                &&& out@[x].state == field_state(orig, x)
            },
        decreases reversed@.len(),
    {
        let f = reversed.pop().unwrap();
        let k = out.len();
        out.push(Field { addr: f.addr, point: f.point, value: f.value, state: states[k] });
    }
    proof {
        lemma_same_states(orig, out@);
    }
    out
}

proof fn lemma_same_states(a: Seq<Field>, b: Seq<Field>)
    requires
        a.len() == b.len(),
        forall|j: int| 0 <= j < a.len() ==> (#[trigger] a[j]).point == b[j].point && a[j].value == b[j].value,
    ensures
        forall|j: int| 0 <= j < a.len() ==> field_state(a, j) == field_state(b, j),
{
    assert forall|j: int| 0 <= j < a.len() implies field_state(a, j) == field_state(b, j) by {
        let name = a[j].point.name@;
        assert(a[j].point == b[j].point);
        if scale_factor_used(a, name) {
            let i = choose|i: int|
                0 <= i < a.len() && has_value(#[trigger] a[i]) && (a[i].point.sf matches Some(
                    IntOrString::String(s),
                ) && s@ == name);
            assert(a[i].point == b[i].point && a[i].value == b[i].value);
            assert(has_value(b[i]));
        }
        if scale_factor_used(b, name) {
            let i = choose|i: int|
                0 <= i < b.len() && has_value(#[trigger] b[i]) && (b[i].point.sf matches Some(
                    IntOrString::String(s),
                ) && s@ == name);
            assert(a[i].point == b[i].point && a[i].value == b[i].value);
            assert(has_value(a[i]));
        }
    }
}

proof fn lemma_walk_ok_at(ps: Seq<Point>, n: nat, haddr: u16, k: int, kend: int)
    requires
        2 <= k < kend,
        scan_offset(ps, n, haddr, kend) is Ok,
        scan_offset(ps, n, haddr, k) is Ok,
        point_present(ps, n, haddr, k),
    ensures
        haddr + 2 + point_offset(ps, n, haddr, k) <= 0xFFFF,
        point_offset(ps, n, haddr, k) + ps[k].size <= register_limit(n),
        register_limit(n) <= n,
{
    if scan_offset(ps, n, haddr, k + 1) is Err {
        lemma_scan_error_sticks(ps, n, haddr, k + 1, kend);
    }
}


/// Block `b` is what definition `def` makes of the values read at `haddr + 2`:
/// the device and module ids, a copy of the group, and one field per recorded point,
/// each with its state among the block's fields.
pub open spec fn block_of(b: Block, def: Module, haddr: u16, vals: Seq<u16>, device_id: u8) -> bool {
    let ps = def.group.points@;
    let rec = recorded_points(ps, vals.len(), haddr, ps.len() as int);
    &&& b.device_id == device_id
    &&& b.module_id == def.id
    &&& b.group.model() == def.group.model()
    &&& b.fields@.len() == rec.len()
    &&& forall|j: int| 0 <= j < rec.len() ==> field_of_point(#[trigger] b.fields@[j], ps, vals, haddr, rec[j])
    &&& forall|j: int| 0 <= j < rec.len() ==> (#[trigger] b.fields@[j]).state == field_state(b.fields@, j)
}

/// Processes one block: checks the definition against the module id, walks its points
/// (after ID and L) over the values read at `haddr + 2`, and records the fields, the
/// device addresses and the log.
///
/// Fails with `BadDefinition` when the definition does not fit the module, and with the
/// error the point walk meets ([`scan_offset`]) otherwise.
pub fn process_block(
    def: &Module,
    module_id: u16,
    haddr: u16,
    values: &Vec<u16>,
    device_id: u8,
    info: &DeviceInfo,
) -> (r: Result<BlockScan, CollectError>)
    ensures
        !definition_fits(*def, module_id) ==> r == Err::<BlockScan, CollectError>(CollectError::BadDefinition),
        definition_fits(*def, module_id) ==> match scan_offset(def.group.points@, values@.len(), haddr, def.group.points@.len() as int) {
            Err(e) => r == Err::<BlockScan, CollectError>(e),
            Ok(_) => r is Ok,
        },
        r matches Ok(s) ==> {
            let ps = def.group.points@;
            &&& block_of(s.block, *def, haddr, values@, device_id)
            &&& s.block.device_info == *info
            &&& s.devices@ == devices_before(ps, values@, haddr, module_id, ps.len() as int)
            &&& s.notes@ == notes_before(ps, values@.len(), haddr, ps.len() as int)
        },
{
    let ps = &def.group.points;
    if ps.len() < 2 || ps[0].size != 1 || ps[1].size != 1 {
        return Err(CollectError::BadDefinition);
    }
    match &ps[0].value {
        Some(IntOrString::Int(v)) => {
            if *v != module_id as i32 {
                return Err(CollectError::BadDefinition);
            }
        },
        _ => {
            return Err(CollectError::BadDefinition);
        },
    }
    assert(definition_fits(*def, module_id));
    let ghost n = values@.len();
    let limit: u16 = (values.len() % 65536) as u16;
    let mut a: u16 = 0;
    let mut k: usize = 2;
    let mut pending: Vec<(usize, u16)> = Vec::new();
    let mut devices: Vec<DiscoveredDevice> = Vec::new();
    let mut notes: Vec<Note> = Vec::new();
    while k < ps.len()
        invariant
            2 <= k <= ps@.len(),
            ps == &def.group.points,
            definition_fits(*def, module_id),
            n == values@.len(),
            limit == register_limit(n),
            scan_offset(ps@, n, haddr, k as int) == Ok::<int, CollectError>(a as int),
            pending@.len() == recorded_points(ps@, n, haddr, k as int).len(),
            forall|j: int| 0 <= j < pending@.len() ==> {
                let rk = recorded_points(ps@, n, haddr, k as int)[j];
                &&& (#[trigger] pending@[j]).0 == rk
                &&& 2 <= rk < k
                &&& pending@[j].1 == point_offset(ps@, n, haddr, rk)
                &&& point_recorded(ps@, n, haddr, rk)
                &&& scan_offset(ps@, n, haddr, rk) is Ok
            },
            devices@ == devices_before(ps@, values@, haddr, module_id, k as int),
            notes@ == notes_before(ps@, n, haddr, k as int),
        decreases ps@.len() - k,
    {
        let p = &ps[k];
        let end: u32 = a as u32 + p.size as u32;
        proof {
            lemma_offset_bound(ps@, n, haddr, k as int);
        }
        if end > 0xFFFF {
            proof { lemma_scan_error_sticks(ps@, n, haddr, k + 1, ps@.len() as int); }
            return Err(CollectError::AddressOverflow);
        }
        if end > limit as u32 {
            notes.push(Note::Missing { name: p.name.clone(), typ: p.typ });
            proof {
                assert(!point_present(ps@, n, haddr, k as int));
                assert(recorded_points(ps@, n, haddr, k + 1) == recorded_points(ps@, n, haddr, k as int));
                assert(scan_offset(ps@, n, haddr, k + 1) == Ok::<int, CollectError>(a as int));
            }
            k = k + 1;
            proof {
                assert forall|j: int| 0 <= j < pending@.len() implies {
                    let rk = recorded_points(ps@, n, haddr, k as int)[j];
                    &&& (#[trigger] pending@[j]).0 == rk
                    &&& 2 <= rk < k
                    &&& pending@[j].1 == point_offset(ps@, n, haddr, rk)
                    &&& point_recorded(ps@, n, haddr, rk)
                    &&& scan_offset(ps@, n, haddr, rk) is Ok
                } by {}
            }
            continue;
        }
        if haddr as u32 + 2 + a as u32 > 0xFFFF {
            proof { lemma_scan_error_sticks(ps@, n, haddr, k + 1, ps@.len() as int); }
            return Err(CollectError::AddressOverflow);
        }
        let da = is_device_address_point(p);
        if da && p.size == 0 {
            proof { lemma_scan_error_sticks(ps@, n, haddr, k + 1, ps@.len() as int); }
            return Err(CollectError::MissingRegister);
        }
        if da {
            devices.push(DiscoveredDevice { device_id: values[a as usize], in_module: module_id });
        }
        let ghost prev_rec = recorded_points(ps@, n, haddr, k as int);
        if p.typ != PointType::Pad {
            notes.push(Note::Field(pending.len()));
            pending.push((k, a));
        }
        proof {
            assert(point_present(ps@, n, haddr, k as int));
            if p.typ != PointType::Pad {
                assert(recorded_points(ps@, n, haddr, k + 1) == prev_rec.push(k as int));
            } else {
                assert(recorded_points(ps@, n, haddr, k + 1) == prev_rec);
            }
            assert(scan_offset(ps@, n, haddr, k + 1) == Ok::<int, CollectError>(end as int));
        }
        a = end as u16;
        k = k + 1;
        proof {
            assert forall|j: int| 0 <= j < pending@.len() implies {
                let rk = recorded_points(ps@, n, haddr, k as int)[j];
                &&& (#[trigger] pending@[j]).0 == rk
                &&& 2 <= rk < k
                &&& pending@[j].1 == point_offset(ps@, n, haddr, rk)
                &&& point_recorded(ps@, n, haddr, rk)
                &&& scan_offset(ps@, n, haddr, rk) is Ok
            } by {
                if j < prev_rec.len() {
                    assert(recorded_points(ps@, n, haddr, k as int)[j] == prev_rec[j]);
                }
            }
        }
    }
    let ghost rec = recorded_points(ps@, n, haddr, ps@.len() as int);
    let mut fields: Vec<Field> = Vec::new();
    let mut j: usize = 0;
    while j < pending.len()
        invariant
            ps == &def.group.points,
            n == values@.len(),
            rec == recorded_points(ps@, n, haddr, ps@.len() as int),
            pending@.len() == rec.len(),
            forall|x: int| 0 <= x < pending@.len() ==> {
                let rk = rec[x];
                &&& (#[trigger] pending@[x]).0 == rk
                &&& 2 <= rk < ps@.len()
                &&& pending@[x].1 == point_offset(ps@, n, haddr, rk)
                &&& point_recorded(ps@, n, haddr, rk)
                &&& scan_offset(ps@, n, haddr, rk) is Ok
            },
            scan_offset(ps@, n, haddr, ps@.len() as int) is Ok,
            j <= pending@.len(),
            fields@.len() == j,
            forall|x: int| 0 <= x < j ==> field_of_point(#[trigger] fields@[x], ps@, values@, haddr, rec[x]),
        decreases pending@.len() - j,
    {
        let (pk, pa) = pending[j];
        let p = &ps[pk];
        proof {
            lemma_offset_bound(ps@, n, haddr, pk as int);
            lemma_walk_ok_at(ps@, n, haddr, pk as int, ps@.len() as int);
        }
        let end: usize = pa as usize + p.size as usize;
        let value = copy_range(values, pa as usize, end);
        let addr: u16 = (haddr as u32 + 2 + pa as u32) as u16;
        fields.push(Field { addr, point: p.copied(), value, state: State::Normal });
        j = j + 1;
    }
    let ghost before = fields@;
    let fields = assign_states(fields);
    proof {
        assert forall|x: int| 0 <= x < rec.len() implies field_of_point(#[trigger] fields@[x], ps@, values@, haddr, rec[x]) by {
            assert(field_of_point(before[x], ps@, values@, haddr, rec[x]));
        }
    }
    let block = Block {
        device_id,
        module_id: def.id,
        group: def.group.copied(),
        fields,
        device_info: info.copied(),
    };
    Ok(BlockScan { block, devices, notes })
}


/// Where the JSON definition of a Sunspec model is published.
pub open spec fn model_url(module: u16) -> Seq<char> {
    "https://github.com/sunspec/models/raw/refs/heads/master/json/model_"@ + decimal(module as nat)
        + ".json"@
}

/// The address of the JSON definition of a Sunspec model.
pub fn url(module: u16) -> (r: String)
    ensures
        r@ == model_url(module),
{
    let mut s = String::new();
    push_str(&mut s, "https://github.com/sunspec/models/raw/refs/heads/master/json/model_");
    push_decimal(&mut s, module as u64);
    push_str(&mut s, ".json");
    s
}


proof fn lemma_offset_monotone(ps: Seq<Point>, n: nat, haddr: u16, k: int, k2: int)
    requires
        2 <= k <= k2,
        scan_offset(ps, n, haddr, k2) is Ok,
    ensures
        scan_offset(ps, n, haddr, k) is Ok,
        point_offset(ps, n, haddr, k) <= point_offset(ps, n, haddr, k2),
        k < k2 && point_present(ps, n, haddr, k) ==> point_offset(ps, n, haddr, k) + ps[k].size
            <= point_offset(ps, n, haddr, k2),
    decreases k2 - k,
{
    if scan_offset(ps, n, haddr, k) is Err {
        lemma_scan_error_sticks(ps, n, haddr, k, k2);
    }
    if k < k2 {
        if scan_offset(ps, n, haddr, k2 - 1) is Err {
            lemma_scan_error_sticks(ps, n, haddr, k2 - 1, k2);
        }
        lemma_offset_monotone(ps, n, haddr, k, k2 - 1);
    }
}

proof fn lemma_recorded_points(ps: Seq<Point>, n: nat, haddr: u16, k: int)
    ensures
        forall|j: int| 0 <= j < recorded_points(ps, n, haddr, k).len() ==>
            2 <= #[trigger] recorded_points(ps, n, haddr, k)[j] < k
            && point_recorded(ps, n, haddr, recorded_points(ps, n, haddr, k)[j]),
        forall|j1: int, j2: int| 0 <= j1 < j2 < recorded_points(ps, n, haddr, k).len()
            ==> recorded_points(ps, n, haddr, k)[j1] < recorded_points(ps, n, haddr, k)[j2],
    decreases k,
{
    if k > 2 {
        lemma_recorded_points(ps, n, haddr, k - 1);
        let prev = recorded_points(ps, n, haddr, k - 1);
        let r = recorded_points(ps, n, haddr, k);
        if point_recorded(ps, n, haddr, k - 1) {
            assert(r == prev.push(k - 1));
            assert forall|j: int| 0 <= j < r.len() implies 2 <= #[trigger] r[j] < k
                && point_recorded(ps, n, haddr, r[j]) by {
                if j < prev.len() {
                    assert(r[j] == prev[j]);
                }
            }
            assert forall|j1: int, j2: int| 0 <= j1 < j2 < r.len() implies r[j1] < r[j2] by {
                assert(r[j1] == prev[j1]);
                if j2 < prev.len() {
                    assert(r[j2] == prev[j2]);
                }
            }
        } else {
            assert(r == prev);
        }
    }
}

/// The fields of a block lie in register order, each after the one before, without
/// overlapping, and all inside the block's values: every register is read for at most
/// one field.
pub proof fn lemma_fields_in_register_order(b: Block, def: Module, haddr: u16, vals: Seq<u16>, device_id: u8)
    requires
        block_of(b, def, haddr, vals, device_id),
        scan_offset(def.group.points@, vals.len(), haddr, def.group.points@.len() as int) is Ok,
    ensures
        forall|j1: int, j2: int|
            0 <= j1 < j2 < b.fields@.len() ==> #[trigger] b.fields@[j1].addr + b.fields@[j1].value@.len()
                <= #[trigger] b.fields@[j2].addr,
        forall|j: int|
            0 <= j < b.fields@.len() ==> haddr + 2 <= #[trigger] b.fields@[j].addr && b.fields@[j].addr
                + b.fields@[j].value@.len() <= haddr + 2 + vals.len(),
{
    let ps = def.group.points@;
    let n = vals.len();
    let kend = ps.len() as int;
    let rec = recorded_points(ps, n, haddr, kend);
    lemma_recorded_points(ps, n, haddr, kend);
    assert forall|j: int|
        0 <= j < b.fields@.len() implies haddr + 2 <= #[trigger] b.fields@[j].addr && b.fields@[j].addr
            + b.fields@[j].value@.len() <= haddr + 2 + vals.len() by {
        let k = rec[j];
        assert(field_of_point(b.fields@[j], ps, vals, haddr, k));
        lemma_offset_monotone(ps, n, haddr, k, kend);
        lemma_offset_bound(ps, n, haddr, k);
        lemma_walk_ok_at(ps, n, haddr, k, kend);
    }
    assert forall|j1: int, j2: int|
        0 <= j1 < j2 < b.fields@.len() implies #[trigger] b.fields@[j1].addr + b.fields@[j1].value@.len()
            <= #[trigger] b.fields@[j2].addr by {
        let k1 = rec[j1];
        let k2 = rec[j2];
        assert(field_of_point(b.fields@[j1], ps, vals, haddr, k1));
        assert(field_of_point(b.fields@[j2], ps, vals, haddr, k2));
        lemma_offset_monotone(ps, n, haddr, k2, kend);
        lemma_offset_monotone(ps, n, haddr, k1, k2);
        lemma_offset_bound(ps, n, haddr, k1);
        lemma_walk_ok_at(ps, n, haddr, k1, kend);
    }
}


/// The Sunspec "not implemented" values are recognised for every point type that has one:
/// all ones for unsigned values, enumerations and bitfields; 0x8000 then zeros for signed
/// values and scale factors; all zeros for accumulators and strings. A field holding that
/// value is `ProbablyNotImplemented`, a field holding any other value is not, and fields of
/// the other types never are.
pub proof fn lemma_not_implemented_markers(fs: Seq<Field>, j: int)
    requires
        0 <= j < fs.len(),
        fs[j].value@.len() > 0,
    ensures
        ({
            let t = fs[j].point.typ;
            let v = fs[j].value@;
            &&& (t == PointType::Uint16 || t == PointType::Uint32 || t == PointType::Uint64
                || t == PointType::Enum16 || t == PointType::Enum32 || t == PointType::Bitfield16
                || t == PointType::Bitfield32 || t == PointType::Bitfield64) ==> ((forall|i: int|
                0 <= i < v.len() ==> v[i] == 0xFFFF) <==> field_state(fs, j) == State::ProbablyNotImplemented)
            &&& (t == PointType::Int16 || t == PointType::Int32 || t == PointType::Int64 || t
                == PointType::Sunssf) ==> ((v[0] == 0x8000 && forall|i: int| 1 <= i < v.len() ==> v[i] == 0)
                <==> field_state(fs, j) == State::ProbablyNotImplemented)
            &&& (t == PointType::Acc16 || t == PointType::Acc32 || t == PointType::Acc64 || t
                == PointType::String) ==> ((forall|i: int| 0 <= i < v.len() ==> v[i] == 0)
                <==> field_state(fs, j) == State::ProbablyNotImplemented)
            &&& (t == PointType::Raw16 || t == PointType::Float32 || t == PointType::Float64 || t
                == PointType::Pad || t == PointType::Ipaddr || t == PointType::Ipv6addr || t
                == PointType::Eui48 || t == PointType::Count) ==> field_state(fs, j)
                != State::ProbablyNotImplemented
        }),
{
    let v = fs[j].value@;
    assert forall|i: int| 1 <= i < v.len() implies v[i] == v.drop_first()[i - 1] by {}
    if forall|i: int| 0 <= i < v.drop_first().len() ==> v.drop_first()[i] == 0 {
        assert forall|i: int| 1 <= i < v.len() implies v[i] == 0 by {
            assert(v.drop_first()[i - 1] == 0);
        }
    }
}

} // verus!
