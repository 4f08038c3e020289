//! The Sunspec model definitions (the JSON schema of sunspec/models), as plain values.
use vstd::prelude::*;
use crate::text::str_equal;

verus! {

/// A numeric JSON value, as JSON parsing classifies it: non-negative integers,
/// negative integers, and other numbers, these held by their decimal text.
#[derive(Debug, Clone, PartialEq)]
pub enum JsonNumber {
    PosInt(u64),
    NegInt(i64),
    Float(String),
}

/// The value of a symbol: a number, or any other JSON value (which the logic ignores).
#[derive(Debug, Clone, PartialEq)]
pub enum SymbolValue {
    Number(JsonNumber),
    Other,
}

/// Either an integer or a string (model ids, point values, scale factors).
#[derive(Debug, Clone, PartialEq, Eq)]
pub enum IntOrString {
    Int(i32),
    String(String),
}

#[derive(Debug, Clone, Copy, PartialEq, Eq, Structural)]
pub enum GroupType {
    Group,
    Sync,
}

#[derive(Debug, Clone, Copy, PartialEq, Eq, Structural)]
pub enum PointType {
    Int16,
    Int32,
    Int64,
    Raw16,
    Uint16,
    Uint32,
    Uint64,
    Acc16,
    Acc32,
    Acc64,
    Bitfield16,
    Bitfield32,
    Bitfield64,
    Enum16,
    Enum32,
    Float32,
    Float64,
    String,
    Pad,
    Ipaddr,
    Ipv6addr,
    Eui48,
    Sunssf,
    Count,
}

#[derive(Debug, Clone)]
pub struct Symbol {
    pub name: String,
    pub value: SymbolValue,
    pub label: Option<String>,
    pub desc: Option<String>,
    pub detail: Option<String>,
    pub notes: Option<String>,
    pub comments: Vec<String>,
}

#[derive(Debug, Clone)]
pub struct Point {
    pub name: String,
    pub typ: PointType,
    pub value: Option<IntOrString>,
    pub count: Option<usize>,
    pub size: u16,
    pub sf: Option<IntOrString>,
    pub units: Option<String>,
    pub writable: bool,
    pub mandatory: bool,
    pub is_static: bool,
    pub label: Option<String>,
    pub desc: Option<String>,
    pub detail: Option<String>,
    pub notes: Option<String>,
    pub comments: Vec<String>,
    pub symbols: Vec<Symbol>,
    pub standards: Vec<String>,
}

#[derive(Debug)]
pub struct Group {
    pub name: String,
    pub typ: GroupType,
    pub count: IntOrString,
    pub label: Option<String>,
    pub desc: Option<String>,
    pub detail: Option<String>,
    pub notes: Option<String>,
    pub comments: Vec<String>,
    pub points: Vec<Point>,
    pub groups: Vec<Group>,
}

#[derive(Debug)]
pub struct Module {
    pub id: usize,
    pub group: Group,
}

/// The content of a [`Symbol`], its lists taken as sequences.
#[verifier::ext_equal]
pub struct SymbolModel {
    pub name: String,
    pub value: SymbolValue,
    pub label: Option<String>,
    pub desc: Option<String>,
    pub detail: Option<String>,
    pub notes: Option<String>,
    pub comments: Seq<String>,
}

/// The content of a [`Point`], its lists taken as sequences.
#[verifier::ext_equal]
pub struct PointModel {
    pub name: String,
    pub typ: PointType,
    pub value: Option<IntOrString>,
    pub count: Option<usize>,
    pub size: u16,
    pub sf: Option<IntOrString>,
    pub units: Option<String>,
    pub writable: bool,
    pub mandatory: bool,
    pub is_static: bool,
    pub label: Option<String>,
    pub desc: Option<String>,
    pub detail: Option<String>,
    pub notes: Option<String>,
    pub comments: Seq<String>,
    pub symbols: Seq<SymbolModel>,
    pub standards: Seq<String>,
}

/// The content of a [`Group`], its lists taken as sequences.
#[verifier::ext_equal]
pub struct GroupModel {
    pub name: String,
    pub typ: GroupType,
    pub count: IntOrString,
    pub label: Option<String>,
    pub desc: Option<String>,
    pub detail: Option<String>,
    pub notes: Option<String>,
    pub comments: Seq<String>,
    pub points: Seq<PointModel>,
    pub groups: Seq<GroupModel>,
}

impl Symbol {
    /// The symbol with its comments as a sequence.
    pub open spec fn model(self) -> SymbolModel {
        SymbolModel {
            name: self.name,
            value: self.value,
            label: self.label,
            desc: self.desc,
            detail: self.detail,
            notes: self.notes,
            comments: self.comments@,
        }
    }
}

impl Point {
    /// The point with its lists as sequences.
    pub open spec fn model(self) -> PointModel {
        PointModel {
            name: self.name,
            typ: self.typ,
            value: self.value,
            count: self.count,
            size: self.size,
            sf: self.sf,
            units: self.units,
            writable: self.writable,
            mandatory: self.mandatory,
            is_static: self.is_static,
            label: self.label,
            desc: self.desc,
            detail: self.detail,
            notes: self.notes,
            comments: self.comments@,
            symbols: self.symbols@.map_values(|s: Symbol| s.model()),
            standards: self.standards@,
        }
    }
}

impl Group {
    /// The group with its lists, and those of its points and nested groups, as sequences.
    pub open spec fn model(self) -> GroupModel
        decreases self,
    {
        GroupModel {
            name: self.name,
            typ: self.typ,
            count: self.count,
            label: self.label,
            desc: self.desc,
            detail: self.detail,
            notes: self.notes,
            comments: self.comments@,
            points: self.points@.map_values(|p: Point| p.model()),
            groups: Seq::new(
                self.groups@.len(),
                |i: int|
                    if 0 <= i < self.groups@.len() {
                        self.groups@[i].model()
                    } else {
                        arbitrary()
                    },
            ),
        }
    }
}


/// A copy of a list of strings.
pub fn copy_strings(v: &Vec<String>) -> (r: Vec<String>)
    ensures
        r@ == v@,
{
    let mut r: Vec<String> = Vec::new();
    let mut i: usize = 0;
    while i < v.len()
        invariant
            i <= v.len(),
            r@ == v@.take(i as int),
        decreases v.len() - i,
    {
        r.push(v[i].clone());
        i = i + 1;
        assert(r@ =~= v@.take(i as int));
    }
    assert(v@.take(v.len() as int) =~= v@);
    r
}

/// A copy of an optional string.
pub fn copy_opt_string(o: &Option<String>) -> (r: Option<String>)
    ensures
        r == *o,
{
    match o {
        Some(s) => Some(s.clone()),
        None => None,
    }
}

impl IntOrString {
    /// A copy of the value.
    pub fn copied(&self) -> (r: IntOrString)
        ensures
            r == *self,
    {
        match self {
            IntOrString::Int(i) => IntOrString::Int(*i),
            IntOrString::String(s) => IntOrString::String(s.clone()),
        }
    }
}

/// A copy of an optional integer-or-string.
pub fn copy_opt_int_or_string(o: &Option<IntOrString>) -> (r: Option<IntOrString>)
    ensures
        r == *o,
{
    match o {
        Some(v) => Some(v.copied()),
        None => None,
    }
}

impl SymbolValue {
    /// A copy of the value.
    pub fn copied(&self) -> (r: SymbolValue)
        ensures
            r == *self,
    {
        match self {
            SymbolValue::Number(JsonNumber::PosInt(n)) => SymbolValue::Number(JsonNumber::PosInt(*n)),
            SymbolValue::Number(JsonNumber::NegInt(n)) => SymbolValue::Number(JsonNumber::NegInt(*n)),
            SymbolValue::Number(JsonNumber::Float(t)) => SymbolValue::Number(JsonNumber::Float(t.clone())),
            SymbolValue::Other => SymbolValue::Other,
        }
    }
}

impl Symbol {
    /// A copy of the symbol.
    pub fn copied(&self) -> (r: Symbol)
        ensures
            r.model() == self.model(),
    {
        let r = Symbol {
            name: self.name.clone(),
            value: self.value.copied(),
            label: copy_opt_string(&self.label),
            desc: copy_opt_string(&self.desc),
            detail: copy_opt_string(&self.detail),
            notes: copy_opt_string(&self.notes),
            comments: copy_strings(&self.comments),
        };
        assert(r.model() =~= self.model());
        r
    }
}

impl Point {
    /// A copy of the point.
    pub fn copied(&self) -> (r: Point)
        ensures
            r.model() == self.model(),
    {
        let mut symbols: Vec<Symbol> = Vec::new();
        let mut i: usize = 0;
        while i < self.symbols.len()
            invariant
                i <= self.symbols.len(),
                symbols@.len() == i,
                forall|j: int| 0 <= j < i ==> (#[trigger] symbols@[j]).model() == self.symbols@[j].model(),
            decreases self.symbols.len() - i,
        {
            symbols.push(self.symbols[i].copied());
            i = i + 1;
        }
        let r = Point {
            name: self.name.clone(),
            typ: self.typ,
            value: copy_opt_int_or_string(&self.value),
            count: self.count,
            size: self.size,
            sf: copy_opt_int_or_string(&self.sf),
            units: copy_opt_string(&self.units),
            writable: self.writable,
            mandatory: self.mandatory,
            is_static: self.is_static,
            label: copy_opt_string(&self.label),
            desc: copy_opt_string(&self.desc),
            detail: copy_opt_string(&self.detail),
            notes: copy_opt_string(&self.notes),
            comments: copy_strings(&self.comments),
            symbols,
            standards: copy_strings(&self.standards),
        };
        assert(r.model().symbols =~= self.model().symbols);
        assert(r.model() =~= self.model());
        r
    }
}

impl Group {
    /// A copy of the group, with its points and nested groups.
    pub fn copied(&self) -> (r: Group)
        ensures
            r.model() == self.model(),
        decreases self,
    {
        let mut points: Vec<Point> = Vec::new();
        let mut i: usize = 0;
        while i < self.points.len()
            invariant
                i <= self.points.len(),
                points@.len() == i,
                forall|j: int| 0 <= j < i ==> (#[trigger] points@[j]).model() == self.points@[j].model(),
            decreases self.points.len() - i,
        {
            points.push(self.points[i].copied());
            i = i + 1;
        }
        let mut groups: Vec<Group> = Vec::new();
        let mut k: usize = 0;
        while k < self.groups.len()
            invariant
                k <= self.groups.len(),
                groups@.len() == k,
                forall|j: int| 0 <= j < k ==> (#[trigger] groups@[j]).model() == self.groups@[j].model(),
            decreases self.groups.len() - k,
        {
            groups.push(self.groups[k].copied());
            k = k + 1;
        }
        let r = Group {
            name: self.name.clone(),
            typ: self.typ,
            count: self.count.copied(),
            label: copy_opt_string(&self.label),
            desc: copy_opt_string(&self.desc),
            detail: copy_opt_string(&self.detail),
            notes: copy_opt_string(&self.notes),
            comments: copy_strings(&self.comments),
            points,
            groups,
        };
        assert(r.model().points =~= self.model().points);
        assert(r.model().groups =~= self.model().groups);
        assert(r.model() =~= self.model());
        r
    }
}

impl Module {
    /// A copy of the module definition.
    pub fn copied(&self) -> (r: Module)
        ensures
            r.id == self.id,
            r.group.model() == self.group.model(),
    {
        Module { id: self.id, group: self.group.copied() }
    }
}

/// The count of a group when the definition gives none: a single instance.
pub fn default_group_count() -> (r: IntOrString)
    ensures
        r == IntOrString::Int(1),
{
    IntOrString::Int(1)
}

/// The meaning of a point's `access` entry: `RW` is writable, `R` read-only, anything else invalid.
pub open spec fn access_flag(s: Seq<char>) -> Option<bool> {
    if s == "RW"@ {
        Some(true)
    } else if s == "R"@ {
        Some(false)
    } else {
        None
    }
}

/// The meaning of a point's `mandatory` entry: `M` is mandatory, `O` optional, anything else invalid.
pub open spec fn mandatory_flag(s: Seq<char>) -> Option<bool> {
    if s == "M"@ {
        Some(true)
    } else if s == "O"@ {
        Some(false)
    } else {
        None
    }
}

/// The meaning of a point's `static` entry: `S` is static, `D` dynamic, anything else invalid.
pub open spec fn static_flag(s: Seq<char>) -> Option<bool> {
    if s == "S"@ {
        Some(true)
    } else if s == "D"@ {
        Some(false)
    } else {
        None
    }
}

/// Reads a point's `access` entry.
pub fn parse_access(s: &str) -> (r: Option<bool>)
    ensures
        r == access_flag(s@),
{
    if str_equal(s, "RW") {
        Some(true)
    } else if str_equal(s, "R") {
        Some(false)
    } else {
        None
    }
}

/// Reads a point's `mandatory` entry.
pub fn parse_mandatory(s: &str) -> (r: Option<bool>)
    ensures
        r == mandatory_flag(s@),
{
    if str_equal(s, "M") {
        Some(true)
    } else if str_equal(s, "O") {
        Some(false)
    } else {
        None
    }
}

/// Reads a point's `static` entry.
pub fn parse_static(s: &str) -> (r: Option<bool>)
    ensures
        r == static_flag(s@),
{
    if str_equal(s, "S") {
        Some(true)
    } else if str_equal(s, "D") {
        Some(false)
    } else {
        None
    }
}

} // verus!
