//! The Telegraf configuration (modbus input, metric layout) of a block.
use vstd::prelude::*;
use crate::model::{IntOrString, JsonNumber, PointType, Symbol, SymbolValue};
use crate::sunspec::{Block, Field, State};
use crate::text::{decimal, push_decimal, push_signed_decimal, push_str, signed_decimal, str_equal};

verus! {

/// Whether Telegraf can read a point type (addresses and MAC addresses it cannot).
pub open spec fn has_type_ident(typ: PointType) -> bool {
    typ != PointType::Ipaddr && typ != PointType::Ipv6addr && typ != PointType::Eui48
}

/// The Telegraf register type of a point type.
pub open spec fn type_ident_text(typ: PointType) -> Seq<char> {
    match typ {
        PointType::Int16 | PointType::Sunssf => "INT16"@,
        PointType::Int32 => "INT32"@,
        PointType::Int64 => "INT64"@,
        PointType::Uint16 | PointType::Acc16 | PointType::Bitfield16 | PointType::Enum16
        | PointType::Raw16 | PointType::Count | PointType::Pad => "UINT16"@,
        PointType::Uint32 | PointType::Acc32 | PointType::Bitfield32 | PointType::Enum32 => "UINT32"@,
        PointType::Uint64 | PointType::Acc64 | PointType::Bitfield64 => "UINT64"@,
        PointType::Float32 => "FLOAT32"@,
        PointType::Float64 => "FLOAT64"@,
        PointType::String => "STRING"@,
        _ => Seq::empty(),
    }
}

/// The Telegraf register type of a point type: BIT, INT8L, INT8H, UINT8L, UINT8H,
/// INT16, UINT16, INT32, UINT32, INT64, UINT64, FLOAT16, FLOAT32, FLOAT64 or STRING.
pub fn type_ident(typ: PointType) -> (r: &'static str)
    requires
        has_type_ident(typ),
    ensures
        r@ == type_ident_text(typ),
{
    match typ {
        PointType::Int16 | PointType::Sunssf => "INT16",
        PointType::Int32 => "INT32",
        PointType::Int64 => "INT64",
        PointType::Uint16 | PointType::Acc16 | PointType::Bitfield16 | PointType::Enum16
        | PointType::Raw16 | PointType::Count => "UINT16",
        PointType::Uint32 | PointType::Acc32 | PointType::Bitfield32 | PointType::Enum32 => "UINT32",
        PointType::Uint64 | PointType::Acc64 | PointType::Bitfield64 => "UINT64",
        PointType::Float32 => "FLOAT32",
        PointType::Float64 => "FLOAT64",
        PointType::String => "STRING",
        // Should not be recorded, but just in case.
        _ => "UINT16",
    }
}

/// The text of a JSON number.
pub open spec fn number_text(n: JsonNumber) -> Seq<char> {
    match n {
        JsonNumber::PosInt(v) => decimal(v as nat),
        JsonNumber::NegInt(v) => signed_decimal(v as int),
        JsonNumber::Float(t) => t@,
    }
}

fn push_number(out: &mut String, n: &JsonNumber)
    ensures
        final(out)@ == old(out)@ + number_text(*n),
{
    match n {
        JsonNumber::PosInt(v) => push_decimal(out, *v),
        JsonNumber::NegInt(v) => push_signed_decimal(out, *v),
        JsonNumber::Float(t) => push_str(out, t.as_str()),
    }
}

/// Whether a point type is an enumeration.
pub open spec fn is_enum(typ: PointType) -> bool {
    typ == PointType::Enum16 || typ == PointType::Enum32
}

/// Whether a point type is a bitfield.
pub open spec fn is_bitfield(typ: PointType) -> bool {
    typ == PointType::Bitfield16 || typ == PointType::Bitfield32 || typ == PointType::Bitfield64
}

/// The value list of an enumeration comment: `value:name, ` for each numeric symbol.
pub open spec fn enum_values_text(syms: Seq<Symbol>) -> Seq<char>
    decreases syms.len(),
{
    if syms.len() == 0 {
        Seq::empty()
    } else {
        enum_values_text(syms.drop_last()) + match syms.last().value {
            SymbolValue::Number(n) => number_text(n) + ":"@ + syms.last().name@ + ", "@,
            SymbolValue::Other => Seq::empty(),
        }
    }
}

/// The commented-out single-bit lines of a bitfield, one per numeric symbol.
pub open spec fn bit_lines(syms: Seq<Symbol>, addr: u16, name: Seq<char>) -> Seq<char>
    decreases syms.len(),
{
    if syms.len() == 0 {
        Seq::empty()
    } else {
        bit_lines(syms.drop_last(), addr, name) + match syms.last().value {
            SymbolValue::Number(n) => "        # { address="@ + decimal(addr as nat) + ", name=\""@ + name
                + "_"@ + syms.last().name@ + "\", type=\"BIT\", bit="@ + number_text(n) + " }\n"@,
            SymbolValue::Other => Seq::empty(),
        }
    }
}

/// Whether a field goes into the metric uncommented-in-principle: dynamic points, the
/// version of the common model, and scale factors in use.
pub open spec fn field_included(b: Block, e: Field) -> bool {
    !e.point.is_static || (b.module_id == 1 && e.point.name@ == "Vr"@) || e.state
        == State::SFUsedByHasValue
}

/// Whether the field's line is commented out.
pub open spec fn field_commented(b: Block, e: Field) -> bool {
    !field_included(b, e) || e.state == State::ProbablyNotImplemented
}

/// Whether a field carries a comment of its own (enumerations, bitfields with symbols),
/// which an empty line separates from the lines before.
pub open spec fn field_has_comment(e: Field) -> bool {
    is_enum(e.point.typ) || (is_bitfield(e.point.typ) && e.point.symbols@.len() > 0)
}

/// The title of an enumeration comment: label, else description, else name.
pub open spec fn enum_title(e: Field) -> Seq<char> {
    match e.point.label {
        Some(l) => l@,
        None => match e.point.desc {
            Some(d) => d@,
            None => e.point.name@,
        },
    }
}

/// `pre + x + post` for a present `x`, nothing otherwise.
pub open spec fn opt_part(pre: Seq<char>, o: Option<String>, post: Seq<char>) -> Seq<char> {
    match o {
        Some(x) => pre + x@ + post,
        None => Seq::empty(),
    }
}

/// The scale factor of a point when it is given by name.
pub open spec fn named_scale(sf: Option<IntOrString>) -> Option<String> {
    match sf {
        Some(IntOrString::String(s)) => Some(s),
        _ => None,
    }
}

/// The comment of a field's line: scale, unit, label, description and the static mark.
pub open spec fn line_comment(e: Field) -> Seq<char> {
    let p = e.point;
    opt_part(" Scale: 10^{"@, named_scale(p.sf), "},"@) + opt_part(" Unit: "@, p.units, ","@)
        + opt_part(" "@, p.label, ","@) + opt_part(" "@, p.desc, ","@) + (if p.is_static {
        " (static)"@
    } else {
        Seq::empty()
    })
}

/// The tail of a field's line: a comment with scale, unit, label, description and the
/// static mark when any of the first four exists, else just the closing brace.
pub open spec fn line_tail(e: Field) -> Seq<char> {
    let p = e.point;
    let inline = named_scale(p.sf) is Some || p.units is Some || p.label is Some || p.desc is Some;
    if inline {
        " }, \t#"@ + line_comment(e) + "\n"@
    } else {
        " },\n"@
    }
}

/// The comment mark that starts the line of a commented-out field.
pub open spec fn line_mark(b: Block, e: Field) -> Seq<char> {
    if field_commented(b, e) {
        "        # "@
    } else {
        "        "@
    }
}

/// Address, name and register type of a field's line.
pub open spec fn line_core(e: Field) -> Seq<char> {
    "{ address="@ + decimal(e.addr as nat) + ", name=\""@ + e.point.name@ + "\", type=\""@
        + type_ident_text(e.point.typ) + "\""@
}

/// The string length and the numeric scale factor of a field's line.
pub open spec fn line_extras(e: Field) -> Seq<char> {
    (if e.point.typ == PointType::String {
        ", length="@ + decimal(e.point.size as nat)
    } else {
        Seq::empty()
    }) + (match e.point.sf {
        Some(IntOrString::Int(sf)) => ", scale="@ + signed_decimal(sf as int),
        _ => Seq::empty(),
    })
}

/// The start of a field's line: comment mark, address, name, type, string length and scale.
pub open spec fn line_head(b: Block, e: Field) -> Seq<char> {
    line_mark(b, e) + line_core(e) + line_extras(e)
}

/// The metric line of a field.
pub open spec fn field_line(b: Block, e: Field) -> Seq<char> {
    line_head(b, e) + line_tail(e)
}

/// The text of one field and whether an empty line should come before the next one,
/// given whether one was wanted before this field and whether it is the first.
pub open spec fn field_text(b: Block, e: Field, wants_empty: bool, first: bool) -> (Seq<char>, bool) {
    let w1 = wants_empty || field_has_comment(e);
    let sep = w1 && !first;
    let w2 = if sep {
        false
    } else {
        w1
    };
    let comment = if is_enum(e.point.typ) {
        "        # Enum "@ + enum_title(e) + ": "@ + enum_values_text(e.point.symbols@) + "\n"@
    } else {
        Seq::empty()
    };
    let w3 = if is_enum(e.point.typ) {
        true
    } else {
        w2
    };
    let bits = if is_bitfield(e.point.typ) {
        bit_lines(e.point.symbols@, e.addr, e.point.name@)
    } else {
        Seq::empty()
    };
    let w4 = if is_bitfield(e.point.typ) {
        e.point.symbols@.len() > 0
    } else {
        w3
    };
    (
        (if sep {
            "\n"@
        } else {
            Seq::empty()
        }) + comment + field_line(b, e) + bits,
        w4,
    )
}

/// The text of the first `k` fields of a block, and whether an empty line is wanted next.
pub open spec fn fields_text(b: Block, k: int) -> (Seq<char>, bool)
    decreases k,
{
    if k <= 0 {
        (Seq::empty(), false)
    } else {
        let prev = fields_text(b, k - 1);
        let cur = field_text(b, b.fields@[k - 1], prev.1, k - 1 == 0);
        (prev.0 + cur.0, cur.1)
    }
}

/// The head of a block's metric: module, slave id, byte order, measurement name.
pub open spec fn config_head(b: Block) -> Seq<char> {
    "    [[inputs.modbus.metric]] # Sunspec module "@ + decimal(b.module_id as nat) + (match b.group.label {
        Some(l) => " "@ + l@ + "\n"@,
        None => "\n"@,
    }) + "    slave_id = "@ + decimal(b.device_id as nat) + "\n"@ + "    byte_order = \"ABCD\"\n"@
        + "    measurement = \"sunspec_"@ + decimal(b.module_id as nat) + "_"@ + b.group.name@
        + "\"\n"@ + "    fields = [\n"@
}

/// The end of a block's metric: the tags that identify the device.
pub open spec fn config_tail(b: Block) -> Seq<char> {
    "    ]\n\n"@ + "        [inputs.modbus.metric.tags]\n"@ + "        manufacturer = \""@
        + b.device_info.manufacturer@ + "\"\n"@ + "        model = \""@ + b.device_info.model@
        + "\"\n"@ + "        options = \""@ + b.device_info.options@ + "\"\n"@ + "        sn = \""@
        + b.device_info.sn@ + "\"\n"@ + "\n\n\n"@
}

/// The Telegraf configuration of a block.
pub open spec fn config(b: Block) -> Seq<char> {
    config_head(b) + fields_text(b, b.fields@.len() as int).0 + config_tail(b)
}

/// Whether Telegraf can read every field of the block.
pub open spec fn fields_typed(b: Block) -> bool {
    forall|j: int| 0 <= j < b.fields@.len() ==> has_type_ident(#[trigger] b.fields@[j].point.typ)
}

fn push_enum_values(out: &mut String, syms: &Vec<Symbol>)
    ensures
        final(out)@ == old(out)@ + enum_values_text(syms@),
{
    let ghost start = out@;
    let mut i: usize = 0;
    assert(syms@.take(0) =~= Seq::<Symbol>::empty());
    while i < syms.len()
        invariant
            i <= syms.len(),
            out@ == start + enum_values_text(syms@.take(i as int)),
        decreases syms.len() - i,
    {
        assert(syms@.take(i + 1).drop_last() =~= syms@.take(i as int));
        assert(syms@.take(i + 1).last() == syms@[i as int]);
        match &syms[i].value {
            SymbolValue::Number(n) => {
                push_number(out, n);
                push_str(out, ":");
                push_str(out, syms[i].name.as_str());
                push_str(out, ", ");
            },
            SymbolValue::Other => {},
        }
        i = i + 1;
        assert(out@ =~= start + enum_values_text(syms@.take(i as int)));
    }
    assert(syms@.take(syms.len() as int) =~= syms@);
}

fn push_bit_lines(out: &mut String, syms: &Vec<Symbol>, addr: u16, name: &String)
    ensures
        final(out)@ == old(out)@ + bit_lines(syms@, addr, name@),
{
    let ghost start = out@;
    let mut i: usize = 0;
    assert(syms@.take(0) =~= Seq::<Symbol>::empty());
    while i < syms.len()
        invariant
            i <= syms.len(),
            out@ == start + bit_lines(syms@.take(i as int), addr, name@),
        decreases syms.len() - i,
    {
        assert(syms@.take(i + 1).drop_last() =~= syms@.take(i as int));
        assert(syms@.take(i + 1).last() == syms@[i as int]);
        match &syms[i].value {
            SymbolValue::Number(n) => {
                push_str(out, "        # { address=");
                push_decimal(out, addr as u64);
                push_str(out, ", name=\"");
                push_str(out, name.as_str());
                push_str(out, "_");
                push_str(out, syms[i].name.as_str());
                push_str(out, "\", type=\"BIT\", bit=");
                push_number(out, n);
                push_str(out, " }\n");
            },
            SymbolValue::Other => {},
        }
        i = i + 1;
        assert(out@ =~= start + bit_lines(syms@.take(i as int), addr, name@));
    }
    assert(syms@.take(syms.len() as int) =~= syms@);
}

fn push_opt(out: &mut String, pre: &str, o: &Option<String>, post: &str)
    ensures
        final(out)@ == old(out)@ + opt_part(pre@, *o, post@),
{
    let ghost start = out@;
    match o {
        Some(x) => {
            push_str(out, pre);
            push_str(out, x.as_str());
            push_str(out, post);
            assert(out@ =~= start + opt_part(pre@, *o, post@));
        },
        None => {
            assert(out@ =~= start + opt_part(pre@, *o, post@));
        },
    }
}

fn push_line_comment(out: &mut String, e: &Field)
    ensures
        final(out)@ == old(out)@ + line_comment(*e),
{
    let ghost start = out@;
    let p = &e.point;
    let scale: Option<String> = match &p.sf {
        Some(IntOrString::String(s)) => Some(s.clone()),
        _ => None,
    };
    push_opt(out, " Scale: 10^{", &scale, "},");
    let ghost s1 = out@;
    push_opt(out, " Unit: ", &p.units, ",");
    let ghost s2 = out@;
    assert(s2 =~= start + (opt_part(" Scale: 10^{"@, named_scale(p.sf), "},"@) + opt_part(" Unit: "@, p.units, ","@)));
    push_opt(out, " ", &p.label, ",");
    push_opt(out, " ", &p.desc, ",");
    let ghost s4 = out@;
    assert(s4 =~= start + (opt_part(" Scale: 10^{"@, named_scale(p.sf), "},"@) + opt_part(" Unit: "@, p.units, ","@)
        + opt_part(" "@, p.label, ","@) + opt_part(" "@, p.desc, ","@)));
    if p.is_static {
        push_str(out, " (static)");
    }
    assert(out@ =~= start + line_comment(*e));
}

fn push_line_tail(out: &mut String, e: &Field)
    ensures
        final(out)@ == old(out)@ + line_tail(*e),
{
    let ghost start = out@;
    let p = &e.point;
    let sf_text = match &p.sf {
        Some(IntOrString::String(_)) => true,
        _ => false,
    };
    if sf_text || p.units.is_some() || p.label.is_some() || p.desc.is_some() {
        push_str(out, " }, \t#");
        push_line_comment(out, e);
        push_str(out, "\n");
        assert(out@ =~= start + line_tail(*e));
    } else {
        push_str(out, " },\n");
    }
}

fn is_commented(b: &Block, e: &Field) -> (r: bool)
    ensures
        r == field_commented(*b, *e),
{
    let p = &e.point;
    let included = !p.is_static || (b.module_id == 1 && str_equal(p.name.as_str(), "Vr"))
        || e.state == State::SFUsedByHasValue;
    !included || e.state == State::ProbablyNotImplemented
}

fn push_line_core(out: &mut String, e: &Field)
    requires
        has_type_ident(e.point.typ),
    ensures
        final(out)@ == old(out)@ + line_core(*e),
{
    let ghost start = out@;
    push_str(out, "{ address=");
    push_decimal(out, e.addr as u64);
    push_str(out, ", name=\"");
    push_str(out, e.point.name.as_str());
    push_str(out, "\", type=\"");
    push_str(out, type_ident(e.point.typ));
    push_str(out, "\"");
    assert(out@ =~= start + line_core(*e));
}

fn push_line_extras(out: &mut String, e: &Field)
    ensures
        final(out)@ == old(out)@ + line_extras(*e),
{
    let ghost start = out@;
    let p = &e.point;
    if p.typ == PointType::String {
        push_str(out, ", length=");
        push_decimal(out, p.size as u64);
    }
    let ghost s1 = out@;
    match &p.sf {
        Some(IntOrString::Int(sf)) => {
            push_str(out, ", scale=");
            push_signed_decimal(out, *sf as i64);
        },
        _ => {},
    }
    assert(out@ =~= start + line_extras(*e));
}

fn push_line_head(out: &mut String, b: &Block, e: &Field)
    requires
        has_type_ident(e.point.typ),
    ensures
        final(out)@ == old(out)@ + line_head(*b, *e),
{
    let ghost start = out@;
    if is_commented(b, e) {
        push_str(out, "        # ");
    } else {
        push_str(out, "        ");
    }
    push_line_core(out, e);
    push_line_extras(out, e);
    assert(out@ =~= start + line_head(*b, *e));
}

fn push_field_line(out: &mut String, b: &Block, e: &Field)
    requires
        has_type_ident(e.point.typ),
    ensures
        final(out)@ == old(out)@ + field_line(*b, *e),
{
    let ghost start = out@;
    push_line_head(out, b, e);
    push_line_tail(out, e);
    assert(out@ =~= start + field_line(*b, *e));
}

fn push_field(out: &mut String, b: &Block, e: &Field, wants_empty: bool, first: bool) -> (w: bool)
    requires
        has_type_ident(e.point.typ),
    ensures
        final(out)@ == old(out)@ + field_text(*b, *e, wants_empty, first).0,
        w == field_text(*b, *e, wants_empty, first).1,
{
    let ghost start = out@;
    let p = &e.point;
    let enum_typ = p.typ == PointType::Enum16 || p.typ == PointType::Enum32;
    let bit_typ = p.typ == PointType::Bitfield16 || p.typ == PointType::Bitfield32
        || p.typ == PointType::Bitfield64;
    let mut wants = wants_empty || enum_typ || (bit_typ && p.symbols.len() > 0);
    if wants && !first {
        push_str(out, "\n");
        wants = false;
    }
    let ghost s1 = out@;
    if enum_typ {
        push_str(out, "        # Enum ");
        match &p.label {
            Some(l) => push_str(out, l.as_str()),
            None => match &p.desc {
                Some(d) => push_str(out, d.as_str()),
                None => push_str(out, p.name.as_str()),
            },
        }
        push_str(out, ": ");
        push_enum_values(out, &p.symbols);
        push_str(out, "\n");
        wants = true;
    }
    let ghost s2 = out@;
    push_field_line(out, b, e);
    let ghost s3 = out@;
    if bit_typ {
        push_bit_lines(out, &p.symbols, e.addr, &p.name);
        wants = p.symbols.len() > 0;
    }
    assert(out@ =~= start + field_text(*b, *e, wants_empty, first).0);
    wants
}

/// The Telegraf configuration of a block: its metric header, one line per field (commented
/// out where the field is static or not implemented), with comments for enumerations and
/// bitfields, and the device tags.
#[verifier::rlimit(30)]
pub fn config_text(b: &Block) -> (r: String)
    requires
        fields_typed(*b),
    ensures
        r@ == config(*b),
{
    let mut out = String::new();
    push_str(&mut out, "    [[inputs.modbus.metric]] # Sunspec module ");
    push_decimal(&mut out, b.module_id as u64);
    match &b.group.label {
        Some(l) => {
            push_str(&mut out, " ");
            push_str(&mut out, l.as_str());
            push_str(&mut out, "\n");
        },
        None => push_str(&mut out, "\n"),
    }
    push_str(&mut out, "    slave_id = ");
    push_decimal(&mut out, b.device_id as u64);
    push_str(&mut out, "\n");
    push_str(&mut out, "    byte_order = \"ABCD\"\n");
    push_str(&mut out, "    measurement = \"sunspec_");
    push_decimal(&mut out, b.module_id as u64);
    push_str(&mut out, "_");
    push_str(&mut out, b.group.name.as_str());
    push_str(&mut out, "\"\n");
    push_str(&mut out, "    fields = [\n");
    let ghost head = out@;
    assert(head =~= config_head(*b));
    let mut wants = false;
    let mut i: usize = 0;
    while i < b.fields.len()
        invariant
            i <= b.fields@.len(),
            fields_typed(*b),
            out@ == head + fields_text(*b, i as int).0,
            wants == fields_text(*b, i as int).1,
        decreases b.fields@.len() - i,
    {
        wants = push_field(&mut out, b, &b.fields[i], wants, i == 0);
        i = i + 1;
        assert(out@ =~= head + fields_text(*b, i as int).0);
    }
    let ghost body = out@;
    push_str(&mut out, "    ]\n\n");
    push_str(&mut out, "        [inputs.modbus.metric.tags]\n");
    push_str(&mut out, "        manufacturer = \"");
    push_str(&mut out, b.device_info.manufacturer.as_str());
    push_str(&mut out, "\"\n");
    push_str(&mut out, "        model = \"");
    push_str(&mut out, b.device_info.model.as_str());
    push_str(&mut out, "\"\n");
    push_str(&mut out, "        options = \"");
    push_str(&mut out, b.device_info.options.as_str());
    push_str(&mut out, "\"\n");
    push_str(&mut out, "        sn = \"");
    push_str(&mut out, b.device_info.sn.as_str());
    push_str(&mut out, "\"\n");
    push_str(&mut out, "\n\n\n");
    assert(out@ =~= config(*b));
    out
}


/// In the configuration, a dynamic field holding a value is enabled, a field holding the
/// "not implemented" marker is commented out, and so is a static field that is neither
/// the common model's version nor a scale factor in use.
pub proof fn lemma_config_comments(b: Block, j: int)
    requires
        0 <= j < b.fields@.len(),
    ensures
        !b.fields@[j].point.is_static && b.fields@[j].state != State::ProbablyNotImplemented
            ==> !field_commented(b, b.fields@[j]),
        b.fields@[j].state == State::ProbablyNotImplemented ==> field_commented(b, b.fields@[j]),
        b.fields@[j].point.is_static && b.fields@[j].state != State::SFUsedByHasValue && !(
        b.module_id == 1 && b.fields@[j].point.name@ == "Vr"@) ==> field_commented(b, b.fields@[j]),
        field_line(b, b.fields@[j]).take(10) == "        # "@ <==> field_commented(b, b.fields@[j]),
{
    let e = b.fields@[j];
    reveal_strlit("        # ");
    reveal_strlit("        ");
    reveal_strlit("{ address=");
    let line = field_line(b, e);
    assert(line == line_mark(b, e) + line_core(e) + line_extras(e) + line_tail(e));
    if field_commented(b, e) {
        assert(line.take(10) =~= "        # "@);
    } else {
        assert(line[8] == '{');
        assert(line.take(10)[8] != "        # "@[8]);
    }
}


/// The register type of a field's line agrees with its point type: unsigned Sunspec types
/// (unsigned values, accumulators, bitfields, enumerations, raw registers, counts) get the
/// UINT name of their width, signed values and scale factors the INT name of theirs, floats
/// and strings their own names.
pub proof fn lemma_register_type_names(typ: PointType)
    ensures
        (typ == PointType::Uint16 || typ == PointType::Acc16 || typ == PointType::Bitfield16 || typ
            == PointType::Enum16 || typ == PointType::Raw16 || typ == PointType::Count) ==> type_ident_text(typ)
            == "UINT16"@,
        (typ == PointType::Uint32 || typ == PointType::Acc32 || typ == PointType::Bitfield32 || typ
            == PointType::Enum32) ==> type_ident_text(typ) == "UINT32"@,
        (typ == PointType::Uint64 || typ == PointType::Acc64 || typ == PointType::Bitfield64) ==> type_ident_text(typ)
            == "UINT64"@,
        (typ == PointType::Int16 || typ == PointType::Sunssf) ==> type_ident_text(typ) == "INT16"@,
        typ == PointType::Int32 ==> type_ident_text(typ) == "INT32"@,
        typ == PointType::Int64 ==> type_ident_text(typ) == "INT64"@,
        typ == PointType::Float32 ==> type_ident_text(typ) == "FLOAT32"@,
        typ == PointType::Float64 ==> type_ident_text(typ) == "FLOAT64"@,
        typ == PointType::String ==> type_ident_text(typ) == "STRING"@,
{
}

} // verus!
