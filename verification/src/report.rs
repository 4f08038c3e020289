//! What the walk logs of each field: the decoded value and the parts of the log line.
use vstd::prelude::*;
use crate::model::{copy_opt_int_or_string, IntOrString, Point, PointType};
use crate::registers::{
    bitfield_flags, bitfield_symbols_readable, bitfield_text, enum_name, enum_symbol_text,
    first_symbol_with, lemma_signed_value_range, non_numeric_symbols, parse_string,
    register_span, register_string, registers_value, signed_registers_value, signed_value,
    u64_modulus, unsigned_value,
};
use crate::sunspec::{is_device_address, is_device_address_point, Field};
use crate::text::push_str;

verus! {

/// A decoded field value, as the log shows it.
#[derive(Debug)]
pub enum Shown {
    Unsigned(u64),
    Signed(i64),
    Text(String),
    Registers(Vec<u16>),
}

/// A decoded field value in specifications.
pub enum ShownModel {
    Unsigned(u64),
    Signed(i64),
    Text(Seq<char>),
    Registers(Seq<u16>),
}

impl Shown {
    pub open spec fn model(self) -> ShownModel {
        match self {
            Shown::Unsigned(v) => ShownModel::Unsigned(v),
            Shown::Signed(v) => ShownModel::Signed(v),
            Shown::Text(t) => ShownModel::Text(t@),
            Shown::Registers(r) => ShownModel::Registers(r@),
        }
    }
}

/// Why a field's registers cannot be shown.
#[derive(Debug, Clone, Copy, PartialEq, Eq, Structural)]
pub enum DecodeError {
    /// A signed value needs one to four registers.
    IntegerWidth,
    /// A bitfield symbol is no bit position of the registers.
    UnreadableSymbol,
    /// The point has no register.
    NoRegister,
    /// String registers hold no valid UTF-8.
    NotUtf8,
}

/// The log line of a field: address, label, name, value, scale factor, the remark on
/// static and optional points, and how many symbols were ignored for not being numbers.
#[derive(Debug)]
pub struct FieldReport {
    pub addr: u16,
    pub label: String,
    pub name: String,
    pub value: Shown,
    pub scale: Option<IntOrString>,
    pub remark: &'static str,
    pub ignored_symbols: usize,
}

/// How the log shows the registers of point `p`: `None` for padding.
pub open spec fn shown_value(p: Point, vals: Seq<u16>) -> Result<Option<ShownModel>, DecodeError> {
    if is_device_address(p) {
        if vals.len() == 0 {
            Err(DecodeError::NoRegister)
        } else {
            Ok(Some(ShownModel::Unsigned(vals[0] as u64)))
        }
    } else {
        match p.typ {
            PointType::Int16 | PointType::Int32 | PointType::Int64 | PointType::Sunssf => if 1 <= vals.len() <= 4 {
                Ok(Some(ShownModel::Signed(signed_registers_value(vals) as i64)))
            } else {
                Err(DecodeError::IntegerWidth)
            },
            PointType::Uint16 | PointType::Uint32 | PointType::Uint64 | PointType::Acc16
            | PointType::Acc32 | PointType::Acc64 => Ok(
                Some(ShownModel::Unsigned((registers_value(vals) % u64_modulus()) as u64)),
            ),
            PointType::Bitfield16 | PointType::Bitfield32 | PointType::Bitfield64 => if bitfield_symbols_readable(
                p.symbols@,
                vals,
            ) {
                Ok(Some(ShownModel::Text(bitfield_text(p.symbols@, vals))))
            } else {
                Err(DecodeError::UnreadableSymbol)
            },
            PointType::Enum16 => if vals.len() == 0 {
                Err(DecodeError::NoRegister)
            } else {
                match first_symbol_with(p.symbols@, vals[0] as u64) {
                    Some(k) => Ok(Some(ShownModel::Text(enum_symbol_text(p.symbols@[k], vals[0] as u64)))),
                    None => Ok(Some(ShownModel::Unsigned(vals[0] as u64))),
                }
            },
            PointType::String => match register_string(vals) {
                Some(t) => Ok(Some(ShownModel::Text(t))),
                None => Err(DecodeError::NotUtf8),
            },
            PointType::Pad => Ok(None),
            _ => Ok(Some(ShownModel::Registers(vals))),
        }
    }
}

/// The label of a point in the log: its own label, or "Scale Factor" for scale factors without one.
pub open spec fn shown_label(p: Point) -> Seq<char> {
    match p.label {
        Some(l) => l@,
        None => if p.typ == PointType::Sunssf {
            "Scale Factor"@
        } else {
            Seq::empty()
        },
    }
}

/// The remark after a log line on whether the point is static and optional.
pub open spec fn remark_text(is_static: bool, mandatory: bool) -> Seq<char> {
    if !is_static && !mandatory {
        " (opt)"@
    } else if !is_static && mandatory {
        Seq::empty()
    } else if is_static && !mandatory {
        " (static,opt)"@
    } else {
        " (static)"@
    }
}

/// The remark after a log line on whether the point is static and optional.
pub fn remark(is_static: bool, mandatory: bool) -> (r: &'static str)
    ensures
        r@ == remark_text(is_static, mandatory),
{
    if !is_static && !mandatory {
        " (opt)"
    } else if !is_static && mandatory {
        proof {
            reveal_strlit("");
        }
        ""
    } else if is_static && !mandatory {
        " (static,opt)"
    } else {
        " (static)"
    }
}

fn shown_registers(p: &Point, vals: &[u16]) -> (r: Result<Option<(Shown, usize)>, DecodeError>)
    ensures
        match r {
            Ok(Some((s, _))) => shown_value(*p, vals@) == Ok::<Option<ShownModel>, DecodeError>(Some(s.model())),
            Ok(None) => shown_value(*p, vals@) == Ok::<Option<ShownModel>, DecodeError>(None),
            Err(e) => shown_value(*p, vals@) == Err::<Option<ShownModel>, DecodeError>(e),
        },
        r matches Ok(Some((_, n))) ==> n == (if p.typ == PointType::Bitfield16
            || p.typ == PointType::Bitfield32 || p.typ == PointType::Bitfield64 {
            non_numeric_symbols(p.symbols@)
        } else {
            0
        }),
{
    if is_device_address_point(p) {
        if vals.len() == 0 {
            return Err(DecodeError::NoRegister);
        }
        return Ok(Some((Shown::Unsigned(vals[0] as u64), 0)));
    }
    match p.typ {
        PointType::Int16 | PointType::Int32 | PointType::Int64 | PointType::Sunssf => {
            if vals.len() < 1 || vals.len() > 4 {
                return Err(DecodeError::IntegerWidth);
            }
            Ok(Some((Shown::Signed(signed_value(vals)), 0)))
        },
        PointType::Uint16 | PointType::Uint32 | PointType::Uint64 | PointType::Acc16
        | PointType::Acc32 | PointType::Acc64 => Ok(Some((Shown::Unsigned(unsigned_value(vals)), 0))),
        PointType::Bitfield16 | PointType::Bitfield32 | PointType::Bitfield64 => {
            match bitfield_flags(&p.symbols, vals) {
                Some((t, n)) => Ok(Some((Shown::Text(t), n))),
                None => Err(DecodeError::UnreadableSymbol),
            }
        },
        PointType::Enum16 => {
            if vals.len() == 0 {
                return Err(DecodeError::NoRegister);
            }
            match enum_name(&p.symbols, vals[0]) {
                Some(t) => Ok(Some((Shown::Text(t), 0))),
                None => Ok(Some((Shown::Unsigned(vals[0] as u64), 0))),
            }
        },
        PointType::String => match parse_string(vals) {
            Some(t) => Ok(Some((Shown::Text(t), 0))),
            None => Err(DecodeError::NotUtf8),
        },
        PointType::Pad => Ok(None),
        _ => {
            let mut v: Vec<u16> = Vec::new();
            let mut i: usize = 0;
            while i < vals.len()
                invariant
                    i <= vals.len(),
                    v@ == vals@.take(i as int),
                decreases vals.len() - i,
            {
                v.push(vals[i]);
                i = i + 1;
                assert(v@ =~= vals@.take(i as int));
            }
            assert(vals@.take(vals.len() as int) =~= vals@);
            Ok(Some((Shown::Registers(v), 0)))
        },
    }
}

/// The log line of a field; `None` for padding, an error where its registers cannot be shown.
pub fn describe(f: &Field) -> (r: Result<Option<FieldReport>, DecodeError>)
    ensures
        match r {
            Ok(Some(rep)) => {
                &&& shown_value(f.point, f.value@) == Ok::<Option<ShownModel>, DecodeError>(Some(rep.value.model()))
                &&& rep.addr == f.addr
                &&& rep.label@ == shown_label(f.point)
                &&& rep.name == f.point.name
                &&& rep.scale == f.point.sf
                &&& rep.remark@ == remark_text(f.point.is_static, f.point.mandatory)
                &&& rep.ignored_symbols == (if f.point.typ == PointType::Bitfield16
                    || f.point.typ == PointType::Bitfield32 || f.point.typ == PointType::Bitfield64 {
                    non_numeric_symbols(f.point.symbols@)
                } else {
                    0
                })
            },
            Ok(None) => shown_value(f.point, f.value@) == Ok::<Option<ShownModel>, DecodeError>(None),
            Err(e) => shown_value(f.point, f.value@) == Err::<Option<ShownModel>, DecodeError>(e),
        },
{
    let p = &f.point;
    let (value, ignored) = match shown_registers(p, f.value.as_slice()) {
        Ok(Some(x)) => x,
        Ok(None) => {
            return Ok(None);
        },
        Err(e) => {
            return Err(e);
        },
    };
    let mut label = String::new();
    match &p.label {
        Some(l) => push_str(&mut label, l.as_str()),
        None => {
            if p.typ == PointType::Sunssf {
                push_str(&mut label, "Scale Factor");
            }
        },
    }
    Ok(
        Some(
            FieldReport {
                addr: f.addr,
                label,
                name: p.name.clone(),
                value,
                scale: copy_opt_int_or_string(&p.sf),
                remark: remark(p.is_static, p.mandatory),
                ignored_symbols: ignored,
            },
        ),
    )
}


/// The log shows signed points (signed values and scale factors of one to four registers) as
/// the two's complement reading of their registers: the one value in the signed range of
/// their width that agrees with the registers modulo 2^(16 n). It shows unsigned values and
/// accumulators (other than a device address) as the registers' value modulo 2^64.
pub proof fn lemma_shown_numbers(p: Point, vals: Seq<u16>)
    ensures
        (p.typ == PointType::Int16 || p.typ == PointType::Int32 || p.typ == PointType::Int64 || p.typ
            == PointType::Sunssf) && 1 <= vals.len() <= 4 ==> (shown_value(p, vals) matches Ok(
            Some(ShownModel::Signed(x)),
        ) && -(register_span(vals.len()) / 2) <= x < register_span(vals.len()) / 2 && (x
            - registers_value(vals)) % (register_span(vals.len()) as int) == 0),
        (p.typ == PointType::Uint16 || p.typ == PointType::Uint32 || p.typ == PointType::Uint64
            || p.typ == PointType::Acc16 || p.typ == PointType::Acc32 || p.typ == PointType::Acc64)
            && !is_device_address(p) ==> (shown_value(p, vals) matches Ok(Some(ShownModel::Unsigned(x)))
            && (x - registers_value(vals)) % (u64_modulus() as int) == 0),
{
    if 1 <= vals.len() <= 4 {
        lemma_signed_value_range(vals);
        let sp = register_span(vals.len()) as int;
        assert(0 < sp <= 0x1_0000_0000_0000_0000) by {
            reveal_with_fuel(register_span, 5);
        }
        let sv = signed_registers_value(vals);
        assert((sv as i64) as int == sv);
        if sv == registers_value(vals) {
            assert(sv - registers_value(vals) == 0 * sp);
            vstd::arithmetic::div_mod::lemma_mod_multiples_basic(0, sp);
        } else {
            assert(sv - registers_value(vals) == -1 * sp);
            vstd::arithmetic::div_mod::lemma_mod_multiples_basic(-1, sp);
        }
    }
    let r = registers_value(vals) as int;
    let m = u64_modulus() as int;
    vstd::arithmetic::div_mod::lemma_fundamental_div_mod(r, m);
    vstd::arithmetic::div_mod::lemma_mod_multiples_vanish(-(r / m), 0, m);
    assert(0int % m == 0);
    assert((r % m) - r == -(r / m) * m) by (nonlinear_arith)
        requires
            r == m * (r / m) + r % m,
    ;
    assert((-(r / m) * m) % m == 0) by {
        vstd::arithmetic::div_mod::lemma_mod_multiples_basic(-(r / m), m);
    }
}

} // verus!
