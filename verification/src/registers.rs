//! Decoding of Modbus holding registers (16-bit words, most significant first).
use vstd::prelude::*;
use vstd::arithmetic::div_mod::{lemma_add_mod_noop, lemma_mul_mod_noop_left};
use vstd::utf8::{valid_utf8, decode_utf8};
use crate::model::{JsonNumber, Symbol, SymbolValue};
use crate::text::{hexadecimal, decimal, push_hexadecimal, push_decimal, push_str};

verus! {

/// 2^64, the modulus of `u64` arithmetic.
pub open spec fn u64_modulus() -> nat {
    0x1_0000_0000_0000_0000
}

/// The unsigned number that registers spell when read as one big-endian value.
pub open spec fn registers_value(vals: Seq<u16>) -> nat
    decreases vals.len(),
{
    if vals.len() == 0 {
        0
    } else {
        registers_value(vals.drop_last()) * 65536 + vals.last() as nat
    }
}

/// 2^(16 n): one more than the largest value that `n` registers spell.
pub open spec fn register_span(n: nat) -> nat
    decreases n,
{
    if n == 0 {
        1
    } else {
        65536 * register_span((n - 1) as nat)
    }
}

/// The two's complement value of registers read as one signed big-endian number:
/// the top bit of the first register is the sign.
pub open spec fn signed_registers_value(vals: Seq<u16>) -> int {
    if vals.len() > 0 && vals[0] >= 0x8000 {
        registers_value(vals) - register_span(vals.len())
    } else {
        registers_value(vals) as int
    }
}

proof fn lemma_registers_value_bound(vals: Seq<u16>)
    ensures
        registers_value(vals) < register_span(vals.len()),
        vals.len() > 0 ==> registers_value(vals) >= vals[0] * register_span((vals.len() - 1) as nat),
        vals.len() > 0 ==> registers_value(vals) < (vals[0] + 1) * register_span((vals.len() - 1) as nat),
    decreases vals.len(),
{
    if vals.len() > 0 {
        let p = vals.drop_last();
        lemma_registers_value_bound(p);
        let sp = register_span(p.len());
        assert(registers_value(vals) == registers_value(p) * 65536 + vals.last());
        assert(registers_value(p) * 65536 + vals.last() < sp * 65536) by (nonlinear_arith)
            requires
                registers_value(p) < sp,
                vals.last() < 65536,
        ;
        if p.len() > 0 {
            assert(p[0] == vals[0]);
            let sq = register_span((p.len() - 1) as nat);
            assert(sp == 65536 * sq);
            assert(registers_value(p) * 65536 + vals.last() >= vals[0] * (65536 * sq)) by (nonlinear_arith)
                requires
                    registers_value(p) >= vals[0] * sq,
                    vals.last() >= 0,
            ;
            assert(registers_value(p) * 65536 + vals.last() < (vals[0] + 1) * (65536 * sq)) by (nonlinear_arith)
                requires
                    registers_value(p) < (vals[0] + 1) * sq,
                    registers_value(p) + 1 <= (vals[0] + 1) * sq,
                    vals.last() < 65536,
            ;
        } else {
            assert(registers_value(p) == 0);
            assert(register_span(0) == 1);
            assert(vals[0] == vals.last());
            let one = register_span(0);
            assert(vals[0] * one == vals[0] && (vals[0] + 1) * one == vals[0] + 1) by (nonlinear_arith)
                requires one == 1;
        }
    }
}

proof fn lemma_take_step(vals: Seq<u16>, i: int)
    requires
        0 <= i < vals.len(),
    ensures
        registers_value(vals.take(i + 1)) == registers_value(vals.take(i)) * 65536 + vals[i],
{
    assert(vals.take(i + 1).drop_last() =~= vals.take(i));
}

/// A signed register value lies in the two's complement range of its width, and it differs
/// from the unsigned reading of the same registers by the span of that width exactly
/// when the sign bit is set.
pub proof fn lemma_signed_value_range(vals: Seq<u16>)
    requires
        vals.len() >= 1,
    ensures
        -(register_span(vals.len()) / 2) <= signed_registers_value(vals) < register_span(vals.len()) / 2,
        signed_registers_value(vals) == registers_value(vals) || signed_registers_value(vals)
            == registers_value(vals) - register_span(vals.len()),
{
    lemma_registers_value_bound(vals);
    let sq = register_span((vals.len() - 1) as nat);
    assert(register_span(vals.len()) == 65536 * sq);
    assert(register_span(vals.len()) / 2 == 0x8000 * sq);
    if vals[0] >= 0x8000 {
        assert(vals[0] * sq >= 0x8000 * sq) by (nonlinear_arith)
            requires vals[0] >= 0x8000;
    } else {
        assert((vals[0] + 1) * sq <= 0x8000 * sq) by (nonlinear_arith)
            requires vals[0] < 0x8000;
    }
}

/// The registers as one unsigned number, keeping its low 64 bits when more than
/// four registers are given.
pub fn unsigned_value(values: &[u16]) -> (r: u64)
    ensures
        r == registers_value(values@) % u64_modulus(),
{
    let mut sum: u64 = 0;
    let mut i: usize = 0;
    assert(values@.take(0) =~= Seq::<u16>::empty());
    while i < values.len()
        invariant
            i <= values.len(),
            sum == registers_value(values@.take(i as int)) % u64_modulus(),
        decreases values.len() - i,
    {
        proof {
            lemma_take_step(values@, i as int);
            let r = registers_value(values@.take(i as int)) as int;
            let m = u64_modulus() as int;
            lemma_mul_mod_noop_left(r, 65536, m);
            lemma_add_mod_noop(r * 65536, values@[i as int] as int, m);
            assert((values@[i as int] as int) % m == values@[i as int] as int);
            assert(((r * 65536) % m) % m == (r * 65536) % m) by {
                vstd::arithmetic::div_mod::lemma_mod_twice(r * 65536, m);
            }
        }
        sum = sum.wrapping_mul(65536).wrapping_add(values[i] as u64);
        i = i + 1;
    }
    assert(values@.take(values.len() as int) =~= values@);
    sum
}

/// The registers as one signed two's complement number (one to four registers).
pub fn signed_value(values: &[u16]) -> (r: i64)
    requires
        1 <= values.len() <= 4,
    ensures
        r == signed_registers_value(values@),
{
    let mut sum: u64 = 0;
    let mut span: u128 = 1;
    let mut i: usize = 0;
    assert(values@.take(0) =~= Seq::<u16>::empty());
    while i < values.len()
        invariant
            i <= values.len() <= 4,
            sum == registers_value(values@.take(i as int)),
            span == register_span(i as nat),
        decreases values.len() - i,
    {
        proof {
            lemma_take_step(values@, i as int);
            lemma_registers_value_bound(values@.take(i as int));
            assert(register_span(i as nat) <= 0x1_0000_0000_0000) by {
                reveal_with_fuel(register_span, 4);
            }
            assert(registers_value(values@.take(i as int)) * 65536 + values@[i as int]
                < 0x1_0000_0000_0000 * 65536) by (nonlinear_arith)
                requires
                    registers_value(values@.take(i as int)) < 0x1_0000_0000_0000,
                    values@[i as int] < 65536,
            ;
        }
        sum = sum * 65536 + values[i] as u64;
        span = span * 65536;
        i = i + 1;
    }
    proof {
        assert(values@.take(values.len() as int) =~= values@);
        lemma_registers_value_bound(values@);
        assert(register_span(values.len() as nat) <= 0x1_0000_0000_0000_0000) by {
            reveal_with_fuel(register_span, 5);
        }
        assert(values@[0] * register_span((values.len() - 1) as nat) * 2
            == values@[0] * 2 * register_span((values.len() - 1) as nat)) by (nonlinear_arith);
    }
    if values[0] >= 0x8000 {
        proof {
            let sq = register_span((values.len() - 1) as nat);
            assert(span == 65536 * sq);
            assert(values@[0] * sq >= 0x8000 * sq) by (nonlinear_arith)
                requires values@[0] >= 0x8000;
            assert(sq <= 0x1_0000_0000_0000) by {
                reveal_with_fuel(register_span, 4);
            }
        }
        ((sum as i128) - (span as i128)) as i64
    } else {
        proof {
            let sq = register_span((values.len() - 1) as nat);
            assert(span == 65536 * sq);
            assert((values@[0] + 1) * sq <= 0x8000 * sq) by (nonlinear_arith)
                requires values@[0] < 0x8000;
            assert(sq <= 0x1_0000_0000_0000) by {
                reveal_with_fuel(register_span, 4);
            }
            assert(0x8000 * sq <= 0x8000_0000_0000_0000) by (nonlinear_arith)
                requires sq <= 0x1_0000_0000_0000;
        }
        sum as i64
    }
}


/// The bit position or enumeration value of a symbol: its value when that is a
/// non-negative integer.
pub open spec fn symbol_unsigned(sym: Symbol) -> Option<u64> {
    match sym.value {
        SymbolValue::Number(JsonNumber::PosInt(n)) => Some(n),
        _ => None,
    }
}

/// Whether bit `n` of the registers is clear: register `n / 16`, bit `n % 16`
/// counted from the least significant bit.
pub open spec fn bit_is_clear(vals: Seq<u16>, n: u64) -> bool {
    (vals[(n / 16) as int] >> ((n % 16) as u16)) & 1u16 == 0
}

/// Every numeric symbol names a bit that the registers hold.
pub open spec fn bitfield_symbols_readable(syms: Seq<Symbol>, vals: Seq<u16>) -> bool {
    forall|i: int|
        0 <= i < syms.len() ==> (#[trigger] syms[i].value matches SymbolValue::Number(num) ==> (
        num matches JsonNumber::PosInt(n) && n / 16 < vals.len()))
}

/// The names of the numeric symbols whose bit is clear (a clear bit marks a set flag),
/// in order, separated by `|` (no separator is written while the text is still empty).
pub open spec fn bitfield_names(syms: Seq<Symbol>, vals: Seq<u16>) -> Seq<char>
    decreases syms.len(),
{
    if syms.len() == 0 {
        Seq::empty()
    } else {
        let prev = bitfield_names(syms.drop_last(), vals);
        let sym = syms.last();
        match symbol_unsigned(sym) {
            Some(n) => if bit_is_clear(vals, n) {
                if prev.len() == 0 {
                    sym.name@
                } else {
                    prev + "|"@ + sym.name@
                }
            } else {
                prev
            },
            None => prev,
        }
    }
}

/// How many symbols hold a value that is not a number.
pub open spec fn non_numeric_symbols(syms: Seq<Symbol>) -> nat
    decreases syms.len(),
{
    if syms.len() == 0 {
        0
    } else {
        non_numeric_symbols(syms.drop_last()) + if syms.last().value is Other {
            1nat
        } else {
            0nat
        }
    }
}

/// The shown text of a bitfield: the set flags, then the registers in hexadecimal.
/// Only the hexadecimal part is shown when no flag is set or all registers are zero.
pub open spec fn bitfield_text(syms: Seq<Symbol>, vals: Seq<u16>) -> Seq<char> {
    let names = bitfield_names(syms, vals);
    let sum = registers_value(vals) % u64_modulus();
    if names.len() == 0 || sum == 0 {
        "(0x"@ + hexadecimal(sum) + ")"@
    } else {
        names + " (0x"@ + hexadecimal(sum) + ")"@
    }
}

/// The decoded text of a bitfield and the number of symbols skipped for not being numbers;
/// `None` when a numeric symbol is no bit position of these registers.
pub fn bitfield_flags(syms: &Vec<Symbol>, vals: &[u16]) -> (r: Option<(String, usize)>)
    ensures
        r is Some <==> bitfield_symbols_readable(syms@, vals@),
        r matches Some((text, skipped)) ==> text@ == bitfield_text(syms@, vals@)
            && skipped == non_numeric_symbols(syms@),
{
    let mut names = String::new();
    let mut skipped: usize = 0;
    let mut i: usize = 0;
    assert(syms@.take(0) =~= Seq::<Symbol>::empty());
    while i < syms.len()
        invariant
            i <= syms.len(),
            bitfield_symbols_readable(syms@.take(i as int), vals@),
            names@ == bitfield_names(syms@.take(i as int), vals@),
            skipped == non_numeric_symbols(syms@.take(i as int)),
            skipped <= i,
        decreases syms.len() - i,
    {
        let sym = &syms[i];
        assert(syms@.take(i + 1).drop_last() =~= syms@.take(i as int));
        assert(syms@.take(i + 1).last() == syms@[i as int]);
        match &sym.value {
            SymbolValue::Number(JsonNumber::PosInt(n)) => {
                let reg = *n / 16;
                if reg >= vals.len() as u64 {
                    assert(!bitfield_symbols_readable(syms@, vals@)) by {
                        assert(syms@[i as int].value matches SymbolValue::Number(_));
                    }
                    return None;
                }
                let bit = (*n % 16) as u16;
                if (vals[reg as usize] >> bit) & 1u16 == 0 {
                    if names.unicode_len() != 0 {
                        push_str(&mut names, "|");
                    }
                    push_str(&mut names, sym.name.as_str());
                }
            },
            SymbolValue::Number(_) => {
                assert(!bitfield_symbols_readable(syms@, vals@)) by {
                    assert(syms@[i as int].value matches SymbolValue::Number(_));
                }
                return None;
            },
            SymbolValue::Other => {
                skipped = skipped + 1;
            },
        }
        i = i + 1;
        assert(bitfield_symbols_readable(syms@.take(i as int), vals@)) by {
            assert forall|j: int| 0 <= j < i implies (#[trigger] syms@.take(i as int)[j].value matches SymbolValue::Number(num) ==> (
                num matches JsonNumber::PosInt(n) && n / 16 < vals@.len())) by {
                if j < i - 1 {
                    assert(syms@.take(i as int)[j] == syms@.take(i - 1)[j]);
                }
            }
        }
    }
    assert(syms@.take(syms.len() as int) =~= syms@);
    let sum = unsigned_value(vals);
    let mut text = String::new();
    if names.unicode_len() == 0 || sum == 0 {
        push_str(&mut text, "(0x");
    } else {
        text = names;
        push_str(&mut text, " (0x");
    }
    push_hexadecimal(&mut text, sum);
    push_str(&mut text, ")");
    Some((text, skipped))
}

/// The index of the first symbol whose value is the non-negative integer `v`.
pub open spec fn first_symbol_with(syms: Seq<Symbol>, v: u64) -> Option<int>
    decreases syms.len(),
{
    if syms.len() == 0 {
        None
    } else if symbol_unsigned(syms[0]) == Some(v) {
        Some(0)
    } else {
        match first_symbol_with(syms.drop_first(), v) {
            Some(k) => Some(k + 1),
            None => None,
        }
    }
}

proof fn lemma_first_symbol_with(syms: Seq<Symbol>, v: u64)
    ensures
        first_symbol_with(syms, v) matches Some(k) ==> 0 <= k < syms.len()
            && symbol_unsigned(syms[k]) == Some(v)
            && forall|j: int| 0 <= j < k ==> symbol_unsigned(#[trigger] syms[j]) != Some(v),
        first_symbol_with(syms, v) is None ==> forall|j: int|
            0 <= j < syms.len() ==> symbol_unsigned(#[trigger] syms[j]) != Some(v),
    decreases syms.len(),
{
    if syms.len() > 0 {
        lemma_first_symbol_with(syms.drop_first(), v);
        assert forall|j: int| 1 <= j < syms.len() implies #[trigger] syms[j] == syms.drop_first()[j - 1] by {}
    }
}

/// The text of an enumeration value that a symbol names: the name, then the value in brackets.
pub open spec fn enum_symbol_text(sym: Symbol, v: u64) -> Seq<char> {
    sym.name@ + " ("@ + decimal(v as nat) + ")"@
}

/// The text of the first symbol naming value `v`, if one does.
pub fn enum_name(syms: &Vec<Symbol>, v: u16) -> (r: Option<String>)
    ensures
        r is Some <==> first_symbol_with(syms@, v as u64) is Some,
        r matches Some(t) ==> t@ == enum_symbol_text(syms@[first_symbol_with(syms@, v as u64)->0], v as u64),
{
    proof {
        lemma_first_symbol_with(syms@, v as u64);
    }
    let mut i: usize = 0;
    while i < syms.len()
        invariant
            i <= syms.len(),
            forall|j: int| 0 <= j < i ==> symbol_unsigned(#[trigger] syms@[j]) != Some(v as u64),
            first_symbol_with(syms@, v as u64) matches Some(k) ==> 0 <= k < syms@.len()
                && symbol_unsigned(syms@[k]) == Some(v as u64)
                && forall|j: int| 0 <= j < k ==> symbol_unsigned(#[trigger] syms@[j]) != Some(v as u64),
            first_symbol_with(syms@, v as u64) is None ==> forall|j: int|
                0 <= j < syms@.len() ==> symbol_unsigned(#[trigger] syms@[j]) != Some(v as u64),
        decreases syms.len() - i,
    {
        let sym = &syms[i];
        if let SymbolValue::Number(JsonNumber::PosInt(n)) = &sym.value {
            if *n == v as u64 {
                let mut t = String::new();
                push_str(&mut t, sym.name.as_str());
                push_str(&mut t, " (");
                push_decimal(&mut t, *n);
                push_str(&mut t, ")");
                return Some(t);
            }
        }
        i = i + 1;
    }
    None
}

/// The bytes that registers hold: two per register, high byte first.
pub open spec fn register_bytes(vals: Seq<u16>) -> Seq<u8> {
    Seq::new(
        2 * vals.len(),
        |i: int|
            if i % 2 == 0 {
                (vals[i / 2] / 256) as u8
            } else {
                (vals[i / 2] % 256) as u8
            },
    )
}

/// The bytes before the first zero byte (all of them when none is zero).
pub open spec fn before_nul(bytes: Seq<u8>) -> Seq<u8>
    decreases bytes.len(),
{
    if bytes.len() == 0 {
        bytes
    } else if bytes[0] == 0 {
        Seq::empty()
    } else {
        seq![bytes[0]] + before_nul(bytes.drop_first())
    }
}

proof fn lemma_before_nul_prefix(bytes: Seq<u8>, i: int)
    requires
        0 <= i < bytes.len(),
        forall|j: int| 0 <= j < i ==> bytes[j] != 0,
    ensures
        bytes[i] == 0 ==> before_nul(bytes) == bytes.take(i),
        before_nul(bytes.take(i + 1)) == bytes.take(i + 1) || bytes[i] == 0,
    decreases i,
{
    if i > 0 {
        lemma_before_nul_prefix(bytes.drop_first(), i - 1);
        assert(bytes.take(i) =~= seq![bytes[0]] + bytes.drop_first().take(i - 1));
        assert(bytes.take(i + 1) =~= seq![bytes[0]] + bytes.drop_first().take(i));
        assert(bytes.take(i + 1).drop_first() =~= bytes.drop_first().take(i));
    } else {
        assert(bytes.take(0) =~= Seq::<u8>::empty());
        if bytes[0] != 0 {
            let t = bytes.take(1);
            assert(t.len() == 1 && t[0] == bytes[0]);
            assert(t.drop_first() =~= Seq::<u8>::empty());
            assert(before_nul(t.drop_first()) =~= Seq::<u8>::empty());
            assert(before_nul(t) =~= seq![bytes[0]]);
            assert(bytes.take(1) =~= seq![bytes[0]]);
        }
    }
}

proof fn lemma_before_nul_all(bytes: Seq<u8>)
    requires
        forall|j: int| 0 <= j < bytes.len() ==> bytes[j] != 0,
    ensures
        before_nul(bytes) == bytes,
    decreases bytes.len(),
{
    if bytes.len() > 0 {
        lemma_before_nul_all(bytes.drop_first());
        assert(bytes =~= seq![bytes[0]] + bytes.drop_first());
    }
}

/// The bytes of a register string: the registers' bytes up to the first zero byte.
pub fn string_bytes(vals: &[u16]) -> (r: Vec<u8>)
    ensures
        r@ == before_nul(register_bytes(vals@)),
{
    let ghost all = register_bytes(vals@);
    let mut out: Vec<u8> = Vec::new();
    let mut i: usize = 0;
    while i < vals.len()
        invariant
            i <= vals.len(),
            all == register_bytes(vals@),
            out@ == all.take(2 * i),
            forall|j: int| 0 <= j < 2 * i ==> all[j] != 0,
        decreases vals.len() - i,
    {
        let hi = (vals[i] / 256) as u8;
        let lo = (vals[i] % 256) as u8;
        assert(all[2 * i] == hi);
        assert(all[2 * i + 1] == lo);
        if hi == 0 {
            proof { lemma_before_nul_prefix(all, 2 * i); }
            return out;
        }
        out.push(hi);
        if lo == 0 {
            proof { lemma_before_nul_prefix(all, 2 * i + 1); }
            assert(out@ =~= all.take(2 * i + 1));
            return out;
        }
        out.push(lo);
        assert(out@ =~= all.take(2 * i + 2));
        i = i + 1;
    }
    proof {
        assert(all.take(2 * vals.len()) =~= all);
        lemma_before_nul_all(all);
    }
    out
}

/// The text that UTF-8 bytes encode: std's `String::from_utf8`, which succeeds exactly
/// on valid UTF-8 and then holds the decoded characters.
#[verifier::external_body]
fn utf8_text(bytes: Vec<u8>) -> (r: Option<String>)
    ensures
        r is Some <==> valid_utf8(bytes@),
        r matches Some(t) ==> t@ == decode_utf8(bytes@),
{
    String::from_utf8(bytes).ok()
}

/// The text of a register string: its bytes up to the first zero byte, when they are valid UTF-8.
pub open spec fn register_string(vals: Seq<u16>) -> Option<Seq<char>> {
    let bytes = before_nul(register_bytes(vals));
    if valid_utf8(bytes) {
        Some(decode_utf8(bytes))
    } else {
        None
    }
}

/// Reads a register string: its bytes up to the first zero byte, decoded as UTF-8;
/// `None` when they are no valid UTF-8.
pub fn parse_string(vals: &[u16]) -> (r: Option<String>)
    ensures
        r is Some <==> register_string(vals@) is Some,
        r matches Some(t) ==> register_string(vals@) == Some(t@),
{
    utf8_text(string_bytes(vals))
}

} // verus!
