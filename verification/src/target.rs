//! The command-line targets: `host[:port]` of the Modbus device, `wss://ip:port` of the EEBus device.
use vstd::prelude::*;
use crate::text::{decimal, digit_char, find_str, first_occurrence};

verus! {

/// Why a port number cannot be read.
#[derive(Debug, Clone, Copy, PartialEq, Eq, Structural)]
pub enum PortError {
    /// Nothing to read.
    Empty,
    /// A character that is no decimal digit (a lone `+` counts as one).
    InvalidDigit,
    /// The number does not fit in 16 bits.
    TooLarge,
}

/// The Modbus TCP port of a device given without one.
pub open spec fn default_port() -> u16 {
    1502
}

/// The value of the first `k` decimal digits of `d`, read left to right; the first
/// non-digit, or the first prefix above 65535, ends the reading with an error.
pub open spec fn digits_value(d: Seq<char>, k: int) -> Result<int, PortError>
    decreases k,
{
    if k <= 0 {
        Ok(0)
    } else {
        match digits_value(d, k - 1) {
            Err(e) => Err(e),
            Ok(v) => {
                let c = d[k - 1];
                if !('0' <= c && c <= '9') {
                    Err(PortError::InvalidDigit)
                } else if v * 10 + (c as int - 48) > 65535 {
                    Err(PortError::TooLarge)
                } else {
                    Ok(v * 10 + (c as int - 48))
                }
            },
        }
    }
}

/// A port number as std's `u16` parsing reads it: an optional `+`, then decimal digits.
pub open spec fn port_value(t: Seq<char>) -> Result<u16, PortError> {
    if t.len() == 0 {
        Err(PortError::Empty)
    } else {
        let d = if t[0] == '+' {
            t.drop_first()
        } else {
            t
        };
        if d.len() == 0 {
            Err(PortError::InvalidDigit)
        } else {
            match digits_value(d, d.len() as int) {
                Ok(v) => Ok(v as u16),
                Err(e) => Err(e),
            }
        }
    }
}

/// Reads a port number.
pub fn parse_port(t: &str) -> (r: Result<u16, PortError>)
    ensures
        r == port_value(t@),
{
    let n = t.unicode_len();
    if n == 0 {
        return Err(PortError::Empty);
    }
    let start: usize = if t.get_char(0) == '+' {
        1
    } else {
        0
    };
    let ghost d = if t@[0] == '+' {
        t@.drop_first()
    } else {
        t@
    };
    if start == n {
        return Err(PortError::InvalidDigit);
    }
    let mut v: u32 = 0;
    let mut i: usize = start;
    while i < n
        invariant
            n == t@.len(),
            start <= i <= n,
            start == 0 || start == 1,
            d.len() == n - start,
            forall|x: int| 0 <= x < d.len() ==> d[x] == t@[x + start],
            digits_value(d, i - start) == Ok::<int, PortError>(v as int),
            v <= 65535,
            (start == 1) == (t@[0] == '+'),
            d == (if t@[0] == '+' { t@.drop_first() } else { t@ }),
        decreases n - i,
    {
        let c = t.get_char(i);
        assert(c == d[i - start]);
        if !('0' <= c && c <= '9') {
            proof {
                assert(digits_value(d, i - start + 1) == Err::<int, PortError>(PortError::InvalidDigit));
                lemma_digits_error_sticks(d, i - start + 1, d.len() as int);
            }
            return Err(PortError::InvalidDigit);
        }
        let next: u32 = v * 10 + (c as u32 - 48);
        if next > 65535 {
            proof {
                assert(digits_value(d, i - start + 1) == Err::<int, PortError>(PortError::TooLarge));
                lemma_digits_error_sticks(d, i - start + 1, d.len() as int);
            }
            return Err(PortError::TooLarge);
        }
        v = next;
        i = i + 1;
    }
    Ok(v as u16)
}

proof fn lemma_digits_error_sticks(d: Seq<char>, k: int, k2: int)
    requires
        0 < k <= k2,
        digits_value(d, k) is Err,
    ensures
        digits_value(d, k2) == digits_value(d, k),
    decreases k2 - k,
{
    if k < k2 {
        lemma_digits_error_sticks(d, k, k2 - 1);
    }
}

/// Host and port of a `host[:port]` target: the text up to the first `:` and the port after it,
/// or the whole text and the default port.
pub open spec fn target_of(s: Seq<char>) -> Result<(Seq<char>, u16), PortError> {
    match first_occurrence(s, seq![':']) {
        None => Ok((s, default_port())),
        Some(i) => match port_value(s.subrange(i + 1, s.len() as int)) {
            Ok(p) => Ok((s.subrange(0, i), p)),
            Err(e) => Err(e),
        },
    }
}

/// Reads a `host[:port]` target.
#[verifier::rlimit(30)]
pub fn parse_target(s: &str) -> (r: Result<(String, u16), PortError>)
    ensures
        match r {
            Ok((h, p)) => target_of(s@) == Ok::<(Seq<char>, u16), PortError>((h@, p)),
            Err(e) => target_of(s@) == Err::<(Seq<char>, u16), PortError>(e),
        },
{
    proof {
        reveal_strlit(":");
    }
    assert(":"@ =~= seq![':']);
    match find_str(s, ":") {
        None => Ok((s.to_owned(), 1502)),
        Some(i) => {
            let n = s.unicode_len();
            let host = s.substring_char(0, i);
            let port = s.substring_char(i + 1, n);
            match parse_port(port) {
                Ok(p) => Ok((host.to_owned(), p)),
                Err(e) => Err(e),
            }
        },
    }
}

/// The address without its scheme (what follows the first `://`, or all of it) and the IP
/// before the first `:` of that; `None` when no `:` follows.
pub open spec fn ship_target_of(s: Seq<char>) -> Option<(Seq<char>, Seq<char>)> {
    let rest = match first_occurrence(s, seq![':', '/', '/']) {
        Some(i) => s.subrange(i + 3, s.len() as int),
        None => s,
    };
    match first_occurrence(rest, seq![':']) {
        Some(j) => Some((rest, rest.subrange(0, j))),
        None => None,
    }
}

/// Reads a `wss://ip:port` target into the address without scheme and the IP.
#[verifier::rlimit(30)]
pub fn ship_target(s: &str) -> (r: Option<(String, String)>)
    ensures
        match r {
            Some((rest, ip)) => ship_target_of(s@) == Some((rest@, ip@)),
            None => ship_target_of(s@) is None,
        },
{
    proof {
        reveal_strlit(":");
        reveal_strlit("://");
    }
    assert(":"@ =~= seq![':']);
    assert("://"@ =~= seq![':', '/', '/']);
    let n = s.unicode_len();
    let rest: &str = match find_str(s, "://") {
        Some(i) => s.substring_char(i + 3, n),
        None => s,
    };
    match find_str(rest, ":") {
        Some(j) => {
            Some((rest.to_owned(), rest.substring_char(0, j).to_owned()))
        },
        None => None,
    }
}


proof fn lemma_digits_prefix(d: Seq<char>, e: Seq<char>, k: int)
    requires
        0 <= k <= d.len(),
        k <= e.len(),
        d.take(k) == e.take(k),
    ensures
        digits_value(d, k) == digits_value(e, k),
    decreases k,
{
    if k > 0 {
        assert(d.take(k - 1) =~= d.take(k).take(k - 1));
        assert(e.take(k - 1) =~= e.take(k).take(k - 1));
        lemma_digits_prefix(d, e, k - 1);
        assert(d[k - 1] == d.take(k)[k - 1]);
        assert(e[k - 1] == e.take(k)[k - 1]);
    }
}

proof fn lemma_decimal_digits(n: nat)
    requires
        n <= 65535,
    ensures
        decimal(n).len() > 0,
        '0' <= decimal(n)[0] <= '9',
        digits_value(decimal(n), decimal(n).len() as int) == Ok::<int, PortError>(n as int),
    decreases n,
{
    let d = decimal(n);
    if n < 10 {
        assert(d == seq![digit_char(n)]);
        assert(digits_value(d, 0) == Ok::<int, PortError>(0));
    } else {
        let p = decimal(n / 10);
        lemma_decimal_digits(n / 10);
        assert(d == p.push(digit_char(n % 10)));
        assert(d.take(p.len() as int) =~= p.take(p.len() as int));
        lemma_digits_prefix(d, p, p.len() as int);
        assert(d[0] == p[0]);
        assert((n / 10) * 10 + n % 10 == n);
    }
}

/// Reading back the decimal text of a port gives the port: the target parser takes
/// exactly the numbers that the configuration and log texts write.
pub proof fn lemma_port_text_roundtrip(p: u16)
    ensures
        port_value(decimal(p as nat)) == Ok::<u16, PortError>(p),
{
    lemma_decimal_digits(p as nat);
}

} // verus!
