//! A demonstration device: a 32-bit register seeded from the argument text.
//!
//! The device holds one 32-bit value. Its argument text is read as a
//! hexadecimal number; text that is not one falls back to a fixed default,
//! because construction must absorb bad input rather than fail. A load
//! answers with the value's four little-endian bytes; a store is accepted
//! and ignored, so the register keeps its seeded value for its whole life.

use vstd::prelude::*;

use crate::plugin::Plugin;

verus! {

/// The value the device falls back to when its argument text is not a
/// hexadecimal number that fits in 32 bits.
pub const UART_DEFAULT: u32 = 0xABAB;

/// Whether a character is a hexadecimal digit.
pub open spec fn is_hex_digit(c: char) -> bool {
    ||| '0' as int <= c as int && c as int <= '9' as int
    ||| 'a' as int <= c as int && c as int <= 'f' as int
    ||| 'A' as int <= c as int && c as int <= 'F' as int
}

/// The numeric value of a hexadecimal digit.
pub open spec fn hex_digit_value(c: char) -> int {
    if '0' as int <= c as int && c as int <= '9' as int {
        c as int - '0' as int
    } else if 'a' as int <= c as int && c as int <= 'f' as int {
        c as int - 'a' as int + 10
    } else {
        c as int - 'A' as int + 10
    }
}

/// The digits of a number: the text with one optional leading plus sign
/// removed.
pub open spec fn strip_sign(s: Seq<char>) -> Seq<char> {
    if s.len() > 0 && s[0] == '+' {
        s.subrange(1, s.len() as int)
    } else {
        s
    }
}

/// Whether every character is a hexadecimal digit.
pub open spec fn all_hex_digits(s: Seq<char>) -> bool {
    forall|i: int| 0 <= i < s.len() ==> is_hex_digit(s[i])
}

/// The number a sequence of hexadecimal digits spells, most significant
/// digit first.
pub open spec fn hex_value(s: Seq<char>) -> int
    decreases s.len(),
{
    if s.len() == 0 {
        0
    } else {
        16 * hex_value(s.drop_last()) + hex_digit_value(s.last())
    }
}

/// What parsing a 32-bit hexadecimal number from text yields: after removing
/// one optional leading plus sign there must be at least one character, all
/// of them hexadecimal digits, spelling a value that fits in 32 bits;
/// anything else is rejected.
pub open spec fn spec_parse_hex_u32(s: Seq<char>) -> Option<u32> {
    let d = strip_sign(s);
    if d.len() > 0 && all_hex_digits(d) && hex_value(d) <= u32::MAX {
        Some(hex_value(d) as u32)
    } else {
        None
    }
}

/// The register value the argument text seeds: the hexadecimal number it
/// spells, or the default when it spells none.
pub open spec fn uart_seed(args: Seq<char>) -> u32 {
    match spec_parse_hex_u32(args) {
        Some(v) => v,
        None => UART_DEFAULT,
    }
}

/// The four little-endian bytes of a 32-bit value.
pub open spec fn u32_le_bytes(v: u32) -> Seq<u8> {
    seq![
        (v & 0xFF) as u8,
        ((v >> 8) & 0xFF) as u8,
        ((v >> 16) & 0xFF) as u8,
        ((v >> 24) & 0xFF) as u8,
    ]
}

proof fn lemma_hex_value_nonneg(s: Seq<char>)
    requires
        all_hex_digits(s),
    ensures
        hex_value(s) >= 0,
    decreases s.len(),
{
    if s.len() > 0 {
        assert(all_hex_digits(s.drop_last())) by {
            assert(forall|i: int|
                0 <= i < s.drop_last().len() ==> s.drop_last()[i] == s[i] && is_hex_digit(s[i]));
        }
        lemma_hex_value_nonneg(s.drop_last());
    }
}

proof fn lemma_hex_value_snoc(s: Seq<char>, k: int)
    requires
        0 <= k < s.len(),
    ensures
        hex_value(s.subrange(0, k + 1)) == 16 * hex_value(s.subrange(0, k)) + hex_digit_value(
            s[k],
        ),
{
    let t = s.subrange(0, k + 1);
    assert(t.drop_last() =~= s.subrange(0, k));
    assert(t.last() == s[k]);
}

proof fn lemma_hex_value_prefix_le(s: Seq<char>, m: int)
    requires
        all_hex_digits(s),
        0 <= m <= s.len(),
    ensures
        hex_value(s.subrange(0, m)) <= hex_value(s),
    decreases s.len() - m,
{
    if m == s.len() {
        assert(s.subrange(0, m) =~= s);
    } else {
        lemma_hex_value_snoc(s, m);
        assert(all_hex_digits(s.subrange(0, m))) by {
            assert(forall|i: int|
                0 <= i < m ==> s.subrange(0, m)[i] == s[i] && is_hex_digit(s[i]));
        }
        lemma_hex_value_nonneg(s.subrange(0, m));
        assert(is_hex_digit(s[m]));
        assert(hex_digit_value(s[m]) >= 0);
        lemma_hex_value_prefix_le(s, m + 1);
    }
}

/// Parse a hexadecimal number the way the device seeds itself: one optional
/// leading plus sign, then at least one hexadecimal digit, rejecting any
/// other character and any value that does not fit in 32 bits.
pub fn parse_hex_u32(s: &str) -> (r: Option<u32>)
    ensures
        r == spec_parse_hex_u32(s@),
{
    let n = s.unicode_len();
    let ghost d = strip_sign(s@);
    let mut start: usize = 0;
    if n > 0 && s.get_char(0) == '+' {
        start = 1;
    }
    proof {
        assert(s@.subrange(0, n as int) =~= s@);
        assert(d == s@.subrange(start as int, n as int));
    }
    if start == n {
        return None;
    }
    let mut acc: u32 = 0;
    let mut j: usize = start;
    while j < n
        invariant
            start <= j <= n,
            start < n,
            n == s@.len(),
            d == strip_sign(s@),
            d == s@.subrange(start as int, n as int),
            all_hex_digits(d.subrange(0, j - start)),
            acc == hex_value(d.subrange(0, j - start)),
        decreases n - j,
    {
        let ghost k = j - start;
        let c = s.get_char(j);
        proof {
            assert(d[k] == c);
        }
        let cv = c as u32;
        let dv: u32 = if 48 <= cv && cv <= 57 {
            cv - 48
        } else if 97 <= cv && cv <= 102 {
            cv - 97 + 10
        } else if 65 <= cv && cv <= 70 {
            cv - 65 + 10
        } else {
            proof {
                assert(!is_hex_digit(d[k]));
            }
            return None;
        };
        proof {
            assert(is_hex_digit(d[k]));
            assert(hex_digit_value(d[k]) == dv as int);
            lemma_hex_value_snoc(d, k);
        }
        if acc > 0x0FFF_FFFF {
            proof {
                assert(hex_value(d.subrange(0, k + 1)) > u32::MAX);
                if all_hex_digits(d) {
                    lemma_hex_value_prefix_le(d, k + 1);
                }
            }
            return None;
        }
        acc = acc * 16 + dv;
        j += 1;
    }
    proof {
        assert(d.subrange(0, n - start) =~= d);
    }
    Some(acc)
}

/// A plugin whose device state is the single 32-bit register.
pub struct UartPlugin {
    data: u32,
}

impl View for UartPlugin {
    type V = u32;

    closed spec fn view(&self) -> u32 {
        self.data
    }
}

impl Plugin for UartPlugin {
    /// Construction seeds the register from the argument text.
    open spec fn from_args_spec(args: Seq<char>) -> u32 {
        uart_seed(args)
    }

    /// Every register value is a valid device state.
    open spec fn wf(v: u32) -> bool {
        true
    }

    /// The device answers loads of its full width only.
    open spec fn load_req(v: u32, offset: u64, len: nat) -> bool {
        len == 4
    }

    /// A load succeeds at any offset and produces the register's
    /// little-endian bytes; the register is unchanged.
    open spec fn load_spec(v: u32, offset: u64, len: nat) -> (u32, Seq<u8>, bool) {
        (v, u32_le_bytes(v), true)
    }

    open spec fn store_req(v: u32, offset: u64, data: Seq<u8>) -> bool {
        true
    }

    /// A store is accepted and ignored: the register keeps its value.
    open spec fn store_spec(v: u32, offset: u64, data: Seq<u8>) -> (u32, bool) {
        (v, true)
    }

    fn new(args: &str) -> (r: Self) {
        let data = match parse_hex_u32(args) {
            Some(v) => v,
            None => UART_DEFAULT,
        };
        UartPlugin { data }
    }

    fn load(&mut self, offset: u64, buf: &mut Vec<u8>) -> (r: bool) {
        let v = self.data;
        buf[0] = (v & 0xFF) as u8;
        buf[1] = ((v >> 8) & 0xFF) as u8;
        buf[2] = ((v >> 16) & 0xFF) as u8;
        buf[3] = ((v >> 24) & 0xFF) as u8;
        proof {
            assert(buf@ =~= u32_le_bytes(self.data));
        }
        true
    }

    fn store(&mut self, offset: u64, buf: &[u8]) -> (r: bool) {
        true
    }
}

} // verus!
