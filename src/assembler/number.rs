//! Number literals: hexadecimal digits with an optional base letter, `H`
//! for base 16 and `Q` for base 8; base 10 without one.
use vstd::prelude::*;

use crate::coding::reader::{is_digit, Reader};
use crate::instruction::RestartNumber;

verus! {

#[derive(Copy, Clone, Debug, Hash, PartialEq, Eq, Structural)]
pub enum Base {
    Hex,
    Octal,
}

/// A literal as written: its digits and its base letter.
#[derive(Clone, Debug, Hash, PartialEq, Eq)]
pub struct LiteralNumber {
    pub digits: Vec<u8>,
    pub base: Option<Base>,
}

pub open spec fn is_hex_char(b: u8) -> bool {
    is_digit(b) || 0x41 <= b <= 0x46
}

pub open spec fn digit_of(b: u8) -> nat {
    if is_digit(b) {
        (b - 0x30) as nat
    } else {
        (b - 0x41 + 10) as nat
    }
}

pub open spec fn radix(base: Option<Base>) -> nat {
    match base {
        Some(Base::Hex) => 16,
        Some(Base::Octal) => 8,
        None => 10,
    }
}

/// The value of a digit string in `base`; `None` where a digit does not
/// lie in the base.
pub open spec fn digits_value(ds: Seq<u8>, base: nat) -> Option<nat>
    decreases ds.len(),
{
    if ds.len() == 0 {
        Some(0)
    } else {
        match digits_value(ds.drop_last(), base) {
            None => None,
            Some(v) => if is_hex_char(ds.last()) && digit_of(ds.last()) < base {
                Some(v * base + digit_of(ds.last()))
            } else {
                None
            },
        }
    }
}

/// The value of a literal: its digits must be non-empty and lie in the
/// base, and the value must fit in 16 bits.
pub open spec fn literal_value(digits: Seq<u8>, base: Option<Base>) -> Option<u16> {
    if digits.len() == 0 {
        None
    } else {
        match digits_value(digits, radix(base)) {
            Some(v) => if v <= 0xFFFF {
                Some(v as u16)
            } else {
                None
            },
            None => None,
        }
    }
}

/// The first index at or after `i` that holds no hexadecimal digit.
pub open spec fn hex_end(s: Seq<u8>, i: int) -> int
    decreases s.len() - i,
{
    if i < 0 || i >= s.len() || !is_hex_char(s[i]) {
        i
    } else {
        hex_end(s, i + 1)
    }
}

pub proof fn lemma_hex_end(s: Seq<u8>, i: int)
    requires
        0 <= i <= s.len(),
    ensures
        i <= hex_end(s, i) <= s.len(),
        forall|k: int| i <= k < hex_end(s, i) ==> is_hex_char(s[k]),
    decreases s.len() - i,
{
    if i < s.len() && is_hex_char(s[i]) {
        lemma_hex_end(s, i + 1);
    }
}

/// A whole text read as a literal: its digits and base letter.
pub open spec fn literal_text(text: Seq<u8>) -> Option<(Seq<u8>, Option<Base>)> {
    let e = hex_end(text, 0);
    if e == 0 {
        None
    } else if e == text.len() {
        Some((text, None))
    } else if e + 1 == text.len() && text[e] == 0x48 {
        Some((text.subrange(0, e), Some(Base::Hex)))
    } else if e + 1 == text.len() && text[e] == 0x51 {
        Some((text.subrange(0, e), Some(Base::Octal)))
    } else {
        None
    }
}

/// Once a prefix has no value, or a value, the whole has none, or one at
/// least as large.
proof fn lemma_prefix_value(ds: Seq<u8>, k: int, base: nat)
    requires
        0 <= k <= ds.len(),
        base >= 1,
    ensures
        digits_value(ds.subrange(0, k), base) is None ==> digits_value(ds, base) is None,
        digits_value(ds.subrange(0, k), base) is Some && digits_value(ds, base) is Some
            ==> digits_value(ds, base).unwrap() >= digits_value(ds.subrange(0, k), base).unwrap(),
    decreases ds.len(),
{
    if k == ds.len() {
        assert(ds.subrange(0, k) =~= ds);
    } else {
        let init = ds.drop_last();
        lemma_prefix_value(init, k, base);
        assert(init.subrange(0, k) =~= ds.subrange(0, k));
        match digits_value(init, base) {
            Some(v) => {
                assert(v * base + digit_of(ds.last()) >= v) by (nonlinear_arith)
                    requires
                        base >= 1,
                ;
            },
            None => {},
        }
    }
}

fn hex_char_value(b: u8) -> (r: Option<u32>)
    ensures
        is_hex_char(b) ==> r == Some(digit_of(b) as u32),
        !is_hex_char(b) ==> r.is_none(),
{
    if b >= 0x30 && b <= 0x39 {
        Some((b - 0x30) as u32)
    } else if b >= 0x41 && b <= 0x46 {
        Some((b - 0x41 + 10) as u32)
    } else {
        None
    }
}

/// The value of a literal, if it has one.
pub fn to_u16(literal: &LiteralNumber) -> (r: Option<u16>)
    ensures
        r == literal_value(literal.digits@, literal.base),
{
    let base: u32 = match literal.base {
        Some(Base::Hex) => 16,
        Some(Base::Octal) => 8,
        None => 10,
    };
    let ds = &literal.digits;
    if ds.len() == 0 {
        return None;
    }
    let mut acc: u32 = 0;
    let mut i: usize = 0;
    while i < ds.len()
        invariant
            base == radix(literal.base),
            ds@ == literal.digits@,
            i <= ds@.len(),
            acc <= 0xFFFF,
            digits_value(ds@.subrange(0, i as int), base as nat) == Some(acc as nat),
        decreases ds.len() - i,
    {
        proof {
            assert(ds@.subrange(0, i + 1).drop_last() =~= ds@.subrange(0, i as int));
        }
        let digit = match hex_char_value(ds[i]) {
            Some(d) => d,
            None => {
                proof {
                    lemma_prefix_value(ds@, i + 1, base as nat);
                }
                return None;
            },
        };
        if digit >= base {
            proof {
                lemma_prefix_value(ds@, i + 1, base as nat);
            }
            return None;
        }
        let next = acc * base + digit;
        if next > 0xFFFF {
            proof {
                lemma_prefix_value(ds@, i + 1, base as nat);
            }
            return None;
        }
        acc = next;
        i = i + 1;
    }
    assert(ds@.subrange(0, i as int) =~= ds@);
    Some(acc as u16)
}

/// The value of a literal as a byte; `None` from `0x100` on.
pub fn to_u8(literal: &LiteralNumber) -> (r: Option<u8>)
    ensures
        r == match literal_value(literal.digits@, literal.base) {
            Some(v) => if v < 0x100 {
                Some(v as u8)
            } else {
                None
            },
            None => None,
        },
{
    match to_u16(literal) {
        Some(v) => if v < 0x100 {
            Some(v as u8)
        } else {
            None
        },
        None => None,
    }
}

/// The restart vector a literal names; `None` outside 0 to 7.
pub fn to_restart_number(literal: &LiteralNumber) -> (r: Option<RestartNumber>)
    ensures
        r == match literal_value(literal.digits@, literal.base) {
            Some(v) => if v < 8 {
                Some(RestartNumber::from_code(v as u8))
            } else {
                None
            },
            None => None,
        },
{
    match to_u16(literal) {
        Some(v) => RestartNumber::from_number(v),
        None => None,
    }
}

/// Reads a literal: a run of hexadecimal digits and an optional `H` or `Q`.
/// `None`, and the reader unchanged, where no digit comes first.
pub fn read_literal(reader: &mut Reader) -> (r: Option<LiteralNumber>)
    requires
        old(reader).wf(),
    ensures
        final(reader).wf(),
        final(reader).all() == old(reader).all(),
        old(reader).position() <= final(reader).position(),
        ({
            let s = old(reader).all();
            let p = old(reader).position();
            let e = hex_end(s, p);
            if e == p {
                r.is_none() && *final(reader) == *old(reader)
            } else {
                &&& r.is_some()
                &&& r.unwrap().digits@ == s.subrange(p, e)
                &&& if e < s.len() && s[e] == 0x48 {
                    r.unwrap().base == Some(Base::Hex) && final(reader).advanced(
                        *old(reader),
                        e + 1 - p,
                    )
                } else if e < s.len() && s[e] == 0x51 {
                    r.unwrap().base == Some(Base::Octal) && final(reader).advanced(
                        *old(reader),
                        e + 1 - p,
                    )
                } else {
                    r.unwrap().base.is_none() && final(reader).advanced(*old(reader), e - p)
                }
            }
        }),
{
    proof {
        old(reader).lemma_wf();
    }
    let ghost all = reader.all();
    let ghost p = reader.position();
    let mut n: usize = 0;
    loop
        invariant
            *reader == *old(reader),
            reader.wf(),
            all == reader.all(),
            p == reader.position(),
            0 <= p <= all.len(),
            p + n <= all.len(),
            hex_end(all, p + n) == hex_end(all, p),
        ensures
            hex_end(all, p) == p + n,
            p + n <= all.len(),
        decreases all.len() - p - n,
    {
        proof {
            reader.lemma_wf();
        }
        match reader.peek_at(n) {
            Some(b) => {
                assert(b == all[p + n]);
                if (b >= 0x30 && b <= 0x39) || (b >= 0x41 && b <= 0x46) {
                    n = n + 1;
                } else {
                    break ;
                }
            },
            None => break ,
        }
    }
    if n == 0 {
        return None;
    }
    let slice = match reader.read_n(n) {
        Some(s) => s,
        None => return None,
    };
    assert(slice@ =~= all.subrange(p, p + n));
    let digits = copy_bytes(slice);
    proof {
        reader.lemma_wf();
        if reader.position() < reader.all().len() {
            assert(reader.rest()[0] == reader.all()[reader.position()]);
        }
    }
    let base = match reader.peek() {
        Some(0x48u8) => {
            reader.skip();
            Some(Base::Hex)
        },
        Some(0x51u8) => {
            reader.skip();
            Some(Base::Octal)
        },
        _ => None,
    };
    Some(LiteralNumber { digits, base })
}

fn copy_bytes(s: &[u8]) -> (r: Vec<u8>)
    ensures
        r@ == s@,
{
    let mut r: Vec<u8> = Vec::new();
    let mut i: usize = 0;
    while i < s.len()
        invariant
            i <= s@.len(),
            r@ == s@.subrange(0, i as int),
        decreases s.len() - i,
    {
        r.push(s[i]);
        assert(r@ =~= s@.subrange(0, i + 1));
        i = i + 1;
    }
    assert(s@.subrange(0, i as int) =~= s@);
    r
}

/// The value of a text that is exactly one literal.
pub fn parse_number(text: &[u8]) -> (r: Option<u16>)
    ensures
        r == match literal_text(text@) {
            Some((digits, base)) => literal_value(digits, base),
            None => None,
        },
{
    let mut reader = Reader::new(text);
    proof {
        lemma_hex_end(text@, 0);
    }
    let literal = match read_literal(&mut reader) {
        Some(l) => l,
        None => return None,
    };
    if !reader.at_end() {
        return None;
    }
    to_u16(&literal)
}

} // verus!
