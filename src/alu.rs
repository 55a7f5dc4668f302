use vstd::prelude::*;

verus! {

/// 8-bit addition: the sum modulo 256 and whether it exceeded 255.
pub open spec fn add_spec(a: u8, b: u8) -> (u8, bool) {
    (((a + b) % 256) as u8, a + b > 255)
}

/// 8-bit subtraction `a - b`: the difference modulo 256 and whether no
/// borrow occurred (`a >= b`).
pub open spec fn sub_spec(a: u8, b: u8) -> (u8, bool) {
    (((a - b + 256) % 256) as u8, a >= b)
}

/// Adds two bytes, giving the wrapped sum and the carry.
pub fn add_with_carry(a: u8, b: u8) -> (r: (u8, bool))
    ensures
        r == add_spec(a, b),
        r.1 <==> a as int + b as int > 255,
        r.0 as int == (a as int + b as int) % 256,
{
    let sum: u16 = a as u16 + b as u16;
    ((sum % 256) as u8, sum > 255)
}

/// Subtracts `b` from `a`, giving the wrapped difference and the no-borrow flag.
pub fn sub_with_borrow(a: u8, b: u8) -> (r: (u8, bool))
    ensures
        r == sub_spec(a, b),
        r.1 <==> a >= b,
        r.0 as int == (a as int - b as int) % 256,
{
    let diff: u16 = (a as u16 + 256) - b as u16;
    ((diff % 256) as u8, a >= b)
}

/// Decimal digits of a byte: hundreds, tens and units.
pub fn bcd(value: u8) -> (r: (u8, u8, u8))
    ensures
        r.0 == value / 100,
        r.1 == (value / 10) % 10,
        r.2 == value % 10,
{
    (value / 100, (value / 10) % 10, value % 10)
}

} // verus!
