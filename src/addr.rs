//! The data-connection address as PORT and PASV write it: six decimal
//! numbers separated by commas, four for the IPv4 address and two for the
//! port, high byte first.

use vstd::prelude::*;
use crate::bytes::{
    all_digits, decimal_digits, decimal_value, is_digit, lemma_decimal_prefix, push_decimal,
    split_bytes, split_on, views,
};

verus! {

/// The comma.
pub const COMMA: u8 = 44;

/// An IPv4 address and a port.
#[derive(Clone, Copy, Debug)]
pub struct DataAddr {
    pub ip: [u8; 4],
    pub port: u16,
}

/// A decimal number from 0 to 255, written with digits only.
pub open spec fn octet_ok(s: Seq<u8>) -> bool {
    1 <= s.len() && all_digits(s) && decimal_value(s) <= 255
}

/// The argument is exactly six such numbers separated by commas.
pub open spec fn addr_arg_ok(s: Seq<u8>) -> bool {
    &&& split_on(s, COMMA).len() == 6
    &&& forall|k: int| 0 <= k < 6 ==> octet_ok(#[trigger] split_on(s, COMMA)[k])
}

/// The `k`-th number of the argument.
pub open spec fn octet_of(s: Seq<u8>, k: int) -> nat {
    decimal_value(split_on(s, COMMA)[k])
}

/// The six numbers of the argument, in order.
pub open spec fn arg_octets(s: Seq<u8>) -> Seq<nat> {
    seq![
        octet_of(s, 0),
        octet_of(s, 1),
        octet_of(s, 2),
        octet_of(s, 3),
        octet_of(s, 4),
        octet_of(s, 5),
    ]
}

/// The six numbers that stand for `a`.
pub open spec fn octets(a: DataAddr) -> Seq<nat> {
    seq![
        a.ip[0] as nat,
        a.ip[1] as nat,
        a.ip[2] as nat,
        a.ip[3] as nat,
        (a.port / 256) as nat,
        (a.port % 256) as nat,
    ]
}

/// The text that announces `a`: the six numbers in parentheses.
pub open spec fn addr_text(a: DataAddr) -> Seq<u8> {
    let o = octets(a);
    seq![40u8] + decimal_digits(o[0]) + seq![COMMA] + decimal_digits(o[1]) + seq![COMMA]
        + decimal_digits(o[2]) + seq![COMMA] + decimal_digits(o[3]) + seq![COMMA]
        + decimal_digits(o[4]) + seq![COMMA] + decimal_digits(o[5]) + seq![41u8]
}

/// Reads one number of the argument.
fn parse_octet(s: &[u8]) -> (r: Option<u8>)
    ensures
        r is Some <==> octet_ok(s@),
        r matches Some(v) ==> v as nat == decimal_value(s@),
{
    if s.len() == 0 {
        return None;
    }
    let mut acc: u32 = 0;
    let mut i: usize = 0;
    while i < s.len()
        invariant
            0 <= i <= s@.len(),
            all_digits(s@.take(i as int)),
            acc as nat == decimal_value(s@.take(i as int)),
            acc <= 255,
        decreases s@.len() - i,
    {
        let b = s[i];
        assert(s@.take(i + 1).drop_last() =~= s@.take(i as int));
        if b < 48 || b > 57 {
            assert(!is_digit(s@[i as int]));
            return None;
        }
        acc = acc * 10 + (b - 48) as u32;
        if acc > 255 {
            proof {
                if all_digits(s@) {
                    lemma_decimal_prefix(s@, i + 1);
                }
            }
            return None;
        }
        i = i + 1;
    }
    assert(s@.take(i as int) =~= s@);
    Some(acc as u8)
}

/// Reads the argument of PORT: `h1,h2,h3,h4,p1,p2`.
pub fn parse_ipv4_addr(addr: &[u8]) -> (r: Option<DataAddr>)
    ensures
        r is Some <==> addr_arg_ok(addr@),
        r matches Some(a) ==> octets(a) == arg_octets(addr@),
{
    let parts = split_bytes(addr, COMMA);
    let ghost p = split_on(addr@, COMMA);
    assert(views(parts@) == p);
    if parts.len() != 6 {
        return None;
    }
    let mut vals: Vec<u8> = Vec::new();
    let mut k: usize = 0;
    while k < 6
        invariant
            parts@.len() == 6,
            p == split_on(addr@, COMMA),
            views(parts@) == p,
            0 <= k <= 6,
            vals@.len() == k,
            forall|j: int| 0 <= j < k ==> octet_ok(#[trigger] p[j]),
            forall|j: int| 0 <= j < k ==> vals@[j] as nat == decimal_value(#[trigger] p[j]),
        decreases 6 - k,
    {
        let piece: &Vec<u8> = &parts[k];
        assert(piece@ == p[k as int]);
        match parse_octet(piece.as_slice()) {
            Some(v) => vals.push(v),
            None => {
                assert(!octet_ok(p[k as int]));
                proof {
                    if addr_arg_ok(addr@) {
                        assert(octet_ok(p[k as int]));
                        assert(false);
                    }
                }
                return None;
            },
        }
        k = k + 1;
    }
    let port: u16 = (vals[4] as u16) * 256 + vals[5] as u16;
    let a = DataAddr { ip: [vals[0], vals[1], vals[2], vals[3]], port };
    assert(octets(a) =~= arg_octets(addr@));
    Some(a)
}

/// Writes `addr` as PASV announces it: `(h1,h2,h3,h4,p1,p2)`.
pub fn print_ipv4_addr(addr: &DataAddr) -> (r: Vec<u8>)
    ensures
        r@ == addr_text(*addr),
{
    let mut r: Vec<u8> = Vec::new();
    r.push(40);
    push_decimal(&mut r, addr.ip[0] as u64);
    r.push(COMMA);
    push_decimal(&mut r, addr.ip[1] as u64);
    r.push(COMMA);
    push_decimal(&mut r, addr.ip[2] as u64);
    r.push(COMMA);
    push_decimal(&mut r, addr.ip[3] as u64);
    r.push(COMMA);
    push_decimal(&mut r, (addr.port / 256) as u64);
    r.push(COMMA);
    push_decimal(&mut r, (addr.port % 256) as u64);
    r.push(41);
    assert(r@ =~= addr_text(*addr));
    r
}

} // verus!
