//! Device addresses.

use vstd::prelude::*;
use crate::protocol::push_char;

verus! {

/// A 48-bit Bluetooth device address; `value` holds its six bytes, most
/// significant first.
#[derive(Debug, Clone, Copy, PartialEq, Eq, Structural)]
pub struct Address {
    pub value: u64,
}

/// Number of a six-byte address, most significant byte first.
pub open spec fn address_value(b: Seq<u8>) -> int
    decreases b.len(),
{
    if b.len() == 0 {
        0
    } else {
        address_value(b.drop_last()) * 256 + b.last()
    }
}

/// Upper-case hexadecimal digit of a nibble.
pub open spec fn upper_hex(n: u8) -> char {
    if n < 10 {
        ((n + 48) as u8) as char
    } else {
        ((n + 55) as u8) as char
    }
}

/// Text of an address: upper-case hex pairs separated by colons.
pub open spec fn address_text(b: Seq<u8>) -> Seq<char>
    decreases b.len(),
{
    if b.len() == 0 {
        Seq::empty()
    } else {
        let last = b.last();
        let head = address_text(b.drop_last());
        let sep: Seq<char> = if b.len() > 1 { seq![':'] } else { Seq::empty() };
        head + sep + seq![upper_hex(last / 16), upper_hex(last % 16)]
    }
}

proof fn lemma_address_value_bound(b: Seq<u8>)
    ensures
        0 <= address_value(b) < vstd::arithmetic::power2::pow2(8 * b.len()),
    decreases b.len(),
{
    vstd::arithmetic::power2::lemma2_to64();
                vstd::arithmetic::power2::lemma2_to64_rest();
    if b.len() > 0 {
        lemma_address_value_bound(b.drop_last());
        let p = vstd::arithmetic::power2::pow2(8 * (b.len() - 1) as nat);
        vstd::arithmetic::power2::lemma_pow2_adds(8 * (b.len() - 1) as nat, 8);
        vstd::arithmetic::power2::lemma2_to64();
                vstd::arithmetic::power2::lemma2_to64_rest();
        let v = address_value(b.drop_last());
        assert(v * 256 + b.last() < p * 256) by (nonlinear_arith)
            requires 0 <= v < p, b.last() < 256;
        assert(8 * (b.len() - 1) + 8 == 8 * b.len());
        assert(vstd::arithmetic::power2::pow2(8 * b.len()) == p * 256);
    }
}

impl Address {
    /// The address with the given bytes, most significant first.
    pub fn new(bytes: [u8; 6]) -> (r: Address)
        ensures
            r.value == address_value(bytes@),
            r.value < 0x1_0000_0000_0000,
    {
        let mut v: u64 = 0;
        let mut i: usize = 0;
        while i < 6
            invariant
                i <= 6,
                v == address_value(bytes@.subrange(0, i as int)),
            decreases 6 - i,
        {
            proof {
                lemma_address_value_bound(bytes@.subrange(0, i as int));
                if i < 5 {
                    vstd::arithmetic::power2::lemma_pow2_strictly_increases(8 * i as nat, 40);
                }
                vstd::arithmetic::power2::lemma2_to64();
                vstd::arithmetic::power2::lemma2_to64_rest();
                assert(bytes@.subrange(0, i as int + 1).drop_last() =~= bytes@.subrange(0, i as int));
                assert(bytes@.subrange(0, i as int).len() == i);
                assert(8 * bytes@.subrange(0, i as int).len() == 8 * i as nat);
                assert(vstd::arithmetic::power2::pow2(8 * i as nat) <= vstd::arithmetic::power2::pow2(40));
                assert(v < 0x100_0000_0000);
            }
            v = v * 256 + bytes[i] as u64;
            i = i + 1;
        }
        assert(bytes@.subrange(0, 6) =~= bytes@);
        proof {
            lemma_address_value_bound(bytes@);
            vstd::arithmetic::power2::lemma2_to64();
                vstd::arithmetic::power2::lemma2_to64_rest();
            assert(8 * bytes@.len() == 48);
            assert(v < 0x1_0000_0000_0000);
        }
        Address { value: v }
    }

    /// The six bytes, most significant first.
    pub fn bytes(&self) -> (r: [u8; 6])
        requires
            self.value < 0x1_0000_0000_0000,
        ensures
            address_value(r@) == self.value,
    {
        let v = self.value;
        let r: [u8; 6] = [
            (v / 0x100_0000_0000) as u8,
            (v / 0x1_0000_0000 % 256) as u8,
            (v / 0x100_0000 % 256) as u8,
            (v / 0x1_0000 % 256) as u8,
            (v / 0x100 % 256) as u8,
            (v % 256) as u8,
        ];
        proof {
            let b = r@;
            assert(b.drop_last().drop_last().drop_last().drop_last().drop_last().drop_last() =~= Seq::<u8>::empty());
            assert(address_value(b) == ((((b[0] as int * 256 + b[1]) * 256 + b[2]) * 256 + b[3]) * 256 + b[4]) * 256 + b[5]) by {
                reveal_with_fuel(address_value, 7);
                assert(b.drop_last()=~= seq![b[0], b[1], b[2], b[3], b[4]]);
                assert(b.drop_last().drop_last() =~= seq![b[0], b[1], b[2], b[3]]);
                assert(b.drop_last().drop_last().drop_last() =~= seq![b[0], b[1], b[2]]);
                assert(b.drop_last().drop_last().drop_last().drop_last() =~= seq![b[0], b[1]]);
                assert(b.drop_last().drop_last().drop_last().drop_last().drop_last() =~= seq![b[0]]);
            }
        }
        r
    }

    /// The address as text, such as `AA:BB:CC:DD:EE:FF`.
    pub fn to_text(&self) -> (r: String)
        requires
            self.value < 0x1_0000_0000_0000,
        ensures
            exists|b: Seq<u8>| b.len() == 6 && address_value(b) == self.value && r@ == address_text(b),
    {
        let bytes = self.bytes();
        let mut s = String::new();
        let mut i: usize = 0;
        while i < 6
            invariant
                i <= 6,
                s@ == address_text(bytes@.subrange(0, i as int)),
            decreases 6 - i,
        {
            let b = bytes[i];
            let ghost pre = bytes@.subrange(0, i as int + 1);
            assert(pre.drop_last() =~= bytes@.subrange(0, i as int));
            assert(pre.last() == b);
            if i > 0 {
                push_char(&mut s, ':');
            }
            let hi = b / 16;
            let lo = b % 16;
            let ch: char = if hi < 10 { ((hi + 48) as u8) as char } else { ((hi + 55) as u8) as char };
            let cl: char = if lo < 10 { ((lo + 48) as u8) as char } else { ((lo + 55) as u8) as char };
            push_char(&mut s, ch);
            push_char(&mut s, cl);
            proof {
                let sep: Seq<char> = if pre.len() > 1 { seq![':'] } else { Seq::empty() };
                assert(address_text(pre) == address_text(pre.drop_last()) + sep + seq![upper_hex(b / 16), upper_hex(b % 16)]);
                assert(s@ =~= address_text(pre));
            }
            i = i + 1;
        }
        assert(bytes@.subrange(0, 6) =~= bytes@);
        s
    }
}

} // verus!
