use vstd::prelude::*;

use crate::errors::{NodeError, NodeResult};

verus! {

/// Number of bytes in an account address.
pub const ADDRESS_BYTES: usize = 20;

/// A 20-byte account address, the identity of a node inside a group
/// and on chain. On the wire it travels as `"0x"` followed by forty
/// lowercase hexadecimal digits.
#[derive(Debug)]
pub struct Address {
    bytes: Vec<u8>,
}

impl View for Address {
    type V = Seq<u8>;

    closed spec fn view(&self) -> Seq<u8> {
        self.bytes@
    }
}

impl Address {
    /// Whether the address holds exactly twenty bytes. Constructors
    /// establish this; nothing mutates an address afterwards.
    pub open spec fn wf(&self) -> bool {
        self@.len() == ADDRESS_BYTES
    }

    /// Builds an address from raw bytes; rejects any length but twenty.
    pub fn new(bytes: Vec<u8>) -> (r: NodeResult<Address>)
        ensures
            r is Ok <==> bytes@.len() == ADDRESS_BYTES,
            r matches Ok(a) ==> a@ == bytes@ && a.wf(),
            r matches Err(e) ==> e == NodeError::InvalidAddress,
    {
        if bytes.len() == ADDRESS_BYTES {
            Ok(Address { bytes })
        } else {
            Err(NodeError::InvalidAddress)
        }
    }

    /// Byte-wise equality of two addresses.
    pub fn equals(&self, other: &Address) -> (r: bool)
        ensures
            r == (self@ == other@),
    {
        if self.bytes.len() != other.bytes.len() {
            proof {
                assert(self@ != other@);
            }
            return false;
        }
        let n = self.bytes.len();
        let mut i: usize = 0;
        while i < n
            invariant
                n == self@.len(),
                n == other@.len(),
                i <= n,
                forall|j: int| 0 <= j < i ==> self@[j] == other@[j],
            decreases n - i,
        {
            if self.bytes[i] != other.bytes[i] {
                proof {
                    assert(self@[i as int] != other@[i as int]);
                }
                return false;
            }
            i += 1;
        }
        proof {
            assert(self@ =~= other@);
        }
        true
    }
}

impl Clone for Address {
    fn clone(&self) -> (r: Self)
        ensures
            r@ == self@,
    {
        let mut bytes: Vec<u8> = Vec::new();
        let mut i: usize = 0;
        while i < self.bytes.len()
            invariant
                i <= self@.len(),
                bytes@ == self@.take(i as int),
            decreases self@.len() - i,
        {
            bytes.push(self.bytes[i]);
            i += 1;
            proof {
                assert(bytes@ =~= self@.take(i as int));
            }
        }
        proof {
            assert(bytes@ =~= self@);
        }
        Address { bytes }
    }
}

/// The character that writes the hex value `n`, lowercase.
pub open spec fn spec_hex_char(n: u8) -> char
    recommends
        n < 16,
{
    if n == 0 {
        '0'
    } else if n == 1 {
        '1'
    } else if n == 2 {
        '2'
    } else if n == 3 {
        '3'
    } else if n == 4 {
        '4'
    } else if n == 5 {
        '5'
    } else if n == 6 {
        '6'
    } else if n == 7 {
        '7'
    } else if n == 8 {
        '8'
    } else if n == 9 {
        '9'
    } else if n == 10 {
        'a'
    } else if n == 11 {
        'b'
    } else if n == 12 {
        'c'
    } else if n == 13 {
        'd'
    } else if n == 14 {
        'e'
    } else {
        'f'
    }
}

/// The hex value a character stands for, if it is a lowercase hex digit.
pub open spec fn spec_hex_value(c: char) -> Option<u8> {
    if c == '0' {
        Some(0u8)
    } else if c == '1' {
        Some(1u8)
    } else if c == '2' {
        Some(2u8)
    } else if c == '3' {
        Some(3u8)
    } else if c == '4' {
        Some(4u8)
    } else if c == '5' {
        Some(5u8)
    } else if c == '6' {
        Some(6u8)
    } else if c == '7' {
        Some(7u8)
    } else if c == '8' {
        Some(8u8)
    } else if c == '9' {
        Some(9u8)
    } else if c == 'a' {
        Some(10u8)
    } else if c == 'b' {
        Some(11u8)
    } else if c == 'c' {
        Some(12u8)
    } else if c == 'd' {
        Some(13u8)
    } else if c == 'e' {
        Some(14u8)
    } else if c == 'f' {
        Some(15u8)
    } else {
        None
    }
}

/// The two hex characters of one byte, high nibble first.
pub open spec fn spec_byte_hex(b: u8) -> Seq<char> {
    seq![spec_hex_char(b / 16), spec_hex_char(b % 16)]
}

/// The hex characters of a byte string, in order.
pub open spec fn spec_bytes_hex(s: Seq<u8>) -> Seq<char>
    decreases s.len(),
{
    if s.len() == 0 {
        Seq::empty()
    } else {
        spec_bytes_hex(s.drop_last()) + spec_byte_hex(s.last())
    }
}

/// The canonical text of an address: `0x` and forty lowercase digits.
pub open spec fn spec_address_hex(a: Seq<u8>) -> Seq<char> {
    seq!['0', 'x'] + spec_bytes_hex(a)
}

/// Writes the hex value `n` as a one-character string slice.
fn hex_char_str(n: u8) -> (r: &'static str)
    requires
        n < 16,
    ensures
        r@ =~= seq![spec_hex_char(n)],
{
    proof {
        reveal_strlit("0");
        reveal_strlit("1");
        reveal_strlit("2");
        reveal_strlit("3");
        reveal_strlit("4");
        reveal_strlit("5");
        reveal_strlit("6");
        reveal_strlit("7");
        reveal_strlit("8");
        reveal_strlit("9");
        reveal_strlit("a");
        reveal_strlit("b");
        reveal_strlit("c");
        reveal_strlit("d");
        reveal_strlit("e");
        reveal_strlit("f");
    }
    if n == 0 {
        "0"
    } else if n == 1 {
        "1"
    } else if n == 2 {
        "2"
    } else if n == 3 {
        "3"
    } else if n == 4 {
        "4"
    } else if n == 5 {
        "5"
    } else if n == 6 {
        "6"
    } else if n == 7 {
        "7"
    } else if n == 8 {
        "8"
    } else if n == 9 {
        "9"
    } else if n == 10 {
        "a"
    } else if n == 11 {
        "b"
    } else if n == 12 {
        "c"
    } else if n == 13 {
        "d"
    } else if n == 14 {
        "e"
    } else {
        "f"
    }
}

/// Writes an address in its canonical wire form, `0x` followed by
/// forty lowercase hex digits.
pub fn address_to_string(addr: &Address) -> (r: String)
    ensures
        r@ == spec_address_hex(addr@),
{
    let mut out = String::from_str("0x");
    proof {
        reveal_strlit("0x");
        assert(out@ =~= seq!['0', 'x']);
        assert(spec_bytes_hex(addr@.take(0)) =~= Seq::<char>::empty());
        assert(out@ =~= seq!['0', 'x'] + spec_bytes_hex(addr@.take(0)));
    }
    let n = addr.bytes.len();
    let mut i: usize = 0;
    while i < n
        invariant
            n == addr@.len(),
            i <= n,
            out@ == seq!['0', 'x'] + spec_bytes_hex(addr@.take(i as int)),
        decreases n - i,
    {
        let b = addr.bytes[i];
        out.append(hex_char_str(b / 16));
        out.append(hex_char_str(b % 16));
        proof {
            let t = addr@.take(i + 1);
            assert(t.drop_last() =~= addr@.take(i as int));
            assert(t.last() == addr@[i as int]);
            assert(out@ =~= seq!['0', 'x'] + spec_bytes_hex(addr@.take(i + 1)));
        }
        i += 1;
    }
    proof {
        assert(addr@.take(n as int) =~= addr@);
    }
    out
}

/// Whether a character sequence is the canonical text of some address.
pub open spec fn spec_is_address_hex(s: Seq<char>) -> bool {
    &&& s.len() == 2 + 2 * ADDRESS_BYTES
    &&& s[0] == '0'
    &&& s[1] == 'x'
    &&& forall|i: int| 2 <= i < s.len() ==> #[trigger] spec_hex_value(s[i]) is Some
}

/// Reads one character as a lowercase hex digit.
fn hex_value(c: char) -> (r: Option<u8>)
    ensures
        r == spec_hex_value(c),
{
    if c == '0' {
        Some(0u8)
    } else if c == '1' {
        Some(1u8)
    } else if c == '2' {
        Some(2u8)
    } else if c == '3' {
        Some(3u8)
    } else if c == '4' {
        Some(4u8)
    } else if c == '5' {
        Some(5u8)
    } else if c == '6' {
        Some(6u8)
    } else if c == '7' {
        Some(7u8)
    } else if c == '8' {
        Some(8u8)
    } else if c == '9' {
        Some(9u8)
    } else if c == 'a' {
        Some(10u8)
    } else if c == 'b' {
        Some(11u8)
    } else if c == 'c' {
        Some(12u8)
    } else if c == 'd' {
        Some(13u8)
    } else if c == 'e' {
        Some(14u8)
    } else if c == 'f' {
        Some(15u8)
    } else {
        None
    }
}

/// Reading back the character of a nibble gives the nibble.
proof fn lemma_hex_char_value(n: u8)
    requires
        n < 16,
    ensures
        spec_hex_value(spec_hex_char(n)) == Some(n),
{
}

/// Reads an address from its canonical wire form. Returns `None` on
/// anything but `0x` followed by forty lowercase hex digits.
pub fn address_from_string(s: &str) -> (r: Option<Address>)
    ensures
        r is Some <==> spec_is_address_hex(s@),
        r matches Some(a) ==> a.wf() && spec_address_hex(a@) == s@ && a@ == spec_parsed_address(
            s@,
        ),
{
    let len = s.unicode_len();
    if len != 2 + 2 * ADDRESS_BYTES {
        return None;
    }
    if s.get_char(0) != '0' || s.get_char(1) != 'x' {
        return None;
    }
    let mut bytes: Vec<u8> = Vec::new();
    let mut i: usize = 0;
    while i < ADDRESS_BYTES
        invariant
            s@.len() == 2 + 2 * ADDRESS_BYTES,
            s@[0] == '0',
            s@[1] == 'x',
            i <= ADDRESS_BYTES,
            bytes@.len() == i,
            forall|j: int| 2 <= j < 2 + 2 * i ==> #[trigger] spec_hex_value(s@[j]) is Some,
            spec_bytes_hex(bytes@) =~= s@.subrange(2, 2 + 2 * i as int),
        decreases ADDRESS_BYTES - i,
    {
        let hi = match hex_value(s.get_char(2 + 2 * i)) {
            Some(v) => v,
            None => {
                return None;
            },
        };
        let lo = match hex_value(s.get_char(3 + 2 * i)) {
            Some(v) => v,
            None => {
                return None;
            },
        };
        let b = hi * 16 + lo;
        let ghost pre = bytes@;
        bytes.push(b);
        proof {
            assert(b / 16 == hi && b % 16 == lo) by (nonlinear_arith)
                requires
                    hi < 16,
                    lo < 16,
                    b == hi * 16 + lo,
            ;
            assert(bytes@.drop_last() =~= pre);
            assert(spec_byte_hex(b) =~= seq![s@[2 + 2 * i as int], s@[3 + 2 * i as int]]);
            assert(spec_bytes_hex(bytes@) == spec_bytes_hex(pre) + spec_byte_hex(b));
            assert(spec_bytes_hex(bytes@) =~= s@.subrange(2, 2 + 2 * (i + 1) as int));
        }
        i += 1;
    }
    proof {
        assert(spec_is_address_hex(s@));
        assert(spec_address_hex(bytes@) =~= s@);
        let w = spec_parsed_address(s@);
        assert(bytes@.len() == ADDRESS_BYTES && spec_address_hex(bytes@) == s@);
        assert(w.len() == ADDRESS_BYTES && spec_address_hex(w) == s@);
        lemma_address_hex_injective(bytes@, w);
    }
    Some(Address { bytes })
}

/// The bytes that a canonical address text stands for. Injectivity of
/// the hex writing makes this single-valued wherever such bytes exist.
pub open spec fn spec_parsed_address(s: Seq<char>) -> Seq<u8> {
    choose|a: Seq<u8>| a.len() == ADDRESS_BYTES && spec_address_hex(a) == s
}

/// The two characters written for byte `i` of a byte string.
proof fn lemma_bytes_hex_pos(s: Seq<u8>, i: int)
    requires
        0 <= i < s.len(),
    ensures
        spec_bytes_hex(s).len() == 2 * s.len(),
        spec_bytes_hex(s)[2 * i] == spec_hex_char(s[i] / 16),
        spec_bytes_hex(s)[2 * i + 1] == spec_hex_char(s[i] % 16),
    decreases s.len(),
{
    lemma_bytes_hex_digits(s);
    let d = s.drop_last();
    lemma_bytes_hex_digits(d);
    if i == s.len() - 1 {
        assert(spec_bytes_hex(s)[2 * i] == spec_byte_hex(s.last())[0]);
        assert(spec_bytes_hex(s)[2 * i + 1] == spec_byte_hex(s.last())[1]);
    } else {
        lemma_bytes_hex_pos(d, i);
        assert(d[i] == s[i]);
    }
}

/// Two addresses that write the same text are the same address.
pub proof fn lemma_address_hex_injective(a: Seq<u8>, b: Seq<u8>)
    requires
        a.len() == ADDRESS_BYTES,
        b.len() == ADDRESS_BYTES,
        spec_address_hex(a) == spec_address_hex(b),
    ensures
        a == b,
{
    assert forall|i: int| 0 <= i < a.len() implies a[i] == b[i] by {
        lemma_bytes_hex_pos(a, i);
        lemma_bytes_hex_pos(b, i);
        assert(spec_address_hex(a)[2 + 2 * i] == spec_bytes_hex(a)[2 * i]);
        assert(spec_address_hex(a)[2 + 2 * i + 1] == spec_bytes_hex(a)[2 * i + 1]);
        assert(spec_address_hex(b)[2 + 2 * i] == spec_bytes_hex(b)[2 * i]);
        assert(spec_address_hex(b)[2 + 2 * i + 1] == spec_bytes_hex(b)[2 * i + 1]);
        lemma_hex_char_value(a[i] / 16);
        lemma_hex_char_value(a[i] % 16);
        lemma_hex_char_value(b[i] / 16);
        lemma_hex_char_value(b[i] % 16);
        assert(a[i] / 16 == b[i] / 16 && a[i] % 16 == b[i] % 16);
        assert(a[i] == 16 * (a[i] / 16) + a[i] % 16) by (nonlinear_arith);
        assert(b[i] == 16 * (b[i] / 16) + b[i] % 16) by (nonlinear_arith);
    }
    assert(a =~= b);
}

/// The wire form of an address reads back as that address: writing and
/// then parsing an account address is the identity.
pub proof fn lemma_address_hex_round_trip(a: Seq<u8>)
    requires
        a.len() == ADDRESS_BYTES,
    ensures
        spec_is_address_hex(spec_address_hex(a)),
{
    lemma_bytes_hex_digits(a);
    assert forall|i: int| 2 <= i < spec_address_hex(a).len() implies #[trigger] spec_hex_value(
        spec_address_hex(a)[i],
    ) is Some by {
        assert(spec_address_hex(a)[i] == spec_bytes_hex(a)[i - 2]);
    }
}

/// Every character written for a byte string is a hex digit, and two
/// characters are written per byte.
proof fn lemma_bytes_hex_digits(s: Seq<u8>)
    ensures
        spec_bytes_hex(s).len() == 2 * s.len(),
        forall|i: int|
            0 <= i < spec_bytes_hex(s).len() ==> #[trigger] spec_hex_value(
                spec_bytes_hex(s)[i],
            ) is Some,
    decreases s.len(),
{
    if s.len() > 0 {
        lemma_bytes_hex_digits(s.drop_last());
        lemma_hex_char_value(s.last() / 16);
        lemma_hex_char_value(s.last() % 16);
    }
}

} // verus!
