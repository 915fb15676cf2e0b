//! Hardware addresses of remote Bluetooth devices.
//!
//! An address is six bytes.  Its canonical text is six pairs of
//! upper-case hexadecimal digits separated by colons, as in
//! `AA:BB:CC:DD:EE:FF`.

use vstd::prelude::*;
use vstd::string::StrSliceExecFns;

verus! {

/// A device's hardware address: six raw bytes.
#[derive(Clone, Copy, Debug)]
pub struct Address {
    pub bytes: [u8; 6],
}

/// Does the character stand for a hexadecimal digit (either case)?
pub open spec fn is_hex_digit(c: char) -> bool {
    ('0' as int <= c as int && c as int <= '9' as int)
    || ('A' as int <= c as int && c as int <= 'F' as int)
    || ('a' as int <= c as int && c as int <= 'f' as int)
}

/// The value of a hexadecimal digit character.
pub open spec fn hex_digit_value(c: char) -> int {
    if '0' as int <= c as int && c as int <= '9' as int {
        c as int - '0' as int
    } else if 'A' as int <= c as int && c as int <= 'F' as int {
        c as int - 'A' as int + 10
    } else {
        c as int - 'a' as int + 10
    }
}

/// The text is a well-formed address: exactly seventeen characters,
/// with a colon at every third position and hexadecimal digits
/// elsewhere.
pub open spec fn valid_address_text(s: Seq<char>) -> bool {
    &&& s.len() == 17
    &&& forall|k: int| 0 <= k < 17 ==> #[trigger] is_sep_or_digit(s, k)
}

/// Position `k` of the text holds what the address grammar puts there.
pub open spec fn is_sep_or_digit(s: Seq<char>, k: int) -> bool {
    if k % 3 == 2 {
        s[k] == ':'
    } else {
        is_hex_digit(s[k])
    }
}

/// The byte that positions `3*i` and `3*i + 1` of a well-formed
/// address text spell out.
pub open spec fn byte_of_text(s: Seq<char>, i: int) -> int {
    16 * hex_digit_value(s[3 * i]) + hex_digit_value(s[3 * i + 1])
}

/// The parsed text denotes exactly the bytes of `a`.
pub open spec fn text_denotes(s: Seq<char>, a: Address) -> bool {
    &&& valid_address_text(s)
    &&& forall|i: int| 0 <= i < 6 ==> byte_of_text(s, i) == #[trigger] a.bytes[i]
}

/// The upper-case hexadecimal digit character of a value below
/// sixteen.
pub open spec fn upper_hex_char(v: int) -> char {
    if 0 <= v < 10 {
        ((v + '0' as int) as u8) as char
    } else {
        ((v - 10 + 'A' as int) as u8) as char
    }
}

/// The canonical text of an address: six pairs of upper-case
/// hexadecimal digits separated by colons.
pub open spec fn address_text(a: Address) -> Seq<char> {
    Seq::new(
        17,
        |k: int|
            if k % 3 == 2 {
                ':'
            } else if k % 3 == 0 {
                upper_hex_char(a.bytes[k / 3] as int / 16)
            } else {
                upper_hex_char(a.bytes[k / 3] as int % 16)
            },
    )
}

/// An upper-case hexadecimal digit character is a digit of its own
/// value.
pub proof fn lemma_upper_hex_char(v: int)
    requires
        0 <= v < 16,
    ensures
        is_hex_digit(upper_hex_char(v)),
        hex_digit_value(upper_hex_char(v)) == v,
{
}

/// The canonical text of an address is well-formed and denotes
/// exactly that address: printing then parsing gives the bytes back.
pub proof fn lemma_address_text_denotes(a: Address)
    ensures
        text_denotes(address_text(a), a),
{
    let s = address_text(a);
    assert forall|k: int| 0 <= k < 17 implies #[trigger] is_sep_or_digit(s, k) by {
        if k % 3 != 2 {
            let b = a.bytes[k / 3] as int;
            lemma_upper_hex_char(b / 16);
            lemma_upper_hex_char(b % 16);
        }
    }
    assert forall|i: int| 0 <= i < 6 implies byte_of_text(s, i) == #[trigger] a.bytes[i] by {
        let b = a.bytes[i] as int;
        lemma_upper_hex_char(b / 16);
        lemma_upper_hex_char(b % 16);
        assert((3 * i) % 3 == 0 && (3 * i + 1) % 3 == 1);
        assert((3 * i) / 3 == i && (3 * i + 1) / 3 == i);
        assert(byte_of_text(s, i) == 16 * (b / 16) + b % 16);
    }
}

/// Two addresses denoted by the same text carry the same bytes.
pub proof fn lemma_text_denotes_unique(s: Seq<char>, a: Address, b: Address)
    requires
        text_denotes(s, a),
        text_denotes(s, b),
    ensures
        a.bytes@ == b.bytes@,
{
    assert forall|i: int| 0 <= i < 6 implies a.bytes@[i] == b.bytes@[i] by {
        assert(byte_of_text(s, i) == a.bytes[i]);
        assert(byte_of_text(s, i) == b.bytes[i]);
    }
    assert(a.bytes@ =~= b.bytes@);
}

/// The one-character text of an upper-case hexadecimal digit.
fn hex_char_text(v: u8) -> (r: &'static str)
    requires
        v < 16,
    ensures
        r@.len() == 1,
        r@[0] == upper_hex_char(v as int),
{
    proof {
        reveal_strlit("0");
        reveal_strlit("1");
        reveal_strlit("2");
        reveal_strlit("3");
        reveal_strlit("4");
        reveal_strlit("5");
        reveal_strlit("6");
        reveal_strlit("7");
        reveal_strlit("8");
        reveal_strlit("9");
        reveal_strlit("A");
        reveal_strlit("B");
        reveal_strlit("C");
        reveal_strlit("D");
        reveal_strlit("E");
        reveal_strlit("F");
    }
    match v {
        0 => "0",
        1 => "1",
        2 => "2",
        3 => "3",
        4 => "4",
        5 => "5",
        6 => "6",
        7 => "7",
        8 => "8",
        9 => "9",
        10 => "A",
        11 => "B",
        12 => "C",
        13 => "D",
        14 => "E",
        _ => "F",
    }
}

/// The value of one hexadecimal digit character, or `None` when the
/// character is no such digit.
fn hex_digit(c: char) -> (r: Option<u8>)
    ensures
        r is Some <==> is_hex_digit(c),
        r is Some ==> r->0 == hex_digit_value(c) && r->0 < 16,
{
    let v = c as u32;
    if v >= 48 && v <= 57 {
        Some((v - 48) as u8)
    } else if v >= 65 && v <= 70 {
        Some((v - 65 + 10) as u8)
    } else if v >= 97 && v <= 102 {
        Some((v - 97 + 10) as u8)
    } else {
        None
    }
}

impl Address {
    /// Two addresses are the same exactly when their bytes agree.
    pub fn same_as(&self, other: &Address) -> (r: bool)
        ensures
            r <==> self.bytes@ =~= other.bytes@,
    {
        let mut i: usize = 0;
        while i < 6
            invariant
                i <= 6,
                forall|k: int| 0 <= k < i ==> self.bytes[k] == other.bytes[k],
            decreases 6 - i,
        {
            if self.bytes[i] != other.bytes[i] {
                return false;
            }
            i += 1;
        }
        true
    }

    /// Writes the address in its canonical text: upper-case digit
    /// pairs separated by colons.
    pub fn to_text(&self) -> (r: String)
        ensures
            r@ == address_text(*self),
            text_denotes(r@, *self),
    {
        let mut out = String::new();
        let mut i: usize = 0;
        while i < 6
            invariant
                i <= 6,
                out@ =~= address_text(*self).subrange(0, if i == 6 { 17int } else { 3 * i }),
            decreases 6 - i,
        {
            let b = self.bytes[i];
            out.append(hex_char_text(b / 16));
            out.append(hex_char_text(b % 16));
            if i < 5 {
                out.append(":");
                proof {
                    reveal_strlit(":");
                    assert(out@ =~= address_text(*self).subrange(0, 3 * (i + 1)));
                }
            } else {
                proof {
                    assert(out@ =~= address_text(*self).subrange(0, 17));
                }
            }
            i += 1;
        }
        proof {
            assert(address_text(*self).subrange(0, 17) =~= address_text(*self));
            lemma_address_text_denotes(*self);
        }
        out
    }

    /// Reads an address from its text, accepting upper- or lower-case
    /// digits; returns `None` exactly on text that the address grammar
    /// refuses.
    pub fn parse(s: &str) -> (r: Option<Address>)
        ensures
            r is Some <==> valid_address_text(s@),
            r is Some ==> text_denotes(s@, r->0),
    {
        if s.unicode_len() != 17 {
            return None;
        }
        let mut bytes: [u8; 6] = [0, 0, 0, 0, 0, 0];
        let mut i: usize = 0;
        while i < 6
            invariant
                i <= 6,
                s@.len() == 17,
                forall|k: int| 0 <= k < 3 * i && k < 17 ==> #[trigger] is_sep_or_digit(s@, k),
                forall|j: int| 0 <= j < i ==> byte_of_text(s@, j) == #[trigger] bytes[j],
            decreases 6 - i,
        {
            let hi = match hex_digit(s.get_char(3 * i)) {
                Some(v) => v,
                None => {
                    proof {
                        assert(!is_sep_or_digit(s@, 3 * i as int));
                    }
                    return None;
                },
            };
            let lo = match hex_digit(s.get_char(3 * i + 1)) {
                Some(v) => v,
                None => {
                    proof {
                        assert(!is_sep_or_digit(s@, 3 * i as int + 1));
                    }
                    return None;
                },
            };
            if i < 5 && s.get_char(3 * i + 2) != ':' {
                proof {
                    assert(!is_sep_or_digit(s@, 3 * i as int + 2));
                }
                return None;
            }
            bytes[i] = 16 * hi + lo;
            i += 1;
        }
        Some(Address { bytes })
    }
}

} // verus!
