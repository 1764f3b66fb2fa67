//! Rendezvous ports: the address under which a process can be reached.
//!
//! The listening socket and its accept loop belong to the caller. The library
//! holds what the rest of the runtime reads of a port: the number that the
//! platform assigned and the address name computed from it.

use crate::numeral::{
    all_digits, decimal, digit_value, digits_value, format_u64, is_canonical, is_digit,
    law_canonical_is_decimal, law_decimal_is_canonical, law_decimal_reads_back,
    lemma_char_floor, lemma_digits_value_grows,
};
use vstd::prelude::*;
use vstd::string::*;

verus! {

/// What every loopback address begins with: the host and the colon.
pub open spec fn loopback_prefix() -> Seq<char> {
    "127.0.0.1:"@
}

/// The name of the loopback address with port number `number`.
pub open spec fn loopback_name(number: nat) -> Seq<char> {
    loopback_prefix() + decimal(number)
}

/// The port number that `name` gives, read as an address: the loopback
/// host, a colon, and a canonical decimal numeral of a port number that is
/// not zero. Any other text gives none.
pub open spec fn loopback_port_of(name: Seq<char>) -> Option<u16> {
    let digits = name.skip(10);
    if name.len() > 10 && name.take(10) == loopback_prefix() && is_canonical(digits) && 0
        < digits_value(digits) <= u16::MAX {
        Some(digits_value(digits) as u16)
    } else {
        None
    }
}

/// `name` is a syntactically valid loopback address with a port number that
/// is not zero.
pub open spec fn is_loopback_address(name: Seq<char>) -> bool {
    loopback_port_of(name) is Some
}

/// The name computed for a port number reads back as that number, and a
/// text that reads as a port number is the name computed for it.
pub proof fn law_loopback_name_reads_back(name: Seq<char>, number: u16)
    requires
        number != 0,
    ensures
        loopback_port_of(loopback_name(number as nat)) == Some(number),
        loopback_port_of(name) == Some(number) <==> name == loopback_name(number as nat),
{
    reveal_strlit("127.0.0.1:");
    let computed = loopback_name(number as nat);
    law_decimal_reads_back(number as nat);
    law_decimal_is_canonical(number as nat);
    assert(computed.take(10) =~= loopback_prefix());
    assert(computed.skip(10) =~= decimal(number as nat));
    if loopback_port_of(name) == Some(number) {
        law_canonical_is_decimal(name.skip(10));
        assert(name =~= name.take(10) + name.skip(10));
    }
}


/// An open rendezvous endpoint on the loopback interface.
#[derive(Debug, PartialEq, Eq)]
pub struct Port {
    number: u16,
    name: String,
}

impl Port {
    /// The port number that the platform assigned.
    pub closed spec fn number(&self) -> u16 {
        self.number
    }

    /// The address name, as [`Port::name`] returns it.
    pub closed spec fn name_text(&self) -> Seq<char> {
        self.name@
    }

    /// The name is the one computed from the number, which is not zero.
    pub closed spec fn wf(&self) -> bool {
        &&& self.number != 0
        &&& self.name@ == loopback_name(self.number as nat)
    }

    /// The endpoint bound to the loopback address with the assigned port
    /// `number`. Its name is computed here, once.
    pub fn new(number: u16) -> (port: Self)
        requires
            number != 0,
        ensures
            port.wf(),
            port.number() == number,
            port.name_text() == loopback_name(number as nat),
            is_loopback_address(port.name_text()),
    {
        let digits = format_u64(number as u64);
        let name = String::from_str("127.0.0.1:").concat(digits.as_str());
        proof {
            assert(name@ == loopback_name(number as nat));
            law_loopback_name_reads_back(name@, number);
        }
        Port { number, name }
    }

    /// The port that the address `name` names, or nothing when `name` is
    /// no loopback address with a port number that is not zero.
    pub fn from_name(name: &str) -> (port: Option<Self>)
        ensures
            match port {
                Some(port) => port.wf() && port.name_text() == name@ && loopback_port_of(name@)
                    == Some(port.number()),
                None => loopback_port_of(name@) is None,
            },
    {
        proof {
            reveal_strlit("127.0.0.1:");
        }
        let prefix = "127.0.0.1:";
        if !name.is_ascii() {
            proof {
                lemma_address_is_ascii(name@);
            }
            return None;
        }
        let len = name.unicode_len();
        if len <= 10 {
            return None;
        }
        let mut i: usize = 0;
        while i < 10
            invariant
                i <= 10 < len,
                len == name@.len(),
                name.is_ascii(),
                prefix.is_ascii(),
                prefix@ == loopback_prefix(),
                prefix@.len() == 10,
                forall|k: int| 0 <= k < i ==> name@[k] == prefix@[k],
            decreases 10 - i,
        {
            if name.get_ascii(i) != prefix.get_ascii(i) {
                assert(name@.take(10)[i as int] != prefix@[i as int]);
                return None;
            }
            i = i + 1;
        }
        assert(name@.take(10) =~= loopback_prefix());
        let ghost digits = name@.skip(10);
        if len > 11 && name.get_ascii(10) == 48 {
            assert(digits[0] == name@[10]);
            return None;
        }
        let mut value: u32 = 0;
        let mut j: usize = 10;
        while j < len
            invariant
                10 <= j <= len,
                len == name@.len(),
                name.is_ascii(),
                digits == name@.skip(10),
                all_digits(digits.take(j - 10)),
                value == digits_value(digits.take(j - 10)),
                value <= u16::MAX,
            decreases len - j,
        {
            let byte = name.get_ascii(j);
            let ghost seen = digits.take(j - 10);
            let ghost next = digits.take(j - 10 + 1);
            assert(digits[j - 10] == name@[j as int]);
            assert(next.drop_last() =~= seen);
            assert(next.last() == name@[j as int]);
            if byte < 48 || byte > 57 {
                assert(!is_digit(digits[j - 10]));
                return None;
            }
            assert(all_digits(next)) by {
                assert forall|k: int| 0 <= k < next.len() implies is_digit(#[trigger] next[k]) by {
                    if k < seen.len() {
                        assert(next[k] == seen[k]);
                    }
                }
            }
            assert((byte - 48) as nat == digit_value(name@[j as int]));
            value = value * 10 + (byte - 48) as u32;
            if value > 65535 {
                proof {
                    lemma_digits_value_grows(digits, j - 10 + 1);
                }
                return None;
            }
            j = j + 1;
        }
        assert(digits.take(len - 10) =~= digits);
        if value == 0 {
            return None;
        }
        let number = value as u16;
        proof {
            law_loopback_name_reads_back(name@, number);
        }
        let port = Port::new(number);
        Some(port)
    }

    /// The address as text, `host:port`.
    pub fn name(&self) -> (name: &str)
        ensures
            name@ == self.name_text(),
    {
        self.name.as_str()
    }

    /// The assigned port number.
    pub fn port_number(&self) -> (number: u16)
        ensures
            number == self.number(),
    {
        self.number
    }

    /// A well-formed port carries a valid loopback address.
    pub proof fn law_name_is_loopback_address(&self)
        requires
            self.wf(),
        ensures
            self.name_text() == loopback_name(self.number() as nat),
            is_loopback_address(self.name_text()),
            self.number() != 0,
    {
        law_loopback_name_reads_back(self.name_text(), self.number());
    }
}

/// A text with a character outside ASCII is no loopback address.
proof fn lemma_address_is_ascii(name: Seq<char>)
    requires
        !vstd::utf8::is_ascii_chars(name),
    ensures
        loopback_port_of(name) is None,
{
    reveal_strlit("127.0.0.1:");
    if loopback_port_of(name) is Some {
        let digits = name.skip(10);
        assert forall|i: int| 0 <= i < name.len() implies '\0' <= #[trigger] name[i] <= '\u{7f}' by {
            let c = name[i];
            if i < 10 {
                assert(name.take(10)[i] == c);
                assert(loopback_prefix()[i] == c);
            } else {
                assert(digits[i - 10] == c);
                assert(is_digit(digits[i - 10]));
            }
            lemma_char_floor(c);
        }
    }
}

} // verus!
