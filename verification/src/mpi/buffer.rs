//! Text as foreign callers receive it: bytes closed by a zero.

use vstd::prelude::*;
use vstd::string::*;
use vstd::utf8::encode_utf8;

verus! {

/// The bytes of a text.
pub open spec fn bytes_of(text: Seq<char>) -> Seq<u8> {
    encode_utf8(text)
}

/// How many bytes of a text of `len` bytes go into a buffer of `capacity`
/// bytes, which keeps one byte for the closing zero.
pub open spec fn copied_len(len: nat, capacity: nat) -> nat {
    if len < capacity {
        len
    } else {
        (capacity - 1) as nat
    }
}

/// What a buffer of `capacity` bytes holds of `bytes`: as many of them as
/// fit before a closing zero, in order, and then the zero.
pub open spec fn c_string(bytes: Seq<u8>, capacity: nat) -> Seq<u8> {
    bytes.take(copied_len(bytes.len(), capacity) as int).push(0u8)
}

/// Fills a buffer of `capacity` bytes with `text` and the closing zero. A
/// text that is too long is cut off.
pub fn c_string_of(text: &str, capacity: usize) -> (buffer: Vec<u8>)
    requires
        capacity >= 1,
    ensures
        buffer@ == c_string(bytes_of(text@), capacity as nat),
        buffer@.len() <= capacity,
{
    let bytes = text.as_bytes();
    let room = capacity - 1;
    let length = if bytes.len() < room {
        bytes.len()
    } else {
        room
    };
    let mut buffer: Vec<u8> = Vec::new();
    let mut i: usize = 0;
    while i < length
        invariant
            i <= length <= bytes@.len(),
            buffer@ == bytes@.take(i as int),
        decreases length - i,
    {
        buffer.push(bytes[i]);
        assert(buffer@ =~= bytes@.take(i + 1));
        i = i + 1;
    }
    buffer.push(0);
    buffer
}

} // verus!
