//! Encoding a `char` needle as its UTF-8 byte sequence.

use vstd::prelude::*;

verus! {

use vstd::utf8::{encode_scalar, char_is_scalar};

/// The UTF-8 bytes of one character, matching [`encode_scalar`] on its
/// scalar value.
pub(crate) fn char_utf8(c: char) -> (v: Vec<u8>)
    ensures
        v@ == encode_scalar(c as u32),
{
    proof {
        char_is_scalar(c);
    }
    let u = c as u32;
    let mut v: Vec<u8> = Vec::new();
    if u <= 0x7F {
        v.push((u & 0x7F) as u8);
    } else if u <= 0x7FF {
        v.push(0xC0u8 | (((u >> 6u32) & 0x1F) as u8));
        v.push(0x80u8 | ((u & 0x3F) as u8));
    } else if u <= 0xFFFF {
        v.push(0xE0u8 | (((u >> 12u32) & 0x0F) as u8));
        v.push(0x80u8 | (((u >> 6u32) & 0x3F) as u8));
        v.push(0x80u8 | ((u & 0x3F) as u8));
    } else {
        v.push(0xF0u8 | (((u >> 18u32) & 0x7) as u8));
        v.push(0x80u8 | (((u >> 12u32) & 0x3F) as u8));
        v.push(0x80u8 | (((u >> 6u32) & 0x3F) as u8));
        v.push(0x80u8 | ((u & 0x3F) as u8));
    }
    proof {
        assert(v@ =~= encode_scalar(c as u32));
    }
    v
}

} // verus!
