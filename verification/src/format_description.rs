//! The single-pass validator for format-specifier strings, shared by every
//! surface that accepts a format string.

use vstd::prelude::*;
use crate::error::Error;

verus! {

/// Whether a character may follow the `%` lead character: a single
/// alphabetic directive code, or a second `%` escaping the lead character
/// itself.
pub open spec fn is_directive_char(c: char) -> bool {
    c == '%' || (97 <= c as u32 <= 122) || (65 <= c as u32 <= 90)
}

/// The format-string grammar: a left-to-right scan in which every `%` must
/// be followed by a directive character, consuming two characters, and any
/// other character stands for itself.
pub open spec fn valid_format(s: Seq<char>) -> bool
    decreases s.len(),
{
    if s.len() == 0 {
        true
    } else if s[0] == '%' {
        s.len() >= 2 && is_directive_char(s[1]) && valid_format(s.skip(2))
    } else {
        valid_format(s.skip(1))
    }
}

/// Checks a format string in one pass, failing at the first unrecognized
/// directive or at a trailing incomplete escape.
pub fn validate_format_string(s: &str) -> (r: Result<(), Error>)
    ensures
        r is Ok <==> valid_format(s@),
        r matches Err(e) ==> e == Error::InvalidFormatString,
{
    let len = s.unicode_len();
    let mut i: usize = 0;
    proof {
        assert(s@.skip(0) =~= s@);
    }
    while i < len
        invariant
            i <= len,
            len == s@.len(),
            valid_format(s@) <==> valid_format(s@.skip(i as int)),
        decreases len - i,
    {
        let c = s.get_char(i);
        if c == '%' {
            if i + 1 >= len {
                return Err(Error::InvalidFormatString);
            }
            let next = s.get_char(i + 1);
            let code: u32 = next as u32;
            if !(next == '%' || (97 <= code && code <= 122) || (65 <= code && code <= 90)) {
                return Err(Error::InvalidFormatString);
            }
            proof {
                assert(s@.skip(i as int).skip(2) =~= s@.skip(i as int + 2));
            }
            i = i + 2;
        } else {
            proof {
                assert(s@.skip(i as int).skip(1) =~= s@.skip(i as int + 1));
            }
            i = i + 1;
        }
    }
    proof {
        assert(s@.skip(len as int) =~= Seq::<char>::empty());
    }
    Ok(())
}

} // verus!
