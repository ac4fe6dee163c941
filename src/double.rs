//! The text of 64-bit floats, as the `<double>` element carries them.

use vstd::prelude::*;
use vstd::utf8::encode_utf8;

use crate::escape::{has_no_markup, AMPERSAND, LESS_THAN};

verus! {

/// Holds where `b` can occur in the decimal text of a float: a digit, a
/// sign, `.`, `e`, `E`, or a letter of `inf` or `NaN`.
pub open spec fn is_float_byte(b: u8) -> bool {
    ||| 48 <= b <= 57
    ||| b == 43 || b == 45 || b == 46
    ||| b == 69 || b == 101
    ||| b == 97 || b == 102 || b == 105 || b == 110 || b == 78
}

/// Holds where every byte of `bytes` can occur in the text of a float.
pub open spec fn is_float_text(bytes: Seq<u8>) -> bool {
    forall|i: int| 0 <= i < bytes.len() ==> is_float_byte(#[trigger] bytes[i])
}

/// The decimal text of a float, written out as it is: `1.5`, `-0`, `inf`,
/// `NaN`. It is made only of digits, signs, `.`, `e`, `E` and the letters of
/// `inf` and `NaN`.
#[derive(Debug, PartialEq)]
pub struct DoubleText {
    text: String,
}

impl View for DoubleText {
    type V = Seq<char>;

    closed spec fn view(&self) -> Seq<char> {
        self.text@
    }
}

impl DoubleText {
    #[verifier::type_invariant]
    spec fn float_text(self) -> bool {
        is_float_text(encode_utf8(self.text@))
    }

    /// Takes `text` as the text of a float; `None` where it holds a byte
    /// that no float's text has.
    pub fn new(text: String) -> (r: Option<DoubleText>)
        ensures
            r is Some <==> is_float_text(encode_utf8(text@)),
            r matches Some(d) ==> d@ == text@,
    {
        let bytes = text.as_str().as_bytes();
        let mut i: usize = 0;
        while i < bytes.len()
            invariant
                i <= bytes@.len(),
                bytes@ == encode_utf8(text@),
                forall|j: int| 0 <= j < i ==> is_float_byte(#[trigger] bytes@[j]),
            decreases bytes@.len() - i,
        {
            let b = bytes[i];
            let ok = (48 <= b && b <= 57) || b == 43 || b == 45 || b == 46 || b == 69 || b == 101
                || b == 97 || b == 102 || b == 105 || b == 110 || b == 78;
            if !ok {
                return None;
            }
            i = i + 1;
        }
        Some(DoubleText { text })
    }

    /// The text, as a string slice.
    pub fn as_str(&self) -> (r: &str)
        ensures
            r@ == self@,
            is_float_text(encode_utf8(r@)),
            has_no_markup(encode_utf8(r@)),
    {
        proof {
            use_type_invariant(self);
            let bytes = encode_utf8(self.text@);
            assert forall|i: int| 0 <= i < bytes.len() implies #[trigger] bytes[i] != AMPERSAND
                && bytes[i] != LESS_THAN by {
                assert(is_float_byte(bytes[i]));
            }
        }
        self.text.as_str()
    }
}

impl Clone for DoubleText {
    fn clone(&self) -> (r: DoubleText)
        ensures
            r@ == self@,
    {
        proof {
            use_type_invariant(self);
        }
        DoubleText { text: self.text.clone() }
    }
}

} // verus!
