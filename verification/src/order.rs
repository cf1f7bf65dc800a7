use vstd::prelude::*;

use crate::error::CodecError;

verus! {

/// The order in which the bytes of a multi-byte value appear: `Little` puts
/// the least-significant byte first, `Big` the most-significant byte first.
#[derive(Clone, Copy, Debug, PartialEq, Eq, Structural)]
pub enum ByteOrder {
    Little,
    Big,
}

/// The order used whenever a specifier is absent.
pub const DEFAULT_BYTE_ORDER: ByteOrder = ByteOrder::Little;

/// The byte order a textual specifier denotes: `"<"` means little-endian,
/// `">"` big-endian, and every other string is invalid.
pub open spec fn order_of_chars(s: Seq<char>) -> Option<ByteOrder> {
    if s == seq!['<'] {
        Some(ByteOrder::Little)
    } else if s == seq!['>'] {
        Some(ByteOrder::Big)
    } else {
        None
    }
}

impl ByteOrder {
    /// Parses the canonical textual encoding of a byte order, rejecting every
    /// string other than `"<"` and `">"`.
    pub fn try_from_string(string: &str) -> (r: Result<ByteOrder, CodecError>)
        ensures
            r == match order_of_chars(string@) {
                Some(o) => Result::<ByteOrder, CodecError>::Ok(o),
                None => Result::<ByteOrder, CodecError>::Err(CodecError::InvalidByteOrder),
            },
    {
        proof {
            reveal_strlit("<");
            reveal_strlit(">");
            assert("<"@ =~= seq!['<']);
            assert(">"@ =~= seq!['>']);
        }
        let owned = string.to_owned();
        if owned == "<".to_owned() {
            Ok(ByteOrder::Little)
        } else if owned == ">".to_owned() {
            Ok(ByteOrder::Big)
        } else {
            Err(CodecError::InvalidByteOrder)
        }
    }
}

/// Resolves an optional textual order specifier: an absent specifier means
/// the default order, a present one is parsed by
/// [`ByteOrder::try_from_string`].
pub fn resolve(specifier: Option<&str>) -> (r: Result<ByteOrder, CodecError>)
    ensures
        r == match specifier {
            None => Result::<ByteOrder, CodecError>::Ok(DEFAULT_BYTE_ORDER),
            Some(s) => match order_of_chars(s@) {
                Some(o) => Result::<ByteOrder, CodecError>::Ok(o),
                None => Result::<ByteOrder, CodecError>::Err(CodecError::InvalidByteOrder),
            },
        },
{
    match specifier {
        None => Ok(DEFAULT_BYTE_ORDER),
        Some(s) => ByteOrder::try_from_string(s),
    }
}

} // verus!
