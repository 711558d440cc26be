use crate::error::RiffError;
use crate::error::RiffResult;
use vstd::prelude::*;
use vstd::string::StringSliceAdditionalSpecFns;

verus! {

/// The ASCII-style identifier of a chunk or of a form type: exactly 4 raw
/// bytes. No validation beyond the length is performed; in particular the
/// bytes are not required to be printable ASCII.
#[derive(Debug, Clone, Copy)]
pub struct FourCC {
    pub data: [u8; 4],
}

impl View for FourCC {
    type V = Seq<u8>;

    open spec fn view(&self) -> Seq<u8> {
        self.data@
    }
}

impl FourCC {
    /// Builds an identifier from a byte slice; fails unless the slice is
    /// exactly 4 bytes long.
    pub fn new(data: &[u8]) -> (r: RiffResult<FourCC>)
        ensures
            r is Ok <==> data@.len() == 4,
            r matches Ok(f) ==> f@ == data@,
            r matches Err(e) ==> e == RiffError::ConversionError,
    {
        if data.len() == 4 {
            let arr: [u8; 4] = [data[0], data[1], data[2], data[3]];
            proof {
                assert(arr@ =~= data@);
            }
            Ok(FourCC { data: arr })
        } else {
            Err(RiffError::ConversionError)
        }
    }

    /// Builds an identifier from a UTF-8 text value, under the same rule:
    /// the text must be exactly 4 bytes long.
    pub fn from_text(value: &str) -> (r: RiffResult<FourCC>)
        ensures
            r is Ok <==> value.spec_bytes().len() == 4,
            r matches Ok(f) ==> f@ == value.spec_bytes(),
            r matches Err(e) ==> e == RiffError::ConversionError,
    {
        FourCC::new(value.as_bytes())
    }

    /// View `&self` as a `&[u8; 4]`.
    pub fn as_bytes(&self) -> (r: &[u8; 4])
        ensures
            r@ == self@,
    {
        &self.data
    }

    /// Consume `self` and return the underlying `[u8; 4]`.
    pub fn into_bytes(self) -> (r: [u8; 4])
        ensures
            r@ == self@,
    {
        self.data
    }
}

} // verus!
