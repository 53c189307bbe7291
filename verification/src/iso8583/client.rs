//! What a client computes before it writes and after it reads.
use crate::iso8583::iso_spec::IsoMsg;
use crate::iso8583::mli::MLIType;
use crate::iso8583::Failure;
use crate::iso8583::IsoError;
use vstd::prelude::*;

verus! {

/// The frame of a message: its length indicator, then its assembled bytes.
pub open spec fn request_frame(mli: MLIType, iso_msg: &IsoMsg) -> Result<Seq<u8>, Failure> {
    match iso_msg.msg.bytes_from(iso_msg@, 0) {
        Err(f) => Err(f),
        Ok(payload) => match mli.created(payload.len()) {
            Err(f) => Err(f),
            Ok(ind) => Ok(ind + payload),
        },
    }
}

/// Assembles `iso_msg` and frames it for the wire.
pub fn encode_request(mli: &MLIType, iso_msg: &IsoMsg) -> (r: Result<Vec<u8>, IsoError>)
    ensures
        match request_frame(*mli, iso_msg) {
            Ok(b) => r is Ok && r->Ok_0@ == b,
            Err(f) => r is Err && r->Err_0@ == f,
        },
{
    let data = iso_msg.assemble()?;
    mli.frame(&data)
}

} // verus!
