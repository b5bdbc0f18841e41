use vstd::prelude::*;

verus! {

/// The status word a token reports on success.
pub const STATUS_SUCCESS: u16 = 0x9000;

/// The trailing two response bytes, big-endian: the token's status word.
pub open spec fn status_word(data: Seq<u8>) -> u16
    recommends
        data.len() >= 2,
{
    ((data[data.len() - 2] as u16) * 256 + (data[data.len() - 1] as u16)) as u16
}

/// The SELECT command that picks the FIDO applet by its registered
/// identifier.
pub open spec fn apdu_select_spec() -> Seq<u8> {
    seq![0x00u8, 0xa4, 0x04, 0x00, 0x08, 0xa0, 0x00, 0x00, 0x06, 0x47, 0x2f, 0x00, 0x01]
}

/// Build the fixed SELECT command for the FIDO applet.
pub fn apdu_select() -> (v: Vec<u8>)
    ensures
        v@ == apdu_select_spec(),
{
    let mut v: Vec<u8> = Vec::new();
    v.push(0x00);
    v.push(0xa4);
    v.push(0x04);
    v.push(0x00);
    v.push(0x08);
    v.push(0xa0);
    v.push(0x00);
    v.push(0x00);
    v.push(0x06);
    v.push(0x47);
    v.push(0x2f);
    v.push(0x00);
    v.push(0x01);
    proof {
        assert(v@ =~= apdu_select_spec());
    }
    v
}

/// Split a token response into payload and status word: a response ending
/// in the success status yields its leading bytes, any other trailing pair
/// is returned as the failure status.
pub fn parse_response(data: &[u8]) -> (r: Result<&[u8], u16>)
    requires
        data@.len() >= 2,
    ensures
        status_word(data@) == STATUS_SUCCESS ==> (r matches Ok(p) && p@ == data@.subrange(
            0,
            data@.len() - 2,
        )),
        status_word(data@) != STATUS_SUCCESS ==> r == Err::<&[u8], u16>(status_word(data@)),
{
    let n = data.len();
    let status = ((data[n - 2] as u16) << 8) | (data[n - 1] as u16);
    proof {
        let hi = data@[n - 2];
        let lo = data@[n - 1];
        assert(((hi as u16) << 8) | (lo as u16) == (hi as u16) * 256 + (lo as u16)) by (bit_vector);
    }
    if status == STATUS_SUCCESS {
        Ok(vstd::slice::slice_subrange(data, 0, n - 2))
    } else {
        Err(status)
    }
}

} // verus!
