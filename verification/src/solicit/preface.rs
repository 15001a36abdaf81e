//! The connection preface: what a client sends first and what a server
//! expects first.

use crate::codec::write_buffer::WriteBuffer;
use crate::solicit::frame::settings::SettingsFrame;
use vstd::prelude::*;

verus! {

/// The length of the client's magic.
pub const PREFACE_LEN: usize = 24;

/// The client's magic: "PRI * HTTP/2.0", an empty line, "SM", an empty line.
pub open spec fn spec_preface() -> Seq<u8> {
    seq![
        0x50u8, 0x52, 0x49, 0x20, 0x2a, 0x20, 0x48, 0x54, 0x54, 0x50, 0x2f, 0x32, 0x2e, 0x30, 0x0d,
        0x0a, 0x0d, 0x0a, 0x53, 0x4d, 0x0d, 0x0a, 0x0d, 0x0a,
    ]
}

/// The client's magic.
pub fn preface() -> (r: [u8; 24])
    ensures
        r@ == spec_preface(),
{
    let r: [u8; 24] = [
        0x50, 0x52, 0x49, 0x20, 0x2a, 0x20, 0x48, 0x54, 0x54, 0x50, 0x2f, 0x32, 0x2e, 0x30, 0x0d,
        0x0a, 0x0d, 0x0a, 0x53, 0x4d, 0x0d, 0x0a, 0x0d, 0x0a,
    ];
    assert(r@ =~= spec_preface());
    r
}

/// What a client sends first: the magic, then its settings.
pub fn client_handshake_bytes(settings: SettingsFrame) -> (r: Vec<u8>)
    requires
        settings.fits_wire(),
    ensures
        r@ == spec_preface() + settings.spec_serialize(),
{
    let mut buf = WriteBuffer::new();
    let magic = preface();
    buf.extend_from_slice(magic.as_slice());
    let ghost bytes = settings.spec_serialize();
    settings.serialize_into(&mut buf);
    assert(buf@ =~= spec_preface() + bytes);
    buf.into_vec()
}

/// How far the bytes that a server has read agree with the magic.
#[derive(Clone, Copy, Debug, PartialEq, Eq, Structural)]
pub enum PrefaceCheck {
    /// All of the magic is there; what follows it starts at byte 24.
    Complete,
    /// What is there agrees with the magic, which is not complete yet.
    Incomplete,
    /// A byte differs from the magic: the connection is aborted.
    Mismatch,
}

/// Compares the first bytes that a server has read with the magic.
pub fn check_preface(received: &[u8]) -> (r: PrefaceCheck)
    ensures
        r == (if exists|i: int|
            0 <= i < received@.len() && i < 24 && received@[i] != spec_preface()[i] {
            PrefaceCheck::Mismatch
        } else if received@.len() >= 24 {
            PrefaceCheck::Complete
        } else {
            PrefaceCheck::Incomplete
        }),
{
    let magic = preface();
    let mut i: usize = 0;
    while i < 24 && i < received.len()
        invariant
            i <= 24,
            i <= received@.len(),
            magic@ == spec_preface(),
            forall|k: int| 0 <= k < i ==> received@[k] == spec_preface()[k],
        decreases 24 - i,
    {
        if received[i] != magic[i] {
            return PrefaceCheck::Mismatch;
        }
        i = i + 1;
    }
    if received.len() >= 24 {
        PrefaceCheck::Complete
    } else {
        PrefaceCheck::Incomplete
    }
}

} // verus!
