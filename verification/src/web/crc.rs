use vstd::prelude::*;

verus! {

/// Bytes over which the service reports a checksum.
pub const CRC_BLOCK_LEN: usize = 512;

/// The CRC-16 register after shifting `n` bits out of `crc`, least significant bit first,
/// with the reflected polynomial 0x8408.
pub open spec fn x25_shift(crc: u16, n: nat) -> u16
    decreases n,
{
    if n == 0 {
        crc
    } else {
        let next = if (crc & 1u16) == 1u16 {
            (crc >> 1u16) ^ 0x8408u16
        } else {
            crc >> 1u16
        };
        x25_shift(next, (n - 1) as nat)
    }
}

/// The CRC-16/X.25 register after `bytes`: it starts at 0xFFFF and takes each byte in
/// turn into its low bits, then shifts it through.
pub open spec fn x25_register(bytes: Seq<u8>) -> u16
    decreases bytes.len(),
{
    if bytes.len() == 0 {
        0xffffu16
    } else {
        x25_shift(x25_register(bytes.drop_last()) ^ (bytes.last() as u16), 8)
    }
}

/// The CRC-16/IBM-SDLC (X.25) checksum of `bytes`: the final register, inverted.
pub open spec fn x25_checksum(bytes: Seq<u8>) -> u16 {
    x25_register(bytes) ^ 0xffffu16
}

/// The X.25 checksum of `bytes`, bit by bit.
pub fn x25(bytes: &[u8]) -> (r: u16)
    ensures
        r == x25_checksum(bytes@),
{
    let mut crc: u16 = 0xffff;
    let mut i: usize = 0;
    while i < bytes.len()
        invariant
            i <= bytes.len(),
            crc == x25_register(bytes@.subrange(0, i as int)),
        decreases bytes.len() - i,
    {
        let ghost start: u16 = crc ^ (bytes@[i as int] as u16);
        let mut c: u16 = crc ^ (bytes[i] as u16);
        let mut b: u32 = 0;
        while b < 8
            invariant
                b <= 8,
                x25_shift(c, (8 - b) as nat) == x25_shift(start, 8),
            decreases 8 - b,
        {
            c = if (c & 1u16) == 1u16 {
                (c >> 1u16) ^ 0x8408u16
            } else {
                c >> 1u16
            };
            b = b + 1;
        }
        proof {
            let next = bytes@.subrange(0, i + 1);
            assert(next.drop_last() =~= bytes@.subrange(0, i as int));
            assert(next.last() == bytes@[i as int]);
        }
        crc = c;
        i = i + 1;
    }
    assert(bytes@.subrange(0, bytes@.len() as int) =~= bytes@);
    crc ^ 0xffffu16
}

/// The reply of the checksum endpoint.
#[derive(Debug, Clone, Copy, PartialEq, Eq, Structural)]
pub struct CrcJsonResponse {
    pub crc: u16,
}

/// A block of `CRC_BLOCK_LEN` zero bytes.
pub open spec fn zero_block() -> Seq<u8> {
    Seq::new(CRC_BLOCK_LEN as nat, |i: int| 0u8)
}

impl CrcJsonResponse {
    /// The reply of the checksum endpoint: the X.25 checksum of a block of zero bytes.
    pub fn of_zero_block() -> (r: Self)
        ensures
            r.crc == x25_checksum(zero_block()),
    {
        let mut buf: Vec<u8> = Vec::new();
        let mut i: usize = 0;
        while i < CRC_BLOCK_LEN
            invariant
                i <= CRC_BLOCK_LEN,
                buf@ == Seq::new(i as nat, |k: int| 0u8),
            decreases CRC_BLOCK_LEN - i,
        {
            buf.push(0u8);
            i = i + 1;
            assert(buf@ =~= Seq::new(i as nat, |k: int| 0u8));
        }
        CrcJsonResponse { crc: x25(buf.as_slice()) }
    }
}

} // verus!
