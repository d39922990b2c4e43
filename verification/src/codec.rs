//! Length-prefixed framing: four bytes, the most significant first, and that
//! many bytes of payload.
use vstd::prelude::*;

use crate::text::{decimal, decimal_text};

verus! {

/// The longest payload that is accepted from a remote peer: 16 MiB.
pub const MAX_PAYLOAD: u32 = 16777216;

/// A number as four bytes, the most significant first.
pub open spec fn prefix_bytes(n: nat) -> Seq<u8> {
    seq![
        (n / 16777216 % 256) as u8,
        (n / 65536 % 256) as u8,
        (n / 256 % 256) as u8,
        (n % 256) as u8,
    ]
}

/// The number in four bytes, the most significant first.
pub open spec fn prefix_value(b: Seq<u8>) -> nat {
    (b[0] as nat) * 16777216 + (b[1] as nat) * 65536 + (b[2] as nat) * 256 + b[3] as nat
}

/// A payload behind its length.
pub open spec fn framed(data: Seq<u8>) -> Seq<u8> {
    prefix_bytes(data.len()) + data
}

/// Puts the length in front of a payload, whose length four bytes can hold.
pub fn write_framed(data: &[u8]) -> (r: Vec<u8>)
    requires
        data@.len() <= u32::MAX,
    ensures
        r@ == framed(data@),
{
    let n: u32 = data.len() as u32;
    let mut out: Vec<u8> = Vec::new();
    out.push((n / 16777216 % 256) as u8);
    out.push((n / 65536 % 256) as u8);
    out.push((n / 256 % 256) as u8);
    out.push((n % 256) as u8);
    assert(out@ =~= prefix_bytes(n as nat));
    let ghost head = out@;
    let mut i: usize = 0;
    assert(out@ =~= head + data@.take(0));
    while i < data.len()
        invariant
            i <= data@.len(),
            out@ == head + data@.take(i as int),
        decreases data@.len() - i,
    {
        out.push(data[i]);
        assert(out@ =~= head + data@.take(i + 1));
        i += 1;
    }
    assert(data@.take(i as int) =~= data@);
    out
}

/// The length that a prefix announces; too long a payload is refused.
pub fn payload_length(prefix: &[u8]) -> (r: Result<u32, String>)
    requires
        prefix@.len() == 4,
    ensures
        match r {
            Ok(n) => n == prefix_value(prefix@) && n <= MAX_PAYLOAD,
            Err(e) => prefix_value(prefix@) > MAX_PAYLOAD && e@ == "payload too large: "@ + decimal(
                prefix_value(prefix@),
            ) + " bytes"@,
        },
{
    let a: u32 = prefix[0] as u32;
    let b: u32 = prefix[1] as u32;
    let c: u32 = prefix[2] as u32;
    let d: u32 = prefix[3] as u32;
    let n: u32 = a * 16777216 + b * 65536 + c * 256 + d;
    if n > MAX_PAYLOAD {
        let mut e = "payload too large: ".to_owned();
        e.push_str(decimal_text(n as u64).as_str());
        e.push_str(" bytes");
        return Err(e);
    }
    Ok(n)
}

/// What the bytes received so far hold.
pub enum FrameRead {
    /// Not yet a whole frame.
    More,
    /// A payload, and how many bytes its frame takes.
    Whole { payload: Vec<u8>, used: usize },
    /// The announced payload is too long.
    TooLarge(String),
}

/// Reads one frame from the bytes received so far.
pub fn read_framed(bytes: &[u8]) -> (r: FrameRead)
    ensures
        if bytes@.len() < 4 {
            r is More
        } else {
            let n = prefix_value(bytes@.take(4));
            if n > MAX_PAYLOAD {
                r matches FrameRead::TooLarge(e) && e@ == "payload too large: "@ + decimal(n) + " bytes"@
            } else if bytes@.len() < 4 + n {
                r is More
            } else {
                r matches FrameRead::Whole { payload, used } && payload@ == bytes@.subrange(4, 4 + n as int) && used == 4 + n
            }
        },
{
    if bytes.len() < 4 {
        return FrameRead::More;
    }
    let mut prefix: Vec<u8> = Vec::new();
    prefix.push(bytes[0]);
    prefix.push(bytes[1]);
    prefix.push(bytes[2]);
    prefix.push(bytes[3]);
    assert(prefix@ =~= bytes@.take(4));
    let n: usize = match payload_length(prefix.as_slice()) {
        Ok(n) => n as usize,
        Err(e) => return FrameRead::TooLarge(e),
    };
    if bytes.len() < 4 + n {
        return FrameRead::More;
    }
    let mut payload: Vec<u8> = Vec::new();
    let mut i: usize = 0;
    assert(payload@ =~= bytes@.subrange(4, 4));
    while i < n
        invariant
            i <= n,
            4 + n <= bytes.len(),
            payload@ == bytes@.subrange(4, 4 + i),
        decreases n - i,
    {
        payload.push(bytes[4 + i]);
        assert(payload@ =~= bytes@.subrange(4, 4 + i + 1));
        i += 1;
    }
    FrameRead::Whole { payload, used: 4 + n }
}

// ---------------------------------------------------------------------------
// Laws
// ---------------------------------------------------------------------------

/// Four bytes hold the number they were made from.
pub proof fn law_prefix_reads_back(n: nat)
    requires
        n <= u32::MAX,
    ensures
        prefix_bytes(n).len() == 4,
        prefix_value(prefix_bytes(n)) == n,
{
    let a = n / 16777216 % 256;
    let b = n / 65536 % 256;
    let c = n / 256 % 256;
    let d = n % 256;
    assert(a * 16777216 + b * 65536 + c * 256 + d == n) by (nonlinear_arith)
        requires
            n <= 4294967295,
            a == n / 16777216 % 256,
            b == n / 65536 % 256,
            c == n / 256 % 256,
            d == n % 256,
    ;
}

/// A frame is read back as its payload, whatever follows it, where the payload
/// is not too long; a longer one is refused.
pub proof fn law_frames_read_back(data: Seq<u8>, rest: Seq<u8>)
    requires
        data.len() <= u32::MAX,
    ensures
        ({
            let bytes = framed(data) + rest;
            &&& bytes.len() >= 4
            &&& prefix_value(bytes.take(4)) == data.len()
            &&& bytes.len() >= 4 + data.len()
            &&& bytes.subrange(4, 4 + data.len() as int) == data
            &&& bytes.skip(4 + data.len() as int) == rest
        }),
{
    law_prefix_reads_back(data.len());
    let bytes = framed(data) + rest;
    assert(bytes.take(4) =~= prefix_bytes(data.len()));
    assert(bytes.subrange(4, 4 + data.len() as int) =~= data);
    assert(bytes.skip(4 + data.len() as int) =~= rest);
}

} // verus!
