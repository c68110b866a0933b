//! The message that is hashed for one candidate.
use vstd::prelude::*;
use vstd::string::StringSliceAdditionalSpecFns;

verus! {

/// ASCII code of the digit `0`.
pub const ASCII_ZERO: u8 = 48;

/// The decimal form of `n` as ASCII bytes, with no sign and no leading zeros.
pub open spec fn decimal(n: nat) -> Seq<u8>
    decreases n,
{
    if n < 10 {
        seq![(ASCII_ZERO + n) as u8]
    } else {
        decimal(n / 10).push((ASCII_ZERO + n % 10) as u8)
    }
}

/// The bytes hashed for `candidate`: the index in decimal, then the session
/// id, then the candidate in decimal, with no separators.
pub open spec fn message(session: Seq<u8>, index: u32, candidate: u32) -> Seq<u8> {
    decimal(index as nat) + session + decimal(candidate as nat)
}

/// Appends the decimal form of `n` to `out`.
fn push_decimal(n: u32, out: &mut Vec<u8>)
    ensures
        final(out)@ == old(out)@ + decimal(n as nat),
    decreases n,
{
    if n >= 10 {
        push_decimal(n / 10, out);
    }
    out.push(ASCII_ZERO + (n % 10) as u8);
    proof {
        assert(out@ =~= old(out)@ + decimal(n as nat));
    }
}

/// Builds the message hashed for `candidate` in challenge `index` of the
/// session `session_id`.
pub fn pow_message(session_id: &str, index: u32, candidate: u32) -> (r: Vec<u8>)
    ensures
        r@ == message(session_id.spec_bytes(), index, candidate),
{
    let session = session_id.as_bytes();
    let mut r: Vec<u8> = Vec::new();
    push_decimal(index, &mut r);
    let ghost head = r@;
    let mut i: usize = 0;
    while i < session.len()
        invariant
            i <= session@.len(),
            r@ == head + session@.subrange(0, i as int),
        decreases session@.len() - i,
    {
        r.push(session[i]);
        i += 1;
        assert(r@ =~= head + session@.subrange(0, i as int));
    }
    assert(session@.subrange(0, i as int) =~= session@);
    push_decimal(candidate, &mut r);
    r
}

} // verus!
