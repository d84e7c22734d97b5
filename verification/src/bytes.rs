//! Big-endian integers and the views that contracts compare results by.

use vstd::prelude::*;

verus! {

/// A fallible result with its success value replaced by its view.
pub open spec fn outcome<T: View, E>(r: Result<T, E>) -> Result<T::V, E> {
    match r {
        Ok(v) => Ok(v@),
        Err(e) => Err(e),
    }
}

/// An optional value replaced by its view.
pub open spec fn option_view<T: View>(o: Option<T>) -> Option<T::V> {
    match o {
        Some(v) => Some(v@),
        None => None,
    }
}

/// The number that two octets stand for, most significant first.
pub open spec fn be16(hi: u8, lo: u8) -> nat {
    (hi * 256 + lo) as nat
}

/// The two octets of a 16-bit number, most significant first.
pub open spec fn be16_octets(v: nat) -> Seq<u8> {
    seq![(v / 256) as u8, (v % 256) as u8]
}

/// The number that four octets stand for, most significant first.
pub open spec fn be32(s: Seq<u8>) -> nat {
    (s[0] * 0x100_0000 + s[1] * 0x1_0000 + s[2] * 0x100 + s[3]) as nat
}

/// The four octets of a 32-bit number, most significant first.
pub open spec fn be32_octets(v: nat) -> Seq<u8> {
    seq![
        (v / 0x100_0000) as u8,
        (v / 0x1_0000 % 256) as u8,
        (v / 0x100 % 256) as u8,
        (v % 256) as u8,
    ]
}

pub proof fn lemma_be16(v: nat)
    requires
        v < 0x1_0000,
    ensures
        be16_octets(v).len() == 2,
        be16(be16_octets(v)[0], be16_octets(v)[1]) == v,
{
}

pub proof fn lemma_be16_octets(hi: u8, lo: u8)
    ensures
        be16(hi, lo) < 0x1_0000,
        be16_octets(be16(hi, lo)) == seq![hi, lo],
{
}

/// Read a 16-bit number.
pub fn read_be16(hi: u8, lo: u8) -> (v: u16)
    ensures
        v == be16(hi, lo),
{
    hi as u16 * 256 + lo as u16
}

/// Append a 16-bit number.
pub fn push_be16(out: &mut Vec<u8>, v: u16)
    ensures
        final(out)@ == old(out)@ + be16_octets(v as nat),
{
    out.push((v / 256) as u8);
    out.push((v % 256) as u8);
}

/// Read a 32-bit number from the front of `s`.
pub fn read_be32(s: &[u8]) -> (v: u32)
    requires
        s@.len() >= 4,
    ensures
        v == be32(s@),
{
    s[0] as u32 * 0x100_0000 + s[1] as u32 * 0x1_0000 + s[2] as u32 * 0x100 + s[3] as u32
}

/// The octets of a 32-bit number.
pub fn to_be32(v: u32) -> (out: Vec<u8>)
    ensures
        out@ == be32_octets(v as nat),
{
    let mut out: Vec<u8> = Vec::new();
    out.push((v / 0x100_0000) as u8);
    out.push((v / 0x1_0000 % 256) as u8);
    out.push((v / 0x100 % 256) as u8);
    out.push((v % 256) as u8);
    out
}

/// Append a run of octets.
pub fn push_octets(out: &mut Vec<u8>, octets: &[u8])
    ensures
        final(out)@ == old(out)@ + octets@,
{
    out.extend_from_slice(octets);
    assert(out@ =~= old(out)@ + octets@);
}

/// A copy of a run of octets.
pub fn copy_octets(octets: &Vec<u8>) -> (r: Vec<u8>)
    ensures
        r@ == octets@,
{
    vstd::slice::slice_to_vec(octets.as_slice())
}

/// A copy of an optional run of octets.
pub fn copy_optional_octets(octets: &Option<Vec<u8>>) -> (r: Option<Vec<u8>>)
    ensures
        option_view(r) == option_view(*octets),
{
    match octets {
        Some(o) => Some(copy_octets(o)),
        None => None,
    }
}

/// Whether two runs of octets are the same.
pub fn octets_eq(a: &[u8], b: &[u8]) -> (r: bool)
    ensures
        r == (a@ == b@),
{
    if a.len() != b.len() {
        return false;
    }
    let mut i: usize = 0;
    while i < a.len()
        invariant
            i <= a.len(),
            a.len() == b.len(),
            forall|j: int| 0 <= j < i ==> a@[j] == b@[j],
        decreases a.len() - i,
    {
        if a[i] != b[i] {
            return false;
        }
        i += 1;
    }
    assert(a@ =~= b@);
    true
}

} // verus!
