//! `EAP-Message` (RFC 3579 section 3.1) fragmentation and reassembly of the raw
//! EAP octets: a pass-through must not alter what it forwards.

use super::consts::{EAP_MESSAGE, MAX_ATTR_VALUE};
use super::context::{append, extended};
use super::error::RadiusClientError;
use crate::bytes::push_octets;
use crate::radius::packet::{Attribute, AttributeView, Packet};
use vstd::prelude::*;
use vstd::slice::{slice_subrange, slice_to_vec};

verus! {

/// How many attributes an EAP packet of this length takes.
pub open spec fn fragment_count(len: nat) -> nat {
    (len + 252) / 253
}

/// One `EAP-Message` attribute.
pub open spec fn eap_attr(value: Seq<u8>) -> AttributeView {
    AttributeView { attr_type: EAP_MESSAGE, value }
}

/// The attributes that an EAP packet is cut into: all but the last are full.
pub open spec fn fragments(eap: Seq<u8>) -> Seq<AttributeView> {
    Seq::new(
        fragment_count(eap.len()),
        |i: int|
            eap_attr(
                eap.subrange(
                    253 * i,
                    if 253 * (i + 1) <= eap.len() {
                        253 * (i + 1)
                    } else {
                        eap.len() as int
                    },
                ),
            ),
    )
}

/// The EAP packet that a list of attributes carries: the values of all its
/// `EAP-Message` attributes, joined in order.
pub open spec fn eap_of(attrs: Seq<AttributeView>) -> Seq<u8>
    decreases attrs.len(),
{
    if attrs.len() == 0 {
        Seq::empty()
    } else if attrs.last().attr_type == EAP_MESSAGE {
        eap_of(attrs.drop_last()) + attrs.last().value
    } else {
        eap_of(attrs.drop_last())
    }
}

/// Split `eap` into `EAP-Message` attributes of at most 253 octets appended to
/// `packet`, preserving order. An empty `eap` adds nothing.
pub fn fragment_into(packet: &mut Packet, eap: &[u8]) -> (r: Result<(), RadiusClientError>)
    ensures
        r is Ok,
        final(packet)@ == extended(old(packet)@, fragments(eap@)),
{
    let mut at: usize = 0;
    let ghost mut n: int = 0;
    while at < eap.len()
        invariant
            at <= eap.len(),
            0 <= n,
            at < eap.len() ==> at == 253 * n && n < fragment_count(eap@.len()),
            at == eap.len() ==> n == fragment_count(eap@.len()),
            packet@ == extended(old(packet)@, fragments(eap@).take(n)),
        decreases eap.len() - at,
    {
        let end: usize = if eap.len() - at > MAX_ATTR_VALUE {
            at + MAX_ATTR_VALUE
        } else {
            eap.len()
        };
        let ghost before = packet@;
        let chunk = slice_to_vec(slice_subrange(eap, at, end));
        append(packet, Attribute::new(EAP_MESSAGE, chunk))?;
        proof {
            assert(fragments(eap@)[n] == eap_attr(chunk@));
            assert(fragments(eap@).take(n + 1) =~= fragments(eap@).take(n).push(eap_attr(chunk@)));
            assert(packet@ =~= extended(old(packet)@, fragments(eap@).take(n + 1)));
            n = n + 1;
        }
        at = end;
    }
    assert(fragments(eap@).take(n) =~= fragments(eap@));
    Ok(())
}

/// Concatenate every `EAP-Message` attribute, in order, into the whole EAP
/// packet. Empty if the packet carries none.
pub fn reassemble(packet: &Packet) -> (out: Vec<u8>)
    ensures
        out@ == eap_of(packet@.attributes),
{
    let mut out: Vec<u8> = Vec::new();
    let mut i: usize = 0;
    while i < packet.attributes.len()
        invariant
            i <= packet.attributes.len(),
            out@ == eap_of(packet@.attributes.take(i as int)),
        decreases packet.attributes.len() - i,
    {
        proof {
            let all = packet@.attributes;
            assert(all.take(i + 1).drop_last() =~= all.take(i as int));
            assert(all.take(i + 1).last() == packet.attributes@[i as int]@);
        }
        if packet.attributes[i].attr_type == EAP_MESSAGE {
            push_octets(&mut out, packet.attributes[i].value.as_slice());
        }
        i += 1;
    }
    assert(packet@.attributes.take(i as int) =~= packet@.attributes);
    out
}

/// No attribute of the list carries EAP.
pub open spec fn no_eap(attrs: Seq<AttributeView>) -> bool {
    forall|i: int| 0 <= i < attrs.len() ==> (#[trigger] attrs[i]).attr_type != EAP_MESSAGE
}

pub proof fn lemma_eap_of_none(attrs: Seq<AttributeView>)
    requires
        no_eap(attrs),
    ensures
        eap_of(attrs) == Seq::<u8>::empty(),
    decreases attrs.len(),
{
    if attrs.len() > 0 {
        assert(no_eap(attrs.drop_last()));
        lemma_eap_of_none(attrs.drop_last());
    }
}

pub proof fn lemma_eap_of_append(a: Seq<AttributeView>, b: Seq<AttributeView>)
    ensures
        eap_of(a + b) == eap_of(a) + eap_of(b),
    decreases b.len(),
{
    if b.len() == 0 {
        assert(a + b =~= a);
        assert(eap_of(a) + Seq::<u8>::empty() =~= eap_of(a));
    } else {
        lemma_eap_of_append(a, b.drop_last());
        assert((a + b).drop_last() =~= a + b.drop_last());
        assert((a + b).last() == b.last());
        assert(eap_of(a) + (eap_of(b.drop_last()) + b.last().value) =~= (eap_of(a) + eap_of(
            b.drop_last(),
        )) + b.last().value);
    }
}

proof fn lemma_eap_of_fragments(eap: Seq<u8>, n: int)
    requires
        0 <= n <= fragment_count(eap.len()),
    ensures
        eap_of(fragments(eap).take(n)) == eap.take(if 253 * n <= eap.len() {
            253 * n
        } else {
            eap.len() as int
        }),
    decreases n,
{
    let f = fragments(eap);
    if n == 0 {
        assert(f.take(0) =~= Seq::<AttributeView>::empty());
        assert(eap.take(0) =~= Seq::<u8>::empty());
    } else {
        lemma_eap_of_fragments(eap, n - 1);
        assert(f.take(n).drop_last() =~= f.take(n - 1));
        assert(f.take(n).last() == f[n - 1]);
        assert(253 * (n - 1) < eap.len());
        assert(eap_of(f.take(n)) =~= eap.take(if 253 * n <= eap.len() {
            253 * n
        } else {
            eap.len() as int
        }));
    }
}

/// An EAP packet of any length is relayed verbatim: joined again, its fragments
/// give it back, whatever other attributes stand around them, and each of them
/// fits into an attribute and carries something.
pub proof fn law_relay_round_trip(
    before: Seq<AttributeView>,
    eap: Seq<u8>,
    after: Seq<AttributeView>,
)
    requires
        no_eap(before),
        no_eap(after),
    ensures
        eap_of(before + fragments(eap) + after) == eap,
        forall|i: int|
            0 <= i < fragments(eap).len() ==> 0 < (#[trigger] fragments(eap)[i]).value.len()
                <= MAX_ATTR_VALUE,
{
    let f = fragments(eap);
    lemma_eap_of_fragments(eap, f.len() as int);
    assert(f.take(f.len() as int) =~= f);
    assert(eap_of(f) =~= eap);
    lemma_eap_of_none(before);
    lemma_eap_of_none(after);
    lemma_eap_of_append(before, f);
    lemma_eap_of_append(before + f, after);
    assert(Seq::<u8>::empty() + eap + Seq::<u8>::empty() =~= eap);
}

} // verus!
