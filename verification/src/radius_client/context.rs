//! The NAS identity attributes on every Access-Request and Accounting-Request.

use super::consts::{NAS_PORT_ID, NAS_PORT_TYPE_ETHERNET};
use super::error::RadiusClientError;
use crate::pacp::ethernet::{format_mac, mac_text, MacAddr};
use crate::radius::attr::{
    CALLED_STATION_ID, CALLING_STATION_ID, NAS_IDENTIFIER, NAS_IP_ADDRESS, NAS_PORT, NAS_PORT_TYPE,
};
use crate::radius::packet::{
    integer_attr, text_attr, Attribute, AttributeView, Packet, PacketError, PacketView, MAX_VALUE_LEN,
};
use vstd::prelude::*;
use vstd::utf8::{encode_utf8, is_ascii_chars, is_ascii_chars_encode_utf8};

verus! {

/// Identity of the NAS and the access port for one supplicant.
#[derive(Debug)]
pub struct RequestContext {
    /// `NAS-IP-Address` (IPv4). Optional; an IPv6-only NAS relies on
    /// `NAS-Identifier`.
    pub nas_ip: Option<[u8; 4]>,
    /// `NAS-Identifier`: the switch hostname.
    pub nas_identifier: String,
    /// `NAS-Port-Id`: the front-panel interface name.
    pub nas_port_id: String,
    /// `NAS-Port`: the numeric port index, if used.
    pub nas_port: Option<u32>,
    /// `Calling-Station-Id`: the supplicant MAC.
    pub calling_station: MacAddr,
    /// `Called-Station-Id`: the switch port MAC.
    pub called_station: MacAddr,
}

/// What a request context says.
#[verifier::ext_equal]
pub struct ContextView {
    pub nas_ip: Option<[u8; 4]>,
    pub nas_identifier: Seq<char>,
    pub nas_port_id: Seq<char>,
    pub nas_port: Option<u32>,
    pub calling_station: MacAddr,
    pub called_station: MacAddr,
}

impl View for RequestContext {
    type V = ContextView;

    open spec fn view(&self) -> ContextView {
        ContextView {
            nas_ip: self.nas_ip,
            nas_identifier: self.nas_identifier@,
            nas_port_id: self.nas_port_id@,
            nas_port: self.nas_port,
            calling_station: self.calling_station,
            called_station: self.called_station,
        }
    }
}

impl Clone for RequestContext {
    fn clone(&self) -> (r: Self)
        ensures
            r@ == self@,
    {
        RequestContext {
            nas_ip: self.nas_ip,
            nas_identifier: self.nas_identifier.clone(),
            nas_port_id: self.nas_port_id.clone(),
            nas_port: self.nas_port,
            calling_station: self.calling_station,
            called_station: self.called_station,
        }
    }
}

/// A packet with more attributes at its end.
pub open spec fn extended(p: PacketView, more: Seq<AttributeView>) -> PacketView {
    PacketView { attributes: p.attributes + more, ..p }
}

impl ContextView {
    /// The address of the NAS, where it has one.
    pub open spec fn address(self) -> Seq<AttributeView> {
        match self.nas_ip {
            Some(ip) => seq![AttributeView { attr_type: NAS_IP_ADDRESS, value: ip@ }],
            None => Seq::empty(),
        }
    }

    /// The number of the port, where it has one.
    pub open spec fn port_number(self) -> Seq<AttributeView> {
        match self.nas_port {
            Some(port) => seq![integer_attr(NAS_PORT, port as nat)],
            None => Seq::empty(),
        }
    }

    /// Everything that names the NAS, the port and the station.
    pub open spec fn attributes(self) -> Seq<AttributeView> {
        self.address() + seq![
            text_attr(NAS_IDENTIFIER, self.nas_identifier),
            text_attr(NAS_PORT_ID, self.nas_port_id),
            integer_attr(NAS_PORT_TYPE, NAS_PORT_TYPE_ETHERNET as nat),
        ] + self.port_number() + seq![
            text_attr(CALLING_STATION_ID, mac_text(self.calling_station)),
            text_attr(CALLED_STATION_ID, mac_text(self.called_station)),
        ]
    }

    /// A name that is too long for an attribute, if there is one.
    pub open spec fn fault(self) -> Option<PacketError> {
        if encode_utf8(self.nas_identifier).len() > MAX_VALUE_LEN {
            Some(PacketError::AttributeTooLong(encode_utf8(self.nas_identifier).len() as usize))
        } else if encode_utf8(self.nas_port_id).len() > MAX_VALUE_LEN {
            Some(PacketError::AttributeTooLong(encode_utf8(self.nas_port_id).len() as usize))
        } else {
            None
        }
    }

    /// What comes before a name that is too long.
    pub open spec fn before_fault(self) -> Seq<AttributeView> {
        if encode_utf8(self.nas_identifier).len() > MAX_VALUE_LEN {
            self.address()
        } else {
            self.address().push(text_attr(NAS_IDENTIFIER, self.nas_identifier))
        }
    }
}

/// An address text fits into an attribute.
pub proof fn lemma_mac_text_fits(mac: MacAddr)
    ensures
        encode_utf8(mac_text(mac)).len() == 17,
{
    let t = mac_text(mac);
    assert forall|i: int| 0 <= i < t.len() implies '\0' <= #[trigger] t[i] <= '\u{7f}' by {
        assert(0 <= mac@[i / 3] as int / 16 < 16 && 0 <= mac@[i / 3] as int % 16 < 16);
    }
    assert(is_ascii_chars(t));
    is_ascii_chars_encode_utf8(t);
}

/// Append an attribute, or say why it is none.
pub(crate) fn append(packet: &mut Packet, attribute: Result<Attribute, PacketError>) -> (r: Result<
    (),
    RadiusClientError,
>)
    ensures
        attribute matches Ok(a) ==> r is Ok && final(packet)@ == extended(old(packet)@, seq![a@]),
        attribute matches Err(e) ==> r == Err::<(), RadiusClientError>(RadiusClientError::Proto(e))
            && final(packet)@ == old(packet)@,
{
    match attribute {
        Ok(a) => {
            packet.add_attribute(a);
            assert(packet@.attributes =~= old(packet)@.attributes + seq![a@]);
            Ok(())
        },
        Err(e) => Err(RadiusClientError::Proto(e)),
    }
}

impl RequestContext {
    /// Append the common NAS/port attributes to `packet`. A name that is too long
    /// for an attribute is reported, with what came before it left in place.
    pub fn append_nas_attributes(&self, packet: &mut Packet) -> (r: Result<(), RadiusClientError>)
        ensures
            self@.fault() is None ==> r is Ok && final(packet)@ == extended(
                old(packet)@,
                self@.attributes(),
            ),
            self@.fault() matches Some(e) ==> r == Err::<(), RadiusClientError>(
                RadiusClientError::Proto(e),
            ) && final(packet)@ == extended(old(packet)@, self@.before_fault()),
    {
        proof {
            lemma_mac_text_fits(self.calling_station);
            lemma_mac_text_fits(self.called_station);
        }
        if let Some(ip) = self.nas_ip {
            append(packet, Attribute::ipv4(NAS_IP_ADDRESS, ip))?;
        }
        assert(packet@ =~= extended(old(packet)@, self@.address()));
        let identifier = Attribute::string(NAS_IDENTIFIER, self.nas_identifier.as_str());
        append(packet, identifier)?;
        let port_id = Attribute::string(NAS_PORT_ID, self.nas_port_id.as_str());
        assert(packet@ =~= extended(
            old(packet)@,
            self@.address().push(text_attr(NAS_IDENTIFIER, self@.nas_identifier)),
        ));
        append(packet, port_id)?;
        append(packet, Attribute::integer(NAS_PORT_TYPE, NAS_PORT_TYPE_ETHERNET))?;
        if let Some(port) = self.nas_port {
            append(packet, Attribute::integer(NAS_PORT, port))?;
        }
        let calling = format_mac(&self.calling_station);
        append(packet, Attribute::string(CALLING_STATION_ID, calling.as_str()))?;
        let called = format_mac(&self.called_station);
        append(packet, Attribute::string(CALLED_STATION_ID, called.as_str()))?;
        assert(packet@ =~= extended(old(packet)@, self@.attributes()));
        Ok(())
    }
}

} // verus!
