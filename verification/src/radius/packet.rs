//! A RADIUS packet and its octets:
//! `Code(1) | Identifier(1) | Length(2) | Authenticator(16) | attributes`,
//! each attribute being `Type(1) | Length(1) | Value`.

use crate::bytes::{
    be16, be16_octets, be32_octets, copy_octets, lemma_be16, lemma_be16_octets, outcome, push_be16,
    push_octets, read_be16, to_be32,
};
use crate::text::{decimal, numbered, push_decimal};
use vstd::prelude::*;
use vstd::slice::{slice_subrange, slice_to_vec};
use vstd::utf8::encode_utf8;

verus! {

/// Octets in front of the attributes.
pub const HEADER_LEN: usize = 20;

/// Largest packet that may be sent (RFC 2865 section 3).
pub const MAX_PACKET_LEN: usize = 4096;

/// Largest value an attribute can carry: a 255-octet TLV without its two-octet
/// header.
pub const MAX_VALUE_LEN: usize = 253;

/// What a packet is for.
#[derive(Debug, Clone, Copy, PartialEq, Eq, Structural)]
pub enum Code {
    /// Access-Request (1).
    AccessRequest,
    /// Access-Accept (2).
    AccessAccept,
    /// Access-Reject (3).
    AccessReject,
    /// Accounting-Request (4).
    AccountingRequest,
    /// Accounting-Response (5).
    AccountingResponse,
    /// Access-Challenge (11).
    AccessChallenge,
    /// Any other code, preserved verbatim.
    Other(u8),
}

/// The octet that stands for a code.
pub open spec fn code_octet(code: Code) -> u8 {
    match code {
        Code::AccessRequest => 1,
        Code::AccessAccept => 2,
        Code::AccessReject => 3,
        Code::AccountingRequest => 4,
        Code::AccountingResponse => 5,
        Code::AccessChallenge => 11,
        Code::Other(v) => v,
    }
}

/// The code that an octet stands for.
pub open spec fn octet_code(v: u8) -> Code {
    match v {
        1 => Code::AccessRequest,
        2 => Code::AccessAccept,
        3 => Code::AccessReject,
        4 => Code::AccountingRequest,
        5 => Code::AccountingResponse,
        11 => Code::AccessChallenge,
        _ => Code::Other(v),
    }
}

impl Code {
    /// The on-the-wire octet for this code.
    pub fn as_u8(self) -> (v: u8)
        ensures
            v == code_octet(self),
    {
        match self {
            Code::AccessRequest => 1,
            Code::AccessAccept => 2,
            Code::AccessReject => 3,
            Code::AccountingRequest => 4,
            Code::AccountingResponse => 5,
            Code::AccessChallenge => 11,
            Code::Other(v) => v,
        }
    }

    /// Decode a code octet.
    pub fn from_u8(v: u8) -> (c: Self)
        ensures
            c == octet_code(v),
    {
        match v {
            1 => Code::AccessRequest,
            2 => Code::AccessAccept,
            3 => Code::AccessReject,
            4 => Code::AccountingRequest,
            5 => Code::AccountingResponse,
            11 => Code::AccessChallenge,
            _ => Code::Other(v),
        }
    }
}

/// Why a packet or an attribute cannot be built, encoded or decoded.
#[derive(Debug, Clone, Copy, PartialEq, Eq, Structural)]
pub enum PacketError {
    /// An attribute value of this many octets is longer than an attribute holds.
    AttributeTooLong(usize),
    /// The packet is longer than may be sent.
    PacketTooLong,
    /// Only this many octets where a packet header has to be.
    TruncatedHeader(usize),
    /// The Length field is none that a packet can have.
    BadLength(usize),
    /// The Length field claims more octets than there are.
    TruncatedPacket {
        /// Length declared in the header.
        declared: usize,
        /// Octets actually available.
        available: usize,
    },
    /// The attributes do not fill the packet exactly.
    BadAttribute,
}

impl PacketError {
    /// What the error says.
    pub open spec fn text(self) -> Seq<char> {
        match self {
            PacketError::AttributeTooLong(n) => "attribute value of "@ + decimal(n as nat)
                + " octet(s) does not fit"@,
            PacketError::PacketTooLong => "packet exceeds 4096 octets"@,
            PacketError::TruncatedHeader(n) => "truncated packet header: "@ + decimal(n as nat)
                + " octet(s) available, need 20"@,
            PacketError::BadLength(n) => "packet length field "@ + decimal(n as nat)
                + " outside 20..=4096"@,
            PacketError::TruncatedPacket { declared, available } => "truncated packet: declared "@
                + decimal(declared as nat) + ", available "@ + decimal(available as nat),
            PacketError::BadAttribute => "attributes do not fill the packet"@,
        }
    }

    /// What the error says, for a log.
    pub fn message(&self) -> (r: String)
        ensures
            r@ == self.text(),
    {
        match *self {
            PacketError::AttributeTooLong(n) => numbered(
                "attribute value of ",
                n,
                " octet(s) does not fit",
            ),
            PacketError::PacketTooLong => "packet exceeds 4096 octets".to_owned(),
            PacketError::TruncatedHeader(n) => numbered(
                "truncated packet header: ",
                n,
                " octet(s) available, need 20",
            ),
            PacketError::BadLength(n) => numbered("packet length field ", n, " outside 20..=4096"),
            PacketError::TruncatedPacket { declared, available } => {
                let mut out = numbered("truncated packet: declared ", declared, ", available ");
                push_decimal(&mut out, available as u64);
                out
            },
            PacketError::BadAttribute => "attributes do not fill the packet".to_owned(),
        }
    }
}

/// One attribute.
#[derive(Debug, PartialEq, Eq)]
pub struct Attribute {
    /// The attribute type.
    pub attr_type: u8,
    /// The value.
    pub value: Vec<u8>,
}

/// What an attribute holds.
#[verifier::ext_equal]
pub struct AttributeView {
    pub attr_type: u8,
    pub value: Seq<u8>,
}

impl View for Attribute {
    type V = AttributeView;

    open spec fn view(&self) -> AttributeView {
        AttributeView { attr_type: self.attr_type, value: self.value@ }
    }
}

/// What a list of attributes holds, in order.
pub open spec fn attribute_views(attrs: Seq<Attribute>) -> Seq<AttributeView> {
    Seq::new(attrs.len(), |i: int| attrs[i]@)
}

/// An attribute, unless its value is too long for one.
pub open spec fn attribute_of(attr_type: u8, value: Seq<u8>) -> Result<AttributeView, PacketError> {
    if value.len() > MAX_VALUE_LEN {
        Err(PacketError::AttributeTooLong(value.len() as usize))
    } else {
        Ok(AttributeView { attr_type, value })
    }
}

/// An attribute that holds a 32-bit number.
pub open spec fn integer_attr(attr_type: u8, v: nat) -> AttributeView {
    AttributeView { attr_type, value: be32_octets(v) }
}

/// An attribute that holds a text.
pub open spec fn text_attr(attr_type: u8, text: Seq<char>) -> AttributeView {
    AttributeView { attr_type, value: encode_utf8(text) }
}

impl Clone for Attribute {
    fn clone(&self) -> (r: Self)
        ensures
            r@ == self@,
    {
        Attribute { attr_type: self.attr_type, value: copy_octets(&self.value) }
    }
}

impl Attribute {
    /// An attribute with an opaque value.
    pub fn new(attr_type: u8, value: Vec<u8>) -> (r: Result<Self, PacketError>)
        ensures
            outcome(r) == attribute_of(attr_type, value@),
    {
        if value.len() > MAX_VALUE_LEN {
            return Err(PacketError::AttributeTooLong(value.len()));
        }
        Ok(Attribute { attr_type, value })
    }

    /// An attribute with a text value.
    pub fn string(attr_type: u8, value: &str) -> (r: Result<Self, PacketError>)
        ensures
            outcome(r) == attribute_of(attr_type, encode_utf8(value@)),
    {
        Attribute::new(attr_type, slice_to_vec(value.as_bytes()))
    }

    /// An attribute with a 32-bit number as its value.
    pub fn integer(attr_type: u8, value: u32) -> (r: Result<Self, PacketError>)
        ensures
            outcome(r) == Ok::<AttributeView, PacketError>(integer_attr(attr_type, value as nat)),
    {
        Ok(Attribute { attr_type, value: to_be32(value) })
    }

    /// An attribute with an IPv4 address as its value.
    pub fn ipv4(attr_type: u8, value: [u8; 4]) -> (r: Result<Self, PacketError>)
        ensures
            outcome(r) == Ok::<AttributeView, PacketError>(AttributeView { attr_type, value: value@ }),
    {
        Ok(Attribute { attr_type, value: slice_to_vec(value.as_slice()) })
    }
}

/// A RADIUS packet.
#[derive(Debug, PartialEq, Eq)]
pub struct Packet {
    /// What the packet is for.
    pub code: Code,
    /// Matches a reply to its request.
    pub identifier: u8,
    /// The Request or Response Authenticator.
    pub authenticator: [u8; 16],
    /// The attributes, in order.
    pub attributes: Vec<Attribute>,
}

/// What a packet holds.
#[verifier::ext_equal]
pub struct PacketView {
    pub code: Code,
    pub identifier: u8,
    pub authenticator: [u8; 16],
    pub attributes: Seq<AttributeView>,
}

impl View for Packet {
    type V = PacketView;

    open spec fn view(&self) -> PacketView {
        PacketView {
            code: self.code,
            identifier: self.identifier,
            authenticator: self.authenticator,
            attributes: attribute_views(self.attributes@),
        }
    }
}

/// The octets of one attribute.
pub open spec fn attr_bytes(a: AttributeView) -> Seq<u8> {
    seq![a.attr_type, (a.value.len() + 2) as u8] + a.value
}

/// The octets of a list of attributes.
pub open spec fn attrs_bytes(attrs: Seq<AttributeView>) -> Seq<u8>
    decreases attrs.len(),
{
    if attrs.len() == 0 {
        Seq::empty()
    } else {
        attr_bytes(attrs[0]) + attrs_bytes(attrs.skip(1))
    }
}

/// How many octets a list of attributes takes.
pub open spec fn attrs_len(attrs: Seq<AttributeView>) -> nat
    decreases attrs.len(),
{
    if attrs.len() == 0 {
        0
    } else {
        2 + attrs[0].value.len() + attrs_len(attrs.skip(1))
    }
}

/// The first value that is too long for an attribute, if there is one.
pub open spec fn oversize(attrs: Seq<AttributeView>) -> Option<nat>
    decreases attrs.len(),
{
    if attrs.len() == 0 {
        None
    } else if attrs[0].value.len() > MAX_VALUE_LEN {
        Some(attrs[0].value.len())
    } else {
        oversize(attrs.skip(1))
    }
}

/// The attributes that a run of octets spells, or `None` where it spells none: a
/// length below its own header's, or one that runs past the end.
pub open spec fn attrs_of(s: Seq<u8>) -> Option<Seq<AttributeView>>
    decreases s.len(),
{
    if s.len() == 0 {
        Some(Seq::empty())
    } else if s.len() < 2 || s[1] < 2 || s[1] > s.len() {
        None
    } else {
        match attrs_of(s.skip(s[1] as int)) {
            Some(rest) => Some(
                seq![AttributeView { attr_type: s[0], value: s.subrange(2, s[1] as int) }] + rest,
            ),
            None => None,
        }
    }
}

impl PacketView {
    /// How many octets the packet takes.
    pub open spec fn size(self) -> nat {
        HEADER_LEN as nat + attrs_len(self.attributes)
    }

    /// The octets of the packet.
    pub open spec fn bytes(self) -> Seq<u8> {
        seq![code_octet(self.code), self.identifier] + be16_octets(self.size()) + self.authenticator@
            + attrs_bytes(self.attributes)
    }

    /// What keeps the packet from being sent, if anything does.
    pub open spec fn fault(self) -> Option<PacketError> {
        if let Some(n) = oversize(self.attributes) {
            Some(PacketError::AttributeTooLong(n as usize))
        } else if self.size() > MAX_PACKET_LEN {
            Some(PacketError::PacketTooLong)
        } else {
            None
        }
    }

    /// The code is the one its octet is decoded as.
    pub open spec fn canonical(self) -> bool {
        octet_code(code_octet(self.code)) == self.code
    }
}

/// The sixteen octets of `s` that start at `at`.
pub open spec fn authenticator_at(s: Seq<u8>, at: int) -> [u8; 16] {
    [
        s[at],
        s[at + 1],
        s[at + 2],
        s[at + 3],
        s[at + 4],
        s[at + 5],
        s[at + 6],
        s[at + 7],
        s[at + 8],
        s[at + 9],
        s[at + 10],
        s[at + 11],
        s[at + 12],
        s[at + 13],
        s[at + 14],
        s[at + 15],
    ]
}

/// What decoding a packet comes to. Octets beyond the Length field are padding.
pub open spec fn packet_decodes(buf: Seq<u8>) -> Result<PacketView, PacketError> {
    if buf.len() < HEADER_LEN {
        Err(PacketError::TruncatedHeader(buf.len() as usize))
    } else {
        let declared = be16(buf[2], buf[3]);
        if declared < HEADER_LEN || declared > MAX_PACKET_LEN {
            Err(PacketError::BadLength(declared as usize))
        } else if declared > buf.len() {
            Err(
                PacketError::TruncatedPacket {
                    declared: declared as usize,
                    available: buf.len() as usize,
                },
            )
        } else {
            match attrs_of(buf.subrange(HEADER_LEN as int, declared as int)) {
                Some(attributes) => Ok(
                    PacketView {
                        code: octet_code(buf[0]),
                        identifier: buf[1],
                        authenticator: authenticator_at(buf, 4),
                        attributes,
                    },
                ),
                None => Err(PacketError::BadAttribute),
            }
        }
    }
}

/// The value of the first attribute of a type.
pub open spec fn first_of(attrs: Seq<AttributeView>, attr_type: u8) -> Option<Seq<u8>>
    decreases attrs.len(),
{
    if attrs.len() == 0 {
        None
    } else if attrs[0].attr_type == attr_type {
        Some(attrs[0].value)
    } else {
        first_of(attrs.skip(1), attr_type)
    }
}

/// The attributes of a type, in order.
pub open spec fn all_of(attrs: Seq<AttributeView>, attr_type: u8) -> Seq<AttributeView> {
    attrs.filter(|a: AttributeView| a.attr_type == attr_type)
}

impl Clone for Packet {
    fn clone(&self) -> (r: Self)
        ensures
            r@ == self@,
    {
        let mut attributes: Vec<Attribute> = Vec::new();
        let mut i: usize = 0;
        while i < self.attributes.len()
            invariant
                i <= self.attributes.len(),
                attribute_views(attributes@) == self@.attributes.take(i as int),
            decreases self.attributes.len() - i,
        {
            let ghost done = attribute_views(attributes@);
            attributes.push(self.attributes[i].clone());
            assert(attribute_views(attributes@) =~= done.push(self.attributes@[i as int]@));
            assert(done.push(self.attributes@[i as int]@) =~= self@.attributes.take(i + 1));
            i += 1;
        }
        assert(attribute_views(attributes@) =~= self@.attributes);
        Packet {
            code: self.code,
            identifier: self.identifier,
            authenticator: self.authenticator,
            attributes,
        }
    }
}

impl Packet {
    /// A packet without attributes.
    pub fn new(code: Code, identifier: u8, authenticator: [u8; 16]) -> (r: Self)
        ensures
            r@ == (PacketView { code, identifier, authenticator, attributes: Seq::empty() }),
    {
        let r = Packet { code, identifier, authenticator, attributes: Vec::new() };
        assert(r@.attributes =~= Seq::<AttributeView>::empty());
        r
    }

    /// Append an attribute.
    pub fn add_attribute(&mut self, attribute: Attribute)
        ensures
            final(self)@ == (PacketView {
                attributes: old(self)@.attributes.push(attribute@),
                ..old(self)@
            }),
    {
        self.attributes.push(attribute);
        assert(self@.attributes =~= old(self)@.attributes.push(attribute@));
    }

    /// The first attribute of a type, if there is one.
    pub fn find_attribute(&self, attr_type: u8) -> (r: Option<&Attribute>)
        ensures
            first_of(self@.attributes, attr_type) == (match r {
                Some(a) => Some(a.value@),
                None => None,
            }),
            r matches Some(a) ==> a.attr_type == attr_type,
    {
        let mut i: usize = 0;
        assert(self@.attributes.skip(0) =~= self@.attributes);
        while i < self.attributes.len()
            invariant
                i <= self.attributes.len(),
                first_of(self@.attributes, attr_type) == first_of(
                    self@.attributes.skip(i as int),
                    attr_type,
                ),
            decreases self.attributes.len() - i,
        {
            let ghost rest = self@.attributes.skip(i as int);
            assert(rest[0] == self.attributes@[i as int]@);
            assert(rest.skip(1) =~= self@.attributes.skip(i + 1));
            if self.attributes[i].attr_type == attr_type {
                return Some(&self.attributes[i]);
            }
            i += 1;
        }
        None
    }

    /// Every attribute of a type, in order.
    pub fn find_all_attributes(&self, attr_type: u8) -> (r: Vec<&Attribute>)
        ensures
            Seq::new(r@.len(), |i: int| r@[i]@) == all_of(self@.attributes, attr_type),
    {
        let mut out: Vec<&Attribute> = Vec::new();
        let mut i: usize = 0;
        let ghost mut found: Seq<AttributeView> = Seq::empty();
        while i < self.attributes.len()
            invariant
                i <= self.attributes.len(),
                found == all_of(self@.attributes.take(i as int), attr_type),
                found.len() == out@.len(),
                forall|j: int| 0 <= j < found.len() ==> found[j] == (#[trigger] out@[j])@,
            decreases self.attributes.len() - i,
        {
            proof {
                let all = self@.attributes;
                reveal(Seq::filter);
                assert(all.take(i + 1).drop_last() =~= all.take(i as int));
                assert(all.take(i + 1).last() == self.attributes@[i as int]@);
            }
            if self.attributes[i].attr_type == attr_type {
                out.push(&self.attributes[i]);
                proof {
                    found = found.push(self.attributes@[i as int]@);
                }
            }
            i += 1;
        }
        assert(self@.attributes.take(i as int) =~= self@.attributes);
        assert(Seq::new(out@.len(), |i: int| out@[i]@) =~= found);
        out
    }

    /// The packet's octets, unless it is too long to be sent.
    pub fn encode(&self) -> (r: Result<Vec<u8>, PacketError>)
        ensures
            outcome(r) == (match self@.fault() {
                Some(e) => Err(e),
                None => Ok(self@.bytes()),
            }),
    {
        let mut body: Vec<u8> = Vec::new();
        let mut i: usize = 0;
        let mut len: usize = HEADER_LEN;
        let mut too_long = false;
        let ghost all = self@.attributes;
        assert(body@ =~= attrs_bytes(all.take(0)));
        assert(all.skip(0) =~= all);
        while i < self.attributes.len()
            invariant
                i <= self.attributes.len(),
                all == self@.attributes,
                oversize(all) == oversize(all.skip(i as int)),
                !too_long ==> len <= MAX_PACKET_LEN && len == HEADER_LEN + attrs_len(all.take(i as int)),
                !too_long ==> body@ == attrs_bytes(all.take(i as int)),
                too_long ==> HEADER_LEN + attrs_len(all.take(i as int)) > MAX_PACKET_LEN,
            decreases self.attributes.len() - i,
        {
            let n = self.attributes[i].value.len();
            proof {
                assert(all[i as int] == self.attributes@[i as int]@);
                assert(all.skip(i as int)[0] == all[i as int]);
                assert(all.skip(i as int).skip(1) =~= all.skip(i + 1));
                lemma_attrs_push(all.take(i as int), all[i as int]);
                assert(all.take(i as int).push(all[i as int]) =~= all.take(i + 1));
            }
            if n > MAX_VALUE_LEN {
                return Err(PacketError::AttributeTooLong(n));
            }
            if !too_long {
                len = len + 2 + n;
                if len > MAX_PACKET_LEN {
                    too_long = true;
                } else {
                    body.push(self.attributes[i].attr_type);
                    body.push((n + 2) as u8);
                    push_octets(&mut body, self.attributes[i].value.as_slice());
                    assert(body@ =~= attrs_bytes(all.take(i as int)) + attr_bytes(all[i as int]));
                }
            }
            i += 1;
        }
        assert(all.take(i as int) =~= all);
        assert(all.skip(i as int) =~= Seq::<AttributeView>::empty());
        if too_long {
            return Err(PacketError::PacketTooLong);
        }
        let mut out: Vec<u8> = Vec::new();
        out.push(self.code.as_u8());
        out.push(self.identifier);
        push_be16(&mut out, len as u16);
        push_octets(&mut out, self.authenticator.as_slice());
        push_octets(&mut out, body.as_slice());
        assert(out@ =~= self@.bytes());
        Ok(out)
    }

    /// Decode a packet. Octets beyond its Length field are ignored.
    pub fn decode(buf: &[u8]) -> (r: Result<Self, PacketError>)
        ensures
            outcome(r) == packet_decodes(buf@),
    {
        if buf.len() < HEADER_LEN {
            return Err(PacketError::TruncatedHeader(buf.len()));
        }
        let declared: usize = read_be16(buf[2], buf[3]) as usize;
        if declared < HEADER_LEN || declared > MAX_PACKET_LEN {
            return Err(PacketError::BadLength(declared));
        }
        if declared > buf.len() {
            return Err(PacketError::TruncatedPacket { declared, available: buf.len() });
        }
        let authenticator = [
            buf[4],
            buf[5],
            buf[6],
            buf[7],
            buf[8],
            buf[9],
            buf[10],
            buf[11],
            buf[12],
            buf[13],
            buf[14],
            buf[15],
            buf[16],
            buf[17],
            buf[18],
            buf[19],
        ];
        assert(authenticator =~= authenticator_at(buf@, 4));
        let body = slice_subrange(buf, HEADER_LEN, declared);
        match decode_attributes(body) {
            Some(attributes) => Ok(
                Packet { code: Code::from_u8(buf[0]), identifier: buf[1], authenticator, attributes },
            ),
            None => Err(PacketError::BadAttribute),
        }
    }
}

/// Decode a run of attributes that has to be filled exactly.
fn decode_attributes(body: &[u8]) -> (r: Option<Vec<Attribute>>)
    ensures
        attrs_of(body@) == (match r {
            Some(attrs) => Some(attribute_views(attrs@)),
            None => None,
        }),
{
    let mut out: Vec<Attribute> = Vec::new();
    let mut at: usize = 0;
    proof {
        assert(body@.skip(0) =~= body@);
        lemma_prepend_none(attrs_of(body@));
        assert(attribute_views(out@) =~= Seq::<AttributeView>::empty());
    }
    while at < body.len()
        invariant
            at <= body.len(),
            attrs_of(body@) == prepend(attribute_views(out@), attrs_of(body@.skip(at as int))),
        decreases body.len() - at,
    {
        let ghost rest = body@.skip(at as int);
        if body.len() - at < 2 {
            return None;
        }
        let n: usize = body[at + 1] as usize;
        if n < 2 || n > body.len() - at {
            return None;
        }
        let value = slice_to_vec(slice_subrange(body, at + 2, at + n));
        let attribute = Attribute { attr_type: body[at], value };
        proof {
            assert(rest.skip(n as int) =~= body@.skip(at + n));
            assert(rest.subrange(2, n as int) =~= value@);
            lemma_prepend(
                attribute_views(out@),
                attribute@,
                attrs_of(body@.skip(at + n)),
            );
            assert(attribute_views(out@.push(attribute)) =~= attribute_views(out@).push(attribute@));
        }
        out.push(attribute);
        at = at + n;
    }
    assert(attribute_views(out@) + Seq::<AttributeView>::empty() =~= attribute_views(out@));
    Some(out)
}

/// `first` in front of what was decoded, if anything was.
spec fn prepend(
    first: Seq<AttributeView>,
    rest: Option<Seq<AttributeView>>,
) -> Option<Seq<AttributeView>> {
    match rest {
        Some(attrs) => Some(first + attrs),
        None => None,
    }
}

proof fn lemma_prepend_none(rest: Option<Seq<AttributeView>>)
    ensures
        prepend(Seq::empty(), rest) == rest,
{
    if let Some(attrs) = rest {
        assert(Seq::<AttributeView>::empty() + attrs =~= attrs);
    }
}

proof fn lemma_prepend(
    first: Seq<AttributeView>,
    next: AttributeView,
    rest: Option<Seq<AttributeView>>,
)
    ensures
        prepend(first, prepend(seq![next], rest)) == prepend(first.push(next), rest),
{
    if let Some(attrs) = rest {
        assert(first + (seq![next] + attrs) =~= first.push(next) + attrs);
    }
}

/// One more attribute at the end adds its octets at the end.
proof fn lemma_attrs_push(attrs: Seq<AttributeView>, a: AttributeView)
    ensures
        attrs_bytes(attrs.push(a)) == attrs_bytes(attrs) + attr_bytes(a),
        attrs_len(attrs.push(a)) == attrs_len(attrs) + 2 + a.value.len(),
    decreases attrs.len(),
{
    reveal_with_fuel(attrs_bytes, 2);
    reveal_with_fuel(attrs_len, 2);
    if attrs.len() == 0 {
        assert(attrs.push(a).skip(1) =~= Seq::<AttributeView>::empty());
        assert(attr_bytes(a) + Seq::<u8>::empty() =~= attr_bytes(a));
        assert(Seq::<u8>::empty() + attr_bytes(a) =~= attr_bytes(a));
    } else {
        lemma_attrs_push(attrs.skip(1), a);
        assert(attrs.push(a).skip(1) =~= attrs.skip(1).push(a));
        assert(attrs.push(a)[0] == attrs[0]);
        assert(attr_bytes(attrs[0]) + (attrs_bytes(attrs.skip(1)) + attr_bytes(a)) =~= (attr_bytes(
            attrs[0],
        ) + attrs_bytes(attrs.skip(1))) + attr_bytes(a));
    }
}

/// Attributes take as many octets as their lengths add up to.
pub proof fn lemma_attrs_bytes_len(attrs: Seq<AttributeView>)
    ensures
        attrs_bytes(attrs).len() == attrs_len(attrs),
    decreases attrs.len(),
{
    if attrs.len() > 0 {
        lemma_attrs_bytes_len(attrs.skip(1));
    }
}

/// Attributes come back from their own octets.
pub proof fn law_attributes_round_trip(attrs: Seq<AttributeView>)
    requires
        oversize(attrs) is None,
    ensures
        attrs_of(attrs_bytes(attrs)) == Some(attrs),
    decreases attrs.len(),
{
    if attrs.len() > 0 {
        law_attributes_round_trip(attrs.skip(1));
        let a = attrs[0];
        let s = attrs_bytes(attrs);
        assert(s[1] == a.value.len() + 2);
        assert(s.skip(s[1] as int) =~= attrs_bytes(attrs.skip(1)));
        assert(s.subrange(2, s[1] as int) =~= a.value);
        assert(seq![a] + attrs.skip(1) =~= attrs);
    } else {
        assert(attrs =~= Seq::<AttributeView>::empty());
    }
}

/// A packet that can be sent comes back from its own octets, whatever follows
/// them: its Length field tells where it ends.
pub proof fn law_packet_round_trip(p: PacketView, rest: Seq<u8>)
    requires
        p.fault() is None,
        p.canonical(),
    ensures
        p.bytes().len() == p.size(),
        packet_decodes(p.bytes() + rest) == Ok::<PacketView, PacketError>(p),
{
    let buf = p.bytes() + rest;
    lemma_be16(p.size());
    lemma_attrs_bytes_len(p.attributes);
    assert(p.bytes().len() == p.size());
    assert(buf.subrange(HEADER_LEN as int, p.size() as int) =~= attrs_bytes(p.attributes));
    law_attributes_round_trip(p.attributes);
    assert(authenticator_at(buf, 4) =~= p.authenticator);
}

proof fn lemma_attrs_of_bit_exact(s: Seq<u8>)
    requires
        attrs_of(s) is Some,
    ensures
        attrs_bytes(attrs_of(s)->0) == s,
        oversize(attrs_of(s)->0) is None,
    decreases s.len(),
{
    let attrs = attrs_of(s)->0;
    if s.len() > 0 {
        let n = s[1] as int;
        let rest = attrs_of(s.skip(n))->0;
        lemma_attrs_of_bit_exact(s.skip(n));
        assert(attrs.skip(1) =~= rest);
        assert(attr_bytes(attrs[0]) =~= s.take(n));
        assert(s.take(n) + s.skip(n) =~= s);
    } else {
        assert(s =~= Seq::<u8>::empty());
    }
}

/// The octets of a decoded packet are the octets it was decoded from, up to its
/// Length field.
pub proof fn law_packet_bit_exact(buf: Seq<u8>)
    requires
        packet_decodes(buf) is Ok,
    ensures
        ({
            let p = packet_decodes(buf)->Ok_0;
            &&& p.fault() is None
            &&& p.canonical()
            &&& p.size() == be16(buf[2], buf[3])
            &&& p.bytes() == buf.take(p.size() as int)
        }),
{
    let p = packet_decodes(buf)->Ok_0;
    let declared = be16(buf[2], buf[3]) as int;
    let body = buf.subrange(HEADER_LEN as int, declared);
    lemma_attrs_of_bit_exact(body);
    lemma_attrs_bytes_len(p.attributes);
    lemma_be16_octets(buf[2], buf[3]);
    assert(p.size() == declared);
    assert(p.authenticator@ =~= buf.subrange(4, 20));
    assert(p.bytes() =~= buf.take(declared));
}

/// The codes by their numbers; every code octet survives being decoded and encoded.
pub proof fn law_codes_by_number(v: u8)
    ensures
        octet_code(v) is AccessRequest <==> v == 1,
        octet_code(v) is AccessAccept <==> v == 2,
        octet_code(v) is AccessReject <==> v == 3,
        octet_code(v) is AccountingRequest <==> v == 4,
        octet_code(v) is AccountingResponse <==> v == 5,
        octet_code(v) is AccessChallenge <==> v == 11,
        code_octet(octet_code(v)) == v,
{
}

/// The octets of a packet stand where RFC 2865 has them: the code, the Identifier, the
/// length of the whole, the authenticator, and the attributes, each as its type, its own
/// length and its value.
pub proof fn law_packet_layout(p: PacketView)
    requires
        p.fault() is None,
    ensures
        ({
            let b = p.bytes();
            &&& 20 <= b.len() <= 4096
            &&& b[0] == code_octet(p.code)
            &&& b[1] == p.identifier
            &&& b[2] * 256 + b[3] == b.len()
            &&& b.subrange(4, 20) == p.authenticator@
            &&& p.attributes.len() > 0 ==> {
                let a = p.attributes[0];
                &&& b[20] == a.attr_type
                &&& b[21] == a.value.len() + 2
                &&& b.subrange(22, 22 + a.value.len() as int) == a.value
            }
        }),
{
    let b = p.bytes();
    lemma_be16(p.size());
    lemma_attrs_bytes_len(p.attributes);
    assert(b.subrange(4, 20) =~= p.authenticator@);
    if p.attributes.len() > 0 {
        let a = p.attributes[0];
        assert(a.value.len() <= MAX_VALUE_LEN);
        let s = attrs_bytes(p.attributes);
        assert(b.skip(20) =~= s);
        assert(s == attr_bytes(a) + attrs_bytes(p.attributes.skip(1)));
        assert(b[20] == s[0] && b[21] == s[1]);
        assert(b.subrange(22, 22 + a.value.len() as int) =~= a.value);
    }
}

proof fn lemma_oversize(attrs: Seq<AttributeView>)
    ensures
        oversize(attrs) is None <==> forall|i: int|
            0 <= i < attrs.len() ==> (#[trigger] attrs[i]).value.len() <= 253,
    decreases attrs.len(),
{
    if attrs.len() > 0 {
        let rest = attrs.skip(1);
        lemma_oversize(rest);
        assert forall|i: int| 0 <= i < rest.len() implies #[trigger] rest[i] == attrs[i + 1] by {}
        if oversize(attrs) is None {
            assert forall|i: int| 0 <= i < attrs.len() implies (#[trigger] attrs[i]).value.len() <= 253 by {
                if i > 0 {
                    assert(rest[i - 1] == attrs[i]);
                }
            }
        } else if forall|i: int| 0 <= i < attrs.len() ==> (#[trigger] attrs[i]).value.len() <= 253 {
            assert(attrs[0].value.len() <= 253);
            assert forall|i: int| 0 <= i < rest.len() implies (#[trigger] rest[i]).value.len() <= 253 by {
                assert(attrs[i + 1].value.len() <= 253);
            }
        }
    }
}

/// A packet can be sent exactly if no attribute has a value of more than 253 octets and
/// the whole takes no more than 4096.
pub proof fn law_packets_that_fit_are_sent(p: PacketView)
    ensures
        p.fault() is None <==> (forall|i: int|
            0 <= i < p.attributes.len() ==> (#[trigger] p.attributes[i]).value.len() <= 253)
            && p.bytes().len() <= 4096,
        p.bytes().len() == 20 + attrs_bytes(p.attributes).len(),
{
    lemma_oversize(p.attributes);
    lemma_attrs_bytes_len(p.attributes);
}

/// What is wrong with octets that are no packet: there is no whole header; the length in
/// it is none from 20 to 4096; there are fewer octets than that; or the attributes do not
/// fill it. The first of these that is true is reported.
pub proof fn law_packet_faults_are_told(buf: Seq<u8>)
    ensures
        packet_decodes(buf) matches Err(e) ==> {
            let declared = if buf.len() >= 20 {
                buf[2] * 256 + buf[3]
            } else {
                0
            };
            if buf.len() < 20 {
                e == PacketError::TruncatedHeader(buf.len() as usize)
            } else if !(20 <= declared <= 4096) {
                e == PacketError::BadLength(declared as usize)
            } else if declared > buf.len() {
                e == (PacketError::TruncatedPacket {
                    declared: declared as usize,
                    available: buf.len() as usize,
                })
            } else {
                e == PacketError::BadAttribute
            }
        },
        packet_decodes(buf) is Ok ==> buf.len() >= 20 && 20 <= buf[2] * 256 + buf[3] <= 4096 && buf[2] * 256
            + buf[3] <= buf.len(),
{
}

/// An attribute holds up to 253 octets, and holds them as they are.
pub proof fn law_attributes_hold_their_value(attr_type: u8, value: Seq<u8>)
    ensures
        attribute_of(attr_type, value) is Ok <==> value.len() <= 253,
        attribute_of(attr_type, value) matches Ok(a) ==> a.attr_type == attr_type && a.value == value,
        attribute_of(attr_type, value) matches Err(e) ==> e == PacketError::AttributeTooLong(
            value.len() as usize,
        ),
{
}

} // verus!
