//! RADIUS attributes: the open-set numeric wrappers, the typed attribute
//! union, and the decoders for one attribute value and for one
//! type-length-value record.
//!
//! Every decoder has a specification-level twin that maps the input bytes to
//! the exact result; the executable functions promise to return precisely
//! that value.

use vstd::prelude::*;
use vstd::slice::slice_subrange;

use crate::wire::RadiusError;
use crate::wire::be_u32_of;
use crate::wire::copy_bytes;
use crate::wire::read_be_u32;

verus! {

/// The type byte of an attribute record.  Any byte is a valid instance;
/// RFC-defined values are the named constants.
#[derive(Clone, Copy, Debug, PartialEq, Eq, Structural)]
pub struct RadiusAttributeType(pub u8);

#[allow(non_upper_case_globals)]
impl RadiusAttributeType {
    pub const UserName: u8 = 1;

    pub const UserPassword: u8 = 2;

    pub const ChapPassword: u8 = 3;

    pub const NasIPAddress: u8 = 4;

    pub const NasPort: u8 = 5;

    pub const ServiceType: u8 = 6;

    pub const FramedProtocol: u8 = 7;

    pub const FramedIPAddress: u8 = 8;

    pub const FramedIPNetmask: u8 = 9;

    pub const FramedRouting: u8 = 10;

    pub const FilterId: u8 = 11;

    pub const FramedMTU: u8 = 12;

    pub const FramedCompression: u8 = 13;

    pub const VendorSpecific: u8 = 26;
}

/// The kind of service the user has requested or is to be provided.
/// Unrecognized values are preserved, never rejected.
#[derive(Clone, Copy, Debug, PartialEq, Eq, Structural)]
pub struct ServiceType(pub u32);

#[allow(non_upper_case_globals)]
impl ServiceType {
    pub const Login: u32 = 1;

    pub const Framed: u32 = 2;

    pub const CallbackLogin: u32 = 3;

    pub const CallbackFramed: u32 = 4;

    pub const Outbound: u32 = 5;

    pub const Administrative: u32 = 6;

    pub const NasPrompt: u32 = 7;

    pub const AuthenticateOnly: u32 = 8;

    pub const CallbackNasPrompt: u32 = 9;

    pub const CallCheck: u32 = 10;

    pub const CallbackAdministrative: u32 = 11;
}

/// Whether routing information is to be propagated on the framed link.
#[derive(Clone, Copy, Debug, PartialEq, Eq, Structural)]
pub struct FramedRouting(pub u32);

#[allow(non_upper_case_globals)]
impl FramedRouting {
    pub const NoRouting: u32 = 0;

    pub const Send: u32 = 1;

    pub const Receive: u32 = 2;

    pub const SendReceive: u32 = 3;
}

/// The framing protocol in use on the link.
#[derive(Clone, Copy, Debug, PartialEq, Eq, Structural)]
pub struct FramedProtocol(pub u32);

#[allow(non_upper_case_globals)]
impl FramedProtocol {
    pub const Ppp: u32 = 1;

    pub const Slip: u32 = 2;

    /// AppleTalk Remote Access Protocol
    pub const Arap: u32 = 3;

    /// Gandalf proprietary SingleLink/MultiLink protocol
    pub const Gandalf: u32 = 4;

    /// Xylogics proprietary IPX/SLIP
    pub const Xylogics: u32 = 5;

    /// X.75 Synchronous
    pub const X75: u32 = 6;
}

/// The compression protocol to be used on the link.
#[derive(Clone, Copy, Debug, PartialEq, Eq, Structural)]
pub struct FramedCompression(pub u32);

#[allow(non_upper_case_globals)]
impl FramedCompression {
    /// No compression
    pub const NoCompression: u32 = 0;

    /// VJ TCP/IP header compression (See RFC1144)
    pub const TcpIp: u32 = 1;

    /// IPX header compression
    pub const Ipx: u32 = 2;

    /// Stac-LZS compression
    pub const StaticLzs: u32 = 3;
}

/// An IPv4 address as four octets in network order.
#[derive(Clone, Copy, Debug, PartialEq, Eq, Structural)]
pub struct Ipv4Addr(pub u8, pub u8, pub u8, pub u8);

/// One decoded attribute.  Each recognized type code has a variant carrying
/// its typed payload; every other code decodes to `Unknown`, so no attribute
/// is ever dropped or misrepresented.
#[derive(Clone, Debug, PartialEq)]
pub enum RadiusAttribute {
    UserName(Vec<u8>),
    UserPassword(Vec<u8>),
    ChapPassword(u8, Vec<u8>),
    NasIPAddress(Ipv4Addr),
    NasPort(u32),
    ServiceType(ServiceType),
    FramedProtocol(FramedProtocol),
    FramedIPAddress(Ipv4Addr),
    FramedIPNetmask(Ipv4Addr),
    FramedRouting(FramedRouting),
    FilterId(Vec<u8>),
    FramedMTU(u32),
    FramedCompression(FramedCompression),
    VendorSpecific(u32, Vec<u8>),
    CalledStationId(Vec<u8>),
    CallingStationId(Vec<u8>),
    Unknown(u8, Vec<u8>),
}

/// The mathematical shape of a decoded attribute: byte payloads become
/// sequences, everything else is carried unchanged.
pub enum AttrModel {
    UserName(Seq<u8>),
    UserPassword(Seq<u8>),
    ChapPassword(u8, Seq<u8>),
    NasIPAddress(Ipv4Addr),
    NasPort(u32),
    ServiceType(ServiceType),
    FramedProtocol(FramedProtocol),
    FramedIPAddress(Ipv4Addr),
    FramedIPNetmask(Ipv4Addr),
    FramedRouting(FramedRouting),
    FilterId(Seq<u8>),
    FramedMTU(u32),
    FramedCompression(FramedCompression),
    VendorSpecific(u32, Seq<u8>),
    CalledStationId(Seq<u8>),
    CallingStationId(Seq<u8>),
    Unknown(u8, Seq<u8>),
}

impl View for RadiusAttribute {
    type V = AttrModel;

    open spec fn view(&self) -> AttrModel {
        match self {
            RadiusAttribute::UserName(v) => AttrModel::UserName(v@),
            RadiusAttribute::UserPassword(v) => AttrModel::UserPassword(v@),
            RadiusAttribute::ChapPassword(ident, v) => AttrModel::ChapPassword(*ident, v@),
            RadiusAttribute::NasIPAddress(a) => AttrModel::NasIPAddress(*a),
            RadiusAttribute::NasPort(n) => AttrModel::NasPort(*n),
            RadiusAttribute::ServiceType(s) => AttrModel::ServiceType(*s),
            RadiusAttribute::FramedProtocol(p) => AttrModel::FramedProtocol(*p),
            RadiusAttribute::FramedIPAddress(a) => AttrModel::FramedIPAddress(*a),
            RadiusAttribute::FramedIPNetmask(a) => AttrModel::FramedIPNetmask(*a),
            RadiusAttribute::FramedRouting(r) => AttrModel::FramedRouting(*r),
            RadiusAttribute::FilterId(v) => AttrModel::FilterId(v@),
            RadiusAttribute::FramedMTU(n) => AttrModel::FramedMTU(*n),
            RadiusAttribute::FramedCompression(c) => AttrModel::FramedCompression(*c),
            RadiusAttribute::VendorSpecific(id, v) => AttrModel::VendorSpecific(*id, v@),
            RadiusAttribute::CalledStationId(v) => AttrModel::CalledStationId(v@),
            RadiusAttribute::CallingStationId(v) => AttrModel::CallingStationId(v@),
            RadiusAttribute::Unknown(t, v) => AttrModel::Unknown(*t, v@),
        }
    }
}

/// What the value decoder produces for type code `t` applied to the bounded
/// value bytes `v`.
///
/// Fixed-size decoders read exactly the first four bytes and silently discard
/// any excess; when `v` is shorter than required they report how many more
/// bytes a four-byte read would need.  The minimum-size checks of
/// ChapPassword and VendorSpecific report their full minimum instead.
/// Unrecognized type codes always succeed with `Unknown`.
pub open spec fn spec_attr_content(t: u8, v: Seq<u8>) -> Result<AttrModel, RadiusError> {
    if t == 1 {
        Ok(AttrModel::UserName(v))
    } else if t == 2 {
        Ok(AttrModel::UserPassword(v))
    } else if t == 3 {
        if v.len() < 2 {
            Err(RadiusError::Incomplete(2))
        } else {
            Ok(AttrModel::ChapPassword(v[0], v.skip(1)))
        }
    } else if t == 4 {
        if v.len() < 4 {
            Err(RadiusError::Incomplete((4 - v.len()) as usize))
        } else {
            Ok(AttrModel::NasIPAddress(Ipv4Addr(v[0], v[1], v[2], v[3])))
        }
    } else if t == 5 {
        if v.len() < 4 {
            Err(RadiusError::Incomplete((4 - v.len()) as usize))
        } else {
            Ok(AttrModel::NasPort(be_u32_of(v[0], v[1], v[2], v[3])))
        }
    } else if t == 6 {
        if v.len() < 4 {
            Err(RadiusError::Incomplete((4 - v.len()) as usize))
        } else {
            Ok(AttrModel::ServiceType(ServiceType(be_u32_of(v[0], v[1], v[2], v[3]))))
        }
    } else if t == 7 {
        if v.len() < 4 {
            Err(RadiusError::Incomplete((4 - v.len()) as usize))
        } else {
            Ok(AttrModel::FramedProtocol(FramedProtocol(be_u32_of(v[0], v[1], v[2], v[3]))))
        }
    } else if t == 8 {
        if v.len() < 4 {
            Err(RadiusError::Incomplete((4 - v.len()) as usize))
        } else {
            Ok(AttrModel::FramedIPAddress(Ipv4Addr(v[0], v[1], v[2], v[3])))
        }
    } else if t == 9 {
        if v.len() < 4 {
            Err(RadiusError::Incomplete((4 - v.len()) as usize))
        } else {
            Ok(AttrModel::FramedIPNetmask(Ipv4Addr(v[0], v[1], v[2], v[3])))
        }
    } else if t == 10 {
        if v.len() < 4 {
            Err(RadiusError::Incomplete((4 - v.len()) as usize))
        } else {
            Ok(AttrModel::FramedRouting(FramedRouting(be_u32_of(v[0], v[1], v[2], v[3]))))
        }
    } else if t == 11 {
        Ok(AttrModel::FilterId(v))
    } else if t == 12 {
        if v.len() < 4 {
            Err(RadiusError::Incomplete((4 - v.len()) as usize))
        } else {
            Ok(AttrModel::FramedMTU(be_u32_of(v[0], v[1], v[2], v[3])))
        }
    } else if t == 13 {
        if v.len() < 4 {
            Err(RadiusError::Incomplete((4 - v.len()) as usize))
        } else {
            Ok(AttrModel::FramedCompression(FramedCompression(be_u32_of(v[0], v[1], v[2], v[3]))))
        }
    } else if t == 26 {
        if v.len() < 5 {
            Err(RadiusError::Incomplete(5))
        } else {
            Ok(AttrModel::VendorSpecific(be_u32_of(v[0], v[1], v[2], v[3]), v.skip(4)))
        }
    } else if t == 30 {
        Ok(AttrModel::CalledStationId(v))
    } else if t == 31 {
        Ok(AttrModel::CallingStationId(v))
    } else {
        Ok(AttrModel::Unknown(t, v))
    }
}

/// What parsing one type-length-value record at the start of `s` produces:
/// the decoded attribute together with the number of bytes the record
/// occupies (its length byte), or an error.
///
/// Fewer than two bytes cannot even hold the record header; a length byte
/// below 2 violates the wire format and is reported as a validation error at
/// its offset; a record longer than the buffer asks for the missing bytes.
pub open spec fn spec_attr(s: Seq<u8>) -> Result<(AttrModel, nat), RadiusError> {
    if s.len() < 2 {
        Err(RadiusError::Incomplete(1))
    } else {
        let l = s[1];
        if l < 2 {
            Err(RadiusError::Validation(1))
        } else if s.len() < l {
            Err(RadiusError::Incomplete((l - s.len()) as usize))
        } else {
            match spec_attr_content(s[0], s.subrange(2, l as int)) {
                Ok(a) => Ok((a, l as nat)),
                Err(e) => Err(e),
            }
        }
    }
}

/// The result of the executable value decoder, seen at the model level.
pub open spec fn content_result_model(r: Result<RadiusAttribute, RadiusError>) -> Result<
    AttrModel,
    RadiusError,
> {
    match r {
        Ok(a) => Ok(a@),
        Err(e) => Err(e),
    }
}

/// The result of the executable record parser, seen at the model level.
pub open spec fn attr_result_model(r: Result<(RadiusAttribute, usize), RadiusError>) -> Result<
    (AttrModel, nat),
    RadiusError,
> {
    match r {
        Ok((a, n)) => Ok((a@, n as nat)),
        Err(e) => Err(e),
    }
}

/// A record that parses successfully occupies at least the two header bytes
/// and no more than the buffer holds, and exactly as many bytes as its
/// length byte declares.
pub proof fn lemma_spec_attr_ok_len(s: Seq<u8>)
    requires
        spec_attr(s) is Ok,
    ensures
        2 <= spec_attr(s)->Ok_0.1 <= s.len(),
        s.len() >= 2 && spec_attr(s)->Ok_0.1 == s[1],
{
}

/// Type codes whose value decoder passes the bytes through unchanged: every
/// code without a fixed or minimum size requirement on its value.
pub open spec fn passes_bytes_through(t: u8) -> bool {
    !(t == 3 || t == 4 || t == 5 || t == 6 || t == 7 || t == 8 || t == 9 || t == 10 || t == 12
        || t == 13 || t == 26)
}

/// The raw byte payload of an attribute that carries one.
pub open spec fn raw_payload(m: AttrModel) -> Option<Seq<u8>> {
    match m {
        AttrModel::UserName(v) => Some(v),
        AttrModel::UserPassword(v) => Some(v),
        AttrModel::FilterId(v) => Some(v),
        AttrModel::CalledStationId(v) => Some(v),
        AttrModel::CallingStationId(v) => Some(v),
        AttrModel::Unknown(_, v) => Some(v),
        _ => None,
    }
}

/// A record whose length byte is 0 or 1 fails with a validation error at
/// that byte, whatever its type code and whatever follows.
pub proof fn lemma_attr_length_below_minimum(s: Seq<u8>)
    requires
        s.len() >= 2,
        s[1] < 2,
    ensures
        spec_attr(s) == Err::<(AttrModel, nat), RadiusError>(RadiusError::Validation(1)),
{
}

/// A record whose length byte is exactly 2 has zero value bytes.  For a type
/// code without a size requirement it decodes without error, to an attribute
/// whose payload is empty.
pub proof fn lemma_attr_length_exactly_two(s: Seq<u8>)
    requires
        s.len() >= 2,
        s[1] == 2,
        passes_bytes_through(s[0]),
    ensures
        spec_attr(s) is Ok,
        spec_attr(s)->Ok_0.1 == 2,
        raw_payload(spec_attr(s)->Ok_0.0) == Some(Seq::<u8>::empty()),
{
    assert(s.subrange(2, 2) =~= Seq::<u8>::empty());
}

/// Decodes the bounded value bytes `i` of one attribute of type code `t`
/// into a typed attribute.
pub fn parse_attribute_content(i: &[u8], t: u8) -> (r: Result<RadiusAttribute, RadiusError>)
    ensures
        content_result_model(r) == spec_attr_content(t, i@),
{
    let n = i.len();
    proof {
        assert(i@.subrange(0, n as int) =~= i@);
    }
    match t {
        1 => Ok(RadiusAttribute::UserName(copy_bytes(i, 0, n))),
        2 => Ok(RadiusAttribute::UserPassword(copy_bytes(i, 0, n))),
        3 => {
            if n < 2 {
                Err(RadiusError::Incomplete(2))
            } else {
                proof {
                    assert(i@.subrange(1, n as int) =~= i@.skip(1));
                }
                Ok(RadiusAttribute::ChapPassword(i[0], copy_bytes(i, 1, n)))
            }
        },
        4 => {
            if n < 4 {
                Err(RadiusError::Incomplete(4 - n))
            } else {
                Ok(RadiusAttribute::NasIPAddress(Ipv4Addr(i[0], i[1], i[2], i[3])))
            }
        },
        5 => {
            if n < 4 {
                Err(RadiusError::Incomplete(4 - n))
            } else {
                Ok(RadiusAttribute::NasPort(read_be_u32(i, 0)))
            }
        },
        6 => {
            if n < 4 {
                Err(RadiusError::Incomplete(4 - n))
            } else {
                Ok(RadiusAttribute::ServiceType(ServiceType(read_be_u32(i, 0))))
            }
        },
        7 => {
            if n < 4 {
                Err(RadiusError::Incomplete(4 - n))
            } else {
                Ok(RadiusAttribute::FramedProtocol(FramedProtocol(read_be_u32(i, 0))))
            }
        },
        8 => {
            if n < 4 {
                Err(RadiusError::Incomplete(4 - n))
            } else {
                Ok(RadiusAttribute::FramedIPAddress(Ipv4Addr(i[0], i[1], i[2], i[3])))
            }
        },
        9 => {
            if n < 4 {
                Err(RadiusError::Incomplete(4 - n))
            } else {
                Ok(RadiusAttribute::FramedIPNetmask(Ipv4Addr(i[0], i[1], i[2], i[3])))
            }
        },
        10 => {
            if n < 4 {
                Err(RadiusError::Incomplete(4 - n))
            } else {
                Ok(RadiusAttribute::FramedRouting(FramedRouting(read_be_u32(i, 0))))
            }
        },
        11 => Ok(RadiusAttribute::FilterId(copy_bytes(i, 0, n))),
        12 => {
            if n < 4 {
                Err(RadiusError::Incomplete(4 - n))
            } else {
                Ok(RadiusAttribute::FramedMTU(read_be_u32(i, 0)))
            }
        },
        13 => {
            if n < 4 {
                Err(RadiusError::Incomplete(4 - n))
            } else {
                Ok(RadiusAttribute::FramedCompression(FramedCompression(read_be_u32(i, 0))))
            }
        },
        26 => {
            if n < 5 {
                Err(RadiusError::Incomplete(5))
            } else {
                proof {
                    assert(i@.subrange(4, n as int) =~= i@.skip(4));
                }
                Ok(RadiusAttribute::VendorSpecific(read_be_u32(i, 0), copy_bytes(i, 4, n)))
            }
        },
        30 => Ok(RadiusAttribute::CalledStationId(copy_bytes(i, 0, n))),
        31 => Ok(RadiusAttribute::CallingStationId(copy_bytes(i, 0, n))),
        _ => Ok(RadiusAttribute::Unknown(t, copy_bytes(i, 0, n))),
    }
}

/// Parses one type-length-value record at the start of `i`, returning the
/// decoded attribute and the number of bytes the record occupies.
///
/// The length byte covers the two header bytes, so it must be at least 2;
/// the subtraction of the header size is evaluated only once that bound is
/// established.
pub fn parse_radius_attribute(i: &[u8]) -> (r: Result<(RadiusAttribute, usize), RadiusError>)
    ensures
        attr_result_model(r) == spec_attr(i@),
{
    if i.len() < 2 {
        return Err(RadiusError::Incomplete(1));
    }
    let t = i[0];
    let l = i[1];
    if l < 2 {
        return Err(RadiusError::Validation(1));
    }
    let record_len = l as usize;
    if i.len() < record_len {
        return Err(RadiusError::Incomplete(record_len - i.len()));
    }
    let value = slice_subrange(i, 2, record_len);
    match parse_attribute_content(value, t) {
        Ok(a) => Ok((a, record_len)),
        Err(e) => Err(e),
    }
}

} // verus!
