//! The RADIUS packet itself: the fixed 20-byte header, the carve-out of the
//! attribute region, and the parser that walks that region record by record
//! until it is exactly consumed.

use vstd::prelude::*;
use vstd::slice::slice_subrange;

use crate::radius_attr::AttrModel;
use crate::radius_attr::RadiusAttribute;
use crate::radius_attr::lemma_spec_attr_ok_len;
use crate::radius_attr::parse_radius_attribute;
use crate::radius_attr::spec_attr;
use crate::wire::RadiusError;
use crate::wire::be_u16_of;
use crate::wire::copy_bytes;
use crate::wire::read_be_u16;
use crate::wire::shift_err;
use crate::wire::shift_pos;

verus! {

/// The code byte of a packet.  Any byte is a valid instance; RFC-defined
/// values are the named constants.
#[derive(Clone, Copy, Debug, PartialEq, Eq, Structural)]
pub struct RadiusCode(pub u8);

#[allow(non_upper_case_globals)]
impl RadiusCode {
    pub const AccessRequest: u8 = 1;

    pub const AccessAccept: u8 = 2;

    pub const AccessReject: u8 = 3;

    pub const AccountingRequest: u8 = 4;

    pub const AccountingResponse: u8 = 5;

    pub const AccessChallenge: u8 = 11;

    pub const StatusServer: u8 = 12;

    pub const StatusClient: u8 = 13;

    pub const Reserved: u8 = 255;
}

/// A decoded packet: the header fields and, when the declared length exceeds
/// the 20 header bytes, the attribute list carved out of exactly the
/// following `length - 20` bytes.
#[derive(Clone, Debug, PartialEq)]
pub struct RadiusData {
    pub code: RadiusCode,
    pub identifier: u8,
    pub length: u16,
    /// Exactly 16 opaque bytes.
    pub authenticator: Vec<u8>,
    /// Present if and only if `length > 20`.
    pub attributes: Option<Vec<RadiusAttribute>>,
}

/// The mathematical shape of a decoded packet.
pub struct PacketModel {
    pub code: RadiusCode,
    pub identifier: u8,
    pub length: u16,
    pub authenticator: Seq<u8>,
    pub attributes: Option<Seq<AttrModel>>,
}

/// The attribute list of a vector of decoded attributes, at the model level.
pub open spec fn models_of(v: Seq<RadiusAttribute>) -> Seq<AttrModel> {
    v.map_values(|a: RadiusAttribute| a@)
}

impl View for RadiusData {
    type V = PacketModel;

    open spec fn view(&self) -> PacketModel {
        PacketModel {
            code: self.code,
            identifier: self.identifier,
            length: self.length,
            authenticator: self.authenticator@,
            attributes: match self.attributes {
                Some(v) => Some(models_of(v@)),
                None => None,
            },
        }
    }
}

/// One record of a parsed attribute region: the decoded attribute and the
/// number of bytes its encoding occupies.
pub type AttrRecord = (AttrModel, nat);

/// The attributes of a sequence of records, sizes dropped.
pub open spec fn record_models(recs: Seq<AttrRecord>) -> Seq<AttrModel> {
    recs.map_values(|r: AttrRecord| r.0)
}

/// The total number of bytes the records of a parsed region occupy.
pub open spec fn record_sizes_sum(recs: Seq<AttrRecord>) -> nat
    decreases recs.len(),
{
    if recs.len() == 0 {
        0
    } else {
        recs[0].1 + record_sizes_sum(recs.drop_first())
    }
}

/// What parsing an exactly-bounded attribute region produces: the records in
/// order, or the first error met, its position made relative to the start of
/// the region.
///
/// The region is parsed record by record until it is exactly consumed; a
/// region that ends in the middle of a record fails, and so does an empty
/// region, since at least one attribute is required.
pub open spec fn spec_attr_stream(s: Seq<u8>) -> Result<Seq<AttrRecord>, RadiusError>
    decreases s.len(),
{
    match spec_attr(s) {
        Err(e) => Err(e),
        Ok((a, n)) => {
            if n == s.len() {
                Ok(seq![(a, n)])
            } else if 2 <= n < s.len() {
                match spec_attr_stream(s.skip(n as int)) {
                    Ok(rest) => Ok(seq![(a, n)].add(rest)),
                    Err(e) => Err(shift_err(e, n)),
                }
            } else {
                // unreachable: a record that parses occupies between 2 and
                // s.len() bytes (lemma_spec_attr_ok_len)
                Err(RadiusError::Incomplete(1))
            }
        },
    }
}

/// A parse of the tail of a region, lifted to the whole region: `done` are
/// the records already parsed, covering `pos` bytes.
pub open spec fn compose_stream(
    done: Seq<AttrRecord>,
    pos: nat,
    tail: Result<Seq<AttrRecord>, RadiusError>,
) -> Result<Seq<AttrRecord>, RadiusError> {
    match tail {
        Ok(rest) => Ok(done.add(rest)),
        Err(e) => Err(shift_err(e, pos)),
    }
}

/// The result of the executable region parser, seen at the model level.
pub open spec fn stream_result_model(r: Result<Vec<RadiusAttribute>, RadiusError>) -> Result<
    Seq<AttrModel>,
    RadiusError,
> {
    match r {
        Ok(v) => Ok(models_of(v@)),
        Err(e) => Err(e),
    }
}

/// The model-level result of a region parse, attributes only.
pub open spec fn stream_models(s: Seq<u8>) -> Result<Seq<AttrModel>, RadiusError> {
    match spec_attr_stream(s) {
        Ok(recs) => Ok(record_models(recs)),
        Err(e) => Err(e),
    }
}

/// Parses an exactly-bounded attribute region into its ordered attribute
/// list.  The region must be fully consumed: a record that would run past
/// its end, or trailing bytes that cannot form a record, fail the parse as
/// a whole.
pub fn parse_attribute_stream(region: &[u8]) -> (r: Result<Vec<RadiusAttribute>, RadiusError>)
    ensures
        stream_result_model(r) == stream_models(region@),
{
    let mut attrs: Vec<RadiusAttribute> = Vec::new();
    let ghost mut done: Seq<AttrRecord> = Seq::empty();
    let mut pos: usize = 0;
    if region.len() == 0 {
        return Err(RadiusError::Incomplete(1));
    }
    proof {
        assert(region@.skip(0) =~= region@);
        match spec_attr_stream(region@) {
            Ok(rest) => {
                assert(done.add(rest) =~= rest);
            },
            Err(e) => {
                assert(shift_err(e, 0) == e);
            },
        }
        assert(spec_attr_stream(region@) == compose_stream(
            done,
            0,
            spec_attr_stream(region@.skip(0)),
        ));
    }
    while pos < region.len()
        invariant
            pos <= region@.len(),
            models_of(attrs@) == record_models(done),
            pos < region@.len() ==> spec_attr_stream(region@) == compose_stream(
                done,
                pos as nat,
                spec_attr_stream(region@.skip(pos as int)),
            ),
            pos == region@.len() ==> spec_attr_stream(region@) == Ok::<_, RadiusError>(done),
        decreases region@.len() - pos,
    {
        let tail = slice_subrange(region, pos, region.len());
        proof {
            assert(tail@ =~= region@.skip(pos as int));
        }
        match parse_radius_attribute(tail) {
            Err(e) => {
                proof {
                    assert(spec_attr_stream(tail@) == Err::<Seq<AttrRecord>, RadiusError>(e));
                }
                let shifted = match e {
                    RadiusError::Incomplete(n) => RadiusError::Incomplete(n),
                    RadiusError::Validation(p) => {
                        // the only validation position a record parse reports
                        // is 1, the offset of its length byte
                        assert(p == 1);
                        RadiusError::Validation(p + pos)
                    },
                };
                proof {
                    assert(shifted == shift_err(e, pos as nat));
                }
                return Err(shifted);
            },
            Ok((a, n)) => {
                proof {
                    lemma_spec_attr_ok_len(tail@);
                }
                attrs.push(a);
                proof {
                    let ghost prev = done;
                    done = done.push((a@, n as nat));
                    assert(models_of(attrs@) =~= record_models(done)) by {
                        assert(models_of(attrs@) =~= record_models(prev).push(a@));
                        assert(record_models(done) =~= record_models(prev).push(a@));
                    }
                    if n < tail@.len() {
                        assert(region@.skip(pos as int).skip(n as int) =~= region@.skip(
                            pos + n as int,
                        ));
                        match spec_attr_stream(region@.skip(pos + n as int)) {
                            Ok(rest) => {
                                assert(spec_attr_stream(tail@) == Ok::<_, RadiusError>(
                                    seq![(a@, n as nat)].add(rest),
                                ));
                                assert(prev.add(seq![(a@, n as nat)].add(rest)) =~= done.add(rest));
                            },
                            Err(e) => {
                                assert(spec_attr_stream(tail@) == Err::<Seq<AttrRecord>, _>(
                                    shift_err(e, n as nat),
                                ));
                                assert(shift_err(shift_err(e, n as nat), pos as nat) == shift_err(
                                    e,
                                    (pos + n) as nat,
                                ));
                            },
                        }
                    } else {
                        assert(spec_attr_stream(tail@) == Ok::<_, RadiusError>(
                            seq![(a@, n as nat)],
                        ));
                        assert(prev.add(seq![(a@, n as nat)]) =~= done);
                    }
                }
                pos = pos + n;
            },
        }
    }
    Ok(attrs)
}

/// What decoding a whole packet from the start of `s` produces: the packet
/// model and the number of bytes it occupies, or an error.
///
/// A buffer shorter than the 20 header bytes, or shorter than the declared
/// attribute region, asks for the missing bytes.  The subtraction
/// `length - 20` is evaluated only under the test `length > 20`.  Errors
/// from inside the attribute region keep their kind; their positions are
/// made relative to the start of the packet.
pub open spec fn spec_packet(s: Seq<u8>) -> Result<(PacketModel, nat), RadiusError> {
    if s.len() < 20 {
        Err(RadiusError::Incomplete((20 - s.len()) as usize))
    } else {
        let length = be_u16_of(s[2], s[3]);
        if length > 20 {
            let region_len = length - 20;
            if s.len() - 20 < region_len {
                Err(RadiusError::Incomplete((region_len - (s.len() - 20)) as usize))
            } else {
                match stream_models(s.subrange(20, 20 + region_len)) {
                    Ok(attrs) => Ok(
                        (
                            PacketModel {
                                code: RadiusCode(s[0]),
                                identifier: s[1],
                                length: length,
                                authenticator: s.subrange(4, 20),
                                attributes: Some(attrs),
                            },
                            (20 + region_len) as nat,
                        ),
                    ),
                    Err(e) => Err(shift_err(e, 20)),
                }
            }
        } else {
            Ok(
                (
                    PacketModel {
                        code: RadiusCode(s[0]),
                        identifier: s[1],
                        length: length,
                        authenticator: s.subrange(4, 20),
                        attributes: None,
                    },
                    20,
                ),
            )
        }
    }
}

/// The result of the executable packet parser, seen at the model level.
pub open spec fn packet_result_model(r: Result<(RadiusData, usize), RadiusError>) -> Result<
    (PacketModel, nat),
    RadiusError,
> {
    match r {
        Ok((d, n)) => Ok((d@, n as nat)),
        Err(e) => Err(e),
    }
}

/// Decodes one packet from the start of `i`: the fixed 20-byte header, then,
/// when the declared length exceeds 20, the attribute region of exactly
/// `length - 20` further bytes.  Returns the packet and the number of bytes
/// it occupies; bytes of `i` beyond that count are not part of the packet.
///
/// Never panics: any truncated or malformed input yields an error.
pub fn parse_radius_data(i: &[u8]) -> (r: Result<(RadiusData, usize), RadiusError>)
    ensures
        packet_result_model(r) == spec_packet(i@),
{
    if i.len() < 20 {
        return Err(RadiusError::Incomplete(20 - i.len()));
    }
    let code = RadiusCode(i[0]);
    let identifier = i[1];
    let length = read_be_u16(i, 2);
    let authenticator = copy_bytes(i, 4, 20);
    if length > 20 {
        let region_len = (length - 20) as usize;
        if i.len() - 20 < region_len {
            return Err(RadiusError::Incomplete(region_len - (i.len() - 20)));
        }
        let region = slice_subrange(i, 20, 20 + region_len);
        match parse_attribute_stream(region) {
            Ok(attrs) => Ok(
                (
                    RadiusData {
                        code,
                        identifier,
                        length,
                        authenticator,
                        attributes: Some(attrs),
                    },
                    20 + region_len,
                ),
            ),
            Err(e) => {
                let shifted = match e {
                    RadiusError::Incomplete(n) => RadiusError::Incomplete(n),
                    RadiusError::Validation(p) => {
                        proof {
                            lemma_stream_validation_pos(region@);
                        }
                        RadiusError::Validation(p + 20)
                    },
                };
                proof {
                    assert(shifted == shift_err(e, 20));
                }
                Err(shifted)
            },
        }
    } else {
        Ok(
            (
                RadiusData {
                    code,
                    identifier,
                    length,
                    authenticator,
                    attributes: None,
                },
                20,
            ),
        )
    }
}

/// A packet whose declared length is exactly the header size decodes with no
/// attribute list, and consumes exactly the 20 header bytes: no attribute
/// bytes are touched.
pub proof fn lemma_header_only_packet(s: Seq<u8>)
    requires
        s.len() >= 20,
        be_u16_of(s[2], s[3]) == 20,
    ensures
        spec_packet(s) is Ok,
        spec_packet(s)->Ok_0.0.attributes is None,
        spec_packet(s)->Ok_0.1 == 20,
{
}

/// A buffer shorter than the header is never a structural failure: the
/// decode asks for exactly the missing bytes.
pub proof fn lemma_truncated_header_needs_bytes(s: Seq<u8>)
    requires
        s.len() < 20,
    ensures
        spec_packet(s) == Err::<(PacketModel, nat), RadiusError>(
            RadiusError::Incomplete((20 - s.len()) as usize),
        ),
{
}

/// The records of a successfully parsed region cover it exactly: their
/// encoded sizes sum to the region's length, no byte left over and none
/// counted twice.
pub proof fn lemma_stream_exact_cover(s: Seq<u8>)
    requires
        spec_attr_stream(s) is Ok,
    ensures
        record_sizes_sum(spec_attr_stream(s)->Ok_0) == s.len(),
    decreases s.len(),
{
    let recs = spec_attr_stream(s)->Ok_0;
    match spec_attr(s) {
        Err(e) => {
        },
        Ok((a, n)) => {
            lemma_spec_attr_ok_len(s);
            if n == s.len() {
                assert(recs[0] == (a, n));
                assert(recs.drop_first() =~= Seq::<AttrRecord>::empty());
                assert(record_sizes_sum(Seq::<AttrRecord>::empty()) == 0);
            } else {
                lemma_stream_exact_cover(s.skip(n as int));
                let rest = spec_attr_stream(s.skip(n as int))->Ok_0;
                assert(recs == seq![(a, n)].add(rest));
                assert(recs[0] == (a, n));
                assert(recs.drop_first() =~= rest);
            }
        },
    }
}

/// In a decoded packet whose declared length exceeds the header size, the
/// attribute list comes from the region of exactly `length - 20` bytes after
/// the header, the encoded sizes of its records sum to exactly that region
/// length, and the packet occupies exactly `length` bytes: the decode
/// neither reads past the region nor stops short of it.
pub proof fn lemma_packet_attributes_cover_region(s: Seq<u8>)
    requires
        spec_packet(s) is Ok,
        spec_packet(s)->Ok_0.0.length > 20,
    ensures
        ({
            let length = spec_packet(s)->Ok_0.0.length;
            let region = s.subrange(20, 20 + (length - 20));
            &&& spec_attr_stream(region) is Ok
            &&& spec_packet(s)->Ok_0.0.attributes == Some(
                record_models(spec_attr_stream(region)->Ok_0),
            )
            &&& record_sizes_sum(spec_attr_stream(region)->Ok_0) == length - 20
            &&& spec_packet(s)->Ok_0.1 == length
        }),
{
    let length = spec_packet(s)->Ok_0.0.length;
    let region = s.subrange(20, 20 + (length - 20));
    lemma_stream_exact_cover(region);
}

/// A region that parses at all yields at least one record: an empty list
/// never comes out of a bounded region.
pub proof fn lemma_stream_nonempty(s: Seq<u8>)
    requires
        spec_attr_stream(s) is Ok,
    ensures
        spec_attr_stream(s)->Ok_0.len() >= 1,
{
    match spec_attr(s) {
        Err(e) => {
        },
        Ok((a, n)) => {
        },
    }
}

/// Every decoded packet is well formed: the authenticator holds exactly 16
/// bytes, the attribute list is present exactly when the declared length
/// exceeds the header size and is then never empty, and the packet occupies
/// its declared length, or the 20 header bytes when the declaration is
/// smaller.
pub proof fn lemma_packet_well_formed(s: Seq<u8>)
    requires
        spec_packet(s) is Ok,
    ensures
        spec_packet(s)->Ok_0.0.authenticator.len() == 16,
        spec_packet(s)->Ok_0.0.attributes is Some <==> spec_packet(s)->Ok_0.0.length > 20,
        spec_packet(s)->Ok_0.0.attributes matches Some(l) ==> l.len() >= 1,
        spec_packet(s)->Ok_0.0.length > 20 ==> spec_packet(s)->Ok_0.1
            == spec_packet(s)->Ok_0.0.length,
        spec_packet(s)->Ok_0.0.length <= 20 ==> spec_packet(s)->Ok_0.1 == 20,
{
    let length = spec_packet(s)->Ok_0.0.length;
    if length > 20 {
        let region = s.subrange(20, 20 + (length - 20));
        lemma_stream_nonempty(region);
    }
}

/// Decoding is deterministic: any two results that satisfy the packet
/// parser's contract on the same bytes are structurally equal at the model
/// level, so decoding a buffer twice yields equal packets.
pub proof fn lemma_decode_deterministic(
    s: Seq<u8>,
    r1: Result<(RadiusData, usize), RadiusError>,
    r2: Result<(RadiusData, usize), RadiusError>,
)
    requires
        packet_result_model(r1) == spec_packet(s),
        packet_result_model(r2) == spec_packet(s),
    ensures
        packet_result_model(r1) == packet_result_model(r2),
{
}

/// A validation error from a region parse points at a length byte inside the
/// region, so its position is below the region's length.
pub proof fn lemma_stream_validation_pos(s: Seq<u8>)
    ensures
        forall|p: usize|
            spec_attr_stream(s) == Err::<Seq<AttrRecord>, RadiusError>(RadiusError::Validation(p))
                ==> p < s.len(),
    decreases s.len(),
{
    match spec_attr(s) {
        Err(e) => {
        },
        Ok((a, n)) => {
            if 2 <= n < s.len() {
                lemma_stream_validation_pos(s.skip(n as int));
            }
        },
    }
}

} // verus!
