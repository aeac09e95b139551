//! Decoder for RADIUS (RFC 2865 / RFC 2866) packets.
//!
//! A packet is decoded from a raw byte buffer into a fixed header plus an
//! optional sequence of typed attributes.  The decoder performs no I/O and
//! keeps no state between calls: the result is a pure function of the input
//! bytes, stated by the specification functions that each parser's contract
//! refers to.

mod radius;
mod radius_attr;
mod wire;

pub use radius::AttrRecord;
pub use radius::PacketModel;
pub use radius::RadiusCode;
pub use radius::RadiusData;
pub use radius::compose_stream;
pub use radius::lemma_decode_deterministic;
pub use radius::lemma_header_only_packet;
pub use radius::lemma_packet_attributes_cover_region;
pub use radius::lemma_packet_well_formed;
pub use radius::lemma_stream_exact_cover;
pub use radius::lemma_stream_nonempty;
pub use radius::lemma_stream_validation_pos;
pub use radius::lemma_truncated_header_needs_bytes;
pub use radius::models_of;
pub use radius::packet_result_model;
pub use radius::parse_attribute_stream;
pub use radius::parse_radius_data;
pub use radius::record_models;
pub use radius::record_sizes_sum;
pub use radius::spec_attr_stream;
pub use radius::spec_packet;
pub use radius::stream_models;
pub use radius::stream_result_model;
pub use radius_attr::AttrModel;
pub use radius_attr::attr_result_model;
pub use radius_attr::content_result_model;
pub use radius_attr::lemma_attr_length_below_minimum;
pub use radius_attr::lemma_attr_length_exactly_two;
pub use radius_attr::lemma_spec_attr_ok_len;
pub use radius_attr::parse_attribute_content;
pub use radius_attr::parse_radius_attribute;
pub use radius_attr::passes_bytes_through;
pub use radius_attr::raw_payload;
pub use radius_attr::spec_attr;
pub use radius_attr::spec_attr_content;
pub use radius_attr::FramedCompression;
pub use radius_attr::FramedProtocol;
pub use radius_attr::FramedRouting;
pub use radius_attr::Ipv4Addr;
pub use radius_attr::RadiusAttribute;
pub use radius_attr::RadiusAttributeType;
pub use radius_attr::ServiceType;
pub use wire::RadiusError;
pub use wire::be_u16_of;
pub use wire::be_u32_of;
pub use wire::shift_err;
pub use wire::shift_pos;
