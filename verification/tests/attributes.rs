use radius_parser::FramedCompression;
use radius_parser::FramedProtocol;
use radius_parser::FramedRouting;
use radius_parser::Ipv4Addr;
use radius_parser::RadiusAttribute;
use radius_parser::RadiusError;
use radius_parser::ServiceType;
use radius_parser::parse_attribute_content;
use radius_parser::parse_radius_attribute;

#[test]
fn test_attribute_invalid() {
    let data: &[u8] = &[255, 0, 2, 2];
    assert_eq!(
        parse_radius_attribute(data),
        Err(RadiusError::Validation(1))
    );
}

#[test]
fn test_attribute_length_one_invalid() {
    let data: &[u8] = &[7, 1, 0, 0];
    assert_eq!(
        parse_radius_attribute(data),
        Err(RadiusError::Validation(1))
    );
}

#[test]
fn test_attribute_empty() {
    let data: &[u8] = &[255, 2, 2, 2];
    let (attr, used) = parse_radius_attribute(data).unwrap();
    assert_eq!(attr, RadiusAttribute::Unknown(255, vec![]));
    // the record occupies two bytes; the other two remain
    assert_eq!(used, 2);
    assert_eq!(&data[used..], &[2, 2]);
}

#[test]
fn test_attribute() {
    let data: &[u8] = &[255, 4, 2, 2];
    assert_eq!(
        parse_radius_attribute(data),
        Ok((RadiusAttribute::Unknown(255, vec![2, 2]), 4))
    );
}

#[test]
fn test_parse_vendor_specific() {
    {
        let data: &[u8] = &[26, 7, 0, 1, 2, 3, 120];
        assert_eq!(
            parse_radius_attribute(data),
            Ok((RadiusAttribute::VendorSpecific(66051, b"x".to_vec()), 7))
        )
    }
    {
        let data: &[u8] = &[26, 6, 0, 1, 2, 3];
        assert_eq!(
            parse_radius_attribute(data),
            Err(RadiusError::Incomplete(5))
        )
    }
}

#[test]
fn test_parse_called_station_id() {
    {
        let data: &[u8] = &[
            30, 19, 97, 97, 45, 98, 98, 45, 99, 99, 45, 100, 100, 45, 101, 101, 45, 102, 102,
        ];
        assert_eq!(
            parse_radius_attribute(data),
            Ok((
                RadiusAttribute::CalledStationId("aa-bb-cc-dd-ee-ff".as_bytes().to_vec()),
                19
            ))
        )
    }
}

#[test]
fn test_parse_calling_station_id() {
    {
        let data: &[u8] = &[
            31, 19, 97, 97, 45, 98, 98, 45, 99, 99, 45, 100, 100, 45, 101, 101, 45, 102, 102,
        ];
        assert_eq!(
            parse_radius_attribute(data),
            Ok((
                RadiusAttribute::CallingStationId("aa-bb-cc-dd-ee-ff".as_bytes().to_vec()),
                19
            ))
        )
    }
}

#[test]
fn test_user_name() {
    let data: &[u8] = &[1, 7, 115, 116, 101, 118, 101];
    assert_eq!(
        parse_radius_attribute(data),
        Ok((RadiusAttribute::UserName(b"steve".to_vec()), 7))
    );
}

#[test]
fn test_user_password() {
    let data: &[u8] = &[2, 6, 1, 2, 3, 4];
    assert_eq!(
        parse_radius_attribute(data),
        Ok((RadiusAttribute::UserPassword(vec![1, 2, 3, 4]), 6))
    );
}

#[test]
fn test_chap_password() {
    let data: &[u8] = &[3, 5, 7, 9, 8];
    assert_eq!(
        parse_radius_attribute(data),
        Ok((RadiusAttribute::ChapPassword(7, vec![9, 8]), 5))
    );
}

#[test]
fn test_chap_password_too_short() {
    // the record is well-formed but its bounded value holds fewer than the
    // two bytes the ChapPassword decoder requires
    let data: &[u8] = &[3, 3, 7];
    assert_eq!(
        parse_radius_attribute(data),
        Err(RadiusError::Incomplete(2))
    );
    let empty_value: &[u8] = &[3, 2];
    assert_eq!(
        parse_radius_attribute(empty_value),
        Err(RadiusError::Incomplete(2))
    );
}

#[test]
fn test_nas_ip_address() {
    let data: &[u8] = &[4, 6, 192, 168, 0, 1];
    assert_eq!(
        parse_radius_attribute(data),
        Ok((RadiusAttribute::NasIPAddress(Ipv4Addr(192, 168, 0, 1)), 6))
    );
}

#[test]
fn test_nas_ip_address_too_short() {
    let data: &[u8] = &[4, 4, 10, 0];
    assert_eq!(
        parse_radius_attribute(data),
        Err(RadiusError::Incomplete(2))
    );
}

#[test]
fn test_nas_port() {
    let data: &[u8] = &[5, 6, 0, 0, 48, 57];
    assert_eq!(
        parse_radius_attribute(data),
        Ok((RadiusAttribute::NasPort(12345), 6))
    );
}

#[test]
fn test_service_type() {
    let data: &[u8] = &[6, 6, 0, 0, 0, 1];
    assert_eq!(
        parse_radius_attribute(data),
        Ok((
            RadiusAttribute::ServiceType(ServiceType(ServiceType::Login)),
            6
        ))
    );
}

#[test]
fn test_framed_protocol() {
    let data: &[u8] = &[7, 6, 0, 0, 0, 1];
    assert_eq!(
        parse_radius_attribute(data),
        Ok((
            RadiusAttribute::FramedProtocol(FramedProtocol(FramedProtocol::Ppp)),
            6
        ))
    );
}

#[test]
fn test_framed_ip_address() {
    let data: &[u8] = &[8, 6, 10, 0, 0, 2];
    assert_eq!(
        parse_radius_attribute(data),
        Ok((RadiusAttribute::FramedIPAddress(Ipv4Addr(10, 0, 0, 2)), 6))
    );
}

#[test]
fn test_framed_ip_netmask() {
    let data: &[u8] = &[9, 6, 255, 255, 255, 0];
    assert_eq!(
        parse_radius_attribute(data),
        Ok((
            RadiusAttribute::FramedIPNetmask(Ipv4Addr(255, 255, 255, 0)),
            6
        ))
    );
}

#[test]
fn test_framed_routing() {
    let data: &[u8] = &[10, 6, 0, 0, 0, 3];
    assert_eq!(
        parse_radius_attribute(data),
        Ok((
            RadiusAttribute::FramedRouting(FramedRouting(FramedRouting::SendReceive)),
            6
        ))
    );
}

#[test]
fn test_filter_id() {
    let data: &[u8] = &[11, 4, 97, 98];
    assert_eq!(
        parse_radius_attribute(data),
        Ok((RadiusAttribute::FilterId(vec![97, 98]), 4))
    );
}

#[test]
fn test_framed_mtu() {
    let data: &[u8] = &[12, 6, 0, 0, 5, 220];
    assert_eq!(
        parse_radius_attribute(data),
        Ok((RadiusAttribute::FramedMTU(1500), 6))
    );
}

#[test]
fn test_framed_compression() {
    let data: &[u8] = &[13, 6, 0, 0, 0, 1];
    assert_eq!(
        parse_radius_attribute(data),
        Ok((
            RadiusAttribute::FramedCompression(FramedCompression(FramedCompression::TcpIp)),
            6
        ))
    );
}

#[test]
fn test_fixed_size_excess_discarded() {
    // the length byte grants eight bytes to the record; the four-byte
    // decoder reads the first four value bytes and discards the rest
    let data: &[u8] = &[5, 8, 0, 0, 0, 1, 9, 9];
    assert_eq!(
        parse_radius_attribute(data),
        Ok((RadiusAttribute::NasPort(1), 8))
    );
}

#[test]
fn test_record_longer_than_buffer() {
    let data: &[u8] = &[1, 10, 97];
    assert_eq!(
        parse_radius_attribute(data),
        Err(RadiusError::Incomplete(7))
    );
}

#[test]
fn test_record_header_missing() {
    let empty: &[u8] = &[];
    assert_eq!(
        parse_radius_attribute(empty),
        Err(RadiusError::Incomplete(1))
    );
    let one: &[u8] = &[26];
    assert_eq!(parse_radius_attribute(one), Err(RadiusError::Incomplete(1)));
}

#[test]
fn test_content_unrecognized_type() {
    let value: &[u8] = &[1, 2, 3];
    assert_eq!(
        parse_attribute_content(value, 99),
        Ok(RadiusAttribute::Unknown(99, vec![1, 2, 3]))
    );
}

#[test]
fn test_content_vendor_specific_minimum() {
    let value: &[u8] = &[0, 0, 0, 9];
    assert_eq!(
        parse_attribute_content(value, 26),
        Err(RadiusError::Incomplete(5))
    );
    let exact: &[u8] = &[0, 0, 0, 9, 42];
    assert_eq!(
        parse_attribute_content(exact, 26),
        Ok(RadiusAttribute::VendorSpecific(9, vec![42]))
    );
}
