use radius_parser::RadiusAttribute;
use radius_parser::RadiusCode;
use radius_parser::RadiusData;
use radius_parser::RadiusError;
use radius_parser::parse_radius_data;

/// A 20-byte header claiming `length` total bytes, followed by `tail`.
fn packet_bytes(code: u8, identifier: u8, length: u16, tail: &[u8]) -> Vec<u8> {
    let mut data = vec![code, identifier, (length >> 8) as u8, (length & 0xff) as u8];
    for k in 0..16 {
        data.push(k as u8);
    }
    data.extend_from_slice(tail);
    data
}

#[test]
fn test_access_request() {
    // an Access-Request carrying a user name, the client address and port,
    // and the requested service type
    let mut attrs: Vec<u8> = Vec::new();
    attrs.extend_from_slice(&[1, 7, 115, 116, 101, 118, 101]);
    attrs.extend_from_slice(&[4, 6, 192, 168, 0, 28]);
    attrs.extend_from_slice(&[5, 6, 0, 0, 0, 123]);
    attrs.extend_from_slice(&[6, 6, 0, 0, 0, 1]);
    let data = packet_bytes(1, 103, 20 + attrs.len() as u16, &attrs);

    let (access_req, consumed) = parse_radius_data(&data).expect("could not parse data");

    assert!(data.len() - consumed == 0);
    println!("{:?}", access_req);
    assert_eq!(access_req.code, RadiusCode(1));
}

#[test]
fn test_header_only_packet() {
    let data: &[u8] = &[1, 2, 0, 20, 0, 0, 0, 0, 0, 0, 0, 0, 0, 0, 0, 0, 0, 0, 0, 0];
    let expected = RadiusData {
        code: RadiusCode(1),
        identifier: 2,
        length: 20,
        authenticator: vec![0; 16],
        attributes: None,
    };
    assert_eq!(parse_radius_data(data), Ok((expected, 20)));
}

#[test]
fn test_header_only_named_code() {
    let data: &[u8] = &[1, 2, 0, 20, 0, 0, 0, 0, 0, 0, 0, 0, 0, 0, 0, 0, 0, 0, 0, 0];
    let (packet, _) = parse_radius_data(data).unwrap();
    assert_eq!(packet.code, RadiusCode(RadiusCode::AccessRequest));
}

#[test]
fn test_empty_input() {
    let data: &[u8] = &[];
    assert_eq!(parse_radius_data(data), Err(RadiusError::Incomplete(20)));
}

#[test]
fn test_truncated_header() {
    let data: &[u8] = &[4, 1, 0, 44, 9, 9, 9, 9, 9, 9];
    assert_eq!(parse_radius_data(data), Err(RadiusError::Incomplete(10)));
}

#[test]
fn test_truncated_attribute_region() {
    // the header declares ten attribute bytes but none follow
    let data = packet_bytes(2, 5, 30, &[]);
    assert_eq!(parse_radius_data(&data), Err(RadiusError::Incomplete(10)));
    // with four of the ten delivered, six are still missing
    let partial = packet_bytes(2, 5, 30, &[1, 4, 97, 98]);
    assert_eq!(parse_radius_data(&partial), Err(RadiusError::Incomplete(6)));
}

#[test]
fn test_validation_position_inside_packet() {
    // the first attribute record declares a length byte of 1; the error
    // points at that byte, 21 bytes into the packet
    let data = packet_bytes(1, 9, 23, &[255, 1, 0]);
    assert_eq!(parse_radius_data(&data), Err(RadiusError::Validation(21)));
}

#[test]
fn test_attribute_region_must_be_fully_consumed() {
    // the region holds one two-byte record and one stray byte that cannot
    // start a record: the whole decode fails
    let data = packet_bytes(1, 9, 23, &[255, 2, 0]);
    assert!(parse_radius_data(&data).is_err());
}

#[test]
fn test_multi_attribute_packet_with_remainder() {
    let mut attrs: Vec<u8> = Vec::new();
    attrs.extend_from_slice(&[1, 5, 98, 111, 98]);
    attrs.extend_from_slice(&[12, 6, 0, 0, 5, 220]);
    attrs.extend_from_slice(&[77, 3, 9]);
    let mut data = packet_bytes(11, 7, 20 + attrs.len() as u16, &attrs);
    let packet_len = data.len();
    // trailing bytes that belong to the next packet
    data.extend_from_slice(&[13, 13, 13]);

    let (packet, consumed) = parse_radius_data(&data).unwrap();
    assert_eq!(consumed, packet_len);
    assert_eq!(data.len() - consumed, 3);
    assert_eq!(packet.code, RadiusCode(RadiusCode::AccessChallenge));
    assert_eq!(packet.identifier, 7);
    assert_eq!(packet.length, 34);
    assert_eq!(
        packet.authenticator,
        vec![0, 1, 2, 3, 4, 5, 6, 7, 8, 9, 10, 11, 12, 13, 14, 15]
    );
    assert_eq!(
        packet.attributes,
        Some(vec![
            RadiusAttribute::UserName(b"bob".to_vec()),
            RadiusAttribute::FramedMTU(1500),
            RadiusAttribute::Unknown(77, vec![9]),
        ])
    );
}

#[test]
fn test_decode_is_idempotent() {
    let mut attrs: Vec<u8> = Vec::new();
    attrs.extend_from_slice(&[26, 7, 0, 1, 2, 3, 120]);
    attrs.extend_from_slice(&[30, 4, 97, 97]);
    let data = packet_bytes(4, 200, 20 + attrs.len() as u16, &attrs);

    let first = parse_radius_data(&data);
    let second = parse_radius_data(&data);
    assert_eq!(first, second);

    let truncated: &[u8] = &data[..7];
    assert_eq!(parse_radius_data(truncated), parse_radius_data(truncated));
}

#[test]
fn test_adversarial_inputs_always_error_cleanly() {
    // every prefix of a packet either decodes or reports an error; nothing
    // panics and every error is one of the two kinds
    let mut attrs: Vec<u8> = Vec::new();
    attrs.extend_from_slice(&[3, 19, 1]);
    for k in 0..16 {
        attrs.push(k as u8);
    }
    let data = packet_bytes(255, 1, 20 + attrs.len() as u16, &attrs);
    for cut in 0..data.len() {
        let r = parse_radius_data(&data[..cut]);
        match r {
            Err(RadiusError::Incomplete(n)) => assert!(n > 0),
            Err(RadiusError::Validation(_)) => {}
            Ok(_) => {}
        }
    }
    let whole = parse_radius_data(&data);
    assert!(whole.is_ok());
}
