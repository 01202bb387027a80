use solarman::codec::{
    checksum, DecodeError, Request, RequestFrameType, RequestHeader, RequestPayload, Response,
    ResponseHeader, ResponsePayload,
};

fn request<'a>(serial: [u8; 4], frame: &'a [u8]) -> Request<'a> {
    Request {
        header: RequestHeader { msg_id: 0, logger_serial: serial },
        payload: RequestPayload {
            frame_type: RequestFrameType::SolarInverter,
            sensor_type: 0,
            total_working_second: 0,
            uptime_second: 0,
            offset_seconds: 0,
            modbus_rtu_frame: frame,
        },
    }
}

fn as_response_layout(bytes: &[u8]) -> Vec<u8> {
    let mut out = bytes[..13].to_vec();
    out.extend_from_slice(&bytes[14..]);
    out
}

#[test]
fn handshake_request_bytes() {
    let bytes = request([0; 4], &[]).to_bytes();
    let mut expected = vec![0xA5, 0x0F, 0x00, 0x10, 0x45, 0x00, 0x00, 0, 0, 0, 0, 0x02, 0, 0];
    expected.extend_from_slice(&[0; 12]);
    expected.push(0x66);
    expected.push(0x15);
    assert_eq!(bytes, expected);
}

#[test]
fn request_fields_and_endianness() {
    let frame = [0xAAu8, 0xBB];
    let req = Request {
        header: RequestHeader { msg_id: 0x0102, logger_serial: [9, 8, 7, 6] },
        payload: RequestPayload {
            frame_type: RequestFrameType::DataLoggingStick,
            sensor_type: 0x0304,
            total_working_second: 0x05060708,
            uptime_second: 1,
            offset_seconds: 0x0100,
            modbus_rtu_frame: &frame,
        },
    };
    let bytes = req.to_bytes();
    assert_eq!(bytes.len(), 30);
    assert_eq!(&bytes[0..3], &[0xA5, 17, 0]);
    assert_eq!(&bytes[3..5], &[0x10, 0x45]);
    assert_eq!(&bytes[5..7], &[0x02, 0x01]);
    assert_eq!(&bytes[7..11], &[9, 8, 7, 6]);
    assert_eq!(bytes[11], 0x01);
    assert_eq!(&bytes[12..14], &[0x03, 0x04]);
    assert_eq!(&bytes[14..18], &[0x08, 0x07, 0x06, 0x05]);
    assert_eq!(&bytes[18..22], &[1, 0, 0, 0]);
    assert_eq!(&bytes[22..26], &[0, 1, 0, 0]);
    assert_eq!(&bytes[26..28], &[0xAA, 0xBB]);
    let sum: u32 = bytes[1..28].iter().map(|b| *b as u32).sum();
    assert_eq!(bytes[28], (sum % 256) as u8);
    assert_eq!(bytes[29], 0x15);
}

#[test]
fn frame_type_tags() {
    assert_eq!(RequestFrameType::SolarInverter.tag(), 0x02);
    assert_eq!(RequestFrameType::DataLoggingStick.tag(), 0x01);
    assert_eq!(RequestFrameType::SolarmanCloud.tag(), 0x00);
}

#[test]
fn header_and_payload_parts() {
    let header = RequestHeader { msg_id: 5, logger_serial: [1, 2, 3, 4] };
    assert_eq!(header.to_bytes(0x1234), vec![0xA5, 0x34, 0x12, 0x10, 0x45, 5, 0, 1, 2, 3, 4]);
    let frame = [7u8; 3];
    let req = request([0; 4], &frame);
    assert_eq!(req.payload.length(), 18);
    let payload = req.payload.to_bytes();
    assert_eq!(payload.len(), 18);
    assert_eq!(&payload[15..], &[7, 7, 7]);
}

#[test]
fn checksum_skips_first_byte() {
    assert_eq!(checksum(&vec![0xFF]), 0);
    assert_eq!(checksum(&vec![0xFF, 0x80, 0x90]), 0x10);
}

#[test]
fn round_trip_recovers_serial_and_frame() {
    let serial = [0x12, 0x34, 0x56, 0x78];
    for frame in [vec![], vec![1u8], vec![0x01, 0x03, 0x00, 0x3b, 0x00, 0x36, 0xb4, 0x11]] {
        let bytes = request(serial, &frame).to_bytes();
        let resp = Response::from_bytes(&as_response_layout(&bytes)).unwrap();
        assert_eq!(resp.header.logger_serial, serial);
        assert_eq!(resp.payload.rtu_frame, frame);
    }
}

#[test]
fn round_trip_longest_frame() {
    let frame = vec![0xC3u8; 65520];
    let bytes = request([1, 2, 3, 4], &frame).to_bytes();
    assert_eq!(u16::from_le_bytes([bytes[1], bytes[2]]), 65535);
    let resp = Response::from_bytes(&as_response_layout(&bytes)).unwrap();
    assert_eq!(resp.header.logger_serial, [1, 2, 3, 4]);
    assert_eq!(resp.payload.rtu_frame, frame);
}

#[test]
fn checksum_is_deterministic() {
    let frame = [1u8, 2, 3, 4];
    let a = request([5, 6, 7, 8], &frame).to_bytes();
    let b = request([5, 6, 7, 8], &frame).to_bytes();
    assert_eq!(a, b);
    assert_eq!(a[a.len() - 2], b[b.len() - 2]);
}

#[test]
fn single_byte_change_changes_checksum() {
    let a_frame = [1u8, 2, 3, 4];
    let b_frame = [1u8, 2, 0xFF, 4];
    let a = request([5, 6, 7, 8], &a_frame).to_bytes();
    let b = request([5, 6, 7, 8], &b_frame).to_bytes();
    assert_ne!(a[a.len() - 2], b[b.len() - 2]);
}

#[test]
fn length_field_counts_frame() {
    for n in [0usize, 1, 8, 300, 65520] {
        let frame = vec![0u8; n];
        let bytes = request([0; 4], &frame).to_bytes();
        assert_eq!(u16::from_le_bytes([bytes[1], bytes[2]]) as usize, 15 + n);
        assert_eq!(bytes.len(), 28 + n);
    }
}

fn canned(len: usize, serial: [u8; 4]) -> Vec<u8> {
    let mut data: Vec<u8> = (0..len).map(|i| (i * 7 % 251) as u8).collect();
    data[0] = 0xA5;
    data[1] = (len - 13) as u8;
    data[2] = 0;
    data[7..11].copy_from_slice(&serial);
    data
}

#[test]
fn handshake_response_yields_serial() {
    let data = canned(29, [0xDE, 0xAD, 0xBE, 0xEF]);
    let resp = Response::from_bytes(&data).unwrap();
    assert_eq!(resp.header.logger_serial, [0xDE, 0xAD, 0xBE, 0xEF]);
    assert_eq!(resp.header.length, 16);
    assert_eq!(resp.header.msg_id, [data[5], data[6]]);
    assert_eq!(resp.payload.rtu_frame, data[25..27].to_vec());
}

#[test]
fn exchange_response_frame_bounds() {
    let data = canned(140, [1, 2, 3, 4]);
    let resp = Response::from_bytes(&data).unwrap();
    assert_eq!(resp.payload.rtu_frame.len(), 113);
    assert_eq!(resp.payload.rtu_frame, data[25..138].to_vec());
    assert_eq!(resp.payload.status, data[12]);
    assert_eq!(resp.payload.total_working_time, [data[13], data[14], data[15], data[16]]);
    assert_eq!(resp.payload.power_on_time, [data[17], data[18], data[19], data[20]]);
    assert_eq!(resp.payload.offset_time, [data[21], data[22], data[23], data[24]]);
    assert_eq!(resp.payload.checksum, data[138]);
}

#[test]
fn short_buffers_are_rejected() {
    for n in 0..11 {
        assert_eq!(Response::from_bytes(&vec![0u8; n]).err(), Some(DecodeError::HeaderTooShort));
        assert!(ResponseHeader::from_bytes(&vec![0u8; n]).is_err());
    }
    for n in 11..27 {
        assert_eq!(Response::from_bytes(&vec![0u8; n]).err(), Some(DecodeError::PayloadTooShort));
    }
    for n in 0..16 {
        assert_eq!(
            ResponsePayload::from_bytes(&vec![0u8; n]).err(),
            Some(DecodeError::PayloadTooShort)
        );
    }
    let resp = Response::from_bytes(&[0u8; 27]).unwrap();
    assert!(resp.payload.rtu_frame.is_empty());
}

#[test]
fn response_header_length_is_little_endian() {
    let mut data = vec![0u8; 11];
    data[1] = 0x34;
    data[2] = 0x12;
    assert_eq!(ResponseHeader::from_bytes(&data).unwrap().length, 0x1234);
}
