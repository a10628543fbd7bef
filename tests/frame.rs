use plist::Value as PlistValue;
use usbmux::{decode_frame, message_type, payload_length, prepare_request_data, HEADER_LEN};

#[test]
fn test_prepare_data() {
    assert_eq!(prepare_request_data(&[1, 2, 3, 4]).iter().count(), 20);
}

#[test]
fn header_fields_are_little_endian() {
    let frame = prepare_request_data(&[1, 2, 3, 4]);
    assert_eq!(
        frame,
        vec![20, 0, 0, 0, 1, 0, 0, 0, 8, 0, 0, 0, 1, 0, 0, 0, 1, 2, 3, 4]
    );
}

#[test]
fn header_of_empty_payload() {
    let frame = prepare_request_data(&[]);
    assert_eq!(frame.len(), HEADER_LEN);
    assert_eq!(&frame[0..4], &[16, 0, 0, 0]);
}

#[test]
fn total_length_spans_several_bytes() {
    let data = vec![7u8; 300];
    let frame = prepare_request_data(&data);
    assert_eq!(frame.len(), 316);
    assert_eq!(&frame[0..4], &[0x3c, 0x01, 0, 0]);
    assert_eq!(&frame[16..], &data[..]);
}

#[test]
fn payload_length_reads_total_minus_header() {
    let header = [0x3c, 0x01, 0, 0, 1, 0, 0, 0, 8, 0, 0, 0, 1, 0, 0, 0];
    assert_eq!(payload_length(&header), Some(300));
    let exact = [16, 0, 0, 0, 1, 0, 0, 0, 8, 0, 0, 0, 1, 0, 0, 0];
    assert_eq!(payload_length(&exact), Some(0));
}

#[test]
fn payload_length_rejects_short_total() {
    let header = [15, 0, 0, 0, 1, 0, 0, 0, 8, 0, 0, 0, 1, 0, 0, 0];
    assert_eq!(payload_length(&header), None);
}

#[test]
fn decode_frame_round_trip() {
    let data = b"<plist>payload</plist>".to_vec();
    let frame = prepare_request_data(&data);
    assert_eq!(decode_frame(&frame), Some(data));
}

#[test]
fn decode_frame_ignores_trailing_bytes() {
    let mut frame = prepare_request_data(&[9, 8]);
    frame.extend_from_slice(&[1, 1, 1]);
    assert_eq!(decode_frame(&frame), Some(vec![9, 8]));
}

#[test]
fn decode_frame_rejects_bad_frames() {
    assert_eq!(decode_frame(&[20, 0, 0, 0]), None);
    let mut truncated = prepare_request_data(&[1, 2, 3, 4]);
    truncated.pop();
    assert_eq!(decode_frame(&truncated), None);
    let underflow = [3, 0, 0, 0, 1, 0, 0, 0, 8, 0, 0, 0, 1, 0, 0, 0];
    assert_eq!(decode_frame(&underflow), None);
}

#[test]
fn test_send_receive_message() {
    let request = message_type("Listen");
    assert_eq!(request.len(), 1);
    let mut dict = plist::Dictionary::new();
    dict.insert(
        "MessageType".to_owned(),
        PlistValue::String("Listen".to_owned()),
    );
    let message = PlistValue::Dictionary(dict);
    let mut payload = Vec::new();
    message.to_writer_xml(&mut payload).unwrap();
    let buffer = prepare_request_data(&payload);
    let received = decode_frame(&buffer).unwrap();
    let parsed = PlistValue::from_reader_xml(&received[..]).unwrap();
    assert_eq!(parsed, message);
}

#[test]
fn framed_nested_plist_round_trip() {
    let mut props = plist::Dictionary::new();
    props.insert("DeviceID".to_owned(), PlistValue::Integer(3.into()));
    props.insert("SerialNumber".to_owned(), PlistValue::String("fffffffff".to_owned()));
    props.insert("Blob".to_owned(), PlistValue::Data(vec![0, 255, 7]));
    let mut entry = plist::Dictionary::new();
    entry.insert("Properties".to_owned(), PlistValue::Dictionary(props));
    let mut top = plist::Dictionary::new();
    top.insert(
        "DeviceList".to_owned(),
        PlistValue::Array(vec![PlistValue::Dictionary(entry), PlistValue::Boolean(true)]),
    );
    let message = PlistValue::Dictionary(top);
    let mut payload = Vec::new();
    message.to_writer_xml(&mut payload).unwrap();
    let frame = prepare_request_data(&payload);
    assert_eq!(payload_length(&frame[..HEADER_LEN]), Some(payload.len()));
    let received = decode_frame(&frame).unwrap();
    assert_eq!(PlistValue::from_reader_xml(&received[..]).unwrap(), message);
}
