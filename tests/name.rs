use dns_codec::{Error, Name};

#[test]
fn parse_badpointer_same_offset() {
    // A buffer where an offset points to itself, which is a bad compression pointer.
    let same_offset = vec![192, 2, 192, 2];
    let is_match = matches!(Name::scan(&same_offset, &same_offset), Err(Error::BadPointer));
    assert!(is_match);
}

#[test]
fn parse_badpointer_forward_offset() {
    // Offsets that point back to each other would recurse forever if never checked.
    let forwards_offset = vec![192, 2, 192, 4, 192, 2];
    let is_match = matches!(Name::scan(&forwards_offset, &forwards_offset), Err(Error::BadPointer));
    assert!(is_match);
}

#[test]
fn nested_names() {
    let buf = b"\x02xx\x00\x02yy\xc0\x00\x02zz\xc0\x04";

    assert_eq!(Name::scan(&buf[..], buf).unwrap().to_string(), "xx");
    assert_eq!(Name::scan(&buf[..], buf).unwrap().labels, b"\x02xx\x00");
    assert_eq!(Name::scan(&buf[4..], buf).unwrap().to_string(), "yy.xx");
    assert_eq!(Name::scan(&buf[4..], buf).unwrap().labels, b"\x02yy\xc0\x00");
    assert_eq!(Name::scan(&buf[9..], buf).unwrap().to_string(), "zz.yy.xx");
    assert_eq!(Name::scan(&buf[9..], buf).unwrap().labels, b"\x02zz\xc0\x04");
}

#[test]
fn nested_names_byte_len() {
    let buf = b"\x02xx\x00\x02yy\xc0\x00\x02zz\xc0\x04";
    assert_eq!(Name::scan(&buf[..], buf).unwrap().byte_len(), 4);
    assert_eq!(Name::scan(&buf[4..], buf).unwrap().byte_len(), 5);
    assert_eq!(Name::scan(&buf[9..], buf).unwrap().byte_len(), 5);
}

#[test]
fn round_trip_literal_name() {
    for text in ["example.com", "a.b.c", "x", "_xmpp-server._tcp.gmail.com"] {
        let bytes = Name::from_string(text).to_bytes();
        let name = Name::scan(&bytes, &bytes).unwrap();
        assert_eq!(name.to_string(), text);
        assert_eq!(name.byte_len(), bytes.len());
    }
    // The empty name is written as an empty label and a terminator; the
    // first zero byte already ends it.
    let bytes = Name::from_string("").to_bytes();
    let name = Name::scan(&bytes, &bytes).unwrap();
    assert_eq!(name.to_string(), "");
    assert_eq!(name.byte_len(), 1);
}

#[test]
fn pointer_cycle_at_later_offsets() {
    // Two pointers at offsets 2 and 4 that point at each other.
    let buf = vec![0, 0, 0xC0, 4, 0xC0, 2];
    assert_eq!(Name::scan(&buf[2..], &buf).unwrap_err(), Error::BadPointer);
}

#[test]
fn to_bytes_literal_labels() {
    let name = Name::from_string("example.com");
    assert_eq!(name.to_bytes(), b"\x07example\x03com\x00".to_vec());
    assert_eq!(name.octet_length(), 13);
    assert_eq!(name.byte_len(), 0);
}

#[test]
fn to_bytes_empty_name() {
    let name = Name::from_string("");
    assert_eq!(name.to_bytes(), vec![0, 0]);
    assert_eq!(name.octet_length(), 2);
}

#[test]
fn scan_empty_buffer() {
    assert_eq!(Name::scan(&[], &[]).unwrap_err(), Error::UnexpectedEOF);
}

#[test]
fn scan_truncated_label() {
    let buf = b"\x05ab";
    assert_eq!(Name::scan(buf, buf).unwrap_err(), Error::UnexpectedEOF);
}

#[test]
fn scan_missing_terminator() {
    let buf = b"\x02ab";
    assert_eq!(Name::scan(buf, buf).unwrap_err(), Error::UnexpectedEOF);
}

#[test]
fn scan_truncated_pointer() {
    let buf = b"\x02ab\xc0";
    assert_eq!(Name::scan(buf, buf).unwrap_err(), Error::UnexpectedEOF);
}

#[test]
fn scan_pointer_past_end() {
    let buf = b"\x02ab\xc0\x20";
    assert_eq!(Name::scan(buf, buf).unwrap_err(), Error::UnexpectedEOF);
}

#[test]
fn scan_reserved_label_format() {
    let buf = b"\x40ab\x00";
    assert_eq!(Name::scan(buf, buf).unwrap_err(), Error::UnknownLabelFormat);
    let buf = b"\x80ab\x00";
    assert_eq!(Name::scan(buf, buf).unwrap_err(), Error::UnknownLabelFormat);
}

#[test]
fn scan_non_ascii_label() {
    let buf = b"\x02a\xff\x00";
    assert_eq!(Name::scan(buf, buf).unwrap_err(), Error::LabelIsNotAscii);
}

#[test]
fn scan_pointer_into_longer_message() {
    let msg = b"\x00\x00\x07example\x03com\x00\x03www\xc0\x02";
    let name = Name::scan(&msg[15..], msg).unwrap();
    assert_eq!(name.to_string(), "www.example.com");
    assert_eq!(name.labels, b"\x03www\xc0\x02");
    let name = Name::scan(&msg[19..], msg).unwrap();
    assert_eq!(name.to_string(), "example.com");
    assert_eq!(name.byte_len(), 2);
}
