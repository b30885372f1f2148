use dns_codec::rdata::{a, nsec, txt};
use dns_codec::{Error, Name, RData, Type};

fn dotted_quad(s: &str) -> u32 {
    let mut octets = [0u8; 4];
    for (i, part) in s.split('.').enumerate() {
        octets[i] = part.parse::<u8>().unwrap();
    }
    u32::from_be_bytes(octets)
}

#[test]
fn format() {
    let ip = String::from("128.8.255.16");
    let record = RData::A(a::Record(dotted_quad(&ip)));

    assert_eq!(record.rdata_length(), 4);
    assert_eq!(record.to_bytes(), b"\x80\x08\xFF\x10")
}

#[test]
fn a_record_decode() {
    let rdata = b"\x80\x08\xFF\x10";
    match RData::parse(Type::A, rdata, rdata).unwrap() {
        RData::A(rec) => {
            assert_eq!(rec, a::Record(0x8008_FF10));
            assert_eq!(rec.to_bytes(), rdata.to_vec());
        }
        x => panic!("Wrong rdata {:?}", x),
    }
}

#[test]
fn a_record_wrong_length() {
    let short = b"\x80\x08\xFF";
    let long = b"\x80\x08\xFF\x10\x00";
    assert_eq!(RData::parse(Type::A, short, short).unwrap_err(), Error::WrongRdataLength);
    assert_eq!(RData::parse(Type::A, long, long).unwrap_err(), Error::WrongRdataLength);
}

#[test]
fn test_from_str() {
    let record = txt::Record::from_str("this is a test");
    assert_eq!(record.to_bytes(), b"\x0Ethis is a test")
}

#[test]
fn txt_long_text_segments() {
    let text: String = std::iter::repeat('a').take(300).collect();
    let record = txt::Record::from_str(&text);
    let bytes = record.to_bytes();
    assert_eq!(bytes.len(), 302);
    assert_eq!(bytes[0], 255);
    assert_eq!(bytes[256], 45);
    let parsed = RData::parse(Type::TXT, &bytes, &bytes).unwrap();
    match parsed {
        RData::TXT(ref t) => {
            let mut it = t.iter();
            assert_eq!(it.next().unwrap().len(), 255);
            assert_eq!(it.next().unwrap().len(), 45);
            assert!(it.next().is_none());
        }
        ref x => panic!("Wrong rdata {:?}", x),
    }
}

#[test]
fn txt_exact_segment_length() {
    let text: String = std::iter::repeat('b').take(255).collect();
    let bytes = txt::Record::from_str(&text).to_bytes();
    assert_eq!(bytes.len(), 256);
    assert_eq!(bytes[0], 255);
    let text: String = std::iter::repeat('b').take(256).collect();
    let bytes = txt::Record::from_str(&text).to_bytes();
    assert_eq!(bytes.len(), 258);
    assert_eq!(bytes[0], 255);
    assert_eq!(bytes[256], 1);
}

#[test]
fn txt_overrun_refused() {
    let bad = b"\x05abc";
    assert_eq!(RData::parse(Type::TXT, bad, bad).unwrap_err(), Error::WrongRdataLength);
    let bad = b"\x01a\x03bc";
    assert_eq!(RData::parse(Type::TXT, bad, bad).unwrap_err(), Error::WrongRdataLength);
    let empty: &[u8] = &[];
    assert_eq!(RData::parse(Type::TXT, empty, empty).unwrap_err(), Error::WrongRdataLength);
}

#[test]
fn txt_segments_of_response() {
    let response = b"\x06%\x81\x80\x00\x01\x00\x01\x00\x00\x00\x00\
                      \x08facebook\x03com\x00\x00\x10\x00\x01\
                      \xc0\x0c\x00\x10\x00\x01\x00\x01\x51\x3d\x00\x23\
                      \x15\x76\x3d\x73\x70\x66\x31\x20\x72\x65\x64\x69\
                      \x72\x65\x63\x74\x3d\x5f\x73\x70\x66\x2e\
                      \x0c\x66\x61\x63\x65\x62\x6f\x6f\x6b\x2e\x63\x6f\x6d";
    let qname = Name::scan(&response[12..], response).unwrap();
    assert_eq!(qname.to_string(), "facebook.com");
    let aname = Name::scan(&response[30..], response).unwrap();
    assert_eq!(aname.to_string(), "facebook.com");
    assert_eq!(aname.byte_len(), 2);
    let rdata = &response[42..];
    assert_eq!(rdata.len(), 0x23);
    match RData::parse(Type::TXT, rdata, response).unwrap() {
        RData::TXT(ref text) => {
            let mut it = text.iter();
            let mut parts: Vec<&[u8]> = Vec::new();
            while let Some(seg) = it.next() {
                parts.push(seg);
            }
            assert_eq!(parts.concat(), b"v=spf1 redirect=_spf.facebook.com".to_vec());
            assert_eq!(parts, ["v=spf1 redirect=_spf.".as_bytes(), "facebook.com".as_bytes()]);
        }
        ref x => panic!("Wrong rdata {:?}", x),
    }
}

#[test]
fn unknown_type_passthrough() {
    let rdata = b"\x01\x02\x03\xff";
    let parsed = RData::parse(Type::NULL, rdata, rdata).unwrap();
    match parsed {
        RData::Unknown(t, ref bytes) => {
            assert_eq!(t, Type::NULL);
            assert_eq!(bytes, &rdata.to_vec());
        }
        ref x => panic!("Wrong rdata {:?}", x),
    }
    assert_eq!(parsed.type_code(), Type::NULL);
    assert_eq!(parsed.rdata_length(), 4);
    assert_eq!(parsed.to_bytes(), rdata.to_vec());
}

#[test]
fn nsec_is_not_treated_as_unknown_by_its_codec() {
    assert_eq!(nsec::Record::parse(b"\x00", b"\x00").unwrap_err(), Error::NotImplemented);
    assert_eq!(nsec::Record.length(), Err(Error::NotImplemented));
    assert!(nsec::Record.to_bytes().is_err());
}

#[test]
fn aaaa_record() {
    let rdata = b"\x20\x01\x0d\xb8\x00\x00\x00\x00\x00\x00\x00\x00\x00\x00\x00\x01";
    let parsed = RData::parse(Type::AAAA, rdata, rdata).unwrap();
    match parsed {
        RData::AAAA(ref r) => assert_eq!(r.0, [0x2001, 0x0db8, 0, 0, 0, 0, 0, 1]),
        ref x => panic!("Wrong rdata {:?}", x),
    }
    assert_eq!(parsed.rdata_length(), 16);
    assert_eq!(parsed.to_bytes(), rdata.to_vec());
    assert_eq!(parsed.type_code(), Type::AAAA);
    let short = &rdata[..15];
    assert_eq!(RData::parse(Type::AAAA, short, short).unwrap_err(), Error::WrongRdataLength);
}

#[test]
fn cname_record_with_pointer() {
    let msg = b"\x07example\x03com\x00\x03www\xc0\x00";
    let parsed = RData::parse(Type::CNAME, &msg[13..], msg).unwrap();
    match parsed {
        RData::CNAME(ref r) => assert_eq!(r.0.to_string(), "www.example.com"),
        ref x => panic!("Wrong rdata {:?}", x),
    }
    assert_eq!(parsed.to_bytes(), b"\x03www\x07example\x03com\x00".to_vec());
    assert_eq!(parsed.rdata_length(), 17);
}

#[test]
fn ns_and_ptr_records() {
    let msg = b"\x02ns\x03net\x00";
    match RData::parse(Type::NS, msg, msg).unwrap() {
        RData::NS(r) => assert_eq!(r.0.to_string(), "ns.net"),
        x => panic!("Wrong rdata {:?}", x),
    }
    match RData::parse(Type::PTR, msg, msg).unwrap() {
        RData::PTR(r) => assert_eq!(r.0.to_string(), "ns.net"),
        x => panic!("Wrong rdata {:?}", x),
    }
    let bad = b"\x02ns";
    assert_eq!(RData::parse(Type::NS, bad, bad).unwrap_err(), Error::UnexpectedEOF);
}

#[test]
fn mx_record() {
    let rdata = b"\x00\x0a\x04mail\x03org\x00";
    let parsed = RData::parse(Type::MX, rdata, rdata).unwrap();
    match parsed {
        RData::MX(ref r) => {
            assert_eq!(r.preference, 10);
            assert_eq!(r.exchange.to_string(), "mail.org");
        }
        ref x => panic!("Wrong rdata {:?}", x),
    }
    assert_eq!(parsed.to_bytes(), rdata.to_vec());
    assert_eq!(parsed.rdata_length(), rdata.len() as u16);
    let short = b"\x00\x0a";
    assert_eq!(RData::parse(Type::MX, short, short).unwrap_err(), Error::WrongRdataLength);
}

#[test]
fn srv_record() {
    let rdata = b"\x00\x05\x00\x00\x14\x95\x0bxmpp-server\x01l\x06google\x03com\x00";
    let parsed = RData::parse(Type::SRV, rdata, rdata).unwrap();
    match parsed {
        RData::SRV(ref r) => {
            assert_eq!(r.priority, 5);
            assert_eq!(r.weight, 0);
            assert_eq!(r.port, 5269);
            assert_eq!(r.target.to_string(), "xmpp-server.l.google.com");
        }
        ref x => panic!("Wrong rdata {:?}", x),
    }
    assert_eq!(parsed.to_bytes(), rdata.to_vec());
    assert_eq!(parsed.rdata_length(), rdata.len() as u16);
    let short = b"\x00\x05\x00\x00\x14\x95";
    assert_eq!(RData::parse(Type::SRV, short, short).unwrap_err(), Error::WrongRdataLength);
}

#[test]
fn soa_record() {
    let mut rdata = b"\x02ns\x03org\x00\x05admin\x03org\x00".to_vec();
    for v in [2024u32, 3600, 600, 86400, 300] {
        rdata.extend_from_slice(&v.to_be_bytes());
    }
    let parsed = RData::parse(Type::SOA, &rdata, &rdata).unwrap();
    match parsed {
        RData::SOA(ref r) => {
            assert_eq!(r.primary_ns.to_string(), "ns.org");
            assert_eq!(r.mailbox.to_string(), "admin.org");
            assert_eq!(r.serial, 2024);
            assert_eq!(r.refresh, 3600);
            assert_eq!(r.retry, 600);
            assert_eq!(r.expire, 86400);
            assert_eq!(r.minimum_ttl, 300);
        }
        ref x => panic!("Wrong rdata {:?}", x),
    }
    assert_eq!(parsed.to_bytes(), rdata);
    assert_eq!(parsed.rdata_length(), rdata.len() as u16);
    let short = &rdata[..rdata.len() - 1];
    assert_eq!(RData::parse(Type::SOA, short, short).unwrap_err(), Error::WrongRdataLength);
}
