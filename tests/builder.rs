use dns_codec::rdata::a;
use dns_codec::{Builder, Class, QueryClass as QC, QueryType as QT, RData};

#[test]
fn build_query() {
    let mut bld = Builder::new(1573, true);
    bld.question("example.com", false, QT::A, QC::IN);
    let result = b"\x06%\x01\x00\x00\x01\x00\x00\x00\x00\x00\x00\
                  \x07example\x03com\x00\x00\x01\x00\x01";
    assert_eq!(&bld.build().unwrap()[..], &result[..]);
}

#[test]
fn build_unicast_query() {
    let mut bld = Builder::new(1573, true);
    bld.question("example.com", true, QT::A, QC::IN);
    let result = b"\x06%\x01\x00\x00\x01\x00\x00\x00\x00\x00\x00\
                  \x07example\x03com\x00\x00\x01\x80\x01";
    assert_eq!(&bld.build().unwrap()[..], &result[..]);
}

#[test]
fn build_srv_query() {
    let mut bld = Builder::new(23513, true);
    bld.question("_xmpp-server._tcp.gmail.com", false, QT::SRV, QC::IN);
    let result = b"[\xd9\x01\x00\x00\x01\x00\x00\x00\x00\x00\x00\
        \x0c_xmpp-server\x04_tcp\x05gmail\x03com\x00\x00!\x00\x01";
    assert_eq!(&bld.build().unwrap()[..], &result[..]);
}

#[test]
fn build_empty_query_without_recursion() {
    let bld = Builder::new(0x0102, false);
    assert_eq!(bld.build().unwrap(), b"\x01\x02\x00\x00\x00\x00\x00\x00\x00\x00\x00\x00".to_vec());
}

#[test]
fn build_answer() {
    let mut bld = Builder::new(7, false);
    bld.question("a.io", false, QT::A, QC::IN);
    bld.answer("a.io", Class::IN, RData::A(a::Record(0x0A00_0001)), false, 3600);
    let result = b"\x00\x07\x00\x00\x00\x01\x00\x01\x00\x00\x00\x00\
                   \x01a\x02io\x00\x00\x01\x00\x01\
                   \x01a\x02io\x00\x00\x01\x00\x01\x00\x00\x0e\x10\x00\x04\x0a\x00\x00\x01";
    assert_eq!(bld.build().unwrap(), result.to_vec());
}

#[test]
fn build_questions_in_order() {
    let mut bld = Builder::new(1, true);
    bld.question("x", false, QT::MX, QC::Any);
    bld.question("y", true, QT::TXT, QC::CH);
    let result = b"\x00\x01\x01\x00\x00\x02\x00\x00\x00\x00\x00\x00\
                   \x01x\x00\x00\x0f\x00\xff\
                   \x01y\x00\x00\x10\x80\x03";
    assert_eq!(bld.build().unwrap(), result.to_vec());
}
