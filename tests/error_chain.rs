use udpsocket::{parse_addr_error, udpsocket_error, AddressStage};

fn text_of(e: &udpsocket_error) -> String {
    String::from_utf8(e.text()).unwrap()
}

#[test]
fn cause_alone_prints_itself() {
    let e = udpsocket_error::from_cause("address in use".to_string());
    assert_eq!(text_of(&e), "address in use");
}

#[test]
fn context_layers_print_outermost_first() {
    let e = udpsocket_error::from_cause("c".to_string()).context("b").context("a");
    assert_eq!(text_of(&e), "a: b: c");
}

#[test]
fn malformed_address_prints_context_before_cause() {
    let e = parse_addr_error(AddressStage::Syntax, "invalid socket address syntax".to_string());
    let text = text_of(&e);
    assert_eq!(text, "parse_addr: parse: invalid socket address syntax");
    let outer = text.find("parse_addr").unwrap();
    let inner = text.find("invalid socket address syntax").unwrap();
    assert!(outer < inner);
}

#[test]
fn undecodable_address_names_the_text_stage() {
    let e = parse_addr_error(
        AddressStage::Text,
        "invalid utf-8 sequence of 1 bytes from index 0".to_string(),
    );
    assert_eq!(
        text_of(&e),
        "parse_addr: to_str: invalid utf-8 sequence of 1 bytes from index 0"
    );
}

#[test]
fn print_into_large_buffer_writes_whole_text() {
    let e = udpsocket_error::from_cause("refused".to_string()).context("connect");
    let mut buf = [0xAAu8; 1024];
    let n = e.print(&mut buf);
    assert_eq!(n, 16);
    assert_eq!(&buf[..n], b"connect: refused");
    assert!(buf[n..].iter().all(|b| *b == 0xAA));
}

#[test]
fn print_truncates_to_buffer_capacity() {
    let e = parse_addr_error(AddressStage::Syntax, "invalid socket address syntax".to_string());
    let mut buf = [0xAAu8; 14];
    let n = e.print(&mut buf[..10]);
    assert_eq!(n, 10);
    assert_eq!(&buf[..10], b"parse_addr");
    assert_eq!(&buf[10..], &[0xAAu8; 4]);
}

#[test]
fn print_into_exact_buffer_fills_it() {
    let e = udpsocket_error::from_cause("x".to_string()).context("send");
    let mut buf = [0u8; 7];
    let n = e.print(&mut buf);
    assert_eq!(n, 7);
    assert_eq!(&buf, b"send: x");
}

#[test]
fn print_into_empty_buffer_writes_nothing() {
    let e = udpsocket_error::from_cause("x".to_string());
    let mut buf: [u8; 0] = [];
    assert_eq!(e.print(&mut buf), 0);
}

#[test]
fn print_does_not_consume_the_error() {
    let e = udpsocket_error::from_cause("x".to_string()).context("recv");
    let mut first = [0u8; 16];
    let mut second = [0u8; 16];
    let n1 = e.print(&mut first);
    let n2 = e.print(&mut second);
    assert_eq!(n1, n2);
    assert_eq!(first, second);
}

#[test]
fn non_ascii_cause_prints_as_utf8() {
    let e = udpsocket_error::from_cause("é".to_string()).context("bind");
    assert_eq!(e.text(), vec![b'b', b'i', b'n', b'd', b':', b' ', 0xC3, 0xA9]);
    let mut buf = [0u8; 7];
    assert_eq!(e.print(&mut buf), 7);
    assert_eq!(&buf, &[b'b', b'i', b'n', b'd', b':', b' ', 0xC3]);
}
