use dfx::parser::{extract_length, read_version, Parser};

#[test]
pub fn two_in_one() {
    let buffer = b"8=FIX.4.4\x019=57\x0135=A\x0134=1\x0149=ISLD\x0152=00000000-00:00:00\x0156=TW\x0198=0\x01108=30\x0110=0\x018=FIX.4.4\x019=45\x0135=5\x0134=2\x0149=ISLD\x0152=00000000-00:00:00\x0156=TW\x0110=0\x01";
    println!("{}", buffer.iter().map(|b| *b as char).collect::<String>());
    let mut parser = Parser::default();
    parser.add_to_stream(buffer);
    let msg = parser.read_fix_message();
    assert!(msg.is_ok());
    assert!(msg.unwrap().is_some());
    assert!(!parser.buffer().is_empty());
    println!("{}", parser.buffer().iter().map(|b| *b as char).collect::<String>());
    let msg = parser.read_fix_message();
    assert!(msg.is_ok());
    assert!(msg.unwrap().is_some());
}

#[test]
fn parser_reads_exactly_one_message_and_keeps_the_rest() {
    let first = b"8=FIX.4.4\x019=5\x0135=0\x0110=000\x01";
    let second = b"8=FIX.4.4\x019=5\x0135=1\x01";
    let mut parser = Parser::new();
    parser.add_to_stream(first);
    parser.add_to_stream(second);
    let msg = parser.read_fix_message().unwrap().unwrap();
    assert_eq!(msg, first.to_vec());
    assert_eq!(parser.buffer().clone(), second.to_vec());
    // the second message has no checksum yet
    assert_eq!(parser.read_fix_message().unwrap(), None);
    assert_eq!(parser.buffer().clone(), second.to_vec());
}

#[test]
fn parser_skips_bytes_before_begin_string() {
    let mut parser = Parser::new();
    parser.add_to_stream(b"xx8=FIX.4.2\x019=5\x0135=0\x0110=000\x01");
    let msg = parser.read_fix_message().unwrap().unwrap();
    assert_eq!(msg, b"8=FIX.4.2\x019=5\x0135=0\x0110=000\x01".to_vec());
    assert!(parser.buffer().is_empty());
}

#[test]
fn parser_without_begin_string_reads_nothing() {
    let mut parser = Parser::new();
    parser.add_to_stream(b"garbage");
    assert_eq!(parser.read_fix_message().unwrap(), None);
    assert_eq!(parser.buffer().clone(), b"garbage".to_vec());
}

#[test]
fn extract_length_finds_body_length() {
    assert_eq!(extract_length(b"8=FIX.4.4\x019=57\x0135=A"), Some((15, 57)));
    assert_eq!(extract_length(b"8=FIX.4.4\x019=x7\x0135=A"), None);
    assert_eq!(extract_length(b"8=FIX.4.4\x01"), None);
}

#[test]
fn read_version_reads_begin_string() {
    assert_eq!(read_version(b"8=FIX.4.4\x019=57\x01"), Some("FIX.4.4"));
    assert_eq!(read_version(b"9=57\x01"), None);
}
