use dfx::message::Message;

#[test]
fn message_to_string_writes_header_body_trailer() {
    let mut msg = Message::default();
    msg.header_mut().map_mut().set_field(8, "FIX.4.4");
    msg.header_mut().map_mut().set_field(35, "0");
    msg.body_mut().set_field(112, "TEST");
    let text = msg.to_string();
    assert_eq!(text, "8=FIX.4.4\x0135=0\x01112=TEST\x01");
    assert!(msg.is_admin());
}

#[test]
fn message_reads_back_what_it_wrote() {
    let text = "8=FIX.4.4\x019=5\x0135=0\x0110=163\x01";
    let mut msg = Message::default();
    assert!(msg.from_string(text, false, None, None, None, false).is_ok());
    assert_eq!(msg.header().map().get_field(35).value(), "0");
    assert_eq!(msg.trailer().map().get_field(10).value(), "163");
    assert!(msg.is_admin());
}

#[test]
fn app_message_is_not_admin() {
    let mut msg = Message::default();
    msg.header_mut().map_mut().set_field(35, "D");
    assert!(!msg.is_admin());
}

#[test]
fn written_message_reads_back_field_for_field() {
    let mut msg = Message::default();
    msg.header_mut().map_mut().set_field(8, "FIX.4.2");
    msg.header_mut().map_mut().set_field(35, "D");
    msg.header_mut().map_mut().set_field(49, "SENDER");
    msg.header_mut().map_mut().set_field(56, "TARGET");
    msg.header_mut().map_mut().set_field(34, "12");
    msg.body_mut().set_field(55, "IBM");
    msg.body_mut().set_field(11, "ord=1");
    msg.trailer_mut().map_mut().set_field(10, "042");
    let text = msg.to_string();
    assert_eq!(
        text,
        "8=FIX.4.2\x0135=D\x0134=12\x0149=SENDER\x0156=TARGET\x0111=ord=1\x0155=IBM\x0110=042\x01"
    );
    let mut back = Message::default();
    assert!(back.from_string(&text, false, None, None, None, false).is_ok());
    assert_eq!(back.header().map().get_field(8).value(), "FIX.4.2");
    assert_eq!(back.header().map().get_field(34).value(), "12");
    assert_eq!(back.header().map().get_field(49).value(), "SENDER");
    assert_eq!(back.body().get_field(11).value(), "ord=1");
    assert_eq!(back.body().get_field(55).value(), "IBM");
    assert_eq!(back.trailer().map().get_field(10).value(), "042");
    assert_eq!(back.to_string(), text);
}

#[test]
fn logon_text_reads_and_writes_back_unchanged() {
    let expected = "8=FIX.4.4|9=115|35=A|34=1|49=sender-comp-id|52=20221025-10:49:30.969|56=target-comp-id|98=0|108=30|141=Y|553=username|554=password|10=159|";
    let msgstr = expected.replace('|', "\x01");
    let mut message = Message::default();
    assert!(message.from_string(&msgstr, true, None, None, None, false).is_ok());
    let actual = message.to_string().replace('\x01', "|");
    assert_eq!(expected, actual);
}

#[test]
fn wrong_checksum_is_refused() {
    let msgstr = "8=FIX.4.4|9=115|35=A|34=1|49=sender-comp-id|52=20221025-10:49:30.969|56=target-comp-id|98=0|108=30|141=Y|553=username|554=password|10=158|"
        .replace('|', "\x01");
    let mut message = Message::default();
    assert!(message.from_string(&msgstr, true, None, None, None, false).is_err());
}
