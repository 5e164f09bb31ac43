use dfx::data_dictionary::{
    Component, Components, DataDictionary, Field, FieldDefinition, FieldValue, Fields, FixSpec, GroupDefinition,
    Header, MessageDefinition, MessagePart, MessageValidationError, Messages, Named, Trailer,
};
use dfx::message::Message;

fn field_def(number: &str, name: &str, field_type: &str) -> FieldDefinition {
    FieldDefinition {
        number: number.to_string(),
        name: name.to_string(),
        field_type: field_type.to_string(),
        values: Vec::new(),
    }
}

fn part(name: &str, required: bool) -> MessagePart {
    MessagePart::Field(Field { name: name.to_string(), required: if required { "Y" } else { "N" }.to_string() })
}

fn spec() -> FixSpec {
    let mut side = field_def("54", "Side", "CHAR");
    side.values.push(FieldValue { enum_values: "1".to_string(), description: "BUY".to_string() });
    side.values.push(FieldValue { enum_values: "2".to_string(), description: "SELL".to_string() });
    FixSpec {
        fix_type: "FIX".to_string(),
        major: "4".to_string(),
        minor: "4".to_string(),
        servicepack: "0".to_string(),
        header: Header {
            values: vec![
                part("BeginString", true),
                part("BodyLength", true),
                part("MsgType", true),
                part("SenderCompID", true),
                part("TargetCompID", true),
            ],
        },
        messages: Messages {
            values: vec![
                MessageDefinition {
                    name: "TestRequest".to_string(),
                    msgtype: "1".to_string(),
                    msgcat: Some("admin".to_string()),
                    fields: vec![part("TestReqID", true)],
                },
                MessageDefinition {
                    name: "NewOrderSingle".to_string(),
                    msgtype: "D".to_string(),
                    msgcat: Some("app".to_string()),
                    fields: vec![part("ClOrdID", true), part("Side", true)],
                },
                MessageDefinition {
                    name: "NewOrderList".to_string(),
                    msgtype: "E".to_string(),
                    msgcat: Some("app".to_string()),
                    fields: vec![MessagePart::GroupDefinition(GroupDefinition {
                        name: "NoOrders".to_string(),
                        required: "Y".to_string(),
                        fields: vec![part("ClOrdID", true), part("Side", false)],
                    })],
                },
            ],
        },
        trailer: Trailer { values: vec![part("CheckSum", true)] },
        components: Components { values: Vec::new() },
        fields: Fields {
            values: vec![
                field_def("8", "BeginString", "STRING"),
                field_def("9", "BodyLength", "LENGTH"),
                field_def("35", "MsgType", "STRING"),
                field_def("49", "SenderCompID", "STRING"),
                field_def("56", "TargetCompID", "STRING"),
                field_def("10", "CheckSum", "STRING"),
                field_def("112", "TestReqID", "STRING"),
                field_def("73", "NoOrders", "NUMINGROUP"),
                field_def("11", "ClOrdID", "STRING"),
                side,
            ],
        },
    }
}

fn dictionary() -> DataDictionary {
    let spec = spec();
    assert!(DataDictionary::can_build(&spec));
    DataDictionary::new(true, false, true, false, spec).unwrap()
}

#[test]
fn dictionary_is_built_from_its_spec() {
    let dd = dictionary();
    assert_eq!(dd.version().unwrap(), "FIX4.4");
    assert!(dd.is_header_field(49));
    assert!(!dd.is_header_field(112));
    assert!(dd.is_trailer_field(10));
    let map = dd.get_map_for_message("1").unwrap();
    assert!(map.is_field(112));
    assert_eq!(map.required_fields().clone(), vec![112]);
    assert!(dd.get_map_for_message("Z").is_none());
    let list = dd.get_map_for_message("E").unwrap();
    assert!(list.is_group(73));
    let side = dd.get_field_by_name("Side").unwrap();
    assert_eq!(side.tag(), 54);
    assert!(side.has_enums());
}

fn read(text: &str, dd: &DataDictionary) -> Message {
    let mut msg = Message::default();
    assert!(msg.from_string(text, false, Some(dd), Some(dd), None, false).is_ok());
    msg
}

#[test]
fn complete_message_is_valid() {
    let dd = dictionary();
    let msg = read("8=FIX.4.4\x019=5\x0135=1\x0149=S\x0156=T\x01112=X\x0110=000\x01", &dd);
    assert!(DataDictionary::validate(&msg, Some(&dd), &dd, "FIX.4.4", "1").is_ok());
}

#[test]
fn missing_required_field_is_refused() {
    let dd = dictionary();
    let msg = read("8=FIX.4.4\x019=5\x0135=1\x0149=S\x0156=T\x0110=000\x01", &dd);
    let r = DataDictionary::validate(&msg, Some(&dd), &dd, "FIX.4.4", "1");
    assert!(matches!(r, Err(MessageValidationError::RequiredTagMissing(112))));
}

#[test]
fn unknown_message_type_is_refused() {
    let dd = dictionary();
    let msg = read("8=FIX.4.4\x019=5\x0135=Z\x0149=S\x0156=T\x0110=000\x01", &dd);
    let r = DataDictionary::validate(&msg, Some(&dd), &dd, "FIX.4.4", "Z");
    assert!(matches!(r, Err(MessageValidationError::InvalidMessageType(_))));
}

#[test]
fn session_version_equal_to_begin_string_is_refused() {
    let dd = dictionary();
    let msg = read("8=FIX.4.4\x019=5\x0135=1\x0149=S\x0156=T\x01112=X\x0110=000\x01", &dd);
    let r = DataDictionary::validate(&msg, Some(&dd), &dd, "FIX4.4", "1");
    assert!(matches!(r, Err(MessageValidationError::UnsupportedVersion(_))));
}

#[test]
fn groups_are_read_as_the_dictionary_defines_them() {
    let dd = dictionary();
    let msg = read(
        "8=FIX.4.4\x019=5\x0135=E\x0149=S\x0156=T\x0173=2\x0111=A\x0154=1\x0111=B\x0154=2\x0110=000\x01",
        &dd,
    );
    assert_eq!(msg.body().group_count(73), 2);
    let first = msg.body().get_group(1, 73);
    let second = msg.body().get_group(2, 73);
    // Each entry begins at the delimiter ClOrdID and holds the fields after it.
    assert_eq!(first.delim(), 11);
    assert_eq!(first.map().get_field(54).value(), "1");
    assert_eq!(second.map().get_field(54).value(), "2");
    assert!(!msg.body().is_field_set(54));
    assert!(DataDictionary::validate(&msg, Some(&dd), &dd, "FIX.4.4", "E").is_ok());
}

#[test]
fn wrong_enumerated_value_is_refused() {
    let dd = dictionary();
    let good = read("8=FIX.4.4\x019=5\x0135=D\x0149=S\x0156=T\x0111=A\x0154=2\x0110=000\x01", &dd);
    assert!(DataDictionary::validate(&good, Some(&dd), &dd, "FIX.4.4", "D").is_ok());
    let bad = read("8=FIX.4.4\x019=5\x0135=D\x0149=S\x0156=T\x0111=A\x0154=7\x0110=000\x01", &dd);
    let r = DataDictionary::validate(&bad, Some(&dd), &dd, "FIX.4.4", "D");
    assert!(matches!(r, Err(MessageValidationError::IncorrectTagValue(54))));
}

#[test]
fn values_inside_group_entries_are_not_checked_against_enums() {
    let dd = dictionary();
    let msg = read(
        "8=FIX.4.4\x019=5\x0135=E\x0149=S\x0156=T\x0173=1\x0111=A\x0154=7\x0110=000\x01",
        &dd,
    );
    assert!(DataDictionary::validate(&msg, Some(&dd), &dd, "FIX.4.4", "E").is_ok());
}

#[test]
fn enumerated_values_are_kept_once_each() {
    let enums = vec![
        ("1".to_string(), "BUY".to_string()),
        ("2".to_string(), "SELL".to_string()),
        ("1".to_string(), "PURCHASE".to_string()),
    ];
    let f = dfx::data_dictionary::DDField::new(54, "Side".to_string(), enums, "CHAR".to_string());
    assert_eq!(
        f.enums().clone(),
        vec![("1".to_string(), "PURCHASE".to_string()), ("2".to_string(), "SELL".to_string())]
    );
}

#[test]
fn adding_a_field_replaces_the_one_with_its_tag() {
    let mut map = dfx::data_dictionary::DDMap::new();
    map.add_field(dfx::data_dictionary::DDField::new(11, "ClOrdID".to_string(), Vec::new(), "STRING".to_string()));
    map.add_field(dfx::data_dictionary::DDField::new(54, "Side".to_string(), Vec::new(), "CHAR".to_string()));
    map.add_field(dfx::data_dictionary::DDField::new(11, "OrderID".to_string(), Vec::new(), "STRING".to_string()));
    assert_eq!(map.get_field(11).unwrap().name(), "OrderID");
    assert_eq!(map.get_field(54).unwrap().name(), "Side");
    assert!(map.get_field(55).is_none());
}

fn dictionary_with_field(def: FieldDefinition) -> DataDictionary {
    let mut spec = spec();
    spec.fields.values.push(def);
    assert!(DataDictionary::can_build(&spec));
    DataDictionary::new(false, false, false, false, spec).unwrap()
}

#[test]
fn test_field_value() {
    let fd = FieldValue { enum_values: "U".to_string(), description: "UP".to_string() };
    assert!(fd.enum_values == "U");
    assert!(fd.description == "UP");
    let mut def = field_def("5000", "Direction", "CHAR");
    def.values.push(fd);
    let dd = dictionary_with_field(def);
    let f = dd.get_field_by_name("Direction").unwrap();
    assert_eq!(f.enums().clone(), vec![("U".to_string(), "UP".to_string())]);
}

#[test]
fn test_field_definition() {
    let fd = field_def("554", "Password", "STRING");
    assert!(fd.number == "554");
    assert!(fd.name() == "Password");
    assert!(fd.field_type == "STRING");
    assert!(fd.values.is_empty());
    let dd = dictionary_with_field(fd);
    let f = dd.get_field_by_name("Password").unwrap();
    assert_eq!(f.tag(), 554);
    assert_eq!(f.field_type(), "STRING");
    assert!(!f.has_enums());
}

#[test]
fn test_field_definition_with_values() {
    let mut fd = field_def("8013", "CancelOrdersOnDisconnect", "CHAR");
    fd.values.push(FieldValue { enum_values: "S".to_string(), description: "SESSION".to_string() });
    fd.values.push(FieldValue { enum_values: "Y".to_string(), description: "PROFILE".to_string() });
    assert!(fd.number == "8013");
    assert!(fd.name == "CancelOrdersOnDisconnect");
    assert!(fd.field_type == "CHAR");
    assert!(fd.values.len() == 2);
    let dd = dictionary_with_field(fd);
    let f = dd.get_field_by_name("CancelOrdersOnDisconnect").unwrap();
    assert_eq!(f.tag(), 8013);
    assert!(f.has_enums());
    assert_eq!(f.enums().len(), 2);
}

#[test]
fn test_header_field() {
    let fd = Field { name: "BeginString".to_string(), required: "Y".to_string() };
    assert!(fd.name() == "BeginString");
    assert!(fd.required == "Y");
}

#[test]
fn test_header() {
    let fd = Header {
        values: vec![
            part("BeginString", true),
            MessagePart::Component(Component { name: "InstrmtLegIOIGrp".to_string(), required: "N".to_string() }),
        ],
    };
    assert!(fd.values.len() == 2);
    assert_eq!(fd.values[0].name(), "BeginString");
    assert_eq!(fd.values[1].name(), "InstrmtLegIOIGrp");
}

#[test]
fn test_message_group() {
    let group = GroupDefinition {
        name: "NoOrders".to_string(),
        required: "Y".to_string(),
        fields: vec![
            part("ClOrdID", true),
            part("HandlInst", false),
            part("Symbol", true),
            part("Side", true),
            part("Price", false),
            part("OrderQty", false),
            part("OrdType", true),
            part("TimeInForce", false),
            part("SelfTradePrevention", false),
            part("TransactTime", false),
        ],
    };
    let fd = MessageDefinition {
        name: "NewOrderBatch".to_string(),
        msgtype: "U6".to_string(),
        msgcat: None,
        fields: vec![part("BatchID", true), MessagePart::GroupDefinition(group)],
    };
    assert!(fd.fields.len() == 2);
    assert_eq!(fd.name(), "NewOrderBatch");
    assert_eq!(fd.fields[1].name(), "NoOrders");
}

fn minimal_spec(with_fields: bool) -> FixSpec {
    let mut fields = vec![field_def("1", "Account", "STRING")];
    if with_fields {
        fields.push(field_def("8", "BeginString", "STRING"));
        fields.push(field_def("112", "TestReqID", "STRING"));
        fields.push(field_def("93", "SignatureLength", "LENGTH"));
    }
    FixSpec {
        fix_type: "FIX".to_string(),
        major: "4".to_string(),
        minor: "2".to_string(),
        servicepack: "0".to_string(),
        header: Header { values: vec![part("BeginString", true)] },
        messages: Messages {
            values: vec![MessageDefinition {
                name: "Heartbeat".to_string(),
                msgtype: "0".to_string(),
                msgcat: Some("admin".to_string()),
                fields: vec![part("TestReqID", false)],
            }],
        },
        trailer: Trailer { values: vec![part("SignatureLength", false)] },
        components: Components { values: Vec::new() },
        fields: Fields { values: fields },
    }
}

#[test]
fn test_minimal_spec() {
    let fd = minimal_spec(false);
    assert_eq!(fd.header.values.len(), 1);
    assert_eq!(fd.messages.values.len(), 1);
    assert_eq!(fd.fields.values.len(), 1);
    assert_eq!(fd.trailer.values.len(), 1);
    // BeginString, TestReqID and SignatureLength are used but not defined.
    assert!(!DataDictionary::can_build(&fd));
    let full = minimal_spec(true);
    assert!(DataDictionary::can_build(&full));
    let dd = DataDictionary::new(false, false, false, false, full).unwrap();
    assert_eq!(dd.version().unwrap(), "FIX4.2");
    assert!(dd.is_header_field(8));
    assert!(dd.is_trailer_field(93));
    assert!(dd.get_map_for_message("0").unwrap().is_field(112));
}
