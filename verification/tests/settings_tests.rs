use dfx::session::settings::{
    ConnectionType, Persistence, SessionSettings, SessionSettingsError, SettingOption, SettingsConnection,
};
use dfx::session::session_schedule::{SessionSchedule, TimeOfDay};
use dfx::session::SessionId;

#[test]
fn mod_settings_test_one_sessions() {
    let data = r#"# Comment
[DEFAULT]
ConnectionType=acceptor
BeginString=TEST
SenderCompID=sender
[SESSION]
TargetCompID=target1
"#;
    let settings = SessionSettings::from_string(data);
    println!("{:?}", settings);
    assert!(settings.is_ok());
    let settings = settings.unwrap();
    assert!(settings.sessions.len() == 1);

    assert_eq!(&settings.sessions[0].begin_string, "TEST");

    assert_eq!(&settings.sessions[0].sender_comp_id, "sender");

    assert_eq!(&settings.sessions[0].target_comp_id, "target1");
}

#[test]
fn mod_settings_test_two_sessions() {
    let data = r#"# Comment
[DEFAULT]
ConnectionType=acceptor
BeginString=TEST
SenderCompID=sender
[SESSION]
TargetCompID=target1
[SESSION]
TargetCompID=target2
[SESSION]
SenderCompID=sender_any
TargetCompID=*
"#;
    let settings = SessionSettings::from_string(data);
    println!("{:?}", settings);
    assert!(settings.is_ok());
    let settings = settings.unwrap();
    assert!(settings.sessions.len() == 3);

    assert_eq!(settings.sessions[0].begin_string, "TEST");
    assert_eq!(settings.sessions[1].begin_string, "TEST");

    assert_eq!(settings.sessions[0].sender_comp_id, "sender");
    assert_eq!(settings.sessions[1].sender_comp_id, "sender");

    assert_eq!(settings.sessions[0].target_comp_id, "target1");
    assert_eq!(settings.sessions[1].target_comp_id, "target2");

    let session_id = SessionId::new("", "sender", "", "", "target1", "", "");
    assert_eq!(Some(&settings.sessions[0].target_comp_id), settings.for_session_id(&session_id).map(|s| &s.target_comp_id));
    let session_id = SessionId::new("", "sender", "", "", "target2", "", "");
    assert_eq!(Some(&settings.sessions[1].target_comp_id), settings.for_session_id(&session_id).map(|s| &s.target_comp_id));
    let session_id = SessionId::new("", "sender", "", "", "target3", "", "");
    assert_eq!(None, settings.for_session_id(&session_id));
    let session_id = SessionId::new("", "sender_any", "", "", "target_any_1", "", "");
    assert_eq!(Some(&settings.sessions[2].target_comp_id), settings.for_session_id(&session_id).map(|s| &s.target_comp_id));
    let session_id = SessionId::new("", "sender_any", "", "", "target_any_2", "", "");
    assert_eq!(Some(&settings.sessions[2].target_comp_id), settings.for_session_id(&session_id).map(|s| &s.target_comp_id));
}

#[test]
fn mod_settings_test_no_default() {
    let data = r#"# Comment
"#;
    let settings = SessionSettings::from_string(data);
    assert!(matches!(settings, Err(SessionSettingsError::NoDefaultSection)));
}

#[test]
fn mod_settings_test_double_default() {
    let data = r#"# Comment
[DEFAULT]
[SESSION]
[DEFAULT]
"#;
    let settings = SessionSettings::from_string(data);
    assert!(matches!(settings, Err(SessionSettingsError::DefaultSectionAlreadyDefined)));
}

#[test]
fn mod_settings_test_double_default_alt() {
    let data = r#"# Comment
[DEFAULT]
[DEFAULT]
[SESSION]
"#;
    let settings = SessionSettings::from_string(data);
    assert!(matches!(settings, Err(SessionSettingsError::DefaultSectionAlreadyDefined)));
}

#[test]
fn mod_settings_test_invalid_setting() {
    let data = r#"# Comment
[DEFAULT]
asdfasd=Y
"#;
    let settings = SessionSettings::from_string(data);
    assert!(matches!(settings, Err(SessionSettingsError::NoSuchSetting(_))));
}

#[test]
fn settings_validation_errors_list_every_missing_value() {
    let data = "[DEFAULT]\n[SESSION]\nTargetCompID=T\n";
    match SessionSettings::from_string(data) {
        Err(SessionSettingsError::ValidationErrors(es)) => assert_eq!(
            es,
            vec![
                "ConnectionType must be set to either 'acceptor' or 'initiator'.".to_string(),
                "BeginString must be set.".to_string(),
                "SenderCompID must be set.".to_string(),
            ]
        ),
        other => panic!("unexpected {:?}", other),
    }
}

#[test]
fn settings_line_errors_carry_the_line_number() {
    let data = "[DEFAULT]\nBeginString=A=B\n";
    match SessionSettings::from_string(data) {
        Err(SessionSettingsError::LineParseError { line, reason, line_number }) => {
            assert_eq!(line, "BeginString=A=B");
            assert_eq!(reason, "Too many '=' in line.");
            assert_eq!(line_number, 2);
        },
        other => panic!("unexpected {:?}", other),
    }
    let data = "# c\n[DEFAULT]\n  BeginString  \n";
    match SessionSettings::from_string(data) {
        Err(SessionSettingsError::LineParseError { line, reason, line_number }) => {
            assert_eq!(line, "BeginString");
            assert_eq!(reason, "No value specified.");
            assert_eq!(line_number, 3);
        },
        other => panic!("unexpected {:?}", other),
    }
}

#[test]
fn settings_initiator_defaults_and_schedule() {
    let data = "[DEFAULT]\nConnectionType=initiator\nBeginString=FIX.4.4\nSenderCompID=S\nHeartBtInt=45\nPersistMessages=N\nStartTime=08:00:00\nEndTime=17:30:00\n[SESSION]\nTargetCompID=T\nSocketConnectHost=127.0.0.1\nSocketConnectPort=5001\n";
    let settings = SessionSettings::from_string(data).unwrap();
    let s = &settings.sessions[0];
    match &s.connection {
        SettingsConnection::Initiator { connect_host, connect_port, reconnect_interval, heart_bt_int, logon_timeout, logout_timeout } => {
            assert_eq!(connect_host.as_deref(), Some("127.0.0.1"));
            assert_eq!(connect_port.as_deref(), Some("5001"));
            assert_eq!(*reconnect_interval, 30);
            assert_eq!(*heart_bt_int, 45);
            assert_eq!(*logon_timeout, 10);
            assert_eq!(*logout_timeout, 2);
        },
        other => panic!("unexpected {:?}", other),
    }
    assert_eq!(s.persistence, Persistence::NoPersistence);
    assert_eq!(
        s.schedule,
        SessionSchedule::Daily {
            start_time: TimeOfDay { secs: 8 * 3600, nanos: 0 },
            end_time: TimeOfDay { secs: 17 * 3600 + 30 * 60, nanos: 0 },
            timezone: None,
            use_localtime: false
        }
    );
    assert!(s.socket_options.no_delay);
    assert_eq!(s.socket_options.receive_buffer_size, 8192);
    assert!(s.validation_options.check_latency);
    assert_eq!(s.validation_options.max_latency, 120);
}

#[test]
fn settings_weekly_schedule_and_bad_day() {
    let data = "[DEFAULT]\nConnectionType=acceptor\nBeginString=FIX.4.4\nSenderCompID=S\nStartDay=mon\nEndDay=Friday\nStartTime=08:00:00\nEndTime=17:00:00\nTimeZone=Europe/London\n[SESSION]\nTargetCompID=T\n";
    let settings = SessionSettings::from_string(data).unwrap();
    match &settings.sessions[0].schedule {
        SessionSchedule::Weekly { start_day, end_day, timezone, .. } => {
            assert_eq!(*start_day, 0);
            assert_eq!(*end_day, 4);
            assert_eq!(timezone.as_deref(), Some("Europe/London"));
        },
        other => panic!("unexpected {:?}", other),
    }
    let data = "[DEFAULT]\nConnectionType=acceptor\nBeginString=FIX.4.4\nSenderCompID=S\nStartDay=someday\nEndDay=fri\nStartTime=08:00:00\nEndTime=17:00:00\n[SESSION]\nTargetCompID=T\n";
    match SessionSettings::from_string(data) {
        Err(SessionSettingsError::InvalidValue { setting, value }) => {
            assert_eq!(setting, SettingOption::StartDay);
            assert_eq!(value, "someday");
        },
        other => panic!("unexpected {:?}", other),
    }
}

#[test]
fn setting_option_names() {
    assert_eq!(SettingOption::try_from("HeartBtInt").unwrap(), SettingOption::HeartBtInt);
    assert!(matches!(SettingOption::try_from("heartbtint"), Err(SessionSettingsError::NoSuchSetting(n)) if n == "heartbtint"));
    assert_eq!(ConnectionType::from_name("acceptor"), Some(ConnectionType::Acceptor));
    assert_eq!(ConnectionType::from_name("Acceptor"), None);
}

#[test]
fn refused_setting_lines_leave_the_values_as_they_were() {
    let mut b = dfx::session::settings::builder::builder_of();
    assert!(b.set_from_line(1, "BeginString=FIX.4.4").is_ok());
    let before = format!("{:?}", b);
    assert!(matches!(b.set_from_line(2, "NoSuchThing=Y"), Err(SessionSettingsError::NoSuchSetting(_))));
    assert!(matches!(b.set_from_line(3, "BeginString"), Err(SessionSettingsError::LineParseError { .. })));
    assert!(matches!(b.set_from_line(4, "BeginString=a=b"), Err(SessionSettingsError::LineParseError { .. })));
    assert_eq!(format!("{:?}", b), before);
    assert!(b.set_from_line(5, "SenderCompID=S").is_ok());
    assert_ne!(format!("{:?}", b), before);
}
