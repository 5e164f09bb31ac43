use dfx::session::session_settings::{SessionSettings, SessionSettingsError};
use dfx::session::settings::SettingOption;
use dfx::session::SessionId;

#[test]
fn session_settings_settings_test_one_sessions() {
    let data = r#"# Comment
[DEFAULT]
BeginString=TEST
SenderCompID=sender
[SESSION]
TargetCompID=target1
"#;
    let settings = SessionSettings::from_string(data);
    println!("{:?}", settings);
    assert!(settings.is_ok());
    let settings = settings.unwrap();
    assert!(settings.sessions.len() == 1);

    assert!(matches!(settings.default.get(SettingOption::BeginString), Some(v) if v.as_str() == "TEST"));
    assert!(matches!(settings.sessions[0].get(SettingOption::BeginString), Some(v) if v.as_str() == "TEST"));

    assert!(matches!(settings.default.get(SettingOption::SenderCompID), Some(v) if v.as_str() == "sender"));
    assert!(matches!(settings.sessions[0].get(SettingOption::SenderCompID), Some(v) if v.as_str() == "sender"));

    assert!(matches!(settings.default.get(SettingOption::TargetCompID), None));
    assert!(matches!(settings.sessions[0].get(SettingOption::TargetCompID), Some(v) if v.as_str() == "target1"));
}

#[test]
fn session_settings_settings_test_two_sessions() {
    let data = r#"# Comment
[DEFAULT]
BeginString=TEST
SenderCompID=sender
[SESSION]
TargetCompID=target1
[SESSION]
TargetCompID=target2
[SESSION]
SenderCompID=sender_any
TargetCompID=*
"#;
    let settings = SessionSettings::from_string(data);
    println!("{:?}", settings);
    assert!(settings.is_ok());
    let settings = settings.unwrap();
    assert!(settings.sessions.len() == 3);

    assert!(matches!(settings.default.get(SettingOption::BeginString), Some(v) if v.as_str() == "TEST"));
    assert!(matches!(settings.sessions[0].get(SettingOption::BeginString), Some(v) if v.as_str() == "TEST"));
    assert!(matches!(settings.sessions[1].get(SettingOption::BeginString), Some(v) if v.as_str() == "TEST"));

    assert!(matches!(settings.default.get(SettingOption::SenderCompID), Some(v) if v.as_str() == "sender"));
    assert!(matches!(settings.sessions[0].get(SettingOption::SenderCompID), Some(v) if v.as_str() == "sender"));
    assert!(matches!(settings.sessions[1].get(SettingOption::SenderCompID), Some(v) if v.as_str() == "sender"));

    assert!(matches!(settings.default.get(SettingOption::TargetCompID), None));
    assert!(matches!(settings.sessions[0].get(SettingOption::TargetCompID), Some(v) if v.as_str() == "target1"));
    assert!(matches!(settings.sessions[1].get(SettingOption::TargetCompID), Some(v) if v.as_str() == "target2"));

    let session_id = SessionId::new("", "sender", "", "", "target1", "", "");
    assert_eq!(Some(&settings.sessions[0]), settings.for_session_id(&session_id));
    let session_id = SessionId::new("", "sender", "", "", "target2", "", "");
    assert_eq!(Some(&settings.sessions[1]), settings.for_session_id(&session_id));
    let session_id = SessionId::new("", "sender", "", "", "target3", "", "");
    assert_eq!(None, settings.for_session_id(&session_id));
    let session_id = SessionId::new("", "sender_any", "", "", "target_any_1", "", "");
    assert_eq!(Some(&settings.sessions[2]), settings.for_session_id(&session_id));
    let session_id = SessionId::new("", "sender_any", "", "", "target_any_2", "", "");
    assert_eq!(Some(&settings.sessions[2]), settings.for_session_id(&session_id));
}

#[test]
fn session_settings_settings_test_no_default() {
    let data = r#"# Comment
"#;
    let settings = SessionSettings::from_string(data);
    assert!(matches!(settings, Err(SessionSettingsError::NoDefaultSection)));
}

#[test]
fn session_settings_settings_test_double_default() {
    let data = r#"# Comment
[DEFAULT]
[SESSION]
[DEFAULT]
"#;
    let settings = SessionSettings::from_string(data);
    assert!(matches!(settings, Err(SessionSettingsError::DefaultSectionAlreadyDefined)));
}

#[test]
fn session_settings_settings_test_double_default_alt() {
    let data = r#"# Comment
[DEFAULT]
[DEFAULT]
[SESSION]
"#;
    let settings = SessionSettings::from_string(data);
    assert!(matches!(settings, Err(SessionSettingsError::DefaultSectionAlreadyDefined)));
}

#[test]
fn session_settings_settings_test_invalid_setting() {
    let data = r#"# Comment
[DEFAULT]
asdfasd=Y
"#;
    let settings = SessionSettings::from_string(data);
    assert!(matches!(settings, Err(SessionSettingsError::NoSuchSetting(_))));
}

#[test]
fn session_settings_dynamic_flag_is_not_taken_from_default() {
    let data = "[DEFAULT]\nIsDynamic=Y\nSenderCompID=*\n[SESSION]\nTargetCompID=T\n[SESSION]\nIsDynamic=Y\n";
    let settings = SessionSettings::from_string(data).unwrap();
    assert_eq!(settings.sessions.len(), 2);
    assert!(settings.default.is_dynamic());
    assert_eq!(settings.sessions[0].get(SettingOption::IsDynamic), None);
    assert!(!settings.sessions[0].is_dynamic());
    assert!(settings.sessions[1].is_dynamic());
    assert!(matches!(settings.sessions[1].get(SettingOption::SenderCompID), Some(v) if v.as_str() == "*"));
}

#[test]
fn session_settings_line_without_equals_is_skipped() {
    let data = "[DEFAULT]\nnothing here\nBeginString=FIX.4.2\n[SESSION]\n";
    let settings = SessionSettings::from_string(data).unwrap();
    assert!(matches!(settings.sessions[0].get(SettingOption::BeginString), Some(v) if v.as_str() == "FIX.4.2"));
}

#[test]
fn session_settings_session_values_override_default() {
    let data = "[default]\nBeginString=FIX.4.2\nSSLEnable=Y\n  [Session]  \nBeginString=FIX.4.4\n";
    let settings = SessionSettings::from_string(data).unwrap();
    assert_eq!(settings.sessions.len(), 1);
    assert!(matches!(settings.sessions[0].get(SettingOption::BeginString), Some(v) if v.as_str() == "FIX.4.4"));
    assert!(matches!(settings.sessions[0].get(SettingOption::SSLEnable), Some(v) if v.as_str() == "Y"));
    let id = settings.sessions[0].session_id();
    assert_eq!(id.begin_string, "FIX.4.4");
    assert_eq!(id.sender_comp_id, "");
}
