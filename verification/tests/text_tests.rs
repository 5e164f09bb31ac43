use dfx::log::{show_soh, PrintLnLogger};
use dfx::logging;
use dfx::session::SessionId;
use dfx::text::{decimal_string, parse_unsigned_chars, str_chars, trim_chars};

#[test]
fn decimal_numbers_read_back() {
    for n in [0u64, 7, 10, 99, 4_294_967_295, u64::MAX] {
        let s = decimal_string(n);
        assert_eq!(s, format!("{}", n));
        let back = parse_unsigned_chars(str_chars(&s).as_slice(), u64::MAX as u128);
        assert_eq!(back, Some(n as u128));
    }
    assert_eq!(parse_unsigned_chars(str_chars("256").as_slice(), 255), None);
}

#[test]
fn trimming() {
    let t = trim_chars(str_chars("  [DEFAULT] \t").as_slice(), true);
    assert_eq!(t.iter().collect::<String>(), "[DEFAULT]");
    let u = trim_chars(t.as_slice(), false);
    assert_eq!(u.iter().collect::<String>(), "DEFAULT");
}

#[test]
fn log_lines_show_soh() {
    assert_eq!(show_soh("8=FIX\x0135=A\x01"), "8=FIX|35=A|");
    let l = PrintLnLogger;
    assert_eq!(l.incoming_line("a\x01b"), "Incoming: a|b");
    assert_eq!(l.outgoing_line("a\x01"), "Outgoing: a|");
    assert_eq!(l.event_line("x\x01"), "Event: x\x01");
    let id = SessionId::new("FIX.4.4", "S", "", "", "T", "", "");
    let l = logging::PrintLnLogger::new(&id);
    assert_eq!(l.incoming_line("a\x01"), "FIX.4.4:S->T [INCOMING] a|");
    assert_eq!(l.event_line("up"), "FIX.4.4:S->T [EVENT   ] up");
}
