use scouty::account::AccountId;
use scouty::report::{
    session_flag, session_ordinal_number, u32_to_decimal, Network, Report, Section, Validator,
};

#[test]
fn report_joins_lines() {
    let mut report = Report::new(false);
    report.add_raw_text("first".to_string());
    report.add_text("second".to_string());
    report.add_break();
    assert_eq!(report.message(), "first\nsecond\n".to_string());
    assert_eq!(report.formatted_message(), "first<br/>second<br/>".to_string());
}

#[test]
fn empty_report_is_empty_text() {
    let report = Report::new(false);
    assert_eq!(report.message(), "".to_string());
    assert_eq!(report.formatted_message(), "".to_string());
}

#[test]
fn short_report_drops_optional_lines() {
    let mut report = Report::new(true);
    report.add_raw_text("kept".to_string());
    report.add_text("dropped".to_string());
    report.add_raw_text("kept too".to_string());
    assert_eq!(report.message(), "kept\nkept too".to_string());
}

#[test]
fn ordinal_numbers() {
    assert_eq!(session_ordinal_number(1), "1st".to_string());
    assert_eq!(session_ordinal_number(2), "2nd".to_string());
    assert_eq!(session_ordinal_number(3), "3rd".to_string());
    assert_eq!(session_ordinal_number(4), "4th".to_string());
    assert_eq!(session_ordinal_number(6), "<b>last</b>".to_string());
    assert_eq!(session_ordinal_number(21), "21th".to_string());
    assert_eq!(session_ordinal_number(0), "0th".to_string());
}

#[test]
fn session_flags() {
    assert_eq!(session_flag(1), "\u{1f3c1}".to_string());
    assert_eq!(session_flag(6), "\u{1f3f3}\u{fe0f}".to_string());
    assert_eq!(session_flag(2), "\u{1f6a9}".to_string());
}

#[test]
fn decimal_rendering() {
    assert_eq!(u32_to_decimal(0), "0".to_string());
    assert_eq!(u32_to_decimal(9), "9".to_string());
    assert_eq!(u32_to_decimal(10), "10".to_string());
    assert_eq!(u32_to_decimal(907), "907".to_string());
    assert_eq!(u32_to_decimal(u32::MAX), "4294967295".to_string());
}

#[test]
fn network_property_defaults() {
    let network = Network::from_properties("Kusama".to_string(), None, None);
    assert_eq!(network.token_symbol, "ND".to_string());
    assert_eq!(network.token_decimals, 12);
    let network = Network::from_properties("Kusama".to_string(), Some("KSM".to_string()), Some(12));
    assert_eq!(network.name, "Kusama".to_string());
    assert_eq!(network.token_symbol, "KSM".to_string());
    assert_eq!(network.token_decimals, 12);
}

#[test]
fn fresh_validator_has_no_flags() {
    let validator = Validator::new(AccountId::new(vec![1; 32]));
    assert!(!validator.is_active);
    assert!(!validator.is_queued);
    assert!(!validator.is_slashed);
    assert!(!validator.is_chilled);
    assert!(!validator.is_offline);
    assert_eq!(validator.name, "".to_string());
    assert!(validator.hooks.is_empty());
}

#[test]
fn default_section_is_session() {
    assert!(Section::default() == Section::Session);
}
