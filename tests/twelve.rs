use things_to_check::decimal::parse_bounded;
use things_to_check::twelve::{port_from_env, PortError, PortVar};

#[test]
fn port_non_unicode() {
    let result = port_from_env(PortVar::NotUnicode, 1234);
    assert!(result.is_err());
    assert_eq!(result.unwrap_err(), PortError::NotUnicode);
}

#[test]
fn port_uses_default() {
    assert_eq!(port_from_env(PortVar::NotPresent, 3000).unwrap().port(), 3000);
}

#[test]
fn port_preserves_numeric_values() {
    assert_eq!(port_from_env(PortVar::Present("8080".to_string()), 3000).unwrap().port(), 8080);
    assert_eq!(port_from_env(PortVar::Present("65535".to_string()), 1).unwrap().port(), 65535);
    assert_eq!(port_from_env(PortVar::Present("+80".to_string()), 1).unwrap().port(), 80);
    assert_eq!(port_from_env(PortVar::Present("0".to_string()), 1).unwrap().port(), 0);
}

#[test]
fn port_rejects_strings() {
    for s in ["", "+", "abc", "-1", "65536", " 80", "80 ", "8o"] {
        assert_eq!(
            port_from_env(PortVar::Present(s.to_string()), 3000).unwrap_err(),
            PortError::ParseError,
            "{:?}",
            s
        );
    }
}

#[test]
fn parse_bounded_matches_std() {
    for s in ["0", "7", "007", "+12", "255", "256", "", "+", "++1", "1a", "٣"] {
        assert_eq!(parse_bounded(s, 255), s.parse::<u8>().ok().map(|v| v as usize), "{:?}", s);
    }
    assert_eq!(parse_bounded("18446744073709551615", usize::MAX), Some(usize::MAX));
    assert_eq!(parse_bounded("18446744073709551616", usize::MAX), None);
}
