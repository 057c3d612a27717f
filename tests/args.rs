use hexcat::args::{check_arguments, parse_port};
use hexcat::error::InitError;

#[test]
fn too_few_arguments_are_refused() {
    assert_eq!(check_arguments(0), Err(InitError::NotEnoughArguments));
    assert_eq!(check_arguments(1), Err(InitError::NotEnoughArguments));
    assert_eq!(check_arguments(2), Err(InitError::NotEnoughArguments));
    assert_eq!(check_arguments(3), Ok(()));
    assert_eq!(check_arguments(5), Ok(()));
}

#[test]
fn ports_are_read_in_decimal() {
    assert_eq!(parse_port("0"), Ok(0));
    assert_eq!(parse_port("8080"), Ok(8080));
    assert_eq!(parse_port("+22"), Ok(22));
    assert_eq!(parse_port("00443"), Ok(443));
    assert_eq!(parse_port("65535"), Ok(65535));
}

#[test]
fn bad_ports_are_refused() {
    for text in ["", "+", "65536", "99999999999", "-1", "80a", " 80", "８０"] {
        assert_eq!(parse_port(text), Err(InitError::InvalidConnectionSettings), "{text:?}");
    }
}

#[test]
fn ports_agree_with_std() {
    for text in ["1", "+1", "65535", "65536", "12x", "", "007"] {
        let expected = text.parse::<u16>().map_err(|_| InitError::InvalidConnectionSettings);
        assert_eq!(parse_port(text), expected, "{text:?}");
    }
}
