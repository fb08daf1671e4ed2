use base64::Engine;
use telebot::session_import::{
    accept_session, frame_bytes, frame_session, IpAddress, ServerAddress,
};
use telebot::session_login::{
    after_code, after_password, check_authorized, check_line, check_secret, password_prompt,
    LoginStep, SignIn,
};

fn written(address: &[u8], port: u16, dc: u8) -> String {
    let mut raw = vec![dc];
    raw.extend_from_slice(&(address.len() as u16).to_be_bytes());
    raw.extend_from_slice(address);
    raw.extend_from_slice(&port.to_be_bytes());
    raw.extend_from_slice(&[7_u8; 256]);
    format!("1{}", base64::engine::general_purpose::STANDARD.encode(raw))
}

fn number_of(text: &str) -> Result<IpAddress, String> {
    let parts: Vec<u8> = text.split('.').filter_map(|part| part.parse().ok()).collect();
    match <[u8; 4]>::try_from(parts) {
        Ok(octets) => Ok(IpAddress::V4(u32::from_be_bytes(octets))),
        Err(_) => Err("not an address".to_owned()),
    }
}

#[test]
fn parses_gramjs_ipv4_session() {
    let frame = frame_session(&written(b"91.108.56.130", 443, 5)).unwrap();
    let ip = match &frame.address {
        ServerAddress::Text(text) => number_of(text),
        ServerAddress::V4(a) => Ok(IpAddress::V4(*a)),
    };
    let parsed = accept_session(frame, ip).unwrap();
    assert_eq!(parsed.dc_id, 5);
    assert_eq!(parsed.port, 443);
    assert_eq!(parsed.address, number_of("91.108.56.130").unwrap());
    assert_eq!(parsed.auth_key, [7_u8; 256]);
}

#[test]
fn a_compact_session_holds_four_bytes() {
    let mut raw = vec![2_u8, 149, 154, 167, 51, 1, 187];
    raw.extend_from_slice(&[9_u8; 256]);
    let encoded = base64::engine::general_purpose::STANDARD.encode(&raw);
    assert_eq!(encoded.len(), 352);
    let frame = frame_session(&format!("1{encoded}")).unwrap();
    assert_eq!(frame.address, ServerAddress::V4(u32::from_be_bytes([149, 154, 167, 51])));
    assert_eq!(frame.port, 443);
    assert_eq!(frame.auth_key, [9_u8; 256]);
    let parsed = accept_session(frame, Err("not asked".to_owned())).unwrap();
    assert_eq!(parsed.address, number_of("149.154.167.51").unwrap());
}

#[test]
fn a_session_that_is_wrong_is_refused() {
    let message = |value: &str| frame_session(value).unwrap_err().message;
    assert_eq!(message("2abc"), "unsupported GramJS StringSession version");
    assert_eq!(message(""), "unsupported GramJS StringSession version");
    assert!(message("1***").starts_with("invalid GramJS StringSession base64: "));
    assert_eq!(message("1QUJD"), "GramJS StringSession is too short");
    assert_eq!(
        frame_bytes(&[0_u8; 300], true).unwrap_err().message,
        "GramJS authorization key must be 256 bytes"
    );
    assert_eq!(
        frame_bytes(&[0_u8; 300], false).unwrap_err().message,
        "invalid GramJS server address length"
    );
    assert!(frame_session(&written(&[0xff, 0xfe, 0xfd, 0xfc], 443, 5))
        .unwrap_err()
        .message
        .starts_with("GramJS server address is not UTF-8: "));

    let frame = frame_session(&written(b"not an address", 443, 5)).unwrap();
    assert_eq!(
        accept_session(frame, Err("why".to_owned())).unwrap_err().message,
        "GramJS server address is not an IP address: why"
    );
    for (dc, port) in [(0, 443), (5, 0)] {
        let frame = frame_session(&written(b"1.2.3.4", port, dc)).unwrap();
        assert_eq!(
            accept_session(frame, number_of("1.2.3.4")).unwrap_err().message,
            "GramJS session contains an invalid DC or port"
        );
    }
}

#[test]
fn sanitizes_password_hint_before_printing_it() {
    assert_eq!(
        password_prompt(Some("pet\nname\u{1b}[31m")),
        "Telegram 2FA password (hint: petname[31m): "
    );
    assert_eq!(password_prompt(None), "Telegram 2FA password: ");
    assert_eq!(password_prompt(Some("\n\n")), "Telegram 2FA password: ");
    let long = "h".repeat(200);
    assert_eq!(
        password_prompt(Some(&long)),
        format!("Telegram 2FA password (hint: {}): ", "h".repeat(80))
    );
}

#[test]
fn answers_are_checked() {
    assert_eq!(check_line(" +49 123 \n", 64).unwrap(), "+49 123");
    assert_eq!(check_line("", 64).unwrap_err().message, "login input was closed");
    assert_eq!(check_line("\n", 64).unwrap_err().message, "login input must not be empty");
    assert_eq!(check_line("12345\n", 4).unwrap_err().message, "login input is too long");
    assert_eq!(check_secret(" x ".to_owned(), 3).unwrap(), " x ");
    assert_eq!(
        check_secret(String::new(), 3).unwrap_err().message,
        "login input must not be empty"
    );
    assert!(check_authorized(true).is_ok());
    assert_eq!(
        check_authorized(false).unwrap_err().message,
        "Telegram did not retain the new authorization"
    );
}

#[test]
fn replies_lead_on_or_end_the_login() {
    assert_eq!(after_code(SignIn::Done, "").unwrap(), LoginStep::Confirm);
    assert_eq!(after_code(SignIn::PasswordRequired, "").unwrap(), LoginStep::AskPassword);
    assert_eq!(
        after_code(SignIn::InvalidCode, "").unwrap_err().message,
        "Telegram login code was invalid; run login again"
    );
    assert_eq!(
        after_code(SignIn::SignUpRequired, "").unwrap_err().message,
        "create the Telegram account in an official client before running login"
    );
    assert_eq!(
        after_code(SignIn::Other, "flood").unwrap_err().message,
        "Telegram login failed: flood"
    );
    assert_eq!(after_password(SignIn::Done, "").unwrap(), LoginStep::Confirm);
    assert_eq!(
        after_password(SignIn::InvalidPassword, "").unwrap_err().message,
        "Telegram 2FA password was invalid; run login again"
    );
    assert_eq!(
        after_password(SignIn::Other, "flood").unwrap_err().message,
        "Telegram 2FA login failed: flood"
    );
}
