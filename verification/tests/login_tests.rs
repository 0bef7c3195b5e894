use laesutkontroll::login::{
    login_form, login_form_from_page, login_response, parse_login_config, CustomError,
    LoginData, LoginField,
};
use laesutkontroll::page::ReadoutError;

fn data(u: &str, p: &str, ip: &str, t: &str) -> LoginData {
    let mut d = LoginData::new();
    d.set_username(u);
    d.set_password(p);
    d.set_ip(ip);
    d.set_target_dict(t);
    d
}

#[test]
fn new_login_data_is_empty() {
    let d = LoginData::new();
    assert_eq!(d.return_ip(), "");
    assert_eq!(d.return_target_dict(), "");
    assert_eq!(d.next_missing_field(), Some(LoginField::Username));
}

#[test]
fn parses_readme_config() {
    let d = parse_login_config(
        "Username: john.doe@example.com\nPassword: Tr0ub4dor&3\nIP address: 192.168.1.1\nLog location: usr/local/bin/sensor_logs",
    );
    assert_eq!(
        d.config_text(),
        "Username:john.doe@example.com\nPassword:Tr0ub4dor&3\nIP address:192.168.1.1\nLog location:usr/local/bin/sensor_logs"
    );
    assert_eq!(d.return_ip(), "192.168.1.1");
    assert_eq!(d.return_target_dict(), "usr/local/bin/sensor_logs");
    assert_eq!(d.next_missing_field(), None);
}

#[test]
fn value_stops_at_whitespace() {
    let d = parse_login_config("IP address:   10.0.0.1 trailing words\r\n");
    assert_eq!(d.return_ip(), "10.0.0.1");
}

#[test]
fn key_without_value_is_skipped() {
    let d = parse_login_config("IP address:   \nLog location:logs");
    assert_eq!(d.return_ip(), "");
    assert_eq!(d.return_target_dict(), "logs");
}

#[test]
fn leftmost_key_with_a_value_wins() {
    // The first "IP address:" is followed by a value that starts with the key itself.
    let d = parse_login_config("x IP address: IP address:y");
    assert_eq!(d.return_ip(), "IP");
    let d = parse_login_config("IP address:\tIP address:y");
    assert_eq!(d.return_ip(), "IP");
}

#[test]
fn later_line_overrides_earlier() {
    let d = parse_login_config("IP address:1.1.1.1\nIP address:2.2.2.2\n");
    assert_eq!(d.return_ip(), "2.2.2.2");
}

#[test]
fn missing_fields_in_prompt_order() {
    let mut d = LoginData::new();
    assert_eq!(d.next_missing_field(), Some(LoginField::Username));
    d.receive_input(LoginField::Username, "me\n");
    assert_eq!(d.next_missing_field(), Some(LoginField::Password));
    d.receive_input(LoginField::Password, "pw\n");
    assert_eq!(d.next_missing_field(), Some(LoginField::Ip));
    d.receive_input(LoginField::Ip, "1.2.3.4\n");
    assert_eq!(d.next_missing_field(), Some(LoginField::TargetDict));
    d.receive_input(LoginField::TargetDict, "\n");
    assert_eq!(d.next_missing_field(), None);
    d.finalize();
    assert_eq!(d.config_text(), "Username:me\nPassword:pw\nIP address:1.2.3.4\nLog location:/");
}

#[test]
fn input_is_appended() {
    let mut d = LoginData::new();
    d.set_username("ab");
    d.receive_input(LoginField::Username, "cd\n");
    d.finalize();
    assert!(d.config_text().starts_with("Username:abcd\n"));
}

#[test]
fn prompts() {
    assert_eq!(LoginField::Username.prompt(), "Please input your username: ");
    assert_eq!(LoginField::Password.prompt(), "Please input your password: ");
    assert_eq!(LoginField::Ip.prompt(), "Please input IP address: ");
    assert_eq!(LoginField::TargetDict.prompt(), "Please input Log location: ");
}

#[test]
fn finalize_trims_and_adds_slash() {
    let mut d = data("  me ", "\tpw\n", " 1.2.3.4\r\n", "  logs \n");
    d.finalize();
    assert_eq!(d.return_ip(), "1.2.3.4");
    assert_eq!(d.return_target_dict(), "logs/");
    assert_eq!(d.config_text(), "Username:me\nPassword:pw\nIP address:1.2.3.4\nLog location:logs/");
}

#[test]
fn finalize_keeps_existing_slash_and_is_idempotent() {
    let mut d = data("me", "pw", "ip", "logs/ ");
    d.finalize();
    assert_eq!(d.return_target_dict(), "logs/");
    d.finalize();
    assert_eq!(d.return_target_dict(), "logs/");
}

#[test]
fn saved_config_reads_back() {
    let mut d = data("me@x.org", "s3cr3t", "192.168.0.7", "/var/log/heat/");
    d.finalize();
    let text = d.config_text();
    let mut again = parse_login_config(&text);
    again.finalize();
    assert_eq!(again.config_text(), text);
}

#[test]
fn login_form_fields() {
    let d = data("me", "pw", "ip", "t");
    let f = login_form(&d, "tok");
    assert_eq!(
        f,
        vec![
            ("mail".to_string(), "me".to_string()),
            ("pw".to_string(), "pw".to_string()),
            ("csrfmiddlewaretoken".to_string(), "tok".to_string()),
        ]
    );
}

#[test]
fn login_form_from_page_reads_token() {
    let d = data("me", "pw", "ip", "t");
    let page = r#"<html><body><form>
        <input type="hidden" name="csrfmiddlewaretoken" value="T0KEN">
        <input type="hidden" name="csrfmiddlewaretoken" value="SECOND">
        </form></body></html>"#;
    let f = login_form_from_page(&d, page).unwrap();
    assert_eq!(f[2], ("csrfmiddlewaretoken".to_string(), "T0KEN".to_string()));
}

#[test]
fn login_form_from_page_without_token() {
    let d = data("me", "pw", "ip", "t");
    let page = r#"<html><body><input type="text" name="csrfmiddlewaretoken" value="x"></body></html>"#;
    assert!(matches!(
        login_form_from_page(&d, page),
        Err(ReadoutError::CsrfTokenNotFound)
    ));
}

#[test]
fn login_response_by_status() {
    assert!(login_response(200).is_ok());
    assert!(login_response(204).is_ok());
    assert!(login_response(299).is_ok());
    let e = login_response(302).unwrap_err();
    assert_eq!(e.message, "Login failed");
    assert!(login_response(199).is_err());
    assert!(login_response(500).is_err());
}

#[test]
fn custom_error_message() {
    assert_eq!(CustomError::from("boom").message, "boom");
}

#[test]
fn saved_config_with_colons_reads_back() {
    let mut d = data("me", "pa:ss:word", "fe80::1", "C:/logs/");
    d.finalize();
    let text = d.config_text();
    let mut again = parse_login_config(&text);
    again.finalize();
    assert_eq!(again.config_text(), text);
    assert_eq!(again.return_ip(), "fe80::1");
}
