use landing_signup::config::Config;
use landing_signup::signup::{
    field_value, finish_signup, forward_payload, parse_signup, plan_signup,
    submission_from_pairs, Field, FormError, ForwardOutcome, SignupPlan, SignupSubmission,
};

const FORM: Option<&str> = Some("application/x-www-form-urlencoded");

fn config() -> Config {
    Config::from_setting(Some("http://127.0.0.1:9/sheet".to_string())).unwrap()
}

fn pairs(v: &[(&str, &str)]) -> Vec<(String, String)> {
    v.iter().map(|(k, x)| (k.to_string(), x.to_string())).collect()
}

#[test]
fn parse_decodes_percent_escapes() {
    let s = parse_signup(b"name=Ada&email=ada%40example.com").unwrap();
    assert_eq!(s.name, "Ada");
    assert_eq!(s.email, "ada@example.com");
}

#[test]
fn parse_decodes_plus_as_space_and_keeps_spaces() {
    let s = parse_signup(b"email=x%40y.z&name=+Ada+Lovelace+&extra=1").unwrap();
    assert_eq!(s.name, " Ada Lovelace ");
    assert_eq!(s.email, "x@y.z");
}

#[test]
fn parse_reports_each_form_error() {
    assert!(matches!(parse_signup(b"name=Ada"), Err(FormError::Missing(Field::Email))));
    assert!(matches!(parse_signup(b"email=a%40b.c"), Err(FormError::Missing(Field::Name))));
    assert!(matches!(parse_signup(b""), Err(FormError::Missing(Field::Name))));
    assert!(matches!(
        parse_signup(b"name=A&name=B&email=a%40b.c"),
        Err(FormError::Duplicate(Field::Name))
    ));
    assert!(matches!(parse_signup(b"name=&email=a%40b.c"), Err(FormError::Empty(Field::Name))));
    assert!(matches!(parse_signup(b"name=Ada&email="), Err(FormError::Empty(Field::Email))));
}

#[test]
fn field_value_finds_single_value() {
    let ps = pairs(&[("x", "1"), ("email", "e@f.g"), ("name", "Bo")]);
    assert_eq!(field_value(&ps, Field::Name).unwrap(), "Bo");
    assert_eq!(field_value(&ps, Field::Email).unwrap(), "e@f.g");
    let ps = pairs(&[("email", "a"), ("email", "b")]);
    assert!(matches!(field_value(&ps, Field::Email), Err(FormError::Duplicate(Field::Email))));
}

#[test]
fn submission_from_pairs_checks_name_first() {
    let ps = pairs(&[]);
    assert!(matches!(submission_from_pairs(&ps), Err(FormError::Missing(Field::Name))));
    let ps = pairs(&[("name", "Ada"), ("email", "ada@example.com")]);
    let s = submission_from_pairs(&ps).unwrap();
    assert_eq!((s.name.as_str(), s.email.as_str()), ("Ada", "ada@example.com"));
}

#[test]
fn payload_escapes_json() {
    let s = SignupSubmission { name: "A \"B\" \\ C".to_string(), email: "x@y".to_string() };
    assert_eq!(forward_payload(&s), r#"{"name":"A \"B\" \\ C","email":"x@y"}"#);
}

#[test]
fn signup_is_forwarded_as_json() {
    match plan_signup(&config(), FORM, b"name=Ada&email=ada%40example.com") {
        SignupPlan::Forward(p) => {
            assert_eq!(p.url, "http://127.0.0.1:9/sheet");
            assert_eq!(p.content_type, "application/json");
            assert_eq!(p.body, r#"{"name":"Ada","email":"ada@example.com"}"#);
        }
        SignupPlan::Reject(_) => panic!("rejected"),
    }
}

#[test]
fn forwarded_signup_is_thanked() {
    let r = finish_signup(ForwardOutcome::Completed(200));
    assert_eq!(r.status, 200);
    assert!(r.cache_control.is_none());
    assert_eq!(r.body, "<p>Thank you for signing up!</p>");
}

#[test]
fn any_endpoint_status_counts_as_delivered() {
    let r = finish_signup(ForwardOutcome::Completed(503));
    assert_eq!(r.status, 200);
    assert_eq!(r.body, "<p>Thank you for signing up!</p>");
}

#[test]
fn unreachable_endpoint_reports_failure() {
    let r = finish_signup(ForwardOutcome::TransportFailed);
    assert_eq!(r.status, 200);
    assert_eq!(r.body, "<p>Failed to sign up. Please try again later.</p>");
}

#[test]
fn signup_without_email_is_rejected_without_forwarding() {
    match plan_signup(&config(), FORM, b"name=Ada") {
        SignupPlan::Reject(r) => {
            assert_eq!(r.status, 400);
            assert!(r.cache_control.is_none());
        }
        SignupPlan::Forward(_) => panic!("forwarded"),
    }
}

#[test]
fn two_signups_carry_their_own_payloads() {
    let c = config();
    let bodies = [
        (&b"name=Ada&email=ada%40example.com"[..], r#"{"name":"Ada","email":"ada@example.com"}"#),
        (&b"name=Grace&email=grace%40example.com"[..], r#"{"name":"Grace","email":"grace@example.com"}"#),
    ];
    let mut seen = Vec::new();
    for (body, want) in bodies {
        match plan_signup(&c, FORM, body) {
            SignupPlan::Forward(p) => {
                assert_eq!(p.body, want);
                seen.push(p.body);
            }
            SignupPlan::Reject(_) => panic!("rejected"),
        }
    }
    assert_eq!(seen.len(), 2);
    assert_ne!(seen[0], seen[1]);
}

#[test]
fn payload_escapes_control_characters() {
    let s = SignupSubmission { name: "a\nb\tc\u{1}\u{1f}".to_string(), email: "\u{8}\u{c}\r".to_string() };
    assert_eq!(forward_payload(&s), r#"{"name":"a\nb\tc\u0001\u001f","email":"\b\f\r"}"#);
}

#[test]
fn payload_keeps_other_characters() {
    let s = SignupSubmission { name: "Zoë / ☃ <b>".to_string(), email: "z@x.y".to_string() };
    assert_eq!(forward_payload(&s), "{\"name\":\"Zoë / ☃ <b>\",\"email\":\"z@x.y\"}");
}

#[test]
fn form_content_type_may_carry_parameters() {
    let ct = Some("application/x-www-form-urlencoded; charset=UTF-8");
    assert!(matches!(
        plan_signup(&config(), ct, b"name=Ada&email=ada%40example.com"),
        SignupPlan::Forward(_)
    ));
}

#[test]
fn signup_not_sent_as_form_is_refused() {
    for ct in [None, Some("application/json"), Some("text/plain"), Some("Application/X-WWW-Form-Urlencoded")] {
        match plan_signup(&config(), ct, b"name=Ada&email=ada%40example.com") {
            SignupPlan::Reject(r) => {
                assert_eq!(r.status, 415, "{:?}", ct);
                assert!(r.cache_control.is_none());
            }
            SignupPlan::Forward(_) => panic!("forwarded {:?}", ct),
        }
    }
}
