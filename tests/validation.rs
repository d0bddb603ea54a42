use simplelink::auth::{bearer_token, Claims};
use simplelink::codes::{
    admin_token_from, check_custom_code, generate_admin_token, generate_short_code,
    has_code_format, is_reserved_code, setup_token_for, short_code_from, validate_custom_code,
    validate_url, CodeRejection, SHORT_CODE_LEN,
};
use simplelink::error::AppError;

#[test]
fn custom_code_accepts_letters_digits_underscore_hyphen() {
    assert!(validate_custom_code("abc").is_ok());
    assert!(validate_custom_code("A_b-9").is_ok());
    assert!(validate_custom_code(&"x".repeat(32)).is_ok());
}

#[test]
fn custom_code_rejects_bad_format() {
    assert!(matches!(check_custom_code(""), Err(CodeRejection::BadFormat)));
    assert!(matches!(check_custom_code(&"x".repeat(33)), Err(CodeRejection::BadFormat)));
    assert!(matches!(check_custom_code("a b"), Err(CodeRejection::BadFormat)));
    assert!(matches!(check_custom_code("a/b"), Err(CodeRejection::BadFormat)));
    assert!(matches!(check_custom_code("é"), Err(CodeRejection::BadFormat)));
    assert!(matches!(validate_custom_code("a.b"), Err(AppError::InvalidInput(_))));
}

const FORMAT_MESSAGE: &str =
    "Custom code must be 1-32 characters long and contain only letters, numbers, underscores, and hyphens";
const RESERVED_MESSAGE: &str = "This code is reserved and cannot be used";

fn invalid_message<T>(r: Result<T, AppError>) -> String {
    match r {
        Err(AppError::InvalidInput(m)) => m,
        _ => panic!("expected invalid input"),
    }
}

#[test]
fn refusal_messages_tell_format_from_reserved() {
    for w in ["HEALTH", "Admin", "API", "health"] {
        assert_eq!(invalid_message(validate_custom_code(w)), RESERVED_MESSAGE);
    }
    for w in ["a".repeat(32), "Abc_9-x".to_string(), "healthy".to_string()] {
        assert!(validate_custom_code(&w).is_ok());
    }
    for w in ["".to_string(), "a".repeat(33), "a b".to_string(), "a.b".to_string()] {
        assert_eq!(invalid_message(validate_custom_code(&w)), FORMAT_MESSAGE);
    }
}

#[test]
fn url_refusal_messages() {
    assert_eq!(invalid_message(validate_url(&"".to_string())), "URL cannot be empty");
    assert_eq!(
        invalid_message(validate_url(&"ftp://x".to_string())),
        "URL must start with http:// or https://"
    );
    assert_eq!(
        invalid_message(validate_url(&"HTTP://x".to_string())),
        "URL must start with http:// or https://"
    );
}

#[test]
fn setup_token_only_without_users() {
    let t = setup_token_for(0).unwrap();
    assert_eq!(t.len(), 32);
    assert!(setup_token_for(1).is_none());
    assert!(setup_token_for(-1).is_none());
}

#[test]
fn reserved_words_are_refused_in_any_case() {
    for w in ["api", "health", "admin", "static", "assets", "HEALTH", "Admin", "sTaTiC"] {
        assert!(matches!(check_custom_code(w), Err(CodeRejection::Reserved)), "{}", w);
        assert!(matches!(validate_custom_code(w), Err(AppError::InvalidInput(_))));
    }
    assert!(!is_reserved_code("apis"));
    assert!(!is_reserved_code("ap"));
    assert!(is_reserved_code("ASSETS"));
}

#[test]
fn url_needs_http_or_https_scheme() {
    assert!(validate_url(&"https://example.com".to_string()).is_ok());
    assert!(validate_url(&"http://x".to_string()).is_ok());
    assert!(matches!(validate_url(&"".to_string()), Err(AppError::InvalidInput(_))));
    assert!(matches!(validate_url(&"ftp://x".to_string()), Err(AppError::InvalidInput(_))));
    assert!(matches!(validate_url(&"https:/x".to_string()), Err(AppError::InvalidInput(_))));
    assert!(matches!(validate_url(&"HTTP://x".to_string()), Err(AppError::InvalidInput(_))));
}

#[test]
fn short_code_is_fixed_width_base62() {
    assert_eq!(short_code_from(0), "000000000000");
    assert_eq!(short_code_from(61), "00000000000z");
    assert_eq!(short_code_from(62), "000000000010");
    assert_eq!(short_code_from(1337), "0000000000LZ");
    assert_eq!(short_code_from(141590), "000000000api");
    assert_eq!(short_code_from(u64::MAX as u128), "0LygHa16AHYF");
    assert_eq!(short_code_from(62u128.pow(12) + 5), "000000000005");
    assert_eq!(short_code_from(u128::MAX).len(), SHORT_CODE_LEN);
}

#[test]
fn generated_codes_are_well_formed() {
    for _ in 0..50 {
        let c = generate_short_code();
        assert_eq!(c.len(), SHORT_CODE_LEN);
        assert!(has_code_format(&c), "{}", c);
        assert!(!is_reserved_code(&c));
    }
    assert_ne!(generate_short_code(), generate_short_code());
}

#[test]
fn admin_token_alphabet() {
    assert_eq!(admin_token_from(&vec![0, 9, 10, 35, 36, 61]), "09azAZ");
    let t = generate_admin_token();
    assert_eq!(t.len(), 32);
    assert!(t.chars().all(|c| c.is_ascii_alphanumeric()));
}

#[test]
fn bearer_header_yields_token() {
    assert_eq!(bearer_token("Bearer abc.def"), Some("abc.def".to_string()));
    assert_eq!(bearer_token("Bearer "), Some(String::new()));
    assert_eq!(bearer_token("Basic abc"), None);
    assert_eq!(bearer_token("bearer abc"), None);
}

#[test]
fn claims_expire_a_day_after_issue() {
    let c = Claims::issued_at(7, 1000);
    assert_eq!(c.sub, 7);
    assert_eq!(c.exp, 1000 + 86400);
    assert_eq!(Claims::issued_at(1, usize::MAX - 5).exp, usize::MAX);
    let now = Claims::new(3);
    assert_eq!(now.sub, 3);
    assert!(now.exp > 1_600_000_000);
}

#[test]
fn error_status_codes() {
    assert_eq!(AppError::NotFound.status_code(), 404);
    assert_eq!(AppError::InvalidInput("x".to_string()).status_code(), 400);
    assert_eq!(AppError::Auth("x".to_string()).status_code(), 400);
    assert_eq!(AppError::Unauthorized.status_code(), 401);
    assert_eq!(
        AppError::Database(simplelink::store::StoreError::ConnectionFailed).status_code(),
        500
    );
}
