use chirp_feed::auth::parse_bearer;
use chirp_feed::fresh::{generate_token, TOKEN_LEN};

#[test]
fn tokens_are_thirty_two_letters_and_digits() {
    assert_eq!(TOKEN_LEN, 32);
    for _ in 0..50 {
        let token = generate_token();
        assert_eq!(token.chars().count(), 32);
        assert!(token.chars().all(|c| c.is_ascii_alphanumeric()));
        assert_eq!(parse_bearer(&format!("Bearer {}", token)), Some(token));
    }
}

#[test]
fn tokens_differ_from_each_other() {
    let mut tokens: Vec<String> = (0..50).map(|_| generate_token()).collect();
    tokens.sort();
    tokens.dedup();
    assert_eq!(tokens.len(), 50);
}
