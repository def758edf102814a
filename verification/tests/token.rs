use longhorn_agent::control::token::{constant_time_eq, InstanceToken, TokenError, TOKEN_CHARS};

#[test]
fn generated_tokens_validate_and_round_trip() {
    let token = InstanceToken::generate().unwrap();
    let token = InstanceToken::generate().unwrap_or(token);
    assert_eq!(token.as_str().len(), TOKEN_CHARS);
    InstanceToken::new(token.as_str()).unwrap();

    let other = InstanceToken::generate().unwrap();
    assert!(token.verify(token.as_str()));
    assert!(!token.verify(other.as_str()));
    assert!(!token.same_as(&other));
}

#[test]
fn weak_tokens_cannot_exist() {
    assert_eq!(
        InstanceToken::new("short").err(),
        Some(TokenError::InvalidLength { actual: 5 })
    );
    let bad = format!("{}!", "a".repeat(TOKEN_CHARS - 1));
    assert!(matches!(
        InstanceToken::new(&bad).err(),
        Some(TokenError::InvalidSymbol { symbol: '!' })
    ));
}

#[test]
fn verify_is_constant_time_shaped() {
    let token = InstanceToken::generate().unwrap();
    let mut wrong = token.as_str().to_owned();
    wrong.replace_range(..1, if wrong.starts_with('a') { "b" } else { "a" });
    assert!(!token.verify(&wrong));
    assert!(!token.verify(""));
    assert!(!token.verify(&format!("{}x", token.as_str())));
}

#[test]
fn tampered_tokens_fail_verification() {
    let token = InstanceToken::generate().unwrap();
    let flipped = token
        .as_str()
        .chars()
        .enumerate()
        .map(|(index, symbol)| {
            if index == 0 {
                if symbol == 'a' { 'b' } else { 'a' }
            } else {
                symbol
            }
        })
        .collect::<String>();
    assert!(!token.verify(&flipped));
    assert!(InstanceToken::new(&flipped).is_ok());
}

#[test]
fn token_length_is_counted_in_bytes_and_symbols_are_checked_in_order() {
    let multibyte = format!("{}é", "a".repeat(TOKEN_CHARS - 2));
    assert_eq!(
        InstanceToken::new(&multibyte).err(),
        Some(TokenError::InvalidSymbol { symbol: 'é' })
    );
    let first_of_two = format!("{}+{}/", "a".repeat(20), "b".repeat(TOKEN_CHARS - 22));
    assert_eq!(
        InstanceToken::new(&first_of_two).err(),
        Some(TokenError::InvalidSymbol { symbol: '+' })
    );
    let ok = format!("{}-_", "Z9".repeat(21).chars().take(TOKEN_CHARS - 2).collect::<String>());
    assert!(InstanceToken::new(&ok).is_ok());
}

#[test]
fn constant_time_comparison_is_plain_equality() {
    assert!(constant_time_eq(b"", b""));
    assert!(constant_time_eq(b"abc", b"abc"));
    assert!(!constant_time_eq(b"abc", b"abd"));
    assert!(!constant_time_eq(b"abc", b"ab"));
    assert!(!constant_time_eq(b"ab", b"abc"));
}
