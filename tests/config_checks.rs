use twitter_sentiment::config::{Config, ConfigError, TwitterConfig};

fn config_with(keywords: &[&str]) -> Config {
    Config {
        config: Box::new(TwitterConfig {
            keywords: keywords.iter().map(|k| k.to_string()).collect(),
            access_token: "a".to_string(),
            access_token_secret: "b".to_string(),
            consumer_key: "c".to_string(),
            consumer_secret: "d".to_string(),
        }),
    }
}

#[test]
fn valid_keywords_are_verified() {
    let v = config_with(&["help", "me"]).verify().expect("valid");
    let cfg = v.get_config();
    assert_eq!(cfg.keywords, vec!["help".to_string(), "me".to_string()]);
    assert_eq!(cfg.access_token, "a");
    assert_eq!(cfg.consumer_secret, "d");
}

#[test]
fn empty_keyword_is_rejected() {
    match config_with(&["ok", ""]).verify() {
        Err(ConfigError::InvalidKeywords { keywords }) => assert_eq!(keywords, vec![String::new()]),
        Ok(_) => panic!("an empty keyword must be rejected"),
    }
}

#[test]
fn keyword_length_bounds_are_inclusive() {
    let sixty = "x".repeat(60);
    let sixty_one = "y".repeat(61);
    assert!(config_with(&["a", &sixty]).verify().is_ok());
    match config_with(&["a", &sixty_one, &sixty, ""]).verify() {
        Err(ConfigError::InvalidKeywords { keywords }) => {
            assert_eq!(keywords, vec![sixty_one.clone(), String::new()])
        }
        Ok(_) => panic!("a 61-byte keyword must be rejected"),
    }
}

#[test]
fn keyword_length_counts_bytes_not_chars() {
    // 30 two-byte characters: 60 bytes, accepted.
    let thirty = "é".repeat(30);
    assert!(config_with(&[&thirty]).verify().is_ok());
    // 31 two-byte characters: 62 bytes, rejected although only 31 characters.
    let thirty_one = "é".repeat(31);
    match config_with(&[&thirty_one]).verify() {
        Err(ConfigError::InvalidKeywords { keywords }) => assert_eq!(keywords, vec![thirty_one.clone()]),
        Ok(_) => panic!("a 62-byte keyword must be rejected"),
    }
}

#[test]
fn no_keywords_is_valid() {
    let v = config_with(&[]).verify().expect("no keyword is invalid");
    assert!(v.get_config().keywords.is_empty());
}
