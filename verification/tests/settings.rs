use raffle_engine::config_loader::ConfigFile;

fn settings() -> ConfigFile {
    ConfigFile {
        access_tokens: vec!["alpha".to_string(), "beta-token".to_string()],
        database_name: "DB_Raffle".to_string(),
        collection_raffle: "Raffle".to_string(),
        collection_ticket: "Ticket".to_string(),
    }
}

#[test]
fn listed_tokens_are_accepted() {
    let config = settings();
    assert!(config.accepts_token(&"alpha".to_string()));
    assert!(config.accepts_token(&"beta-token".to_string()));
}

#[test]
fn other_tokens_are_turned_away() {
    let config = settings();
    for token in ["", "alph", "alphaa", "Alpha", "beta", "alpha beta-token"] {
        assert!(!config.accepts_token(&token.to_string()), "for {:?}", token);
    }
    let nobody = ConfigFile { access_tokens: Vec::new(), ..settings() };
    assert!(!nobody.accepts_token(&"alpha".to_string()));
    assert!(!nobody.accepts_token(&String::new()));
}
