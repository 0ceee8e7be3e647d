use phronesis::config::Config;
use phronesis::error::PhronesisError;
use std::path::PathBuf;

#[test]
fn config_use_openai_checks_key() {
    let config = Config {
        data_root: PathBuf::from("/tmp"),
        openai_api_key: Some("sk-test".into()),
        embedding_model: "text-embedding-3-small".into(),
    };
    assert!(config.use_openai());

    let config_none = Config {
        data_root: PathBuf::from("/tmp"),
        openai_api_key: None,
        embedding_model: "text-embedding-3-small".into(),
    };
    assert!(!config_none.use_openai());

    let config_empty = Config {
        data_root: PathBuf::from("/tmp"),
        openai_api_key: Some("".into()),
        embedding_model: "text-embedding-3-small".into(),
    };
    assert!(!config_empty.use_openai());
}

#[test]
fn config_reads_from_env() {
    let config = Config::from_env_values(Some(PathBuf::from("/tmp/phronesis-test")), None, None)
        .unwrap();
    assert_eq!(config.data_root, PathBuf::from("/tmp/phronesis-test"));
    assert_eq!(config.embedding_model, "text-embedding-3-small");
}

#[test]
fn config_keeps_given_model_and_key() {
    let config = Config::from_env_values(
        Some(PathBuf::from("/data")),
        Some("sk-1".to_string()),
        Some("text-embedding-3-large".to_string()),
    )
    .unwrap();
    assert_eq!(config.embedding_model, "text-embedding-3-large");
    assert_eq!(config.openai_api_key, Some("sk-1".to_string()));
    assert!(config.use_openai());
}

#[test]
fn config_without_data_root_is_an_error() {
    let err = Config::from_env_values(None, Some("sk".to_string()), None).unwrap_err();
    assert_eq!(err, PhronesisError::Config("PHRONESIS_DATA_ROOT not set".to_string()));
    assert_eq!(err.message(), "Config error: PHRONESIS_DATA_ROOT not set");
}

#[test]
fn config_can_be_copied() {
    let config = Config::from_env_values(
        Some(PathBuf::from("/tmp/copy")),
        Some("sk-test".to_string()),
        None,
    )
    .unwrap();
    let copy = config.clone();
    assert_eq!(copy.data_root, config.data_root);
    assert_eq!(copy.openai_api_key, config.openai_api_key);
    assert_eq!(copy.embedding_model, "text-embedding-3-small");
}
