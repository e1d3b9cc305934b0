use shortland::backend::memory::InMemoryBackend;
use shortland::backend::BackendError;
use shortland::errors::ServiceError;
use shortland::service::State;
use shortland::settings::{Backend, Config, LoggingLevel};
use shortland::shortener::HashIds;

fn assembled_state() -> State {
    State::builder()
        .shortner(HashIds::new(None).unwrap())
        .config(Config::default())
        .backend(InMemoryBackend::new())
        .build()
        .unwrap()
}

fn expect_err(r: Result<State, ServiceError>) -> ServiceError {
    match r {
        Ok(_) => panic!("expected the builder to fail"),
        Err(e) => e,
    }
}

#[test]
fn builder_reports_first_missing_part() {
    let err = expect_err(State::builder().build());
    assert!(matches!(err, ServiceError::State("Uninitialized shortner")));
    let err = expect_err(State::builder().shortner(HashIds::new(None).unwrap()).build());
    assert!(matches!(err, ServiceError::State("Uninitialized backend")));
    let err = expect_err(
        State::builder()
            .shortner(HashIds::new(None).unwrap())
            .backend(InMemoryBackend::new())
            .build(),
    );
    assert!(matches!(err, ServiceError::State("Uninitialized config")));
}

#[test]
fn handler_flow_end_to_end() {
    let mut state = assembled_state();
    let code = state.create_shorten("https://example.com").unwrap();
    assert_eq!(state.expand_shorten(&code).unwrap(), "https://example.com");
    assert_eq!(state.get_stat_by_shorten(&code).unwrap(), "1");
    state.update_shorten(&code, "https://example.org").unwrap();
    assert_eq!(state.expand_shorten(&code).unwrap(), "https://example.org");
    state.delete_shorten(&code).unwrap();
    let err = state.expand_shorten(&code).unwrap_err();
    assert!(matches!(err, ServiceError::Backend(BackendError::NotFound)));
    assert_eq!(err.status_code(), 404);
}

#[test]
fn handler_flow_rejects_bad_codes() {
    let mut state = assembled_state();
    let err = state.expand_shorten("###").unwrap_err();
    assert!(matches!(err, ServiceError::Sortner(_)));
    assert_eq!(err.status_code(), 400);
}

#[test]
fn status_codes_by_error_class() {
    assert_eq!(ServiceError::Backend(BackendError::NotFound).status_code(), 404);
    assert_eq!(
        ServiceError::Backend(BackendError::DateTimeOverflow).status_code(),
        400
    );
    assert_eq!(ServiceError::InvalidURI.status_code(), 400);
    assert_eq!(ServiceError::State("Uninitialized shortner").status_code(), 500);
    assert_eq!(
        ServiceError::Backend(BackendError::Internal("boom".to_owned())).status_code(),
        500
    );
    assert_eq!(
        ServiceError::Backend(BackendError::UnsupportedVersion).status_code(),
        500
    );
    let ids = HashIds::new(None).unwrap();
    let decode_err = ids.decode("").unwrap_err();
    assert_eq!(ServiceError::Sortner(decode_err).status_code(), 400);
}

#[test]
fn service_error_messages() {
    assert_eq!(
        ServiceError::Backend(BackendError::NotFound).message(),
        "Shorten not found"
    );
    assert_eq!(
        ServiceError::State("Uninitialized config").message(),
        "State builder error: Uninitialized config"
    );
    assert_eq!(ServiceError::InvalidURI.message(), "Invalid URI");
}

#[test]
fn config_defaults() {
    let config = Config::default();
    assert_eq!(config.http.host, "0.0.0.0");
    assert_eq!(config.http.port, 3000);
    assert!(matches!(config.logging.level, LoggingLevel::Warning));
    assert!(matches!(config.backend, Backend::InMemory));
}
