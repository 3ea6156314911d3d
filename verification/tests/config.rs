use feather_server::config::{
    default_cors_origins, default_heartbeat_interval, default_history_limit,
    default_lease_duration_ms, default_log_format, default_log_level, default_max_payload,
    default_max_renewals, default_offline_threshold, default_sweep_interval, AppConfig,
    ConfigError, EnvOverrides,
};

fn no_env() -> EnvOverrides {
    EnvOverrides {
        grpc_addr: None,
        http_addr: None,
        redis_url: None,
        namespace: None,
        lease_ms: None,
        log_level: None,
        cors_origins: None,
    }
}

#[test]
fn defaults_match_the_documented_values() {
    assert_eq!(default_lease_duration_ms(), 30_000);
    assert_eq!(default_max_payload(), 262_144);
    assert_eq!(default_sweep_interval(), 1_000);
    assert_eq!(default_history_limit(), 10_000);
    assert_eq!(default_heartbeat_interval(), 10_000);
    assert_eq!(default_offline_threshold(), 30_000);
    assert_eq!(default_max_renewals(), 100);
    assert_eq!(default_cors_origins(), vec!["http://localhost:3000", "http://localhost:3001"]);
    assert_eq!(default_log_level(), "info");
    assert_eq!(default_log_format(), "json");
}

#[test]
fn fallback_configuration() {
    let c = AppConfig::fallback();
    assert_eq!(c.server.grpc_addr, "0.0.0.0:50051");
    assert_eq!(c.server.http_addr, "0.0.0.0:8080");
    assert_eq!(c.storage.redis_url, "redis://127.0.0.1:6379");
    assert_eq!(c.storage.namespace, "default");
    assert_eq!(c.default_lease_duration_ms, 30_000);
    assert_eq!(c.observability.log_level, "info");
    assert_eq!(c.observability.log_format, "json");
}

#[test]
fn environment_overrides_settings() {
    let mut c = AppConfig::fallback();
    let env = EnvOverrides {
        grpc_addr: Some("127.0.0.1:1".into()),
        http_addr: None,
        redis_url: Some("redis://r:1".into()),
        namespace: Some("acme".into()),
        lease_ms: Some("5000".into()),
        log_level: Some("debug".into()),
        cors_origins: Some("https://x.test, https://y.test".into()),
    };
    assert_eq!(c.apply_env(env), Ok(()));
    assert_eq!(c.server.grpc_addr, "127.0.0.1:1");
    assert_eq!(c.server.http_addr, "0.0.0.0:8080");
    assert_eq!(c.storage.redis_url, "redis://r:1");
    assert_eq!(c.storage.namespace, "acme");
    assert_eq!(c.default_lease_duration_ms, 5000);
    assert_eq!(c.observability.log_level, "debug");
    assert_eq!(c.cors_origins, vec!["https://x.test", "https://y.test"]);
}

#[test]
fn unreadable_lease_is_refused() {
    let mut c = AppConfig::fallback();
    let mut env = no_env();
    env.lease_ms = Some("soon".into());
    assert_eq!(c.apply_env(env), Err(ConfigError::InvalidLeaseMs));
    let mut c = AppConfig::fallback();
    assert_eq!(c.apply_env(no_env()), Ok(()));
    assert_eq!(c.default_lease_duration_ms, 30_000);
}
