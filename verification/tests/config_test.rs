use moenia::Config;
use std::time::Duration;

#[test]
fn open_duration_overrides_default() {
    let duration = Duration::from_secs(31);
    let config = Config::new("test_config").open_duration(duration);

    assert_eq!(config.open_duration, duration);
}

#[test]
fn half_open_probes_overrides_default() {
    let config = Config::new("test_config").half_open_probes(4);

    assert_eq!(config.half_open_probes, 4);
}

#[test]
fn config_defaults() {
    let config = Config::new("payments-service");
    assert_eq!(config.name(), "payments-service");
    assert_eq!(config.open_duration, Duration::from_secs(30));
    assert_eq!(config.half_open_probes, 5);
}

#[test]
fn builders_keep_the_other_settings() {
    let config = Config::new("svc")
        .open_duration(Duration::from_millis(250))
        .half_open_probes(2);
    assert_eq!(config.name(), "svc");
    assert_eq!(config.open_duration, Duration::from_millis(250));
    assert_eq!(config.half_open_probes, 2);
    let copy = config.clone();
    assert_eq!(copy.name(), "svc");
    assert_eq!(copy.open_duration, Duration::from_millis(250));
    assert_eq!(copy.half_open_probes, 2);
}
