use pixtimize::config::{Config, EnvVars};
use pixtimize::error::ConfigError;

fn vars() -> EnvVars {
    EnvVars {
        port: None,
        s3_endpoint: None,
        s3_region: None,
        s3_access_key: Some("key".to_owned()),
        s3_secret_key: Some("secret".to_owned()),
        s3_bucket: Some("bucket".to_owned()),
        redis_url: Some("redis://localhost".to_owned()),
        default_quality: None,
        default_format: None,
        cache_delete_cron: None,
        cached_time: None,
    }
}

#[test]
fn from_vars_should_apply_defaults() {
    let config = Config::from_vars(&vars()).expect("valid configuration");
    assert_eq!(config.port, 3000);
    assert_eq!(config.s3.endpoint, "https://ams3.digitaloceanspaces.com");
    assert_eq!(config.s3.region, "ams3");
    assert_eq!(config.default_quality, 80);
    assert_eq!(config.default_format, "webp");
    assert_eq!(config.cache_delete_cron, "0 1 * * 1");
    assert_eq!(config.cached_time, 604_800);
    assert_eq!(config.redis_url, "redis://localhost");
}

#[test]
fn from_vars_should_read_set_values() {
    let mut v = vars();
    v.port = Some("8080".to_owned());
    v.default_quality = Some("+95".to_owned());
    v.default_format = Some("jpeg".to_owned());
    v.cached_time = Some("60".to_owned());
    let config = Config::from_vars(&v).expect("valid configuration");
    assert_eq!(config.port, 8080);
    assert_eq!(config.default_quality, 95);
    assert_eq!(config.default_format, "jpeg");
    assert_eq!(config.cached_time, 60);
}

#[test]
fn from_vars_should_treat_blank_values_as_unset() {
    let mut v = vars();
    v.port = Some("   ".to_owned());
    let config = Config::from_vars(&v).expect("valid configuration");
    assert_eq!(config.port, 3000);
    v.s3_bucket = Some(" \t".to_owned());
    match Config::from_vars(&v) {
        Err(ConfigError::MissingVar(key)) => assert_eq!(key, "S3_BUCKET"),
        _ => panic!("expected a missing bucket"),
    }
}

#[test]
fn from_vars_should_fall_back_for_out_of_range_quality() {
    let mut v = vars();
    v.default_quality = Some("0".to_owned());
    assert_eq!(Config::from_vars(&v).unwrap().default_quality, 80);
    v.default_quality = Some("101".to_owned());
    assert_eq!(Config::from_vars(&v).unwrap().default_quality, 80);
}

#[test]
fn from_vars_should_refuse_unparsable_numbers() {
    let mut v = vars();
    v.default_quality = Some("300".to_owned());
    match Config::from_vars(&v) {
        Err(ConfigError::InvalidValue { key, value }) => {
            assert_eq!(key, "DEFAULT_QUALITY");
            assert_eq!(value, "300");
        }
        _ => panic!("expected an invalid quality"),
    }
    let mut v = vars();
    v.port = Some("70000".to_owned());
    let error = Config::from_vars(&v).err().expect("invalid port");
    assert_eq!(error.message(), "invalid value for PORT: 70000");
}

#[test]
fn from_vars_should_report_missing_variables_in_order() {
    let mut v = vars();
    v.s3_access_key = None;
    v.redis_url = None;
    let error = Config::from_vars(&v).err().expect("missing key");
    assert_eq!(error.message(), "missing required environment variable: S3_ACCESS_KEY");
    let mut v = vars();
    v.redis_url = None;
    let error = Config::from_vars(&v).err().expect("missing redis");
    assert_eq!(error.message(), "missing required environment variable: REDIS_URL");
}
