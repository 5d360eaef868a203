use feed_rankings::config::{
    create_redis_client, ClientError, Config, JwtConfig, KafkaConfig, MongodbConfig, MysqlConfig,
    RedisConfig, ServerConfig,
};
use feed_rankings::decimal::{parse_i64, render_i64, render_u64};

fn sample_config(redis_host: &str, redis_password: Option<&str>) -> Config {
    Config {
        server: ServerConfig { host: "0.0.0.0".to_string(), port: 8080 },
        jwt: JwtConfig { secret: "s".to_string(), expiration_hours: 24 },
        mysql: MysqlConfig {
            host: "db.local".to_string(),
            port: 3306,
            user: "root".to_string(),
            password: "pw".to_string(),
            database: "example_db".to_string(),
        },
        mongodb: MongodbConfig {
            uri: "mongodb://localhost:27017".to_string(),
            database: "example_db".to_string(),
        },
        redis: RedisConfig {
            host: redis_host.to_string(),
            port: 6379,
            password: redis_password.map(|p| p.to_string()),
        },
        kafka: KafkaConfig { brokers: "localhost:9092".to_string(), group_id: "g".to_string() },
    }
}

#[test]
fn renders_member_ids_in_decimal() {
    assert_eq!(render_i64(42), "42");
    assert_eq!(render_i64(0), "0");
    assert_eq!(render_i64(-7), "-7");
    assert_eq!(render_i64(i64::MAX), "9223372036854775807");
    assert_eq!(render_i64(i64::MIN), "-9223372036854775808");
    assert_eq!(render_u64(u64::MAX), "18446744073709551615");
}

#[test]
fn parses_member_ids() {
    assert_eq!(parse_i64("42"), Some(42));
    assert_eq!(parse_i64("+7"), Some(7));
    assert_eq!(parse_i64("-0"), Some(0));
    assert_eq!(parse_i64("007"), Some(7));
    assert_eq!(parse_i64("-9223372036854775808"), Some(i64::MIN));
    assert_eq!(parse_i64("9223372036854775807"), Some(i64::MAX));
}

#[test]
fn rejects_text_that_is_no_i64() {
    assert_eq!(parse_i64(""), None);
    assert_eq!(parse_i64("-"), None);
    assert_eq!(parse_i64("+"), None);
    assert_eq!(parse_i64("4a"), None);
    assert_eq!(parse_i64(" 4"), None);
    assert_eq!(parse_i64("9223372036854775808"), None);
    assert_eq!(parse_i64("-9223372036854775809"), None);
    assert_eq!(parse_i64("99999999999999999999999"), None);
}

#[test]
fn member_ids_read_back_as_written() {
    for v in [0i64, 1, -1, 9, 10, 12345, -98765, i64::MAX, i64::MIN] {
        assert_eq!(parse_i64(&render_i64(v)), Some(v));
    }
}

#[test]
fn mysql_url_is_built_from_settings() {
    let c = sample_config("localhost", None);
    assert_eq!(c.mysql_url(), "mysql://root:pw@db.local:3306/example_db");
}

#[test]
fn redis_url_with_and_without_password() {
    assert_eq!(sample_config("localhost", None).redis_url(), "redis://localhost:6379");
    assert_eq!(
        sample_config("cache", Some("secret")).redis_url(),
        "redis://:secret@cache:6379"
    );
}

#[test]
fn redis_client_from_settings() {
    assert!(create_redis_client(&sample_config("localhost", None)).is_ok());
    assert!(create_redis_client(&sample_config("cache", Some("secret"))).is_ok());
}

#[test]
fn redis_client_refuses_a_bad_address() {
    let r = create_redis_client(&sample_config("bad host", None));
    assert!(matches!(r, Err(ClientError::InvalidAddress)));
}
