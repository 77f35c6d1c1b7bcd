use bytes::Bytes;
use witchcraft_server::api::{ContextualizedUser, UserId};
use witchcraft_server::logging::format::{level_tag, meter_name, meter_tags, LogFormat, LogLevel};
use witchcraft_server::logging::logger::json::JsonAppender;
use witchcraft_server::logging::logger::wrapping::WrappingAppender;

#[test]
fn lines_of_json() {
    let mut appender = JsonAppender::new(Vec::<Bytes>::new());
    let line = appender.frame(br#"{"a":1}"#);
    assert_eq!(line, Bytes::from(&b"{\"a\":1}\n"[..]));
    let line = appender.frame(b"");
    assert_eq!(line, Bytes::from(&b"\n"[..]));
    assert!(appender.inner().is_empty());
}

#[test]
fn wrapped_entries() {
    let appender = WrappingAppender::new((), "my-product", "1.2.3");
    let wrapped = appender.wrap(42u32);
    assert_eq!(wrapped.type_(), "wrapped.1");
    assert_eq!(*wrapped.payload(), 42);
    assert_eq!(wrapped.entity_name(), "my-product");
    assert_eq!(wrapped.entity_version(), "1.2.3");
    assert_eq!(wrapped.service(), None);
    assert_eq!(wrapped.service_id(), None);
    assert_eq!(wrapped.stack(), None);
    assert_eq!(wrapped.stack_id(), None);
}

#[test]
fn log_formats() {
    let all = [LogFormat::Metric, LogFormat::Request, LogFormat::Service, LogFormat::Trace];
    let got: Vec<(&str, &str, u32, u32)> = all
        .iter()
        .map(|f| (f.log_type(), f.file_stem(), f.size_limit_gb(), f.time_limit_days()))
        .collect();
    assert_eq!(
        got,
        vec![
            ("metric.1", "metric", 1, 5),
            ("request.2", "request", 5, 30),
            ("service.1", "service", 5, 30),
            ("trace.1", "trace", 1, 5),
        ]
    );
    assert_eq!(meter_name(), "logging.sls");
    assert_eq!(level_tag(LogLevel::Warn), "warn");
    assert_eq!(meter_tags(LogFormat::Trace, None), vec![("type", "trace.1")]);
    assert_eq!(
        meter_tags(LogFormat::Service, Some(LogLevel::Fatal)),
        vec![("type", "service.1"), ("level", "fatal")]
    );
}

#[test]
fn built_users() {
    let user = ContextualizedUser::builder()
        .uid(UserId("u2".to_string()))
        .user_name(Some("jdoe".to_string()))
        .first_name(Some("Jane".to_string()))
        .last_name(Some("Doe".to_string()))
        .push_groups("admins".to_string())
        .push_groups("users".to_string())
        .realm(Some("corp".to_string()))
        .build();
    assert_eq!(user.uid().0, "u2");
    assert_eq!(user.user_name(), Some("jdoe"));
    assert_eq!(user.first_name(), Some("Jane"));
    assert_eq!(user.last_name(), Some("Doe"));
    assert_eq!(user.groups(), &["admins".to_string(), "users".to_string()][..]);
    assert_eq!(user.realm(), Some("corp"));
}
