use std::str::FromStr;
use witchcraft_server::api::record::FieldStep::{Skip, Write};
use witchcraft_server::api::record::{
    event_log_v1_fields, event_log_v1_plan, field_plan, span_fields, span_plan,
    trace_log_v1_fields, trace_log_v1_plan,
};
use witchcraft_server::api::annotation::Annotation;
use witchcraft_server::api::diagnostic::{diagnostic_variant_names, DiagnosticVariant};
use witchcraft_server::api::thread_dump_v1::ThreadInfoV1;
use witchcraft_server::api::{
    AuditProducer, AuditResult, ContextualizedUser, Diagnostic, Endpoint, Organization,
    OrganizationId, ThreadDumpV1, UserId,
};

#[test]
fn audit_enums_round_trip() {
    assert_eq!(AuditProducer::Server.as_str(), "SERVER");
    assert_eq!(AuditProducer::Client.as_str(), "CLIENT");
    assert_eq!(AuditResult::Success.as_str(), "SUCCESS");
    assert_eq!(AuditResult::Error.as_str(), "ERROR");
    assert_eq!(AuditResult::Unauthorized.as_str(), "UNAUTHORIZED");
    assert_eq!(AuditResult::Partial.as_str(), "PARTIAL");
    for r in [AuditResult::Success, AuditResult::Error, AuditResult::Unauthorized, AuditResult::Partial] {
        assert_eq!(AuditResult::from_str(r.as_str()).unwrap(), r);
    }
    for p in [AuditProducer::Server, AuditProducer::Client] {
        assert_eq!(AuditProducer::from_str(p.as_str()).unwrap(), p);
    }
    assert!(AuditResult::from_str("success").is_err());
    assert!(AuditProducer::from_str("").is_err());
}

#[test]
fn endpoint_fields() {
    let e = Endpoint::new("svc");
    assert_eq!(e.service_name(), "svc");
    assert_eq!(e.ipv4(), None);
    assert_eq!(e.ipv6(), None);
    let e = Endpoint::builder()
        .service_name("svc")
        .ipv4(Some("10.0.0.1".to_string()))
        .ipv6(Some("::1".to_string()))
        .build();
    assert_eq!(e.ipv4(), Some("10.0.0.1"));
    assert_eq!(e.ipv6(), Some("::1"));
    let a = Annotation::new(5, "cs", e.copy());
    assert_eq!(a.timestamp(), 5);
    assert_eq!(a.value(), "cs");
    assert_eq!(a.endpoint().service_name(), "svc");
}

#[test]
fn organization_fields() {
    let o = Organization::new("ri.org".to_string(), "owner".to_string());
    assert_eq!(o.id(), "ri.org");
    assert_eq!(o.reason(), "owner");
    let id = OrganizationId("ri.org".to_string());
    assert_eq!(id.0, "ri.org");
}

#[test]
fn contextualized_user_fields() {
    let u = ContextualizedUser::new(UserId("u1".to_string()));
    assert_eq!(u.uid().0, "u1");
    assert_eq!(u.user_name(), None);
    assert_eq!(u.first_name(), None);
    assert_eq!(u.last_name(), None);
    assert!(u.groups().is_empty());
    assert_eq!(u.realm(), None);
}

#[test]
fn thread_dumps() {
    assert!(ThreadDumpV1::new().threads().is_empty());
    let t = ThreadInfoV1 {
        id: None,
        name: Some("main".to_string()),
        stack_trace: Vec::new(),
        params: Default::default(),
    };
    let d = ThreadDumpV1::of_threads(vec![t]);
    assert_eq!(d.threads().len(), 1);
    assert_eq!(d.threads()[0].name.as_deref(), Some("main"));
    let diag = Diagnostic::ThreadDump(d);
    assert_eq!(diag.variant(), DiagnosticVariant::ThreadDump);
    assert_eq!(diag.variant().as_str(), "threadDump");
}

#[test]
fn diagnostic_tags() {
    let names = diagnostic_variant_names();
    assert_eq!(names, vec!["generic", "threadDump"]);
    for (i, name) in names.iter().enumerate() {
        assert_eq!(DiagnosticVariant::from_index(i).as_str(), *name);
    }
}

#[test]
fn record_layouts() {
    assert_eq!(field_plan(&[]), (0, vec![]));
    assert_eq!(field_plan(&[true, false, true]), (2, vec![Write, Skip, Write]));
    assert_eq!(
        trace_log_v1_fields(),
        vec!["type", "time", "uid", "sid", "tokenId", "unsafeParams", "span"]
    );
    assert_eq!(
        trace_log_v1_plan(false, true, false, false),
        (4, vec![Write, Write, Skip, Write, Skip, Skip, Write])
    );
    assert_eq!(event_log_v1_fields().len(), 10);
    assert_eq!(event_log_v1_plan(true, false, false, false, true, false).0, 6);
    assert_eq!(span_fields()[3], "parentId");
    assert_eq!(span_plan(false, true, false).0, 6);
}
