use witchcraft_server::logging::ifaddrs::{get_ip, IpAddr};
use witchcraft_server::logging::trace::{dur2micros, report_span, time2micros, RawSpan, SpanKind};

fn raw(kind: Option<SpanKind>) -> RawSpan {
    RawSpan {
        trace_id: "t1".to_string(),
        id: "s1".to_string(),
        name: None,
        parent_id: Some("p1".to_string()),
        timestamp: 5_000_000,
        duration: 2_500,
        kind,
        service_name: Some("svc".to_string()),
        ipv4: Some("10.1.2.3".to_string()),
        ipv6: None,
        annotations: vec![(7_000_000, "note".to_string())],
        tags: vec![("k".to_string(), "v".to_string())],
    }
}

#[test]
fn micros_in_safe_long_range() {
    assert_eq!(dur2micros(1_999), 1);
    assert_eq!(dur2micros((1u128 << 53) * 1000 - 1), (1i64 << 53) - 1);
    assert_eq!(dur2micros((1u128 << 53) * 1000), 0);
    assert_eq!(time2micros(-1), 0);
    assert_eq!(time2micros(1_500), 1);
}

#[test]
fn client_span() {
    let span = report_span(raw(Some(SpanKind::Client)));
    assert_eq!(span.trace_id, "t1");
    assert_eq!(span.id, "s1");
    assert_eq!(span.name, "unknown");
    assert_eq!(span.parent_id.as_deref(), Some("p1"));
    assert_eq!(span.timestamp, 5_000);
    assert_eq!(span.duration, 2);
    let pairs: Vec<(i64, &str)> = span.annotations.iter().map(|a| (a.timestamp(), a.value())).collect();
    assert_eq!(pairs, vec![(5_000, "cs"), (5_002, "cr"), (7_000, "note")]);
    for a in &span.annotations {
        assert_eq!(a.endpoint().service_name(), "svc");
        assert_eq!(a.endpoint().ipv4(), Some("10.1.2.3"));
        assert_eq!(a.endpoint().ipv6(), None);
    }
    assert_eq!(span.tags, vec![("k".to_string(), "v".to_string())]);
}

#[test]
fn span_kinds() {
    let values = |kind| -> Vec<String> {
        report_span(raw(kind)).annotations.iter().map(|a| a.value().to_string()).collect()
    };
    assert_eq!(values(Some(SpanKind::Server)), vec!["sr", "ss", "note"]);
    assert_eq!(values(Some(SpanKind::Producer)), vec!["ms", "note"]);
    assert_eq!(values(Some(SpanKind::Consumer)), vec!["mr", "note"]);
    assert_eq!(values(Some(SpanKind::Other)), vec!["note"]);
    assert_eq!(values(None), vec!["lc", "note"]);
    let mut named = raw(None);
    named.name = Some("op".to_string());
    named.service_name = None;
    let span = report_span(named);
    assert_eq!(span.name, "op");
    assert_eq!(span.annotations[0].endpoint().service_name(), "unknown");
}

#[test]
fn local_address() {
    let lo4 = IpAddr::V4(0x7f00_0001);
    let public = IpAddr::V4(0x0808_0808);
    let private = IpAddr::V4(0xc0a8_0001);
    let site6 = IpAddr::V6([0xfec0, 0, 0, 0, 0, 0, 0, 1]);
    let lo6 = IpAddr::V6([0, 0, 0, 0, 0, 0, 0, 1]);
    assert!(lo4.is_loopback() && lo6.is_loopback());
    assert!(private.is_site_local() && site6.is_site_local());
    assert!(!public.is_site_local());
    assert!(IpAddr::V4(0x0a00_0001).is_site_local());
    assert!(IpAddr::V4(0xac1f_0001).is_site_local());
    assert!(!IpAddr::V4(0xac20_0001).is_site_local());
    assert_eq!(get_ip(&vec![Some(lo4), None, Some(public), Some(private)]), Some(private));
    assert_eq!(get_ip(&vec![Some(lo4), Some(public), Some(lo6)]), Some(public));
    assert_eq!(get_ip(&vec![Some(lo4), None, Some(lo6)]), None);
    assert_eq!(get_ip(&vec![Some(site6), Some(private)]), Some(site6));
}
