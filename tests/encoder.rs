use prometheus_exposition::{
    Metric, MetricCollection, MetricDescriptor, MetricLabel, MetricType, MetricValue, TextEncoder,
};

#[test]
fn end_to_end_counter() {
    let d = MetricDescriptor::new("http_requests_total", "Total requests", MetricType::Counter)
        .static_label(MetricLabel::new("service", "api"))
        .variable_label("code")
        .build()
        .unwrap();
    let mut c = MetricCollection::new_collection(d);
    c.add_metric(Metric::new(MetricValue::IntCounter(42), vec!["200".to_string()])).unwrap();
    let out = TextEncoder::new().encode(&[c.freeze()]);
    assert_eq!(
        out,
        "# HELP http_requests_total Total requests\n\
         # TYPE http_requests_total counter\n\
         http_requests_total{service=\"api\",code=\"200\"} 42\n"
    );
}

#[test]
fn no_labels_and_escaping() {
    let d = MetricDescriptor::new("temp", "line\none \\ \"x\"", MetricType::Gauge).build().unwrap();
    let mut c = MetricCollection::new_collection(d);
    c.add_metric(Metric::new(MetricValue::IntGauge(-9223372036854775808), vec![])).unwrap();
    c.add_metric(Metric::new(MetricValue::Gauge(format!("{}", 0.25f64)), vec![])).unwrap();
    let out = TextEncoder::new().encode(&[c.freeze()]);
    assert_eq!(
        out,
        "# HELP temp line\\none \\\\ \\\"x\\\"\n\
         # TYPE temp gauge\n\
         temp -9223372036854775808\n\
         temp 0.25\n"
    );
}

#[test]
fn several_collections_in_order() {
    let a = MetricDescriptor::new("a", "A", MetricType::Counter)
        .variable_label("k")
        .variable_label("v")
        .build()
        .unwrap();
    let b = MetricDescriptor::new("b", "", MetricType::Gauge)
        .static_label(MetricLabel::new("s", "q\""))
        .build()
        .unwrap();
    let mut ca = MetricCollection::new_collection(a);
    ca.add_metric(Metric::new(MetricValue::IntCounter(0), vec!["1".to_string(), "x\ny".to_string()]))
        .unwrap();
    let mut cb = MetricCollection::new_collection(b);
    cb.add_metric(Metric::new(MetricValue::IntGauge(7), vec![])).unwrap();
    let empty = MetricCollection::new_collection(
        MetricDescriptor::new("e", "", MetricType::Gauge).build().unwrap(),
    );
    let out = TextEncoder::new().encode(&[ca.freeze(), cb.freeze(), empty.freeze()]);
    assert_eq!(
        out,
        "# HELP a A\n# TYPE a counter\na{k=\"1\",v=\"x\\ny\"} 0\n\
         # HELP b \n# TYPE b gauge\nb{s=\"q\\\"\"} 7\n\
         # HELP e \n# TYPE e gauge\n"
    );
    assert_eq!(TextEncoder::new().encode(&[]), "");
}
