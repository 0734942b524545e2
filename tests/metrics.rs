use prometheus_exposition::{
    Metric, MetricCollection, MetricDescriptor, MetricLabel, MetricType, MetricValue,
    PrometheusError,
};

#[test]
fn builds_valid_descriptor() {
    let d = MetricDescriptor::new("requests", "All requests", MetricType::Gauge)
        .static_label(MetricLabel::new("service", "api"))
        .variable_label("code")
        .build()
        .unwrap();
    assert_eq!(d.get_fully_qualified_name(), "requests");
    assert_eq!(d.get_metric_help(), "All requests");
    assert_eq!(d.get_metric_type(), MetricType::Gauge);
    assert_eq!(d.get_static_labels().len(), 1);
    assert_eq!(d.get_static_labels()[0].get_key(), "service");
    assert_eq!(d.get_static_labels()[0].get_value(), "api");
    assert_eq!(d.get_variable_labels(), &["code".to_string()]);
}

#[test]
fn duplicate_static_and_variable_key() {
    let r = MetricDescriptor::new("m", "", MetricType::Counter)
        .static_label(MetricLabel::new("code", "1"))
        .variable_label("code")
        .build();
    assert!(matches!(r, Err(PrometheusError::DuplicateLabelName(k)) if k == "code"));
}

#[test]
fn duplicate_reported_before_malformed_key() {
    let r = MetricDescriptor::new("9bad", "", MetricType::Counter)
        .static_label(MetricLabel::new("9x", "1"))
        .variable_label("a")
        .variable_label("a")
        .build();
    assert!(matches!(r, Err(PrometheusError::DuplicateLabelName(k)) if k == "a"));
}

#[test]
fn malformed_name() {
    let r = MetricDescriptor::new("9bad", "help", MetricType::Counter).build();
    assert!(matches!(r, Err(PrometheusError::MalformedName(k)) if k == "9bad"));
}

#[test]
fn malformed_key_reported_before_name() {
    let r = MetricDescriptor::new("9bad", "", MetricType::Gauge)
        .variable_label("ok")
        .variable_label("__reserved")
        .build();
    assert!(matches!(r, Err(PrometheusError::MalformedName(k)) if k == "__reserved"));
}

fn counter_descriptor(labels: &[&str]) -> std::sync::Arc<MetricDescriptor> {
    let mut b = MetricDescriptor::new("c", "", MetricType::Counter);
    for l in labels {
        b = b.variable_label(l);
    }
    b.build().unwrap()
}

#[test]
fn gauge_into_counter_collection() {
    let mut c = MetricCollection::new_collection(counter_descriptor(&[]));
    let r = c.add_metric(Metric::new(MetricValue::IntGauge(1), vec![]));
    assert!(matches!(
        r,
        Err(PrometheusError::IncorrectMetricType(MetricType::Counter, MetricType::Gauge))
    ));
    assert_eq!(c.freeze().get_metrics().len(), 0);
}

#[test]
fn wrong_label_count() {
    let mut c = MetricCollection::new_collection(counter_descriptor(&["a", "b"]));
    let r = c.add_metric(Metric::new(MetricValue::IntCounter(1), vec!["x".to_string()]));
    assert!(matches!(r, Err(PrometheusError::IncorrectLabelCount(2, 1))));
}

#[test]
fn float_and_int_variants_share_type() {
    let mut c = MetricCollection::new_collection(counter_descriptor(&["a"]));
    c.add_metric(Metric::new(MetricValue::Counter(format!("{}", 1.5f64)), vec!["x".to_string()]))
        .unwrap();
    c.add_metric(Metric::new(MetricValue::IntCounter(-3), vec!["y".to_string()])).unwrap();
    let frozen = c.freeze();
    assert_eq!(frozen.get_metrics().len(), 2);
    assert_eq!(frozen.get_metrics()[1].get_variable_labels(), &["y".to_string()]);
    assert_eq!(frozen.get_metrics()[0].get_value().get_type(), MetricType::Counter);
    assert_eq!(MetricValue::Gauge("0".to_string()).get_type(), MetricType::Gauge);
    assert_eq!(frozen.share().get_descriptor().get_fully_qualified_name(), "c");
}

#[test]
fn type_strings() {
    assert_eq!(MetricType::Counter.as_str(), "counter");
    assert_eq!(MetricType::Gauge.as_str(), "gauge");
}

#[test]
fn error_messages() {
    assert_eq!(
        PrometheusError::DuplicateLabelName("k".to_string()).to_string(),
        "Duplicate label name: 'k'"
    );
    assert_eq!(
        PrometheusError::IncorrectLabelCount(2, 10).to_string(),
        "Incorrect label count. Expected: 2, Actual: 10"
    );
    assert_eq!(
        PrometheusError::IncorrectMetricType(MetricType::Counter, MetricType::Gauge).to_string(),
        "Incorrect metric type. Expected: counter, Actual: gauge"
    );
    assert_eq!(
        PrometheusError::MalformedName("9bad".to_string()).to_string(),
        "Malformed ident name: '9bad'"
    );
    let io = std::io::Error::new(std::io::ErrorKind::Other, "closed");
    assert_eq!(PrometheusError::from(io).to_string(), "Io Error: closed");
}
