use drbot::metrics::{Bucket, Counter, Gauge, JsonExporter, Labels, MetricData, MetricType, MetricValue, MetricsRegistry, PrometheusExporter};

#[test]
fn lib_test_counter() {
    let mut counter = Counter::new("test_counter", "A test counter");
    assert_eq!(counter.get(), 0);

    counter.inc();
    assert_eq!(counter.get(), 1);

    counter.add(5);
    assert_eq!(counter.get(), 6);
}

#[test]
fn lib_test_gauge() {
    let mut gauge = Gauge::new("test_gauge", "A test gauge");
    assert_eq!(gauge.get(), 0);

    gauge.set(100);
    assert_eq!(gauge.get(), 100);

    gauge.inc();
    assert_eq!(gauge.get(), 101);

    gauge.dec();
    assert_eq!(gauge.get(), 100);

    gauge.add(10);
    assert_eq!(gauge.get(), 110);

    gauge.sub(20);
    assert_eq!(gauge.get(), 90);
}

#[test]
fn test_labels() {
    let labels = Labels::new().add("method", "GET").add("path", "/api/users");

    assert_eq!(labels.get("method"), Some("GET"));
    assert_eq!(labels.get("path"), Some("/api/users"));
    assert_eq!(labels.get("unknown"), None);
}

#[test]
fn test_registry_with_prefix() {
    let mut registry = MetricsRegistry::with_prefix("myapp");
    let counter = registry.register_counter("requests", "Requests");
    assert_eq!(counter.name(), "myapp_requests");
}

#[test]
fn test_registry() {
    let mut registry = MetricsRegistry::new();
    registry.register_counter("requests_total", "Total requests").inc();
    registry.register_gauge("active_connections", "Active connections").set(42);
    assert_eq!(registry.get_counter("requests_total").map(|c| c.get()), Some(1));
    assert_eq!(registry.get_gauge("active_connections").map(|g| g.get()), Some(42));
    assert!(registry.get_counter("missing").is_none());
    registry.register_counter("requests_total", "Again");
    assert_eq!(registry.get_counter("requests_total").map(|c| c.get()), Some(0));
    assert_eq!(registry.get_counter("requests_total").map(|c| c.help()), Some("Again"));
}

#[test]
fn metrics_labels_overwrite_and_order() {
    let labels = Labels::default().add("a", "1").add("b", "2").add("a", "3");
    assert!(!labels.is_empty());
    let pairs = labels.iter();
    assert_eq!(pairs.len(), 2);
    assert_eq!((pairs[0].0.as_str(), pairs[0].1.as_str()), ("a", "3"));
    assert_eq!((pairs[1].0.as_str(), pairs[1].1.as_str()), ("b", "2"));
    assert!(Labels::new().is_empty());
    let c = Counter::new("c", "h").with_labels(labels.clone());
    assert_eq!(c.name(), "c");
    assert_eq!(c.help(), "h");
    let g = Gauge::new("g", "h").with_labels(labels);
    assert_eq!(g.name(), "g");
    assert_eq!(PrometheusExporter::new().name(), "prometheus");
    assert_eq!(JsonExporter::new().name(), "json");
}

#[test]
fn test_prometheus_format() {
    let metrics = vec![MetricValue {
        name: "http_requests_total".to_string(),
        metric_type: MetricType::Counter,
        help: "Total HTTP requests".to_string(),
        labels: Labels::new().add("method", "GET"),
        timestamp_millis: 0,
        value: MetricData::Counter(100),
    }];
    let output = PrometheusExporter::format(&metrics);
    assert!(output.contains("# HELP http_requests_total"));
    assert!(output.contains("# TYPE http_requests_total counter"));
    assert!(output.contains("http_requests_total{method=\"GET\"} 100"));
}

#[test]
fn prometheus_histogram_summary_and_gauge_lines() {
    let metrics = vec![
        MetricValue {
            name: "lat".to_string(),
            metric_type: MetricType::Histogram,
            help: "Latency".to_string(),
            labels: Labels::new().add("a", "1").add("b", "2"),
            timestamp_millis: 0,
            value: MetricData::Histogram {
                buckets: vec![Bucket { upper_bound_text: "0.5".to_string(), count: 3 }],
                sum_text: "1.25".to_string(),
                count: 4,
            },
        },
        MetricValue {
            name: "temp".to_string(),
            metric_type: MetricType::Gauge,
            help: "T".to_string(),
            labels: Labels::new(),
            timestamp_millis: 0,
            value: MetricData::Gauge(-7),
        },
        MetricValue {
            name: "q".to_string(),
            metric_type: MetricType::Summary,
            help: "Q".to_string(),
            labels: Labels::new(),
            timestamp_millis: 0,
            value: MetricData::Summary {
                quantiles: vec![("0.9".to_string(), "12".to_string())],
                sum_text: "20".to_string(),
                count: 2,
            },
        },
    ];
    let output = PrometheusExporter::format(&metrics);
    assert_eq!(
        output,
        "# HELP lat Latency\n# TYPE lat histogram\n\
lat_bucket{le=\"0.5\",a=\"1\",b=\"2\"} 3\n\
lat_sum{a=\"1\",b=\"2\"} 1.25\n\
lat_count{a=\"1\",b=\"2\"} 4\n\
# HELP temp T\n# TYPE temp gauge\ntemp -7\n\
# HELP q Q\n# TYPE q summary\nq{quantile=\"0.9\"} 12\nq_sum 20\nq_count 2\n"
    );
}
