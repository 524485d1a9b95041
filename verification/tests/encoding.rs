use prometheus_client::encoding::{
    encode, labels_equal, EncodeLabel, EncodeMetric, ErasedMetric,
};
use prometheus_client::exchange;
use prometheus_client::exchange::{CounterValue, Label, MetricPointValue};
use prometheus_client::metrics::counter::Counter;
use prometheus_client::metrics::family::{DefaultConstructor, Family};
use prometheus_client::metrics::MetricType;
use prometheus_client::registry::{unit_string, Registry, Unit};

fn pair(name: &str, value: &str) -> (String, String) {
    (name.to_string(), value.to_string())
}

fn counter_total(point: &MetricPointValue) -> u64 {
    let MetricPointValue::CounterValue(CounterValue { total }) = point;
    *total
}

#[test]
fn test_encode() {
    let mut registry: Registry<Box<ErasedMetric>> = Registry::default();

    let mut counter: Counter = Counter::default();
    counter.inc();
    registry.register_with_unit(
        "my_counter",
        "My counter",
        Unit::Seconds,
        Box::new(ErasedMetric::Counter(counter)),
    );

    let mut family = Family::<Vec<(String, String)>, Counter>::default();
    family
        .get_or_create(vec![
            ("method".to_string(), "GET".to_string()),
            ("status".to_string(), "200".to_string()),
        ])
        .inc();
    family
        .get_or_create(vec![
            ("method".to_string(), "POST".to_string()),
            ("status".to_string(), "503".to_string()),
        ])
        .inc();
    let mut sub_registry =
        registry.sub_registry_with_label(("my_key".to_string(), "my_value".to_string()));
    sub_registry.register(
        "my_counter_family",
        "My counter family",
        Box::new(ErasedMetric::CounterFamily(family)),
    );
    registry.attach(sub_registry);

    println!("{:?}", encode(&registry));
}

#[test]
fn counter_with_unit_encodes_one_total() {
    let mut registry: Registry<Counter> = Registry::default();
    let mut counter = Counter::default();
    counter.inc();
    registry.register_with_unit("my_counter", "My counter", Unit::Seconds, counter);

    let set = encode(&registry);
    assert_eq!(set.metric_families.len(), 1);
    let family = &set.metric_families[0];
    assert_eq!(family.name, "my_counter");
    assert_eq!(family.metric_type, exchange::MetricType::Counter.code());
    assert_eq!(family.metric_type, 2);
    assert_eq!(family.unit, "seconds");
    assert_eq!(family.help, "My counter");
    assert_eq!(family.metrics.len(), 1);
    assert!(family.metrics[0].labels.is_empty());
    assert_eq!(family.metrics[0].metric_points.len(), 1);
    assert_eq!(counter_total(&family.metrics[0].metric_points[0].value), 1);
}

#[test]
fn family_merges_key_labels_before_static_labels() {
    let mut registry: Registry<ErasedMetric> = Registry::default();
    let mut family = Family::<Vec<(String, String)>, Counter>::default();
    family
        .get_or_create(vec![pair("method", "GET"), pair("status", "200")])
        .inc();
    family
        .get_or_create(vec![pair("method", "POST"), pair("status", "503")])
        .inc();
    let mut sub = registry.sub_registry_with_label(pair("my_key", "my_value"));
    sub.register(
        "my_counter_family",
        "My counter family",
        ErasedMetric::CounterFamily(family),
    );
    registry.attach(sub);

    let set = encode(&registry);
    assert_eq!(set.metric_families.len(), 1);
    let family = &set.metric_families[0];
    assert_eq!(family.name, "my_counter_family");
    assert_eq!(family.metric_type, 2);
    assert_eq!(family.unit, "");
    assert_eq!(family.help, "My counter family");
    assert_eq!(family.metrics.len(), 2);

    let expected = [
        vec![
            Label { name: "method".to_string(), value: "GET".to_string() },
            Label { name: "status".to_string(), value: "200".to_string() },
            Label { name: "my_key".to_string(), value: "my_value".to_string() },
        ],
        vec![
            Label { name: "method".to_string(), value: "POST".to_string() },
            Label { name: "status".to_string(), value: "503".to_string() },
            Label { name: "my_key".to_string(), value: "my_value".to_string() },
        ],
    ];
    for (metric, labels) in family.metrics.iter().zip(expected.iter()) {
        assert_eq!(&metric.labels, labels);
        assert_eq!(metric.metric_points.len(), 1);
        assert_eq!(counter_total(&metric.metric_points[0].value), 1);
    }
}

#[test]
fn empty_family_still_emits_metadata() {
    let mut registry: Registry<ErasedMetric> = Registry::default();
    let family = Family::<Vec<(String, String)>, Counter>::default();
    registry.register_with_unit(
        "empty_family",
        "A family with no entries",
        Unit::Bytes,
        ErasedMetric::CounterFamily(family),
    );

    let set = encode(&registry);
    assert_eq!(set.metric_families.len(), 1);
    let family = &set.metric_families[0];
    assert_eq!(family.name, "empty_family");
    assert_eq!(family.metric_type, 2);
    assert_eq!(family.unit, "bytes");
    assert_eq!(family.help, "A family with no entries");
    assert!(family.metrics.is_empty());
}

#[test]
fn get_or_create_is_identity_stable() {
    let mut family = Family::<Vec<(String, String)>, Counter>::default();
    family.get_or_create(vec![pair("method", "GET")]).inc();
    family.get_or_create(vec![pair("method", "GET")]).inc();

    let metrics = family.encode(vec![]);
    assert_eq!(metrics.len(), 1);
    assert_eq!(counter_total(&metrics[0].metric_points[0].value), 2);
}

#[test]
fn label_encoding_concatenates_in_order() {
    let a = pair("method", "GET");
    let b = pair("status", "200");
    let both = vec![a.clone(), b.clone()].encode();
    let mut split = vec![a].encode();
    split.extend(vec![b].encode());
    assert_eq!(both, split);
    assert!(labels_equal(&both, &split));
}

#[test]
fn single_pair_encodes_one_label() {
    let labels = pair("method", "GET").encode();
    assert_eq!(labels.len(), 1);
    assert_eq!(labels[0].name, "method");
    assert_eq!(labels[0].value, "GET");
}

#[test]
fn label_eq_compares_encodings() {
    assert!(pair("a", "b").label_eq(&pair("a", "b")));
    assert!(!pair("a", "b").label_eq(&pair("a", "c")));
    assert!(vec![pair("a", "b")].label_eq(&vec![pair("a", "b")]));
    assert!(!vec![pair("a", "b")].label_eq(&vec![pair("a", "b"), pair("c", "d")]));
}

#[test]
fn encode_preserves_registration_order() {
    let mut registry: Registry<Counter> = Registry::default();
    registry.register("first", "First counter", Counter::default());
    registry.register("second", "Second counter", Counter::default());
    registry.register("third", "Third counter", Counter::default());

    let set = encode(&registry);
    let names: Vec<&str> = set.metric_families.iter().map(|f| f.name.as_str()).collect();
    assert_eq!(names, ["first", "second", "third"]);
}

#[test]
fn encode_twice_yields_identical_output() {
    let mut registry: Registry<ErasedMetric> = Registry::default();
    let mut counter = Counter::default();
    counter.inc();
    registry.register_with_unit("my_counter", "My counter", Unit::Seconds, ErasedMetric::Counter(counter));
    let mut family = Family::<Vec<(String, String)>, Counter>::default();
    family.get_or_create(vec![pair("method", "GET")]).inc();
    registry.register("requests", "Requests seen", ErasedMetric::CounterFamily(family));

    assert_eq!(encode(&registry), encode(&registry));
}

#[test]
fn counter_counts_increments() {
    let mut counter = Counter::default();
    assert_eq!(counter.get(), 0);
    for _ in 0..5 {
        counter.inc();
    }
    assert_eq!(counter.get(), 5);

    let metrics = counter.encode(vec![]);
    assert_eq!(metrics.len(), 1);
    assert_eq!(counter_total(&metrics[0].metric_points[0].value), 5);
}

#[test]
fn unit_strings_are_canonical() {
    assert_eq!(unit_string(&Unit::Amperes), "amperes");
    assert_eq!(unit_string(&Unit::Bytes), "bytes");
    assert_eq!(unit_string(&Unit::Celsius), "celsius");
    assert_eq!(unit_string(&Unit::Grams), "grams");
    assert_eq!(unit_string(&Unit::Joules), "joules");
    assert_eq!(unit_string(&Unit::Meters), "meters");
    assert_eq!(unit_string(&Unit::Ratios), "ratios");
    assert_eq!(unit_string(&Unit::Seconds), "seconds");
    assert_eq!(unit_string(&Unit::Volts), "volts");
    assert_eq!(unit_string(&Unit::Other("quux".to_string())), "quux");
}

#[test]
fn metric_type_codes_follow_the_exchange_table() {
    assert_eq!(exchange::MetricType::from(MetricType::Counter).code(), 2);
    assert_eq!(exchange::MetricType::from(MetricType::Gauge).code(), 1);
    assert_eq!(exchange::MetricType::from(MetricType::Histogram).code(), 5);
    assert_eq!(exchange::MetricType::from(MetricType::Info).code(), 4);
    assert_eq!(exchange::MetricType::from(MetricType::Unknown).code(), 0);
}

#[test]
fn nested_sub_scopes_stack_their_labels() {
    let mut registry: Registry<Counter> = Registry::default();
    let mut outer = registry.sub_registry_with_label(pair("zone", "a"));
    let mut inner = outer.sub_registry_with_label(pair("rack", "7"));
    let mut counter = Counter::default();
    counter.inc();
    inner.register("depth", "Depth counter", counter);
    outer.attach(inner);
    registry.attach(outer);

    let set = encode(&registry);
    assert_eq!(set.metric_families.len(), 1);
    let labels = &set.metric_families[0].metrics[0].labels;
    assert_eq!(
        labels,
        &vec![
            Label { name: "zone".to_string(), value: "a".to_string() },
            Label { name: "rack".to_string(), value: "7".to_string() },
        ]
    );
}

#[test]
fn family_with_explicit_constructor_starts_at_default() {
    let mut family =
        Family::<Vec<(String, String)>, Counter, DefaultConstructor>::new_with_constructor(
            DefaultConstructor,
        );
    let created = family.get_or_create(vec![pair("method", "GET")]);
    assert_eq!(created.get(), 0);
}

#[test]
fn erasure_changes_no_encoded_output() {
    let mut counter = Counter::default();
    counter.inc();
    let direct = counter.encode(vec![]);
    let erased = ErasedMetric::Counter(counter).encode(vec![]);
    let boxed = Box::new(ErasedMetric::Counter(counter)).encode(vec![]);
    assert_eq!(direct, erased);
    assert_eq!(direct, boxed);
    assert_eq!(counter.metric_type(), MetricType::Counter);
    assert_eq!(ErasedMetric::Counter(counter).metric_type(), MetricType::Counter);
    assert_eq!(Box::new(ErasedMetric::Counter(counter)).metric_type(), MetricType::Counter);
}
