//! The data model: metric types and values, descriptors, and collections.

use vstd::prelude::*;
use std::sync::Arc;
use crate::error::PrometheusError;
use crate::utils::{is_valid_ident, signed_decimal, valid_ident};

verus! {

/// The logical kind of a metric.
#[derive(Clone, Copy, Debug, PartialEq, Eq, Structural)]
pub enum MetricType {
    Counter,
    Gauge,
}

/// The name of a metric type in the exposition format.
pub open spec fn type_text(t: MetricType) -> Seq<char> {
    match t {
        MetricType::Counter => "counter"@,
        MetricType::Gauge => "gauge"@,
    }
}

impl MetricType {
    pub fn as_str(&self) -> (r: &'static str)
        ensures
            r@ == type_text(*self),
    {
        match self {
            MetricType::Counter => "counter",
            MetricType::Gauge => "gauge",
        }
    }
}


/// An observed value. Integer observations keep their number; floating-point
/// observations are carried as their decimal rendering, which is all that
/// the encoder reads of them.
#[derive(Clone, Debug)]
pub enum MetricValue {
    Counter(String),
    IntCounter(i64),
    Gauge(String),
    IntGauge(i64),
}

/// The metric type that a value belongs to.
pub open spec fn value_type(v: MetricValue) -> MetricType {
    match v {
        MetricValue::Counter(_) | MetricValue::IntCounter(_) => MetricType::Counter,
        MetricValue::Gauge(_) | MetricValue::IntGauge(_) => MetricType::Gauge,
    }
}

/// How a value is rendered: integers in decimal without a decimal point,
/// floating-point values by the rendering they carry.
pub open spec fn value_text(v: MetricValue) -> Seq<char> {
    match v {
        MetricValue::Counter(t) | MetricValue::Gauge(t) => t@,
        MetricValue::IntCounter(n) | MetricValue::IntGauge(n) => signed_decimal(n as int),
    }
}

impl MetricValue {
    pub fn get_type(&self) -> (r: MetricType)
        ensures
            r == value_type(*self),
    {
        match self {
            MetricValue::Counter(_) | MetricValue::IntCounter(_) => MetricType::Counter,
            MetricValue::Gauge(_) | MetricValue::IntGauge(_) => MetricType::Gauge,
        }
    }
}

/// The character sequences of a list of strings.
pub open spec fn string_views(v: Seq<String>) -> Seq<Seq<char>> {
    v.map_values(|s: String| s@)
}

/// A static label: a key and its fixed value.
#[derive(Clone, Debug)]
pub struct MetricLabel {
    key: String,
    value: String,
}

impl View for MetricLabel {
    type V = (Seq<char>, Seq<char>);

    closed spec fn view(&self) -> (Seq<char>, Seq<char>) {
        (self.key@, self.value@)
    }
}

impl MetricLabel {
    pub fn new(key: &str, value: &str) -> (r: MetricLabel)
        ensures
            r@ == (key@, value@),
    {
        MetricLabel { key: key.to_owned(), value: value.to_owned() }
    }

    pub fn get_key(&self) -> (r: &str)
        ensures
            r@ == self@.0,
    {
        self.key.as_str()
    }

    pub fn get_value(&self) -> (r: &str)
        ensures
            r@ == self@.1,
    {
        self.value.as_str()
    }
}

/// What a metric is, seen from outside: its type, the rendering of its value
/// and its variable-label values.
pub struct MetricModel {
    pub metric_type: MetricType,
    pub text: Seq<char>,
    pub labels: Seq<Seq<char>>,
}

/// One observed value with the values of its descriptor's variable labels,
/// in the order the descriptor declares their names.
#[derive(Clone, Debug)]
pub struct Metric {
    value: MetricValue,
    labels: Vec<String>,
}

impl View for Metric {
    type V = MetricModel;

    closed spec fn view(&self) -> MetricModel {
        MetricModel {
            metric_type: value_type(self.value),
            text: value_text(self.value),
            labels: string_views(self.labels@),
        }
    }
}

impl Metric {
    pub fn new(value: MetricValue, labels: Vec<String>) -> (r: Metric)
        ensures
            r@ == (MetricModel {
                metric_type: value_type(value),
                text: value_text(value),
                labels: string_views(labels@),
            }),
    {
        Metric { value, labels }
    }

    pub fn get_value(&self) -> (r: &MetricValue)
        ensures
            value_type(*r) == self@.metric_type,
            value_text(*r) == self@.text,
    {
        &self.value
    }

    pub fn get_variable_labels(&self) -> (r: &[String])
        ensures
            string_views(r@) == self@.labels,
    {
        self.labels.as_slice()
    }
}


/// A descriptor seen from outside: name, help text, type, static labels in
/// declaration order, and the names of the variable labels in declaration order.
pub struct DescriptorModel {
    pub name: Seq<char>,
    pub help: Seq<char>,
    pub metric_type: MetricType,
    pub static_labels: Seq<(Seq<char>, Seq<char>)>,
    pub variable_labels: Seq<Seq<char>>,
}

/// Every label key of a descriptor: static keys first, then variable ones.
pub open spec fn label_keys(d: DescriptorModel) -> Seq<Seq<char>> {
    d.static_labels.map_values(|l: (Seq<char>, Seq<char>)| l.0) + d.variable_labels
}

/// The key at `i` already occurs before `i`.
pub open spec fn repeats_earlier(keys: Seq<Seq<char>>, i: int) -> bool {
    exists|j: int| 0 <= j < i && keys[j] == keys[i]
}

/// No key among the first `n` repeats an earlier one.
pub open spec fn distinct_upto(keys: Seq<Seq<char>>, n: int) -> bool {
    forall|i: int| 0 <= i < n ==> !#[trigger] repeats_earlier(keys, i)
}

/// The first `n` keys are valid identifiers.
pub open spec fn valid_upto(keys: Seq<Seq<char>>, n: int) -> bool {
    forall|i: int| 0 <= i < n ==> #[trigger] valid_ident(keys[i])
}

/// The invariant of a built descriptor: a valid name, and label keys that
/// are valid and pairwise distinct across static and variable labels.
pub open spec fn descriptor_valid(d: DescriptorModel) -> bool {
    let keys = label_keys(d);
    &&& valid_ident(d.name)
    &&& valid_upto(keys, keys.len() as int)
    &&& distinct_upto(keys, keys.len() as int)
}

/// The immutable schema of a metric family, shared by reference count.
pub struct MetricDescriptor {
    metric_help: String,
    metric_type: MetricType,
    fully_qualified_name: String,
    static_labels: Vec<MetricLabel>,
    variable_labels: Vec<String>,
}

impl View for MetricDescriptor {
    type V = DescriptorModel;

    closed spec fn view(&self) -> DescriptorModel {
        DescriptorModel {
            name: self.fully_qualified_name@,
            help: self.metric_help@,
            metric_type: self.metric_type,
            static_labels: self.static_labels@.map_values(|l: MetricLabel| l@),
            variable_labels: string_views(self.variable_labels@),
        }
    }
}

impl MetricDescriptor {
    #[verifier::type_invariant]
    spec fn inv(&self) -> bool {
        descriptor_valid(self@)
    }

    /// Starts a builder with no labels.
    pub fn new(fully_qualified_name: &str, metric_help: &str, metric_type: MetricType) -> (r:
        MetricDescriptorBuilder)
        ensures
            r@ == (DescriptorModel {
                name: fully_qualified_name@,
                help: metric_help@,
                metric_type,
                static_labels: Seq::empty(),
                variable_labels: Seq::empty(),
            }),
    {
        let r = MetricDescriptorBuilder {
            metric_help: metric_help.to_owned(),
            metric_type,
            fully_qualified_name: fully_qualified_name.to_owned(),
            static_labels: Vec::new(),
            variable_labels: Vec::new(),
        };
        assert(r@.static_labels =~= Seq::empty());
        assert(r@.variable_labels =~= Seq::empty());
        r
    }

    pub fn get_fully_qualified_name(&self) -> (r: &str)
        ensures
            descriptor_valid(self@),
            r@ == self@.name,
    {
        proof {
            use_type_invariant(self);
        }
        self.fully_qualified_name.as_str()
    }

    pub fn get_metric_help(&self) -> (r: &str)
        ensures
            r@ == self@.help,
    {
        self.metric_help.as_str()
    }

    pub fn get_metric_type(&self) -> (r: MetricType)
        ensures
            r == self@.metric_type,
    {
        self.metric_type
    }

    pub fn get_static_labels(&self) -> (r: &[MetricLabel])
        ensures
            descriptor_valid(self@),
            r@.map_values(|l: MetricLabel| l@) == self@.static_labels,
    {
        proof {
            use_type_invariant(self);
        }
        self.static_labels.as_slice()
    }

    pub fn get_variable_labels(&self) -> (r: &[String])
        ensures
            descriptor_valid(self@),
            string_views(r@) == self@.variable_labels,
    {
        proof {
            use_type_invariant(self);
        }
        self.variable_labels.as_slice()
    }
}

/// Whether the key at `i` equals one of the keys before it.
fn repeats_before(names: &Vec<&String>, i: usize, Ghost(keys): Ghost<Seq<Seq<char>>>) -> (r: bool)
    requires
        i < names@.len(),
        names@.len() == keys.len(),
        forall|k: int| 0 <= k < keys.len() ==> #[trigger] names@[k]@ == keys[k],
    ensures
        r == repeats_earlier(keys, i as int),
{
    for j in 0..i
        invariant
            i < names@.len(),
            names@.len() == keys.len(),
            forall|k: int| 0 <= k < keys.len() ==> #[trigger] names@[k]@ == keys[k],
            forall|k: int| 0 <= k < j ==> keys[k] != keys[i as int],
    {
        if *names[j] == *names[i] {
            assert(keys[j as int] == keys[i as int]);
            return true;
        }
    }
    false
}

/// Accumulates the parts of a descriptor; validation waits for `build`.
pub struct MetricDescriptorBuilder {
    metric_help: String,
    metric_type: MetricType,
    fully_qualified_name: String,
    static_labels: Vec<MetricLabel>,
    variable_labels: Vec<String>,
}

impl View for MetricDescriptorBuilder {
    type V = DescriptorModel;

    closed spec fn view(&self) -> DescriptorModel {
        DescriptorModel {
            name: self.fully_qualified_name@,
            help: self.metric_help@,
            metric_type: self.metric_type,
            static_labels: self.static_labels@.map_values(|l: MetricLabel| l@),
            variable_labels: string_views(self.variable_labels@),
        }
    }
}

impl MetricDescriptorBuilder {
    /// Validates the accumulated parts. Duplicate label keys are looked for
    /// first, over all keys; then each key, and last the name, must be a
    /// valid identifier. The first problem found is reported.
    pub fn build(self) -> (r: Result<Arc<MetricDescriptor>, PrometheusError>)
        ensures
            ({
                let keys = label_keys(self@);
                match r {
                    Ok(d) => descriptor_valid(self@) && (*d)@ == self@,
                    Err(PrometheusError::DuplicateLabelName(k)) => exists|i: int|
                        0 <= i < keys.len() && repeats_earlier(keys, i) && distinct_upto(keys, i)
                            && k@ == keys[i],
                    Err(PrometheusError::MalformedName(k)) => distinct_upto(keys, keys.len() as int)
                        && ((exists|i: int|
                        0 <= i < keys.len() && !valid_ident(keys[i]) && valid_upto(keys, i)
                            && k@ == keys[i]) || (valid_upto(keys, keys.len() as int)
                        && !valid_ident(self@.name) && k@ == self@.name)),
                    Err(_) => false,
                }
            }),
    {
        let ghost keys = label_keys(self@);
        let mut names: Vec<&String> = Vec::new();
        let n_static = self.static_labels.len();
        for i in 0..n_static
            invariant
                n_static == self.static_labels@.len(),
                keys == label_keys(self@),
                names@.len() == i,
                forall|k: int| 0 <= k < i ==> #[trigger] names@[k]@ == keys[k],
        {
            names.push(&self.static_labels[i].key);
        }
        let n_var = self.variable_labels.len();
        for i in 0..n_var
            invariant
                n_static == self.static_labels@.len(),
                n_var == self.variable_labels@.len(),
                keys == label_keys(self@),
                names@.len() == n_static + i,
                forall|k: int| 0 <= k < n_static + i ==> #[trigger] names@[k]@ == keys[k],
        {
            names.push(&self.variable_labels[i]);
        }
        let n = names.len();
        assert(n == keys.len());
        for i in 0..n
            invariant
                keys == label_keys(self@),
                n == names@.len(),
                n == keys.len(),
                forall|k: int| 0 <= k < n ==> #[trigger] names@[k]@ == keys[k],
                distinct_upto(keys, i as int),
        {
            if repeats_before(&names, i, Ghost(keys)) {
                let key = (*names[i]).clone();
                assert(exists|x: int|
                    0 <= x < keys.len() && repeats_earlier(keys, x) && distinct_upto(keys, x)
                        && key@ == keys[x]) by {
                    assert(key@ == keys[i as int]);
                }
                return Err(PrometheusError::DuplicateLabelName(key));
            }
        }
        for i in 0..n
            invariant
                keys == label_keys(self@),
                n == names@.len(),
                n == keys.len(),
                forall|k: int| 0 <= k < n ==> #[trigger] names@[k]@ == keys[k],
                distinct_upto(keys, n as int),
                valid_upto(keys, i as int),
        {
            if !is_valid_ident(names[i].as_str()) {
                let key = (*names[i]).clone();
                assert(!valid_ident(keys[i as int]) && key@ == keys[i as int]);
                assert(exists|x: int|
                    0 <= x < keys.len() && !valid_ident(keys[x]) && valid_upto(keys, x)
                        && key@ == keys[x]);
                return Err(PrometheusError::MalformedName(key));
            }
        }
        if !is_valid_ident(self.fully_qualified_name.as_str()) {
            return Err(PrometheusError::MalformedName(self.fully_qualified_name));
        }
        Ok(
            Arc::new(
                MetricDescriptor {
                    metric_help: self.metric_help,
                    metric_type: self.metric_type,
                    fully_qualified_name: self.fully_qualified_name,
                    static_labels: self.static_labels,
                    variable_labels: self.variable_labels,
                },
            ),
        )
    }

    /// Appends a static label.
    pub fn static_label(self, label: MetricLabel) -> (r: Self)
        ensures
            r@ == (DescriptorModel {
                static_labels: self@.static_labels.push(label@),
                ..self@
            }),
    {
        let mut b = self;
        b.static_labels.push(label);
        assert(b@.static_labels =~= self@.static_labels.push(label@));
        b
    }

    /// Appends the name of a variable label.
    pub fn variable_label(self, variable_key: &str) -> (r: Self)
        ensures
            r@ == (DescriptorModel {
                variable_labels: self@.variable_labels.push(variable_key@),
                ..self@
            }),
    {
        let mut b = self;
        b.variable_labels.push(variable_key.to_owned());
        assert(b@.variable_labels =~= self@.variable_labels.push(variable_key@));
        b
    }
}

/// A metric fits a descriptor when it has the descriptor's type and one
/// label value for each variable-label name.
pub open spec fn metric_fits(d: DescriptorModel, m: MetricModel) -> bool {
    m.metric_type == d.metric_type && m.labels.len() == d.variable_labels.len()
}

/// A collection seen from outside: its descriptor and its metrics in order.
pub struct CollectionModel {
    pub descriptor: DescriptorModel,
    pub metrics: Seq<MetricModel>,
}

/// The invariant of a collection: a valid descriptor, and metrics that all fit it.
pub open spec fn collection_valid(c: CollectionModel) -> bool {
    &&& descriptor_valid(c.descriptor)
    &&& forall|i: int| 0 <= i < c.metrics.len() ==> #[trigger] metric_fits(c.descriptor, c.metrics[i])
}

/// A collection that still accepts metrics.
pub struct MetricCollectionMut {
    descriptor: Arc<MetricDescriptor>,
    values: Vec<Metric>,
}

impl View for MetricCollectionMut {
    type V = CollectionModel;

    closed spec fn view(&self) -> CollectionModel {
        CollectionModel {
            descriptor: (*self.descriptor)@,
            metrics: self.values@.map_values(|m: Metric| m@),
        }
    }
}

impl MetricCollectionMut {

    /// Appends `metric` if it fits the descriptor. A wrong type is reported
    /// before a wrong number of label values; on error nothing changes.
    pub fn add_metric(&mut self, metric: Metric) -> (r: Result<(), PrometheusError>)
        requires
            collection_valid(old(self)@),
        ensures
            collection_valid(final(self)@),
            ({
                let d = old(self)@.descriptor;
                match r {
                    Ok(()) => metric_fits(d, metric@) && final(self)@ == (CollectionModel {
                        metrics: old(self)@.metrics.push(metric@),
                        ..old(self)@
                    }),
                    Err(PrometheusError::IncorrectMetricType(expected, actual)) => expected
                        == d.metric_type && actual == metric@.metric_type && expected != actual
                        && final(self)@ == old(self)@,
                    Err(PrometheusError::IncorrectLabelCount(expected, actual)) => metric@.metric_type
                        == d.metric_type && expected == d.variable_labels.len() && actual
                        == metric@.labels.len() && expected != actual && final(self)@ == old(self)@,
                    Err(_) => false,
                }
            }),
    {
        let expected_type = self.descriptor.get_metric_type();
        let actual_type = metric.get_value().get_type();
        if expected_type != actual_type {
            return Err(PrometheusError::IncorrectMetricType(expected_type, actual_type));
        }
        let expected_count = self.descriptor.get_variable_labels().len();
        let actual_count = metric.get_variable_labels().len();
        if expected_count != actual_count {
            return Err(PrometheusError::IncorrectLabelCount(expected_count, actual_count));
        }
        let ghost m = metric@;
        self.values.push(metric);
        assert(self@.metrics =~= old(self)@.metrics.push(m));
        Ok(())
    }

    /// Ends the filling: the result is an immutable, shareable snapshot.
    pub fn freeze(self) -> (r: MetricCollection)
        requires
            collection_valid(self@),
        ensures
            r@ == self@,
    {
        MetricCollection { inner: Arc::new(self) }
    }
}

/// An immutable snapshot of observations for one descriptor, shared by
/// reference count.
pub struct MetricCollection {
    inner: Arc<MetricCollectionMut>,
}

impl MetricCollection {
    #[verifier::type_invariant]
    spec fn inv(&self) -> bool {
        collection_valid((*self.inner)@)
    }
}

impl View for MetricCollection {
    type V = CollectionModel;

    closed spec fn view(&self) -> CollectionModel {
        (*self.inner)@
    }
}

impl MetricCollection {
    /// Starts an empty collection for `descriptor`.
    pub fn new_collection(descriptor: Arc<MetricDescriptor>) -> (r: MetricCollectionMut)
        ensures
            r@ == (CollectionModel { descriptor: (*descriptor)@, metrics: Seq::empty() }),
            collection_valid(r@),
    {
        proof {
            use_type_invariant(&*descriptor);
        }
        let r = MetricCollectionMut { descriptor, values: Vec::new() };
        assert(r@.metrics =~= Seq::empty());
        r
    }

    pub fn get_descriptor(&self) -> (r: &MetricDescriptor)
        ensures
            r@ == self@.descriptor,
            collection_valid(self@),
    {
        proof {
            use_type_invariant(self);
        }
        &self.inner.descriptor
    }

    pub fn get_metrics(&self) -> (r: &[Metric])
        ensures
            r@.map_values(|m: Metric| m@) == self@.metrics,
    {
        self.inner.values.as_slice()
    }

    /// Another handle on the same snapshot.
    pub fn share(&self) -> (r: MetricCollection)
        ensures
            r@ == self@,
    {
        proof {
            use_type_invariant(self);
        }
        MetricCollection { inner: Arc::clone(&self.inner) }
    }
}

} // verus!
