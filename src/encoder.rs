//! The plaintext exposition format.

use vstd::prelude::*;
use crate::metrics::{
    collection_valid, metric_fits, type_text, CollectionModel, DescriptorModel, Metric,
    MetricCollection, MetricDescriptor, MetricModel, MetricValue,
};
use crate::utils::{escape, push_char, write_escaped_string, write_signed_decimal};

verus! {

/// One member of a label block: its separator, the key, and the escaped value in quotes.
pub open spec fn label_entry(sep: char, key: Seq<char>, value: Seq<char>) -> Seq<char> {
    seq![sep] + key + seq!['=', '"'] + escape(value) + seq!['"']
}

/// The labels of one sample line: the static labels, then each variable-label
/// name paired with the metric's value at the same position.
pub open spec fn sample_labels(d: DescriptorModel, m: MetricModel) -> Seq<(Seq<char>, Seq<char>)> {
    d.static_labels + Seq::new(
        d.variable_labels.len(),
        |i: int| (d.variable_labels[i], m.labels[i]),
    )
}

/// The members of a label block, the first opened by `{`, the others by `,`.
pub open spec fn label_entries(pairs: Seq<(Seq<char>, Seq<char>)>) -> Seq<char>
    decreases pairs.len(),
{
    if pairs.len() == 0 {
        Seq::empty()
    } else {
        let sep = if pairs.len() == 1 {
            '{'
        } else {
            ','
        };
        label_entries(pairs.drop_last()) + label_entry(sep, pairs.last().0, pairs.last().1)
    }
}

/// The label block: nothing when there are no labels, else the members and a closing `}`.
pub open spec fn label_block(pairs: Seq<(Seq<char>, Seq<char>)>) -> Seq<char> {
    if pairs.len() == 0 {
        Seq::empty()
    } else {
        label_entries(pairs) + seq!['}']
    }
}

/// The line of one metric: name, label block, a space, the value, a newline.
pub open spec fn sample_line(d: DescriptorModel, m: MetricModel) -> Seq<char> {
    d.name + label_block(sample_labels(d, m)) + seq![' '] + m.text + seq!['\n']
}

/// The lines of the metrics of one collection, in order.
pub open spec fn sample_lines(d: DescriptorModel, ms: Seq<MetricModel>) -> Seq<char>
    decreases ms.len(),
{
    if ms.len() == 0 {
        Seq::empty()
    } else {
        sample_lines(d, ms.drop_last()) + sample_line(d, ms.last())
    }
}

/// The HELP and TYPE lines of a collection.
pub open spec fn header(d: DescriptorModel) -> Seq<char> {
    "# HELP "@ + d.name + seq![' '] + escape(d.help) + seq!['\n'] + "# TYPE "@ + d.name + seq![' ']
        + type_text(d.metric_type) + seq!['\n']
}

/// The text of one collection: its header, then one line per metric.
pub open spec fn collection_text(c: CollectionModel) -> Seq<char> {
    header(c.descriptor) + sample_lines(c.descriptor, c.metrics)
}

/// The text of a sequence of collections, one after the other with nothing between.
pub open spec fn exposition(cs: Seq<CollectionModel>) -> Seq<char>
    decreases cs.len(),
{
    if cs.len() == 0 {
        Seq::empty()
    } else {
        exposition(cs.drop_last()) + collection_text(cs.last())
    }
}

/// Writes collections in the plaintext exposition format.
pub struct TextEncoder {}

impl TextEncoder {
    pub fn new() -> (r: TextEncoder) {
        TextEncoder {  }
    }

    fn write_label(out: &mut String, sep: char, key: &str, value: &str)
        ensures
            final(out)@ == old(out)@ + label_entry(sep, key@, value@),
    {
        push_char(out, sep);
        out.append(key);
        push_char(out, '=');
        push_char(out, '"');
        write_escaped_string(out, value);
        push_char(out, '"');
        assert(final(out)@ =~= old(out)@ + label_entry(sep, key@, value@));
    }

    fn encode_metric_value(
        &self,
        out: &mut String,
        descriptor: &MetricDescriptor,
        metric: &Metric,
    )
        requires
            metric_fits(descriptor@, metric@),
        ensures
            final(out)@ == old(out)@ + sample_line(descriptor@, metric@),
    {
        let ghost d = descriptor@;
        let ghost m = metric@;
        let ghost pairs = sample_labels(d, m);
        out.append(descriptor.get_fully_qualified_name());
        let ghost named = out@;
        let static_labels = descriptor.get_static_labels();
        let variable_labels = descriptor.get_variable_labels();
        let values = metric.get_variable_labels();
        let n_static = static_labels.len();
        let n_var = variable_labels.len();
        if n_static != 0 || n_var != 0 {
            for i in 0..n_static
                invariant
                    n_static == d.static_labels.len(),
                    static_labels@.map_values(|l: crate::metrics::MetricLabel| l@) == d.static_labels,
                    pairs == sample_labels(d, m),
                    out@ == named + label_entries(pairs.take(i as int)),
            {
                let sep = if i == 0 {
                    '{'
                } else {
                    ','
                };
                let label = &static_labels[i];
                Self::write_label(out, sep, label.get_key(), label.get_value());
                assert(pairs.take(i + 1).drop_last() =~= pairs.take(i as int));
                assert(pairs[i as int] == d.static_labels[i as int]);
            }
            for j in 0..n_var
                invariant
                    n_static == d.static_labels.len(),
                    n_var == d.variable_labels.len(),
                    n_var == m.labels.len(),
                    crate::metrics::string_views(variable_labels@) == d.variable_labels,
                    crate::metrics::string_views(values@) == m.labels,
                    pairs == sample_labels(d, m),
                    out@ == named + label_entries(pairs.take(n_static + j)),
            {
                let sep = if j == 0 && n_static == 0 {
                    '{'
                } else {
                    ','
                };
                Self::write_label(out, sep, variable_labels[j].as_str(), values[j].as_str());
                assert(pairs.take(n_static + j + 1).drop_last() =~= pairs.take(n_static + j));
                assert(pairs[n_static + j] == (d.variable_labels[j as int], m.labels[j as int]));
            }
            push_char(out, '}');
            assert(pairs.take(pairs.len() as int) =~= pairs);
        }
        push_char(out, ' ');
        match metric.get_value() {
            MetricValue::Counter(t) | MetricValue::Gauge(t) => {
                out.append(t.as_str());
            },
            MetricValue::IntCounter(v) | MetricValue::IntGauge(v) => {
                write_signed_decimal(out, *v);
            },
        }
        push_char(out, '\n');
        assert(final(out)@ =~= old(out)@ + sample_line(d, m));
    }

    /// Renders `metric_collections` in order: for each, its HELP and TYPE
    /// lines, then one line per metric.
    pub fn encode(&self, metric_collections: &[MetricCollection]) -> (r: String)
        ensures
            r@ == exposition(metric_collections@.map_values(|c: MetricCollection| c@)),
    {
        let ghost cs = metric_collections@.map_values(|c: MetricCollection| c@);
        let mut out = String::new();
        for k in 0..metric_collections.len()
            invariant
                cs == metric_collections@.map_values(|c: MetricCollection| c@),
                out@ == exposition(cs.take(k as int)),
        {
            let collection = &metric_collections[k];
            let descriptor = collection.get_descriptor();
            let name = descriptor.get_fully_qualified_name();
            let ghost before = out@;
            out.append("# HELP ");
            out.append(name);
            push_char(&mut out, ' ');
            write_escaped_string(&mut out, descriptor.get_metric_help());
            push_char(&mut out, '\n');
            out.append("# TYPE ");
            out.append(name);
            push_char(&mut out, ' ');
            out.append(descriptor.get_metric_type().as_str());
            push_char(&mut out, '\n');
            let ghost d = descriptor@;
            assert(out@ =~= before + header(d));
            let ghost headed = out@;
            let metrics = collection.get_metrics();
            for i in 0..metrics.len()
                invariant
                    metrics@.map_values(|m: Metric| m@) == collection@.metrics,
                    d == collection@.descriptor,
                    descriptor@ == d,
                    collection_valid(collection@),
                    out@ == headed + sample_lines(d, collection@.metrics.take(i as int)),
            {
                let ghost ms = collection@.metrics;
                assert(metrics@[i as int]@ == ms[i as int]);
                assert(metric_fits(d, ms[i as int]));
                self.encode_metric_value(&mut out, descriptor, &metrics[i]);
                assert(ms.take(i + 1).drop_last() =~= ms.take(i as int));
            }
            assert(collection@.metrics.take(metrics@.len() as int) =~= collection@.metrics);
            assert(cs.take(k + 1).drop_last() =~= cs.take(k as int));
            assert(out@ =~= exposition(cs.take(k + 1)));
        }
        assert(cs.take(metric_collections@.len() as int) =~= cs);
        out
    }
}

} // verus!
