//! The errors that building and filling the data model can raise.

use vstd::prelude::*;
use crate::metrics::{type_text, MetricType};
use crate::utils::{decimal, push_char, write_decimal};

verus! {

/// Declares `std::io::Error`, carried opaque by the error that a failing sink raises.
#[verifier::external_type_specification]
#[verifier::external_body]
pub struct ExIoError(std::io::Error);

/// What can go wrong when building descriptors, filling collections, or
/// writing encoded output to a sink.
#[derive(Debug)]
pub enum PrometheusError {
    DuplicateLabelName(String),
    IncorrectLabelCount(usize, usize),
    IncorrectMetricType(MetricType, MetricType),
    IoError(std::io::Error),
    MalformedName(String),
}

impl From<std::io::Error> for PrometheusError {
    fn from(error: std::io::Error) -> (r: Self)
        ensures
            r == PrometheusError::IoError(error),
    {
        PrometheusError::IoError(error)
    }
}

impl vstd::std_specs::convert::FromSpecImpl<std::io::Error> for PrometheusError {
    open spec fn obeys_from_spec() -> bool {
        true
    }

    open spec fn from_spec(v: std::io::Error) -> PrometheusError {
        PrometheusError::IoError(v)
    }
}

impl PrometheusError {
    /// A one-line description of the error.
    pub fn to_string(&self) -> (r: String)
        ensures
            match self {
                PrometheusError::DuplicateLabelName(label) => r@ == "Duplicate label name: '"@
                    + label@ + seq!['\''],
                PrometheusError::IncorrectLabelCount(expected, actual) => r@
                    == "Incorrect label count. Expected: "@ + decimal(*expected as nat)
                    + ", Actual: "@ + decimal(*actual as nat),
                PrometheusError::IncorrectMetricType(expected, actual) => r@
                    == "Incorrect metric type. Expected: "@ + type_text(*expected) + ", Actual: "@
                    + type_text(*actual),
                PrometheusError::IoError(_) => "Io Error: "@.is_prefix_of(r@),
                PrometheusError::MalformedName(name) => r@ == "Malformed ident name: '"@ + name@
                    + seq!['\''],
            },
    {
        let mut out = String::new();
        match self {
            PrometheusError::DuplicateLabelName(label) => {
                out.append("Duplicate label name: '");
                out.append(label.as_str());
                push_char(&mut out, '\'');
            },
            PrometheusError::IncorrectLabelCount(expected, actual) => {
                out.append("Incorrect label count. Expected: ");
                write_decimal(&mut out, *expected as u64);
                out.append(", Actual: ");
                write_decimal(&mut out, *actual as u64);
            },
            PrometheusError::IncorrectMetricType(expected, actual) => {
                out.append("Incorrect metric type. Expected: ");
                out.append(expected.as_str());
                out.append(", Actual: ");
                out.append(actual.as_str());
            },
            PrometheusError::IoError(error) => {
                out.append("Io Error: ");
                let ghost prefix = out@;
                let text = error.to_string();
                out.append(text.as_str());
                assert(prefix.is_prefix_of(out@)) by {
                    assert(out@.subrange(0, prefix.len() as int) =~= prefix);
                }
            },
            PrometheusError::MalformedName(name) => {
                out.append("Malformed ident name: '");
                out.append(name.as_str());
                push_char(&mut out, '\'');
            },
        }
        out
    }
}

} // verus!
