//! Registration of metrics with the installed `metrics` recorder. A receipt is made only here,
//! by the call that registers its metric.
use vstd::prelude::*;

verus! {

/// The kind of a metric.
#[derive(Clone, Copy, PartialEq, Eq, Structural)]
pub enum MetricKind {
    Gauge,
    Counter,
}

/// The record of one registration made with the recorder: its kind, name and description.
pub struct Receipt {
    kind: MetricKind,
    name: &'static str,
    description: &'static str,
}

impl Receipt {
    /// The registration this receipt records: kind, name and description.
    pub closed spec fn def(&self) -> (MetricKind, Seq<char>, Seq<char>) {
        (self.kind, self.name@, self.description@)
    }

    /// The kind of the registered metric.
    pub fn kind(&self) -> (r: MetricKind)
        ensures
            r == self.def().0,
    {
        self.kind
    }

    /// The name of the registered metric.
    pub fn name(&self) -> (r: &'static str)
        ensures
            r@ == self.def().1,
    {
        self.name
    }

    /// The description of the registered metric.
    pub fn description(&self) -> (r: &'static str)
        ensures
            r@ == self.def().2,
    {
        self.description
    }
}

/// Registers a gauge with the installed `metrics` recorder (the no-op recorder if none is
/// installed) and returns the receipt of that registration.
///
/// Trusted: calls `metrics::Recorder::register_gauge` on `metrics::recorder()` with the key
/// named `name`, no unit and the description `description`; the receipt records exactly these.
#[verifier::external_body]
pub(crate) fn register_gauge(name: &'static str, description: &'static str) -> (r: Receipt)
    ensures
        r.def() == (MetricKind::Gauge, name@, description@),
{
    ::metrics::recorder().register_gauge(&::metrics::Key::from_static_name(name), None, Some(description));
    Receipt { kind: MetricKind::Gauge, name, description }
}

/// Registers a counter with the installed `metrics` recorder (the no-op recorder if none is
/// installed) and returns the receipt of that registration.
///
/// Trusted: calls `metrics::Recorder::register_counter` on `metrics::recorder()` with the key
/// named `name`, no unit and the description `description`; the receipt records exactly these.
#[verifier::external_body]
pub(crate) fn register_counter(name: &'static str, description: &'static str) -> (r: Receipt)
    ensures
        r.def() == (MetricKind::Counter, name@, description@),
{
    ::metrics::recorder().register_counter(&::metrics::Key::from_static_name(name), None, Some(description));
    Receipt { kind: MetricKind::Counter, name, description }
}

} // verus!
