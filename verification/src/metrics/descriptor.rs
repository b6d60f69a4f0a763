//! Descriptions of metrics.
//!
//! The bounds of buckets are decimal fractions; they are held in millionths of
//! the metric's unit.

use crate::text;
use crate::text::owned;
use vstd::prelude::*;

verus! {

/// Where the buckets of a histogram end.
#[derive(Debug, PartialEq, Eq)]
pub enum Buckets {
    /// At the given bounds, in millionths.
    Bounds(Vec<u64>),
    /// At so many bounds, of which the first is given, in millionths, and each
    /// further one is so many times the one before.
    Exponential {
        /// The first bound in millionths.
        start: u64,
        /// How many times the one before each bound is.
        factor: u64,
        /// How many bounds there are.
        count: u64,
    },
    /// There are none: the metric is a gauge.
    Gauge,
}

/// Where the buckets end, as mathematics.
pub enum BucketsView {
    /// At the given bounds.
    Bounds(Seq<u64>),
    /// At bounds each of which is so many times the one before.
    Exponential {
        /// The first bound.
        start: u64,
        /// How many times the one before each bound is.
        factor: u64,
        /// How many bounds there are.
        count: u64,
    },
    /// There are none.
    Gauge,
}

impl Buckets {
    /// The buckets as mathematics.
    pub open spec fn view(&self) -> BucketsView {
        match self {
            Buckets::Bounds(v) => BucketsView::Bounds(v@),
            Buckets::Exponential { start, factor, count } => BucketsView::Exponential {
                start: *start,
                factor: *factor,
                count: *count,
            },
            Buckets::Gauge => BucketsView::Gauge,
        }
    }
}

/// A power.
pub open spec fn power(base: nat, exponent: nat) -> nat
    decreases exponent,
{
    if exponent == 0 {
        1
    } else {
        base * power(base, (exponent - 1) as nat)
    }
}

impl BucketsView {
    /// How many bounds there are.
    pub open spec fn len(self) -> nat {
        match self {
            BucketsView::Bounds(s) => s.len(),
            BucketsView::Exponential { count, .. } => count as nat,
            BucketsView::Gauge => 0,
        }
    }

    /// A bound, in millionths.
    pub open spec fn bound(self, i: int) -> int {
        match self {
            BucketsView::Bounds(s) => s[i] as int,
            BucketsView::Exponential { start, factor, .. } => start * power(
                factor as nat,
                i as nat,
            ),
            BucketsView::Gauge => 0,
        }
    }

    /// Whether every bound is above the one before.
    pub open spec fn increasing(self) -> bool {
        forall|i: int, j: int|
            #![trigger self.bound(i), self.bound(j)]
            0 <= i < j < self.len() ==> self.bound(i) < self.bound(j)
    }
}

proof fn power_grows(base: nat, i: nat, j: nat)
    requires
        base > 1,
        i < j,
    ensures
        0 < power(base, i) < power(base, j),
    decreases j,
{
    power_positive(base, i);
    let rest = (j - 1) as nat;
    power_positive(base, rest);
    if i < rest {
        power_grows(base, i, rest);
    }
    assert(base * power(base, rest) > power(base, rest)) by (nonlinear_arith)
        requires
            base > 1,
            power(base, rest) > 0,
    ;
}

proof fn power_positive(base: nat, i: nat)
    requires
        base > 0,
    ensures
        power(base, i) > 0,
    decreases i,
{
    if i > 0 {
        let rest = (i - 1) as nat;
        power_positive(base, rest);
        assert(base * power(base, rest) > 0) by (nonlinear_arith)
            requires
                base > 0,
                power(base, rest) > 0,
        ;
    }
}

/// Exponential buckets grow where the first bound is not zero and each is more
/// than once the one before.
pub proof fn exponential_increasing(start: u64, factor: u64, count: u64)
    requires
        start > 0,
        factor > 1,
    ensures
        (BucketsView::Exponential { start, factor, count }).increasing(),
{
    let b = BucketsView::Exponential { start, factor, count };
    assert forall|i: int, j: int|
        #![trigger b.bound(i), b.bound(j)]
        0 <= i < j < b.len() implies b.bound(i) < b.bound(j) by {
        power_grows(factor as nat, i as nat, j as nat);
        let x = power(factor as nat, i as nat);
        let y = power(factor as nat, j as nat);
        assert(start * x < start * y) by (nonlinear_arith)
            requires
                start > 0,
                x < y,
        ;
    }
}

/// A metric: its name, what it says, its labels and its buckets.
#[derive(Debug, PartialEq, Eq)]
pub struct MetricSpec {
    /// The name.
    pub name: String,
    /// What the metric says.
    pub help: String,
    /// The label by which it is divided, where it is.
    pub label: Option<String>,
    /// Where its buckets end.
    pub buckets: Buckets,
}

/// A metric as mathematics.
pub struct MetricView {
    /// The name.
    pub name: Seq<char>,
    /// What the metric says.
    pub help: Seq<char>,
    /// The label by which it is divided.
    pub label: Option<Seq<char>>,
    /// Where its buckets end.
    pub buckets: BucketsView,
}

impl MetricSpec {
    /// The metric as mathematics.
    pub open spec fn view(&self) -> MetricView {
        MetricView {
            name: self.name@,
            help: self.help@,
            label: match self.label {
                Some(l) => Some(l@),
                None => None,
            },
            buckets: self.buckets@,
        }
    }
}

/// The views of a sequence of metrics.
pub open spec fn metric_views(specs: Seq<MetricSpec>) -> Seq<MetricView> {
    Seq::new(specs.len(), |i: int| specs[i]@)
}

/// Describes a metric.
pub fn describe(name: String, help: &str, label: Option<&str>, buckets: Buckets) -> (res:
    MetricSpec)
    ensures
        res@ == (MetricView {
            name: name@,
            help: help@,
            label: match label {
                Some(l) => Some(l@),
                None => None,
            },
            buckets: buckets@,
        }),
{
    let label = match label {
        Some(l) => Some(owned(l)),
        None => None,
    };
    MetricSpec { name, help: owned(help), label, buckets }
}

} // verus!
