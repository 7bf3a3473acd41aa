//! What the visible session has cost so far.

use vstd::prelude::*;

use crate::chrome::figures::{cost_string, cost_text, tokens_string, tokens_text};
use crate::domain::SessionMetrics;
use crate::text::{cat2, decimal, decimal_string};
use crate::views::views;

verus! {

/// A cost in dollars, from millionths of a dollar.
pub fn format_cost(cost_microusd: u64) -> (r: String)
    ensures
        r@ == cost_text(cost_microusd),
{
    cost_string(cost_microusd)
}

/// A count of tokens, shortened so that it does not grow as a session does.
pub fn format_tokens(tokens: u64) -> (r: String)
    ensures
        r@ == tokens_text(tokens),
{
    tokens_string(tokens)
}

/// The figures of a session, in reading order.
pub open spec fn figures_of(metrics: SessionMetrics) -> Seq<Seq<char>> {
    seq![
        cost_text(metrics.cost_microusd),
        tokens_text(metrics.total_tokens) + " tok"@,
        decimal(metrics.total_messages as nat) + " msg"@,
    ]
}

/// The figures of a session, in reading order.
pub fn figures(metrics: &SessionMetrics) -> (r: Vec<String>)
    ensures
        views(r@) == figures_of(*metrics),
{
    let mut segments: Vec<String> = Vec::new();
    segments.push(format_cost(metrics.cost_microusd));
    segments.push(cat2(format_tokens(metrics.total_tokens).as_str(), " tok"));
    segments.push(cat2(decimal_string(metrics.total_messages).as_str(), " msg"));
    proof {
        assert(views(segments@) =~= figures_of(*metrics));
    }
    segments
}

/// Cost, tokens and messages of the visible session.
#[derive(Clone, Copy, Debug, PartialEq, Eq, Structural)]
pub struct SessionMeter {
    pub metrics: SessionMetrics,
}

impl SessionMeter {
    /// The meter of a session that has reported anything; zeroes would read as a
    /// measurement.
    pub fn from_metrics(metrics: Option<&SessionMetrics>) -> (r: Option<SessionMeter>)
        ensures
            r == match metrics {
                Some(metrics) => Some(SessionMeter { metrics: *metrics }),
                None => None,
            },
    {
        match metrics {
            Some(metrics) => Some(SessionMeter { metrics: *metrics }),
            None => None,
        }
    }

    /// The figures, in reading order.
    pub fn segments(&self) -> (r: Vec<String>)
        ensures
            views(r@) == figures_of(self.metrics),
    {
        figures(&self.metrics)
    }
}

} // verus!
