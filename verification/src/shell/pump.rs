//! Events on their way from the sessions to the view.

use vstd::prelude::*;

use crate::mailbox::SessionToken;
use crate::text::{opt_str, same_opt};

verus! {

/// How many events one visit to the main thread takes.
pub const BATCH: usize = 64;

/// Whether an event belongs to the visible session.
pub fn is_active(active_key: Option<&str>, key: &str) -> (r: bool)
    ensures
        r == (opt_str(active_key) == Some(key@)),
{
    same_opt(active_key, Some(key))
}

/// Whether `labels` are what `key_for` said of the tokens, one after the other.
pub open spec fn were_labelled<E, F: Fn(SessionToken) -> Option<String>>(
    key_for: F,
    batch: Seq<(SessionToken, E)>,
    labels: Seq<Option<String>>,
) -> bool {
    labels.len() == batch.len() && forall|i: int|
        0 <= i < batch.len() ==> call_ensures(key_for, (batch[i].0,), #[trigger] labels[i])
}

/// The events of a batch whose sessions are still there, each under the key that
/// its session has now, for the first `n` of them.
pub open spec fn labelled<E>(
    batch: Seq<(SessionToken, E)>,
    labels: Seq<Option<String>>,
    n: nat,
) -> Seq<(Seq<char>, E)>
    decreases n,
{
    if n == 0 {
        Seq::empty()
    } else {
        let before = labelled(batch, labels, (n - 1) as nat);
        match labels[n - 1] {
            Some(key) => before.push((key@, batch[n - 1].1)),
            None => before,
        }
    }
}

/// What labelled events hold.
pub open spec fn event_views<E>(events: Seq<(String, E)>) -> Seq<(Seq<char>, E)> {
    events.map_values(|event: (String, E)| (event.0@, event.1))
}

/// Drops the events whose sessions are gone, and labels the others with the key
/// that their session has now.
pub fn resolve<E, F: Fn(SessionToken) -> Option<String>>(
    batch: Vec<(SessionToken, E)>,
    key_for: F,
) -> (r: Vec<(String, E)>)
    requires
        forall|token: SessionToken| call_requires(key_for, (token,)),
    ensures
        exists|labels: Seq<Option<String>>| #[trigger]
            were_labelled(key_for, batch@, labels) && event_views(r@) == labelled(
                batch@,
                labels,
                batch@.len(),
            ),
{
    let ghost all = batch@;
    let ghost mut labels: Seq<Option<String>> = Seq::empty();
    let mut left = batch;
    let mut events: Vec<(String, E)> = Vec::new();
    let n: usize = left.len();
    let mut i: usize = 0;
    proof {
        assert(left@ =~= all.skip(0));
        assert(event_views(events@) =~= Seq::empty());
    }
    while i < n
        invariant
            i <= n == all.len(),
            left@ == all.skip(i as int),
            labels.len() == i,
            forall|token: SessionToken| call_requires(key_for, (token,)),
            forall|k: int| 0 <= k < i ==> call_ensures(key_for, (all[k].0,), #[trigger] labels[k]),
            event_views(events@) == labelled(all, labels, i as nat),
        decreases n - i,
    {
        let (token, event) = left.remove(0);
        proof {
            assert((token, event) == all[i as int]);
            assert(left@ =~= all.skip(i + 1));
        }
        let label = key_for(token);
        let ghost before = event_views(events@);
        proof {
            let old_labels = labels;
            labels = labels.push(label);
            lemma_labelled_prefix(all, old_labels, label, i as nat);
        }
        if let Some(key) = label {
            let ghost text = key@;
            events.push((key, event));
            proof {
                assert(event_views(events@) =~= before.push((text, event)));
            }
        }
        i = i + 1;
    }
    proof {
        assert(were_labelled(key_for, all, labels));
    }
    events
}

proof fn lemma_labelled_prefix<E>(
    batch: Seq<(SessionToken, E)>,
    labels: Seq<Option<String>>,
    label: Option<String>,
    n: nat,
)
    requires
        n <= labels.len(),
    ensures
        labelled(batch, labels.push(label), n) == labelled(batch, labels, n),
    decreases n,
{
    if n > 0 {
        lemma_labelled_prefix(batch, labels, label, (n - 1) as nat);
        assert(labels.push(label)[n - 1] == labels[n - 1]);
    }
}

} // verus!
