//! Progressive reveal of streaming assistant text.
//!
//! Pi delivers assistant text in bursts. The view reveals it at a steadier rate
//! and catches up when it falls behind. Progress is counted in grapheme clusters
//! and kept beside the conversation, by message. How many clusters a moment of
//! time is worth is a matter of fractions and is handed in; the fraction that a
//! message carries on stays with its progress.

use unicode_segmentation::UnicodeSegmentation;
use vstd::prelude::*;

use crate::domain::{ConversationItem, ItemView};
use crate::keyed::Keyed;
use crate::text::{chars_of, occurs_at, string_of};
use crate::thinking::{
    lemma_shown_is_a_start, lemma_tags_appear_whole, trim_incomplete_tag, without_cut_tag,
};
use crate::views::views;

verus! {

/// The backlog, in grapheme clusters, past which the reveal catches up.
pub const CATCH_UP_BACKLOG: usize = 180;

/// The sum of a list of lengths.
pub open spec fn sum_of(lengths: Seq<nat>) -> nat
    decreases lengths.len(),
{
    if lengths.len() == 0 {
        0
    } else {
        sum_of(lengths.drop_last()) + lengths.last()
    }
}

/// Lengths as natural numbers.
pub open spec fn as_nats(v: Seq<usize>) -> Seq<nat> {
    Seq::new(v.len(), |i: int| v[i] as nat)
}

/// How many characters each grapheme cluster of a text has, as
/// `unicode_segmentation` divides it.
pub uninterp spec fn grapheme_lengths(text: Seq<char>) -> Seq<nat>;

/// `UnicodeSegmentation::graphemes` with extended clusters: how many characters
/// each cluster of `text` has. Where the clusters divide is left to that
/// function; claimed is that it depends on the text alone and that the clusters
/// are the whole text, none of them empty.
#[verifier::external_body]
fn clusters(text: &str) -> (r: Vec<usize>)
    ensures
        as_nats(r@) == grapheme_lengths(text@),
        sum_of(as_nats(r@)) == text@.len(),
        forall|i: int| 0 <= i < r@.len() ==> #[trigger] r@[i] > 0,
{
    text.graphemes(true).map(|cluster| cluster.chars().count()).collect()
}

/// How many grapheme clusters a text has.
pub open spec fn grapheme_count(text: Seq<char>) -> nat {
    grapheme_lengths(text).len()
}

/// The first `n` grapheme clusters of a text, or all of it where it has fewer.
pub open spec fn first_graphemes(text: Seq<char>, n: nat) -> Seq<char> {
    if n >= grapheme_count(text) {
        text
    } else {
        text.take(sum_of(grapheme_lengths(text).take(n as int)) as int)
    }
}

proof fn lemma_sum_grows(lengths: Seq<nat>, i: int)
    requires
        0 <= i <= lengths.len(),
    ensures
        sum_of(lengths.take(i)) <= sum_of(lengths),
    decreases lengths.len() - i,
{
    if i < lengths.len() {
        lemma_sum_grows(lengths, i + 1);
        assert(lengths.take(i + 1).drop_last() =~= lengths.take(i));
    } else {
        assert(lengths.take(i) =~= lengths);
    }
}

/// The text of the first clusters of `text`, given the lengths of all of them.
pub fn prefix_of_clusters(text: &str, lengths: &Vec<usize>, n: usize) -> (r: String)
    requires
        sum_of(as_nats(lengths@)) == text@.len(),
    ensures
        r@ == if n >= lengths@.len() {
            text@
        } else {
            text@.take(sum_of(as_nats(lengths@).take(n as int)) as int)
        },
{
    if n >= lengths.len() {
        return text.to_owned();
    }
    let chars = chars_of(text);
    let ghost all = as_nats(lengths@);
    let total: usize = chars.len();
    let mut end: usize = 0;
    let mut i: usize = 0;
    proof {
        assert(all.take(0) =~= Seq::empty());
    }
    while i < n
        invariant
            i <= n < lengths@.len(),
            all == as_nats(lengths@),
            sum_of(all) == total,
            end == sum_of(all.take(i as int)),
            end <= total,
        decreases n - i,
    {
        proof {
            assert(all.take(i + 1).drop_last() =~= all.take(i as int));
            lemma_sum_grows(all, i + 1);
        }
        end = end + lengths[i];
        i = i + 1;
    }
    let r = string_of(&chars, 0, end);
    proof {
        assert(r@ =~= text@.take(end as int));
    }
    r
}

/// The first `n` grapheme clusters of a text, or all of it where it has fewer.
pub fn grapheme_prefix(text: &str, n: usize) -> (r: String)
    ensures
        r@ == first_graphemes(text@, n as nat),
        r@.len() <= text@.len(),
        r@ == text@.take(r@.len() as int),
{
    let lengths = clusters(text);
    let r = prefix_of_clusters(text, &lengths, n);
    proof {
        if n < lengths@.len() {
            lemma_sum_grows(as_nats(lengths@), n as int);
        }
        assert(r@ =~= text@.take(r@.len() as int));
    }
    r
}

/// Whether the first `n` characters of a text end inside a tag of it.
pub open spec fn cuts_tag(full: Seq<char>, tag: Seq<char>, n: int) -> bool {
    exists|p: int| #[trigger] occurs_at(full, tag, p) && p < n < p + tag.len()
}

/// Whether the first `n` characters of a text end inside one of its reasoning
/// tags.
pub open spec fn ends_inside_tag(full: Seq<char>, n: int) -> bool {
    cuts_tag(full, "<thinking>"@, n) || cuts_tag(full, "</thinking>"@, n)
}

/// How many clusters are shown after a step of `step` more, where `total` are
/// there. Text can shrink when a message is replaced while it streams.
pub open spec fn stepped(revealed: nat, step: nat, total: nat) -> nat {
    let held = if revealed < total {
        revealed
    } else {
        total
    };
    if held + step < total {
        held + step
    } else {
        total
    }
}

/// How far the reveal of a message is.
#[derive(Clone, Copy, Debug, PartialEq, Eq, Structural)]
pub struct Progress {
    /// How many clusters are revealed.
    pub revealed: usize,
    /// The fraction of a cluster that is carried from frame to frame, in the form
    /// in which the pacing keeps it. Zero is nothing.
    pub credit: u32,
}

/// What a moment of time is worth to a message: how many clusters more, and the
/// fraction that is carried on.
#[derive(Clone, Copy, Debug, PartialEq, Eq, Structural)]
pub struct Step {
    pub clusters: usize,
    pub credit: u32,
}

/// How much of each streaming message has been revealed so far.
#[derive(Debug)]
pub struct Typewriter {
    progress: Keyed<Progress>,
}

/// How far the reveal of a message is; one that nothing is known of is at its start.
pub open spec fn progress_of(progress: Map<Seq<char>, Progress>, id: Seq<char>) -> Progress {
    if progress.contains_key(id) {
        progress[id]
    } else {
        Progress { revealed: 0, credit: 0 }
    }
}

/// How many clusters of a message are revealed.
pub open spec fn revealed_of(progress: Map<Seq<char>, Progress>, id: Seq<char>) -> nat {
    progress_of(progress, id).revealed as nat
}

/// How many clusters of a message are not revealed yet.
pub open spec fn backlog_of(progress: Map<Seq<char>, Progress>, message: ItemView) -> nat {
    let total = grapheme_count(message.full_text);
    let revealed = revealed_of(progress, message.id);
    if revealed < total {
        (total - revealed) as nat
    } else {
        0
    }
}

/// The progress of a message that is revealed in full.
pub open spec fn full_progress(message: ItemView) -> Progress {
    Progress { revealed: grapheme_count(message.full_text) as usize, credit: 0 }
}

/// Progress once a message took a step. One that does not stream takes none.
pub open spec fn moved(
    progress: Map<Seq<char>, Progress>,
    message: ItemView,
    step: Step,
) -> Map<Seq<char>, Progress> {
    if message.streaming {
        progress.insert(
            message.id,
            Progress {
                revealed: stepped(
                    revealed_of(progress, message.id),
                    step.clusters as nat,
                    grapheme_count(message.full_text),
                ) as usize,
                credit: step.credit,
            },
        )
    } else {
        progress
    }
}

/// Whether a step reveals more of a message.
pub open spec fn step_reveals(
    progress: Map<Seq<char>, Progress>,
    message: ItemView,
    step: Step,
) -> bool {
    let total = grapheme_count(message.full_text);
    let held = revealed_of(progress, message.id);
    message.streaming && stepped(held, step.clusters as nat, total) != if held < total {
        held
    } else {
        total
    }
}

/// Progress once each of the first `n` messages took its step.
pub open spec fn advanced(
    progress: Map<Seq<char>, Progress>,
    messages: Seq<ItemView>,
    steps: Seq<Step>,
    n: nat,
) -> Map<Seq<char>, Progress>
    decreases n,
{
    if n == 0 {
        progress
    } else {
        moved(
            advanced(progress, messages, steps, (n - 1) as nat),
            messages[n - 1],
            steps[n - 1],
        )
    }
}

/// Whether the steps of the first `n` messages reveal anything.
pub open spec fn some_revealed(
    progress: Map<Seq<char>, Progress>,
    messages: Seq<ItemView>,
    steps: Seq<Step>,
    n: nat,
) -> bool
    decreases n,
{
    n > 0 && (some_revealed(progress, messages, steps, (n - 1) as nat) || step_reveals(
        advanced(progress, messages, steps, (n - 1) as nat),
        messages[n - 1],
        steps[n - 1],
    ))
}

/// Whether `steps` are what `pace` gave the first `n` messages, each in turn for the
/// fraction that it carried and the backlog that it had.
pub open spec fn are_paced<F: Fn(u32, usize) -> Step>(
    pace: F,
    progress: Map<Seq<char>, Progress>,
    messages: Seq<ItemView>,
    steps: Seq<Step>,
    n: nat,
) -> bool {
    &&& steps.len() == n
    &&& forall|i: int|
        0 <= i < n && messages[i].streaming ==> call_ensures(
            pace,
            (
                progress_of(advanced(progress, messages, steps, i as nat), messages[i].id).credit,
                backlog_of(advanced(progress, messages, steps, i as nat), messages[i]) as usize,
            ),
            #[trigger] steps[i],
        )
}

/// Whether a moment that `pace` measures leads from one progress to another, and
/// whether it reveals anything.
pub open spec fn leads_on<F: Fn(u32, usize) -> Step>(
    pace: F,
    messages: Seq<ItemView>,
    before: Map<Seq<char>, Progress>,
    after: Map<Seq<char>, Progress>,
    revealed: bool,
) -> bool {
    exists|steps: Seq<Step>| #[trigger]
        are_paced(pace, before, messages, steps, messages.len()) && after == advanced(
            before,
            messages,
            steps,
            messages.len(),
        ) && revealed == some_revealed(before, messages, steps, messages.len())
}

proof fn lemma_later_steps(
    progress: Map<Seq<char>, Progress>,
    messages: Seq<ItemView>,
    steps: Seq<Step>,
    step: Step,
    n: nat,
)
    requires
        n <= steps.len(),
    ensures
        advanced(progress, messages, steps.push(step), n) == advanced(progress, messages, steps, n),
        some_revealed(progress, messages, steps.push(step), n) == some_revealed(
            progress,
            messages,
            steps,
            n,
        ),
    decreases n,
{
    if n > 0 {
        lemma_later_steps(progress, messages, steps, step, (n - 1) as nat);
    }
}

/// The part of a message to show. A finished message is shown whole.
pub open spec fn shown(progress: Map<Seq<char>, Progress>, message: ItemView) -> Seq<char> {
    if message.streaming {
        without_cut_tag(
            first_graphemes(message.full_text, revealed_of(progress, message.id)),
            message.full_text,
        )
    } else {
        message.full_text
    }
}

impl View for Typewriter {
    type V = Map<Seq<char>, Progress>;

    closed spec fn view(&self) -> Map<Seq<char>, Progress> {
        self.progress@
    }
}

impl Typewriter {
    /// Each message has one progress.
    pub closed spec fn wf(&self) -> bool {
        self.progress.wf()
    }

    /// No progress.
    pub fn new() -> (r: Typewriter)
        ensures
            r.wf(),
            r@ == Map::<Seq<char>, Progress>::empty(),
    {
        Typewriter { progress: Keyed::new() }
    }

    /// How far the reveal of the message called `id` is.
    pub fn progress(&self, id: &str) -> (r: Progress)
        requires
            self.wf(),
        ensures
            r == progress_of(self@, id@),
    {
        match self.progress.get(id) {
            Some(progress) => *progress,
            None => Progress { revealed: 0, credit: 0 },
        }
    }

    /// The part of `message` to show. While it streams, a tag of it is shown whole
    /// or not at all.
    pub fn visible_text(&self, message: &ConversationItem) -> (r: String)
        requires
            self.wf(),
        ensures
            r@ == shown(self@, message@),
            message@.streaming ==> r@.len() <= message@.full_text.len() && r@
                == message@.full_text.take(r@.len() as int) && !ends_inside_tag(
                message@.full_text,
                r@.len() as int,
            ),
    {
        if !message.streaming {
            return message.full_text.clone();
        }
        let revealed: usize = self.progress(message.id.as_str()).revealed;
        let prefix = grapheme_prefix(message.full_text.as_str(), revealed);
        let r = trim_incomplete_tag(prefix.as_str(), message.full_text.as_str());
        proof {
            let full = message@.full_text;
            let n = prefix@.len() as int;
            lemma_shown_is_a_start(full, n);
            assert forall|p: int| #[trigger] occurs_at(full, "<thinking>"@, p) implies !(p < r@.len()
                < p + "<thinking>"@.len()) by {
                lemma_tags_appear_whole(full, n, "<thinking>"@, p);
            }
            assert forall|p: int| #[trigger] occurs_at(full, "</thinking>"@, p) implies !(p
                < r@.len() < p + "</thinking>"@.len()) by {
                lemma_tags_appear_whole(full, n, "</thinking>"@, p);
            }
        }
        r
    }

    /// How many clusters of `message` are not revealed yet.
    pub fn backlog(&self, message: &ConversationItem) -> (r: usize)
        requires
            self.wf(),
        ensures
            r == backlog_of(self@, message@),
    {
        let lengths = clusters(message.full_text.as_str());
        proof {
            assert(as_nats(lengths@).len() == lengths@.len());
        }
        let revealed: usize = self.progress(message.id.as_str()).revealed;
        if revealed < lengths.len() {
            lengths.len() - revealed
        } else {
            0
        }
    }

    /// Shows that `revealed` clusters of the message called `id` are revealed.
    pub fn set_revealed(&mut self, id: &str, revealed: usize)
        requires
            old(self).wf(),
        ensures
            final(self).wf(),
            final(self)@ == old(self)@.insert(
                id@,
                Progress { revealed, ..progress_of(old(self)@, id@) },
            ),
    {
        let progress = self.progress(id);
        self.progress.insert(id.to_owned(), Progress { revealed, credit: progress.credit });
    }

    /// Takes a step of one message, as far as there is text to reveal. Returns
    /// whether anything became visible. A message that is not streaming stays as it
    /// is.
    fn advance_one(&mut self, message: &ConversationItem, step: Step) -> (r: bool)
        requires
            old(self).wf(),
        ensures
            final(self).wf(),
            final(self)@ == moved(old(self)@, message@, step),
            r == step_reveals(old(self)@, message@, step),
    {
        if !message.streaming {
            return false;
        }
        let lengths = clusters(message.full_text.as_str());
        proof {
            assert(as_nats(lengths@).len() == lengths@.len());
        }
        let total: usize = lengths.len();
        let revealed: usize = self.progress(message.id.as_str()).revealed;
        let held: usize = if revealed < total {
            revealed
        } else {
            total
        };
        let next: usize = if step.clusters < total - held {
            held + step.clusters
        } else {
            total
        };
        self.progress.insert(
            message.id.clone(),
            Progress { revealed: next, credit: step.credit },
        );
        next != held
    }

    /// Advances every streaming message by a moment. `pace` says what the moment is
    /// worth to a message, from the fraction that it carries and how many clusters
    /// of it are not revealed yet. Returns whether anything became visible.
    pub fn advance<F: Fn(u32, usize) -> Step>(
        &mut self,
        messages: &[ConversationItem],
        pace: &F,
    ) -> (r: bool)
        requires
            old(self).wf(),
            forall|credit: u32, backlog: usize| call_requires(*pace, (credit, backlog)),
        ensures
            final(self).wf(),
            leads_on(*pace, views(messages@), old(self)@, final(self)@, r),
    {
        let ghost before = self@;
        let ghost all = views(messages@);
        let ghost mut steps: Seq<Step> = Seq::empty();
        let mut changed = false;
        let mut i: usize = 0;
        while i < messages.len()
            invariant
                self.wf(),
                i <= messages@.len(),
                all == views(messages@),
                forall|credit: u32, backlog: usize| call_requires(*pace, (credit, backlog)),
                are_paced(*pace, before, all, steps, i as nat),
                self@ == advanced(before, all, steps, i as nat),
                changed == some_revealed(before, all, steps, i as nat),
            decreases messages@.len() - i,
        {
            let message = &messages[i];
            let ghost here = self@;
            let step = if message.streaming {
                let credit: u32 = self.progress(message.id.as_str()).credit;
                pace(credit, self.backlog(message))
            } else {
                Step { clusters: 0, credit: 0 }
            };
            let more = self.advance_one(message, step);
            changed = changed || more;
            proof {
                let next = steps.push(step);
                assert(all[i as int] == message@);
                assert forall|k: int| 0 <= k < i + 1 && all[k].streaming implies call_ensures(
                    *pace,
                    (
                        progress_of(advanced(before, all, next, k as nat), all[k].id).credit,
                        backlog_of(advanced(before, all, next, k as nat), all[k]) as usize,
                    ),
                    #[trigger] next[k],
                ) by {
                    lemma_later_steps(before, all, steps, step, k as nat);
                    if k < i {
                        assert(next[k] == steps[k]);
                    }
                }
                lemma_later_steps(before, all, steps, step, i as nat);
                steps = next;
            }
            i = i + 1;
        }
        proof {
            assert(are_paced(*pace, before, all, steps, all.len()));
        }
        changed
    }

    /// Reveals `message` in full, for a reader who skips ahead. Nothing is carried
    /// on.
    pub fn reveal_all(&mut self, message: &ConversationItem)
        requires
            old(self).wf(),
        ensures
            final(self).wf(),
            final(self)@ == old(self)@.insert(message.id@, full_progress(message@)),
            final(self)@[message.id@].revealed == grapheme_count(message.full_text@),
    {
        let lengths = clusters(message.full_text.as_str());
        proof {
            assert(as_nats(lengths@).len() == lengths@.len());
        }
        self.progress.insert(
            message.id.clone(),
            Progress { revealed: lengths.len(), credit: 0 },
        );
    }

    /// Forgets a message's progress.
    pub fn forget(&mut self, id: &str)
        requires
            old(self).wf(),
        ensures
            final(self).wf(),
            final(self)@ == old(self)@.remove(id@),
    {
        self.progress.remove(id);
    }

    /// Moves progress to another id, once Pi reports the real one.
    pub fn rekey(&mut self, from: &str, to: &str)
        requires
            old(self).wf(),
        ensures
            final(self).wf(),
            final(self)@ == if old(self)@.contains_key(from@) {
                old(self)@.remove(from@).insert(to@, old(self)@[from@])
            } else {
                old(self)@
            },
    {
        if let Some(progress) = self.progress.remove(from) {
            self.progress.insert(to.to_owned(), progress);
        } else {
            proof {
                assert(old(self)@.remove(from@) =~= old(self)@);
            }
        }
    }

    /// Forgets all progress.
    pub fn clear(&mut self)
        ensures
            final(self).wf(),
            final(self)@ == Map::<Seq<char>, Progress>::empty(),
    {
        self.progress.clear();
    }
}

/// Whether the reveal has fallen far enough behind to catch up.
pub fn catches_up(backlog: usize) -> (r: bool)
    ensures
        r == (backlog > CATCH_UP_BACKLOG),
{
    backlog > CATCH_UP_BACKLOG
}

/// A message that was revealed in full is shown in full.
pub proof fn lemma_revealed_in_full(progress: Map<Seq<char>, Progress>, message: ItemView)
    requires
        revealed_of(progress, message.id) >= grapheme_count(message.full_text),
    ensures
        shown(progress, message) == message.full_text,
{
}

/// Nothing is revealed past the text that there is, and nothing that was revealed
/// is hidden again by a step while the text stays as it is.
pub proof fn lemma_steps_only_reveal(revealed: nat, step: nat, total: nat)
    ensures
        stepped(revealed, step, total) <= total,
        revealed <= total ==> revealed <= stepped(revealed, step, total),
        step == 0 && revealed <= total ==> stepped(revealed, step, total) == revealed,
{
}

} // verus!
