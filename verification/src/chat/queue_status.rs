//! Prompts that wait, shown beside the draft.

use vstd::prelude::*;

use crate::domain::{AppState, Language};
use crate::strings::{is_table, reads, translate};
use crate::text::{cat3, decimal, decimal_string};
use crate::views::views;

verus! {

/// How many prompts wait.
#[derive(Clone, Copy, Debug, PartialEq, Eq, Structural)]
pub struct QueueStatus {
    pub steering: usize,
    pub follow_ups: usize,
    pub language: Language,
}

impl QueueStatus {
    /// How many prompts wait, where any do.
    pub fn from_state(state: &AppState) -> (r: Option<QueueStatus>)
        ensures
            r == if state.pending_steering@.len() > 0 || state.pending_follow_up@.len() > 0 {
                Some(
                    QueueStatus {
                        steering: state.pending_steering@.len() as usize,
                        follow_ups: state.pending_follow_up@.len() as usize,
                        language: state.language,
                    },
                )
            } else {
                None
            },
    {
        let steering: usize = state.pending_steering.len();
        let follow_ups: usize = state.pending_follow_up.len();
        if steering > 0 || follow_ups > 0 {
            Some(QueueStatus { steering, follow_ups, language: state.language })
        } else {
            None
        }
    }

    /// The chips to show, for the queues in which prompts wait.
    pub fn chips<F: Fn(&'static str, Language) -> &'static str>(&self, table: &F) -> (r: Vec<String>)
        requires
            is_table(*table),
        ensures
            are_chips(views(r@), chips_of(*self), self.language, *table),
    {
        let mut chips: Vec<String> = Vec::new();
        if self.steering > 0 {
            chips.push(chip_text(table, "queued", self.steering, self.language));
        }
        if self.follow_ups > 0 {
            chips.push(chip_text(table, "follow-ups", self.follow_ups, self.language));
        }
        chips
    }
}

impl QueueStatus {
    /// What the trailing chip says that clears both queues, where clearing is
    /// offered.
    pub fn clear_chip<F: Fn(&'static str, Language) -> &'static str>(
        &self,
        can_clear: bool,
        table: &F,
    ) -> (r: Option<&'static str>)
        requires
            is_table(*table),
        ensures
            match r {
                Some(label) => can_clear && reads(*table, "clear-queue"@, self.language, label@),
                None => !can_clear,
            },
    {
        if can_clear {
            Some(translate(table, "clear-queue", self.language))
        } else {
            None
        }
    }
}

/// Whether `text` is a chip: the words for its key, and how many prompts it counts.
pub open spec fn is_chip<F: Fn(&'static str, Language) -> &'static str>(
    text: Seq<char>,
    chip: (Seq<char>, usize),
    language: Language,
    table: F,
) -> bool {
    exists|words: Seq<char>| #[trigger]
        reads(table, chip.0, language, words) && text == words + " "@ + decimal(chip.1 as nat)
}

/// Whether the texts are the chips, one for one.
pub open spec fn are_chips<F: Fn(&'static str, Language) -> &'static str>(
    texts: Seq<Seq<char>>,
    chips: Seq<(Seq<char>, usize)>,
    language: Language,
    table: F,
) -> bool {
    &&& texts.len() == chips.len()
    &&& forall|i: int|
        0 <= i < chips.len() ==> is_chip(#[trigger] texts[i], chips[i], language, table)
}

fn chip_text<F: Fn(&'static str, Language) -> &'static str>(
    table: &F,
    key: &'static str,
    count: usize,
    language: Language,
) -> (r: String)
    requires
        is_table(*table),
    ensures
        is_chip(r@, (key@, count), language, *table),
{
    let words = translate(table, key, language);
    let text = cat3(words, " ", decimal_string(count as u64).as_str());
    proof {
        let chip = (key@, count);
        assert(reads(*table, chip.0, language, words@));
        assert(text@ == words@ + " "@ + decimal(chip.1 as nat));
    }
    text
}

/// The chips to show, each the key of its words and how many prompts it counts.
pub open spec fn chips_of(status: QueueStatus) -> Seq<(Seq<char>, usize)> {
    (if status.steering > 0 {
        seq![("queued"@, status.steering)]
    } else {
        Seq::empty()
    }) + (if status.follow_ups > 0 {
        seq![("follow-ups"@, status.follow_ups)]
    } else {
        Seq::empty()
    })
}

} // verus!
