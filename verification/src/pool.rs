//! The pool of live Pi processes, one per session.
//!
//! Each session has a process of its own, so switching which session is visible
//! never interrupts one that is working. Sessions are pooled under their Pi
//! transcript path, or under a `draft://` key until Pi reports where it wrote the
//! file.

use vstd::prelude::*;

use crate::domain::{Attachment, AttachmentView, ProjectId, SubmitMode};
use crate::keyed::Keyed;
use crate::mailbox::{token_after, SessionToken, TokenCounter};
use crate::text::{has_prefix, opt_as_str, opt_str, same, same_opt, starts_with};
use crate::views::{opt_view, views};

verus! {

/// Starts the key of a session that Pi has not written a transcript for.
pub const DRAFT_PREFIX: &'static str = "draft://";

/// Whether `key` names a session that exists only in memory so far.
pub fn is_draft(key: &str) -> (r: bool)
    ensures
        r == has_prefix(key@, "draft://"@),
{
    starts_with(key, "draft://")
}

/// A prompt held back until something else finishes.
pub type PendingPrompt = (String, Vec<Attachment>, SubmitMode);

/// What a held-back prompt holds.
pub open spec fn prompt_view(p: PendingPrompt) -> (Seq<char>, Seq<AttachmentView>, SubmitMode) {
    (p.0@, views(p.1@), p.2)
}

/// What an optional held-back prompt holds.
pub open spec fn opt_prompt_view(p: Option<PendingPrompt>) -> Option<
    (Seq<char>, Seq<AttachmentView>, SubmitMode),
> {
    match p {
        Some(p) => Some(prompt_view(p)),
        None => None,
    }
}

/// What a session accumulates over one turn.
#[derive(Clone, Debug, PartialEq)]
pub struct Turn {
    /// True while the agent is streaming or compacting.
    pub running: bool,
    /// The entry that a stream is appending to. Pi renames it once the model has
    /// answered, so this is a placeholder until then.
    pub assistant_message_id: Option<String>,
    pub conversation_compacted: bool,
    /// The card of the compaction in progress, which its result updates.
    pub compaction_item_id: Option<String>,
    /// A reply that ended without content. It is kept until the agent settles,
    /// which would otherwise show the session as ready.
    pub reply_error: Option<String>,
    pub pending_prompt: Option<PendingPrompt>,
}

/// What a turn holds.
#[verifier::ext_equal]
pub struct TurnView {
    pub running: bool,
    pub assistant_message_id: Option<Seq<char>>,
    pub conversation_compacted: bool,
    pub compaction_item_id: Option<Seq<char>>,
    pub reply_error: Option<Seq<char>>,
    pub pending_prompt: Option<(Seq<char>, Seq<AttachmentView>, SubmitMode)>,
}

impl View for Turn {
    type V = TurnView;

    open spec fn view(&self) -> TurnView {
        TurnView {
            running: self.running,
            assistant_message_id: opt_view(self.assistant_message_id),
            conversation_compacted: self.conversation_compacted,
            compaction_item_id: opt_view(self.compaction_item_id),
            reply_error: opt_view(self.reply_error),
            pending_prompt: opt_prompt_view(self.pending_prompt),
        }
    }
}

/// A turn that has not begun.
pub open spec fn idle_turn() -> TurnView {
    TurnView {
        running: false,
        assistant_message_id: None,
        conversation_compacted: false,
        compaction_item_id: None,
        reply_error: None,
        pending_prompt: None,
    }
}

impl Default for Turn {
    fn default() -> (r: Self)
        ensures
            r@ == idle_turn(),
    {
        Turn {
            running: false,
            assistant_message_id: None,
            conversation_compacted: false,
            compaction_item_id: None,
            reply_error: None,
            pending_prompt: None,
        }
    }
}

/// One Pi process and the state that its current turn accumulates.
#[derive(Debug)]
pub struct SessionRuntime<R> {
    pub runtime: R,
    /// The identity that survives a change of key, for labelling events.
    pub token: SessionToken,
    pub project_id: ProjectId,
    pub turn: Turn,
    /// When the session was last made visible.
    pub last_used_ms: i64,
}

impl<R> SessionRuntime<R> {
    /// A session whose process has just been started, under a token of its own.
    pub fn new(
        runtime: R,
        tokens: &mut TokenCounter,
        project_id: ProjectId,
        now_ms: i64,
    ) -> (r: SessionRuntime<R>)
        ensures
            r.runtime == runtime,
            r.token@ == old(tokens)@,
            final(tokens)@ == token_after(old(tokens)@),
            r.project_id == project_id,
            r.turn@ == idle_turn(),
            r.last_used_ms == now_ms,
    {
        SessionRuntime {
            runtime,
            token: SessionToken::next(tokens),
            project_id,
            turn: Turn::default(),
            last_used_ms: now_ms,
        }
    }

    /// Whether this session is mid-turn.
    pub fn is_running(&self) -> (r: bool)
        ensures
            r == self.turn.running,
    {
        self.turn.running
    }
}

/// `session`, made visible at `now_ms`.
pub open spec fn touched<R>(session: SessionRuntime<R>, now_ms: i64) -> SessionRuntime<R> {
    SessionRuntime { last_used_ms: now_ms, ..session }
}

/// What changed when a session was given another key.
#[derive(Clone, Debug, PartialEq, Eq)]
pub struct Rekeyed {
    /// Whether it was the visible session, so that the conversation follows it.
    pub was_active: bool,
}

/// Live Pi processes by session.
#[derive(Debug)]
pub struct SessionPool<R> {
    sessions: Keyed<SessionRuntime<R>>,
    active: Option<String>,
}

/// The sessions of a pool after the one at `from` has moved to `to`.
pub open spec fn rekeyed<R>(
    sessions: Map<Seq<char>, SessionRuntime<R>>,
    from: Seq<char>,
    to: Seq<char>,
    now_ms: i64,
) -> Map<Seq<char>, SessionRuntime<R>> {
    sessions.remove(from).insert(to, touched(sessions[from], now_ms))
}

/// Whether no two pooled sessions share a token.
pub open spec fn tokens_distinct<R>(sessions: Map<Seq<char>, SessionRuntime<R>>) -> bool {
    forall|a: Seq<char>, b: Seq<char>|
        sessions.contains_key(a) && sessions.contains_key(b) && a != b
            ==> (#[trigger] sessions[a]).token != (#[trigger] sessions[b]).token
}

/// Whether the session at `key` has the token `token`.
pub open spec fn holds_token<R>(
    sessions: Map<Seq<char>, SessionRuntime<R>>,
    key: Seq<char>,
    token: SessionToken,
) -> bool {
    sessions.contains_key(key) && sessions[key].token == token
}

/// The sessions of a pool that do not belong to a project.
pub open spec fn without_project<R>(
    sessions: Map<Seq<char>, SessionRuntime<R>>,
    project_id: ProjectId,
) -> Map<Seq<char>, SessionRuntime<R>> {
    sessions.restrict(
        Set::new(|k: Seq<char>| sessions.contains_key(k) && sessions[k].project_id != project_id),
    )
}

impl<R> SessionPool<R> {
    /// The pooled sessions.
    pub closed spec fn sessions(&self) -> Map<Seq<char>, SessionRuntime<R>> {
        self.sessions@
    }

    /// The key of the visible session.
    pub closed spec fn visible(&self) -> Option<Seq<char>> {
        opt_view(self.active)
    }

    /// Each key stands for one session, and the visible one is pooled.
    pub closed spec fn wf(&self) -> bool {
        &&& self.sessions.wf()
        &&& self.active matches Some(key) ==> self.sessions@.contains_key(key@)
    }

    /// The visible session of a well-formed pool is pooled.
    pub proof fn lemma_visible_is_pooled(&self)
        requires
            self.wf(),
        ensures
            self.visible() matches Some(key) ==> self.sessions().contains_key(key),
    {
    }

    /// An empty pool.
    pub fn new() -> (r: SessionPool<R>)
        ensures
            r.wf(),
            r.sessions() == Map::<Seq<char>, SessionRuntime<R>>::empty(),
            r.visible() is None,
    {
        SessionPool { sessions: Keyed::new(), active: None }
    }

    /// Pools a session.
    pub fn insert(&mut self, key: String, session: SessionRuntime<R>)
        requires
            old(self).wf(),
        ensures
            final(self).wf(),
            final(self).sessions() == old(self).sessions().insert(key@, session),
            final(self).visible() == old(self).visible(),
    {
        self.sessions.insert(key, session);
    }

    /// The session at `key`.
    pub fn get(&self, key: &str) -> (r: Option<&SessionRuntime<R>>)
        requires
            self.wf(),
        ensures
            match r {
                Some(session) => self.sessions().contains_key(key@) && self.sessions()[key@]
                    == *session,
                None => !self.sessions().contains_key(key@),
            },
    {
        self.sessions.get(key)
    }

    /// The session at `key`, to change.
    pub fn get_mut(&mut self, key: &str) -> (r: Option<&mut SessionRuntime<R>>)
        requires
            old(self).wf(),
        ensures
            final(self).wf(),
            final(self).visible() == old(self).visible(),
            match r {
                Some(session) => {
                    &&& old(self).sessions().contains_key(key@)
                    &&& *session == old(self).sessions()[key@]
                    &&& final(self).sessions() == old(self).sessions().insert(key@, *final(session))
                },
                None => !old(self).sessions().contains_key(key@) && final(self).sessions() == old(
                    self,
                ).sessions(),
            },
    {
        self.sessions.get_mut(key)
    }

    /// Whether a session is pooled under `key`.
    pub fn contains(&self, key: &str) -> (r: bool)
        requires
            self.wf(),
        ensures
            r == self.sessions().contains_key(key@),
    {
        self.sessions.contains_key(key)
    }

    /// Takes the session at `key` out. If it was visible, nothing is.
    pub fn remove(&mut self, key: &str) -> (r: Option<SessionRuntime<R>>)
        requires
            old(self).wf(),
        ensures
            final(self).wf(),
            final(self).sessions() == old(self).sessions().remove(key@),
            final(self).visible() == if old(self).visible() == Some(key@) {
                None
            } else {
                old(self).visible()
            },
            match r {
                Some(session) => old(self).sessions().contains_key(key@) && old(
                    self,
                ).sessions()[key@] == session,
                None => !old(self).sessions().contains_key(key@),
            },
    {
        if same_opt(opt_as_str(&self.active), Some(key)) {
            self.active = None;
        }
        self.sessions.remove(key)
    }

    /// The keys of the pooled sessions, each once and in no particular order.
    pub fn keys(&self) -> (r: Vec<String>)
        requires
            self.wf(),
        ensures
            views(r@).no_duplicates(),
            forall|k: Seq<char>| #[trigger]
                self.sessions().contains_key(k) <==> views(r@).contains(k),
    {
        let n: usize = self.sessions.len();
        let mut out: Vec<String> = Vec::new();
        let mut i: usize = 0;
        while i < n
            invariant
                self.wf(),
                i <= n == self.sessions.order().len(),
                out@.len() == i,
                forall|k: int|
                    0 <= k < i ==> (#[trigger] out@[k])@ == self.sessions.order()[k],
            decreases n - i,
        {
            out.push(self.sessions.key_at(i).clone());
            i = i + 1;
        }
        proof {
            assert(views(out@) =~= self.sessions.order());
        }
        out
    }

    /// The pooled sessions with their keys, each once and in no particular order.
    pub fn iter(&self) -> (r: Vec<(&str, &SessionRuntime<R>)>)
        requires
            self.wf(),
        ensures
            forall|i: int|
                0 <= i < r@.len() ==> self.sessions().contains_key((#[trigger] r@[i]).0@)
                    && self.sessions()[r@[i].0@] == *r@[i].1,
            forall|i: int, j: int|
                #![trigger r@[i], r@[j]]
                0 <= i < j < r@.len() ==> r@[i].0@ != r@[j].0@,
            forall|k: Seq<char>| #[trigger]
                self.sessions().contains_key(k) ==> exists|i: int|
                    0 <= i < r@.len() && (#[trigger] r@[i]).0@ == k,
    {
        let n: usize = self.sessions.len();
        let mut out: Vec<(&str, &SessionRuntime<R>)> = Vec::new();
        let mut i: usize = 0;
        while i < n
            invariant
                self.wf(),
                i <= n == self.sessions.order().len(),
                out@.len() == i,
                forall|k: int|
                    0 <= k < i ==> (#[trigger] out@[k]).0@ == self.sessions.order()[k]
                        && self.sessions@.contains_key(out@[k].0@) && *out@[k].1
                        == self.sessions@[out@[k].0@],
            decreases n - i,
        {
            out.push((self.sessions.key_at(i).as_str(), self.sessions.value_at(i)));
            i = i + 1;
        }
        proof {
            let order = self.sessions.order();
            assert forall|k: Seq<char>| #[trigger] self.sessions().contains_key(k) implies exists|
                i: int,
            | 0 <= i < out@.len() && (#[trigger] out@[i]).0@ == k by {
                assert(order.contains(k));
                let at = choose|at: int| 0 <= at < order.len() && order[at] == k;
                assert(out@[at].0@ == k);
            }
        }
        out
    }

    /// Whether no session is pooled.
    pub fn is_empty(&self) -> (r: bool)
        requires
            self.wf(),
        ensures
            r == (self.sessions().dom() =~= Set::<Seq<char>>::empty()),
    {
        let n: usize = self.sessions.len();
        proof {
            if n > 0 {
                assert(self.sessions.order().contains(self.sessions.order()[0]));
                assert(self.sessions@.contains_key(self.sessions.order()[0]));
                assert(self.sessions().dom().contains(self.sessions.order()[0]));
            } else {
                assert forall|k: Seq<char>| !self.sessions().dom().contains(k) by {
                    assert(!self.sessions@.contains_key(k));
                }
                assert(self.sessions().dom() =~= Set::<Seq<char>>::empty());
            }
        }
        n == 0
    }

    /// The key of the visible session.
    pub fn active_key(&self) -> (r: Option<&str>)
        ensures
            opt_str(r) == self.visible(),
    {
        opt_as_str(&self.active)
    }

    /// The visible session.
    pub fn active(&self) -> (r: Option<&SessionRuntime<R>>)
        requires
            self.wf(),
        ensures
            match r {
                Some(session) => self.visible() matches Some(key) && self.sessions()[key]
                    == *session,
                None => self.visible() is None,
            },
    {
        match &self.active {
            Some(key) => self.sessions.get(key.as_str()),
            None => None,
        }
    }

    /// The visible session, to change.
    pub fn active_mut(&mut self) -> (r: Option<&mut SessionRuntime<R>>)
        requires
            old(self).wf(),
        ensures
            final(self).wf(),
            final(self).visible() == old(self).visible(),
            match r {
                Some(session) => {
                    &&& old(self).visible() is Some
                    &&& *session == old(self).sessions()[old(self).visible()->0]
                    &&& final(self).sessions() == old(self).sessions().insert(
                        old(self).visible()->0,
                        *final(session),
                    )
                },
                None => old(self).visible() is None && final(self).sessions() == old(
                    self,
                ).sessions(),
            },
    {
        match &self.active {
            Some(key) => self.sessions.get_mut(key.as_str()),
            None => None,
        }
    }

    /// Makes the session at `key` the visible one and returns it. Where none is
    /// pooled there, the selection stays as it is.
    pub fn activate(&mut self, key: &str, now_ms: i64) -> (r: Option<&SessionRuntime<R>>)
        requires
            old(self).wf(),
        ensures
            final(self).wf(),
            match r {
                Some(session) => {
                    &&& old(self).sessions().contains_key(key@)
                    &&& *session == touched(old(self).sessions()[key@], now_ms)
                    &&& final(self).sessions() == old(self).sessions().insert(key@, *session)
                    &&& final(self).visible() == Some(key@)
                },
                None => {
                    &&& !old(self).sessions().contains_key(key@)
                    &&& final(self).sessions() == old(self).sessions()
                    &&& final(self).visible() == old(self).visible()
                },
            },
    {
        match self.sessions.get_mut(key) {
            Some(session) => {
                session.last_used_ms = now_ms;
            },
            None => {
                return None;
            },
        }
        self.active = Some(key.to_owned());
        self.sessions.get(key)
    }

    /// Moves a session to another key, once Pi reports its transcript path. There
    /// is nothing to do where no session is at `from` or the key is the same.
    pub fn rekey(&mut self, from: &str, to: &str, now_ms: i64) -> (r: Option<Rekeyed>)
        requires
            old(self).wf(),
        ensures
            final(self).wf(),
            match r {
                Some(change) => {
                    &&& from@ != to@
                    &&& old(self).sessions().contains_key(from@)
                    &&& change.was_active == (old(self).visible() == Some(from@))
                    &&& final(self).sessions() == rekeyed(old(self).sessions(), from@, to@, now_ms)
                    &&& final(self).visible() == if change.was_active {
                        Some(to@)
                    } else {
                        old(self).visible()
                    }
                },
                None => {
                    &&& from@ == to@ || !old(self).sessions().contains_key(from@)
                    &&& final(self).sessions() == old(self).sessions()
                    &&& final(self).visible() == old(self).visible()
                },
            },
    {
        if same(from, to) {
            return None;
        }
        match self.sessions.remove(from) {
            Some(session) => {
                let mut session = session;
                session.last_used_ms = now_ms;
                let was_active = same_opt(opt_as_str(&self.active), Some(from));
                self.sessions.insert(to.to_owned(), session);
                if was_active {
                    self.active = Some(to.to_owned());
                }
                Some(Rekeyed { was_active })
            },
            None => {
                proof {
                    assert(old(self).sessions().remove(from@) =~= old(self).sessions());
                }
                None
            },
        }
    }

    /// Takes out every session of a project and returns their keys.
    pub fn remove_project(&mut self, project_id: ProjectId) -> (r: Vec<String>)
        requires
            old(self).wf(),
        ensures
            final(self).wf(),
            final(self).sessions() == without_project(old(self).sessions(), project_id),
            final(self).visible() == (match old(self).visible() {
                Some(key) => if old(self).sessions()[key].project_id == project_id {
                    None
                } else {
                    Some(key)
                },
                None => None,
            }),
            views(r@).no_duplicates(),
            forall|k: Seq<char>| #[trigger]
                views(r@).contains(k) <==> old(self).sessions().contains_key(k) && old(
                    self,
                ).sessions()[k].project_id == project_id,
    {
        let ghost before = self.sessions();
        let ghost was_visible = self.visible();
        let keys = self.keys();
        let mut removed: Vec<String> = Vec::new();
        let mut i: usize = 0;
        proof {
            assert(views(removed@) =~= Seq::empty());
        }
        while i < keys.len()
            invariant
                self.wf(),
                i <= keys@.len(),
                views(keys@).no_duplicates(),
                forall|k: Seq<char>| #[trigger] before.contains_key(k) <==> views(keys@).contains(k),
                was_visible matches Some(key) ==> before.contains_key(key),
                views(removed@).no_duplicates(),
                forall|k: Seq<char>| #[trigger]
                    views(removed@).contains(k) <==> views(keys@).take(i as int).contains(k)
                        && before[k].project_id == project_id,
                forall|k: Seq<char>| #[trigger]
                    self.sessions().contains_key(k) <==> before.contains_key(k) && !views(
                        removed@,
                    ).contains(k),
                forall|k: Seq<char>|
                    self.sessions().contains_key(k) ==> #[trigger] self.sessions()[k] == before[k],
                self.visible() == (match was_visible {
                    Some(key) => if views(removed@).contains(key) {
                        None
                    } else {
                        Some(key)
                    },
                    None => None,
                }),
            decreases keys@.len() - i,
        {
            let key = keys[i].as_str();
            let ghost taken = views(keys@).take(i as int);
            let ghost gone = views(removed@);
            proof {
                assert(views(keys@)[i as int] == key@);
                assert(views(keys@).contains(key@));
                assert(before.contains_key(key@));
                assert(!taken.contains(key@));
                assert(!gone.contains(key@));
                assert(views(keys@).take(i + 1) =~= taken.push(key@));
                assert forall|k: Seq<char>| #[trigger] taken.push(key@).contains(k) <==> taken.contains(
                    k,
                ) || k == key@ by {
                    if taken.contains(k) {
                        let j = taken.index_of(k);
                        assert(taken.push(key@)[j] == k);
                    }
                    assert(taken.push(key@)[taken.len() as int] == key@);
                }
            }
            let belongs = match self.sessions.get(key) {
                Some(session) => session.project_id == project_id,
                None => false,
            };
            proof {
                assert(self.sessions().contains_key(key@));
            }
            if belongs {
                self.remove(key);
                let owned = keys[i].clone();
                proof {
                    crate::views::lemma_views_push(removed@, owned);
                    let next = gone.push(key@);
                    assert forall|k: Seq<char>| #[trigger] next.contains(k) <==> gone.contains(k)
                        || k == key@ by {
                        if gone.contains(k) {
                            let j = gone.index_of(k);
                            assert(next[j] == k);
                        }
                        assert(next[gone.len() as int] == key@);
                    }
                    assert(next.no_duplicates()) by {
                        assert forall|a: int, b: int|
                            0 <= a < b < next.len() implies next[a] != next[b] by {
                            if b == gone.len() {
                                assert(gone[a] == next[a]);
                                assert(gone.contains(gone[a]));
                            }
                        }
                    }
                }
                removed.push(owned);
            }
            i = i + 1;
        }
        proof {
            assert(views(keys@).take(i as int) =~= views(keys@));
            assert(self.sessions() =~= without_project(before, project_id));
        }
        removed
    }

    /// The most recently used session of a project.
    pub fn most_recent_in(&self, project_id: ProjectId) -> (r: Option<&str>)
        requires
            self.wf(),
        ensures
            match r {
                Some(key) => {
                    &&& self.sessions().contains_key(key@)
                    &&& self.sessions()[key@].project_id == project_id
                    &&& forall|k: Seq<char>|
                        self.sessions().contains_key(k) && (#[trigger] self.sessions()[k]).project_id
                            == project_id ==> self.sessions()[k].last_used_ms
                            <= self.sessions()[key@].last_used_ms
                },
                None => forall|k: Seq<char>|
                    self.sessions().contains_key(k) ==> (#[trigger] self.sessions()[k]).project_id
                        != project_id,
            },
    {
        let n: usize = self.sessions.len();
        let ghost order = self.sessions.order();
        let mut best: Option<usize> = None;
        let mut i: usize = 0;
        while i < n
            invariant
                self.wf(),
                order == self.sessions.order(),
                i <= n == order.len(),
                best matches Some(b) ==> b < i && self.sessions@.contains_key(order[b as int])
                    && self.sessions@[order[b as int]].project_id == project_id,
                forall|k: int|
                    0 <= k < i && self.sessions@[#[trigger] order[k]].project_id == project_id
                        ==> best is Some && self.sessions@[order[k]].last_used_ms
                        <= self.sessions@[order[best->0 as int]].last_used_ms,
            decreases n - i,
        {
            let session = self.sessions.value_at(i);
            if session.project_id == project_id {
                match best {
                    Some(b) => {
                        if session.last_used_ms >= self.sessions.value_at(b).last_used_ms {
                            best = Some(i);
                        }
                    },
                    None => {
                        best = Some(i);
                    },
                }
            }
            i = i + 1;
        }
        proof {
            assert forall|k: Seq<char>|
                self.sessions().contains_key(k) && (#[trigger] self.sessions()[k]).project_id
                    == project_id implies best is Some && self.sessions()[k].last_used_ms
                <= self.sessions@[order[best->0 as int]].last_used_ms by {
                assert(self.sessions@.contains_key(k));
                let j = order.index_of(k);
                assert(order[j] == k);
            }
        }
        match best {
            Some(b) => Some(self.sessions.key_at(b).as_str()),
            None => None,
        }
    }

    /// Whether any pooled session is mid-turn.
    pub fn any_running(&self) -> (r: bool)
        requires
            self.wf(),
        ensures
            r == exists|k: Seq<char>|
                self.sessions().contains_key(k) && (#[trigger] self.sessions()[k]).turn.running,
    {
        let n: usize = self.sessions.len();
        let ghost order = self.sessions.order();
        let mut i: usize = 0;
        while i < n
            invariant
                self.wf(),
                order == self.sessions.order(),
                i <= n == order.len(),
                forall|k: int|
                    0 <= k < i ==> !self.sessions@[#[trigger] order[k]].turn.running,
            decreases n - i,
        {
            if self.sessions.value_at(i).is_running() {
                proof {
                    assert(self.sessions()[order[i as int]].turn.running);
                }
                return true;
            }
            i = i + 1;
        }
        proof {
            assert forall|k: Seq<char>| self.sessions().contains_key(k) implies !(
            #[trigger] self.sessions()[k]).turn.running by {
                assert(self.sessions@.contains_key(k));
                let j = order.index_of(k);
                assert(order[j] == k);
            }
        }
        false
    }

    /// The key that `token` names now. A token whose session has been taken out
    /// names none, which is how a late event of an ended process is recognised.
    pub fn key_for(&self, token: SessionToken) -> (r: Option<&str>)
        requires
            self.wf(),
        ensures
            match r {
                Some(key) => holds_token(self.sessions(), key@, token),
                None => forall|k: Seq<char>| !#[trigger] holds_token(self.sessions(), k, token),
            },
    {
        let n: usize = self.sessions.len();
        let ghost order = self.sessions.order();
        let mut i: usize = 0;
        while i < n
            invariant
                self.wf(),
                order == self.sessions.order(),
                i <= n == order.len(),
                forall|k: int| 0 <= k < i ==> self.sessions@[#[trigger] order[k]].token != token,
            decreases n - i,
        {
            if self.sessions.value_at(i).token.is(token) {
                return Some(self.sessions.key_at(i).as_str());
            }
            i = i + 1;
        }
        proof {
            assert forall|k: Seq<char>| !#[trigger] holds_token(self.sessions(), k, token) by {
                if self.sessions().contains_key(k) {
                    assert(self.sessions@.contains_key(k));
                    let j = order.index_of(k);
                    assert(order[j] == k);
                }
            }
        }
        None
    }

    /// The token of the session at `key`.
    pub fn token_for(&self, key: &str) -> (r: Option<SessionToken>)
        requires
            self.wf(),
        ensures
            match r {
                Some(token) => holds_token(self.sessions(), key@, token),
                None => !self.sessions().contains_key(key@),
            },
    {
        match self.sessions.get(key) {
            Some(session) => Some(session.token),
            None => None,
        }
    }
}

/// A token follows its session to its new key: there and only there is it found.
pub proof fn lemma_token_follows_rekey<R>(
    sessions: Map<Seq<char>, SessionRuntime<R>>,
    from: Seq<char>,
    to: Seq<char>,
    now_ms: i64,
)
    requires
        tokens_distinct(sessions),
        sessions.contains_key(from),
        from != to,
    ensures
        tokens_distinct(rekeyed(sessions, from, to, now_ms)),
        forall|k: Seq<char>| #[trigger]
            holds_token(rekeyed(sessions, from, to, now_ms), k, sessions[from].token) <==> k == to,
{
    let after = rekeyed(sessions, from, to, now_ms);
    assert forall|a: Seq<char>, b: Seq<char>|
        after.contains_key(a) && after.contains_key(b) && a != b implies (
    #[trigger] after[a]).token != (#[trigger] after[b]).token by {
        let x = if a == to {
            from
        } else {
            a
        };
        let y = if b == to {
            from
        } else {
            b
        };
        assert(sessions[x].token != sessions[y].token);
    }
    assert forall|k: Seq<char>| #[trigger]
        holds_token(after, k, sessions[from].token) <==> k == to by {
        if after.contains_key(k) && k != to {
            assert(sessions[k].token != sessions[from].token);
        }
    }
}

/// Once a session has been taken out, its token names no session.
pub proof fn lemma_removed_token_names_nothing<R>(
    sessions: Map<Seq<char>, SessionRuntime<R>>,
    key: Seq<char>,
)
    requires
        tokens_distinct(sessions),
        sessions.contains_key(key),
    ensures
        tokens_distinct(sessions.remove(key)),
        forall|k: Seq<char>| !#[trigger]
            holds_token(sessions.remove(key), k, sessions[key].token),
{
    assert forall|k: Seq<char>| !#[trigger]
        holds_token(sessions.remove(key), k, sessions[key].token) by {
        if sessions.contains_key(k) && k != key {
            assert(sessions[k].token != sessions[key].token);
        }
    }
}

/// Pooling a session with a token that no pooled session has keeps the tokens
/// apart.
pub proof fn lemma_fresh_token_keeps_distinct<R>(
    sessions: Map<Seq<char>, SessionRuntime<R>>,
    key: Seq<char>,
    session: SessionRuntime<R>,
)
    requires
        tokens_distinct(sessions),
        forall|k: Seq<char>| !#[trigger] holds_token(sessions, k, session.token),
    ensures
        tokens_distinct(sessions.insert(key, session)),
{
    let after = sessions.insert(key, session);
    assert forall|a: Seq<char>, b: Seq<char>|
        after.contains_key(a) && after.contains_key(b) && a != b implies (
    #[trigger] after[a]).token != (#[trigger] after[b]).token by {
        if a == key {
            assert(!holds_token(sessions, b, session.token));
        } else if b == key {
            assert(!holds_token(sessions, a, session.token));
        } else {
            assert(sessions[a].token != sessions[b].token);
        }
    }
}

} // verus!
