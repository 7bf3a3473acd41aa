//! What holds of what stands around the chat, and of the dialogs over it.

use vstd::prelude::*;

use crate::chrome::figures::{
    cost_text, fixed, half_even, padded, rounded, scaled, tokens_text, with_point, MANTISSA_LIMIT,
};
use crate::chrome::icons::{role_icon, status_icon, IconName};
use crate::chrome::metrics::figures_of;
use crate::chrome::status_pill::{hue_of, label_key, Hue};
use crate::chrome::status_strip::{project_name, segments_of, session_title, session_with};
use crate::chrome::top_bar::{tooltip_of, ThemeMode};
use crate::dialogs::{prompt_answer, Tone};
use crate::domain::{
    ConversationRole, ProjectId, ProjectSessionsView, ProjectView, SessionId, SessionMetrics,
    StatusView, SummaryView,
};
use crate::events::grouped;
use crate::laws::events::{lemma_first_found, lemma_none_found};
use crate::mailbox::SessionToken;
use crate::notice::Level;
use crate::shell::notices::{type_of, NotificationType};
use crate::shell::prompts::{answered, needs_reset, shown, variant_of, ButtonVariant, PromptsView};
use crate::shell::pump::labelled;
use crate::shell::rename::{committed, opened, title_of, RenameView};
use crate::text::{decimal, digit, is_blank, trim};

verus! {

/// A quotient is rounded to the nearest number, and to the even one of two that are
/// equally near.
pub proof fn lemma_quotients_are_rounded(n: nat, d: nat)
    requires
        d > 0,
    ensures
        2 * (half_even(n, d) * d) <= 2 * n + d,
        2 * n <= 2 * (half_even(n, d) * d) + d,
        2 * (half_even(n, d) * d) == 2 * n + d || 2 * n == 2 * (half_even(n, d) * d) + d
            ==> half_even(n, d) % 2 == 0,
{
    let q = n / d;
    let r = n % d;
    assert(n == q * d + r) by (nonlinear_arith)
        requires
            d > 0,
            q == n / d,
            r == n % d,
    ;
    assert((q + 1) * d == q * d + d) by (nonlinear_arith);
    assert((q + q % 2) * d == q * d + (q % 2) * d) by (nonlinear_arith);
    assert(q % 2 == 0 ==> (q % 2) * d == 0) by (nonlinear_arith);
    assert(q % 2 == 1 ==> (q % 2) * d == d) by (nonlinear_arith);
}

proof fn lemma_scaled(x: nat, power: nat, limit: nat)
    requires
        x > 0,
        power > 0,
    ensures
        scaled(x, power, limit).0 * power == x * scaled(x, power, limit).1,
        scaled(x, power, limit).0 >= limit,
        scaled(x, power, limit).1 > 0,
    decreases
            (if x < limit {
                limit - x
            } else {
                0
            }),
{
    if x < limit {
        lemma_scaled(2 * x, 2 * power, limit);
        let s = scaled(2 * x, 2 * power, limit);
        assert(s.0 * power == x * s.1) by (nonlinear_arith)
            requires
                s.0 * (2 * power) == (2 * x) * s.1,
        ;
    } else {
        assert(x * power == x * power);
    }
}

/// A figure is as near to what it stands for as its places allow: it is off by no more
/// than half of its last place and a trifle.
pub proof fn lemma_figures_are_near(n: nat, d: nat, unit: nat)
    requires
        n < MANTISSA_LIMIT,
        d > 0,
        unit > 0,
    ensures
        2 * (fixed(n, d, unit) * d) <= 2 * (n * unit) + d + 2 * unit,
        2 * (n * unit) <= 2 * (fixed(n, d, unit) * d) + d + 2 * unit,
{
    let half = (MANTISSA_LIMIT / 2) as nat;
    assert(rounded(n) == n) by {
        assert(n / 1 == n);
        assert(n % 1 == 0);
    }
    let limit = d * half;
    let (x, power) = scaled(n, 1, limit);
    if n == 0 {
        assert(x == 0 && power == 1);
        assert(0nat / d == 0 && 0nat % d == 0) by (nonlinear_arith)
            requires
                d > 0,
        ;
        assert(half_even(0, d) == 0);
        assert(0 * unit == 0);
        assert(half_even(0, 1) == 0);
        assert(fixed(n, d, unit) == 0);
        assert(0 * d == 0 && 0 * unit == 0);
    } else {
        lemma_scaled(n, 1, limit);
        assert(x == n * power);
        let m = half_even(x, d);
        let f = half_even(m * unit, power);
        lemma_quotients_are_rounded(x, d);
        lemma_quotients_are_rounded(m * unit, power);
        assert(d < 2 * power) by (nonlinear_arith)
            requires
                n * power >= d * half,
                n < 2 * half,
                power > 0,
                half > 0,
        ;
        assert(2 * (f * d) * power <= (2 * (n * unit) + d + 2 * unit) * power) by (nonlinear_arith)
            requires
                2 * (f * power) <= 2 * (m * unit) + power,
                2 * (m * d) <= 2 * (n * power) + d,
                d < 2 * power,
                d > 0,
                unit > 0,
                power > 0,
        ;
        assert(2 * (f * d) <= 2 * (n * unit) + d + 2 * unit) by (nonlinear_arith)
            requires
                2 * (f * d) * power <= (2 * (n * unit) + d + 2 * unit) * power,
                power > 0,
        ;
        assert(2 * (n * unit) * power <= (2 * (f * d) + d + 2 * unit) * power) by (nonlinear_arith)
            requires
                2 * (m * unit) <= 2 * (f * power) + power,
                2 * (n * power) <= 2 * (m * d) + d,
                d < 2 * power,
                d > 0,
                unit > 0,
                power > 0,
        ;
        assert(2 * (n * unit) <= 2 * (f * d) + d + 2 * unit) by (nonlinear_arith)
            requires
                2 * (n * unit) * power <= (2 * (f * d) + d + 2 * unit) * power,
                power > 0,
        ;
    }
}

/// Whether a text is a number with one place behind the point: so many tenths.
pub open spec fn is_tenths(text: Seq<char>, tenths: nat) -> bool {
    text == decimal(tenths / 10) + "."@ + seq![digit((tenths % 10) as int)]
}

/// Whether a text is a number with four places behind the point: so many
/// ten-thousandths.
pub open spec fn is_ten_thousandths(text: Seq<char>, parts: nat) -> bool {
    text == decimal(parts / 10_000) + "."@ + seq![
        digit((parts / 1_000 % 10) as int),
        digit((parts / 100 % 10) as int),
        digit((parts / 10 % 10) as int),
        digit((parts % 10) as int),
    ]
}

proof fn lemma_places_of(parts: nat)
    ensures
        parts % 10_000 % 10 == parts % 10,
        parts % 10_000 / 10 % 10 == parts / 10 % 10,
        parts % 10_000 / 10 / 10 % 10 == parts / 100 % 10,
        parts % 10_000 / 10 / 10 / 10 % 10 == parts / 1_000 % 10,
{
    let (p, d0) = (parts / 10, parts % 10);
    let (q, d1) = (p / 10, p % 10);
    let (r, d2) = (q / 10, q % 10);
    let (h, d3) = (r / 10, r % 10);
    assert(parts == 10_000 * h + 1_000 * d3 + 100 * d2 + 10 * d1 + d0);
    let n = 1_000 * d3 + 100 * d2 + 10 * d1 + d0;
    assert(0 <= n < 10_000);
    assert(parts % 10_000 == n);
    assert(n / 10 == 100 * d3 + 10 * d2 + d1);
    assert(n / 10 / 10 == 10 * d3 + d2);
    assert(parts / 100 == q);
    assert(parts / 1_000 == r);
}

proof fn lemma_four_places(parts: nat)
    ensures
        padded(parts % 10_000, 4) == seq![
            digit((parts / 1_000 % 10) as int),
            digit((parts / 100 % 10) as int),
            digit((parts / 10 % 10) as int),
            digit((parts % 10) as int),
        ],
{
    let n = parts % 10_000;
    let a = n / 10;
    let b = a / 10;
    let c = b / 10;
    lemma_places_of(parts);
    assert(padded(c / 10, 0) =~= Seq::empty());
    assert(padded(c, 1) =~= seq![digit((c % 10) as int)]);
    assert(padded(b, 2) =~= padded(c, 1).push(digit((b % 10) as int)));
    assert(padded(a, 3) =~= padded(b, 2).push(digit((a % 10) as int)));
    assert(padded(n, 4) =~= padded(a, 3).push(digit((n % 10) as int)));
    assert(padded(n, 4) =~= seq![
        digit((c % 10) as int),
        digit((b % 10) as int),
        digit((a % 10) as int),
        digit((n % 10) as int),
    ]);
}

/// A cost is shown in dollars with four places, to the nearest.
pub proof fn lemma_costs_are_shown(cost_microusd: u64) -> (parts: nat)
    requires
        cost_microusd < MANTISSA_LIMIT,
    ensures
        cost_text(cost_microusd) == "$"@ + (decimal(parts / 10_000) + "."@ + padded(
            parts % 10_000,
            4,
        )),
        is_ten_thousandths(cost_text(cost_microusd).skip(1), parts),
        parts * 100 <= cost_microusd + 51,
        cost_microusd <= parts * 100 + 51,
{
    reveal_strlit("$");
    let parts = fixed(cost_microusd as nat, 1_000_000, 10_000);
    lemma_figures_are_near(cost_microusd as nat, 1_000_000, 10_000);
    lemma_four_places(parts);
    assert(cost_text(cost_microusd).skip(1) =~= with_point(parts, 10_000, 4));
    parts
}

/// Tokens are shown as they are below a thousand, in thousands below a million, and in
/// millions from there on, with one place, to the nearest.
pub proof fn lemma_tokens_are_shown(tokens: u64) -> (tenths: nat)
    requires
        tokens < MANTISSA_LIMIT,
    ensures
        tokens < 1_000 ==> tokens_text(tokens) == decimal(tokens as nat),
        1_000 <= tokens < 1_000_000 ==> {
            &&& tokens_text(tokens).last() == 'k'
            &&& is_tenths(tokens_text(tokens).drop_last(), tenths)
            &&& tenths * 100 <= tokens + 51
            &&& tokens <= tenths * 100 + 51
        },
        1_000_000 <= tokens ==> {
            &&& tokens_text(tokens).last() == 'M'
            &&& is_tenths(tokens_text(tokens).drop_last(), tenths)
            &&& tenths * 100_000 <= tokens + 50_001
            &&& tokens <= tenths * 100_000 + 50_001
        },
{
    reveal_strlit("k");
    reveal_strlit("M");
    let d: nat = if tokens < 1_000_000 {
        1_000
    } else {
        1_000_000
    };
    let tenths = fixed(tokens as nat, d, 10);
    lemma_figures_are_near(tokens as nat, d, 10);
    reveal_with_fuel(padded, 2);
    assert(padded(tenths % 10, 1) =~= seq![digit((tenths % 10) as int)]);
    if tokens >= 1_000 {
        assert(tokens_text(tokens).drop_last() =~= with_point(tenths, 10, 1));
    }
    tenths
}

/// The figures of a session are its cost, its tokens and its messages, in that order.
pub proof fn lemma_figures_of_a_session(metrics: SessionMetrics)
    ensures
        figures_of(metrics).len() == 3,
        figures_of(metrics)[0] == cost_text(metrics.cost_microusd),
        figures_of(metrics)[1] == tokens_text(metrics.total_tokens) + " tok"@,
        figures_of(metrics)[2] == decimal(metrics.total_messages as nat) + " msg"@,
{
}

/// Digits are grouped by three from the end: a comma stands in every fourth place and
/// nowhere else.
pub proof fn lemma_digits_are_grouped(digits: Seq<char>, k: int)
    requires
        forall|i: int| 0 <= i < digits.len() ==> #[trigger] digits[i] != ',',
    ensures
        0 <= k < grouped(digits).len() ==> (grouped(digits)[grouped(digits).len() - 1 - k] == ','
            <==> k % 4 == 3),
        digits.len() > 0 ==> grouped(digits).len() == digits.len() + (digits.len() - 1) / 3,
        digits.len() > 0 ==> grouped(digits)[0] == digits[0],
    decreases digits.len(),
{
    reveal_strlit(",");
    if digits.len() > 3 {
        let head = digits.take(digits.len() - 3);
        let tail = digits.skip(digits.len() - 3);
        assert(forall|i: int| 0 <= i < head.len() ==> #[trigger] head[i] == digits[i]);
        assert(forall|i: int| 0 <= i < 3 ==> #[trigger] tail[i] == digits[digits.len() - 3 + i]);
        lemma_digits_are_grouped(head, k - 4);
        let all = grouped(digits);
        let first = grouped(head);
        assert(all =~= first + ","@ + tail);
        if 0 <= k < 3 {
            assert(all[all.len() - 1 - k] == tail[2 - k]);
        } else if k == 3 {
            assert(all[all.len() - 1 - k] == ',');
        } else if 4 <= k < all.len() {
            assert(all[all.len() - 1 - k] == first[first.len() - 1 - (k - 4)]);
        }
        assert(all[0] == first[0]);
    }
}

/// Each role and each condition of a session has its own sign.
pub proof fn lemma_signs(role: ConversationRole, status: StatusView)
    ensures
        role_icon(ConversationRole::User) is None,
        role_icon(ConversationRole::Assistant) == Some(IconName::Bot),
        role_icon(ConversationRole::Tool) == Some(IconName::SquareTerminal),
        role_icon(ConversationRole::System) == Some(IconName::Info),
        status is Failed ==> status_icon(status) == Some(IconName::TriangleAlert) && hue_of(status)
            == Hue::Error && label_key(status) == "status-failed"@,
        status is Starting ==> status_icon(status) == Some(IconName::LoaderCircle) && hue_of(status)
            == Hue::Warning && label_key(status) == "status-starting"@,
        status is Streaming ==> status_icon(status) == Some(IconName::LoaderCircle) && hue_of(
            status,
        ) == Hue::Accent && label_key(status) == "status-streaming"@,
        status is Compacting ==> status_icon(status) == Some(IconName::Minimize) && hue_of(status)
            == Hue::Accent && label_key(status) == "status-compacting"@,
        status is Ready ==> status_icon(status) is None && hue_of(status) == Hue::Success
            && label_key(status) == "status-ready"@,
        status is Offline ==> status_icon(status) is None && hue_of(status) == Hue::Muted
            && label_key(status) == "status-offline"@,
{
}

/// The button for the theme offers the other one.
pub proof fn lemma_the_other_theme()
    ensures
        tooltip_of(ThemeMode::Light) == "switch-to-dark"@,
        tooltip_of(ThemeMode::Dark) == "switch-to-light"@,
{
}

/// The strip names the selected project: the first with its identifier.
pub proof fn lemma_the_project_is_named(projects: Seq<ProjectView>, id: ProjectId, i: int)
    ensures
        project_name(projects, None) is None,
        0 <= i < projects.len() && projects[i].id == id && (forall|k: int|
            0 <= k < i ==> (#[trigger] projects[k]).id != id) ==> project_name(projects, Some(id))
            == Some(projects[i].name),
        (forall|k: int| 0 <= k < projects.len() ==> (#[trigger] projects[k]).id != id)
            ==> project_name(projects, Some(id)) is None,
{
    let f = |project: ProjectView| project.id == id;
    if 0 <= i < projects.len() && projects[i].id == id && (forall|k: int|
        0 <= k < i ==> (#[trigger] projects[k]).id != id) {
        lemma_first_found(projects, f, i);
    }
    if forall|k: int| 0 <= k < projects.len() ==> (#[trigger] projects[k]).id != id {
        lemma_none_found(projects, f);
    }
}

/// Whether a project lists a session.
pub open spec fn lists_session(listed: ProjectSessionsView, id: SessionId) -> bool {
    exists|k: int| 0 <= k < listed.sessions.len() && (#[trigger] listed.sessions[k]).id == id
}

/// The strip names the selected session: the first with its identifier, whatever its
/// project.
pub proof fn lemma_the_session_is_named(
    sessions: Seq<ProjectSessionsView>,
    id: SessionId,
    p: int,
    i: int,
)
    requires
        0 <= p < sessions.len(),
        0 <= i < sessions[p].sessions.len(),
        sessions[p].sessions[i].id == id,
        forall|k: int| 0 <= k < i ==> (#[trigger] sessions[p].sessions[k]).id != id,
        forall|q: int| 0 <= q < p ==> !lists_session(#[trigger] sessions[q], id),
    ensures
        session_with(sessions, id) == Some(sessions[p].sessions[i]),
        session_title(sessions, Some(id)) == Some(sessions[p].sessions[i].title),
        session_title(sessions, None) is None,
    decreases p,
{
    let f = |session: SummaryView| session.id == id;
    if p == 0 {
        lemma_first_found(sessions[0].sessions, f, i);
    } else {
        assert(!lists_session(sessions[0], id));
        lemma_none_found(sessions[0].sessions, f);
        let rest = sessions.drop_first();
        assert(rest[p - 1] == sessions[p]);
        assert(forall|q: int| 0 <= q < p - 1 ==> #[trigger] rest[q] == sessions[q + 1]);
        lemma_the_session_is_named(rest, id, p - 1, i);
    }
}

/// The strip shows the project, the session and the figures, as far as there are any,
/// and last whether the session compacts by itself.
pub proof fn lemma_the_strip(
    project: Option<Seq<char>>,
    session: Option<Seq<char>>,
    metrics: Option<SessionMetrics>,
    auto_compaction: bool,
)
    ensures
        ({
            let all = segments_of(project, session, metrics, auto_compaction);
            let p = if project is Some {
                1int
            } else {
                0
            };
            let s = if session is Some {
                1int
            } else {
                0
            };
            &&& all.len() == p + s + (if metrics is Some {
                3int
            } else {
                0
            }) + 1
            &&& project matches Some(name) ==> all[0] == name
            &&& session matches Some(title) ==> all[p] == title
            &&& metrics matches Some(metrics) ==> all[p + s] == figures_of(metrics)[0] && all[p + s
                + 1] == figures_of(metrics)[1] && all[p + s + 2] == figures_of(metrics)[2]
            &&& auto_compaction ==> all.last() == "auto-compact on"@
            &&& !auto_compaction ==> all.last() == "auto-compact off"@
        }),
{
}

/// Errors are shown as errors and news as news, and the tone of an answer is that of its
/// button.
pub proof fn lemma_tones()
    ensures
        type_of(Level::Error) == NotificationType::Error,
        type_of(Level::Info) == NotificationType::Info,
        variant_of(Tone::Primary) == ButtonVariant::Primary,
        variant_of(Tone::Danger) == ButtonVariant::Danger,
        variant_of(Tone::Neutral) == ButtonVariant::Default,
{
}

/// An answer answers the question that has waited longest, which then waits no more; the
/// others keep their order.
pub proof fn lemma_questions_are_answered(view: PromptsView, value: Seq<char>, k: int)
    ensures
        ({
            let (after, answer) = answered(view, value);
            &&& view.waiting.len() == 0 ==> answer is None && after == view
            &&& view.waiting.len() > 0 ==> {
                &&& answer == Some(prompt_answer(view.waiting[0], value))
                &&& after.waiting.len() == view.waiting.len() - 1
                &&& 0 <= k < after.waiting.len() ==> after.waiting[k] == view.waiting[k + 1]
                &&& after.draft_for == view.draft_for
            }
            &&& view.waiting.len() > 0 ==> shown(view).draft_for == Some(
                view.waiting[0].request_id,
            ) && shown(view).waiting == view.waiting && !needs_reset(shown(view))
            &&& needs_reset(view) <==> view.waiting.len() > 0 && view.draft_for != Some(
                view.waiting[0].request_id,
            )
        }),
{
}

/// A session is renamed to what is typed, without white space around it, and not at all
/// where that is blank or no session was picked.
pub proof fn lemma_sessions_are_renamed(view: RenameView, path: Seq<char>, title: Seq<char>)
    ensures
        is_blank(view.typed) || view.path is None ==> committed(view) is None,
        !is_blank(view.typed) && view.path == Some(path) ==> committed(view) == Some(
            (path, trim(view.typed)),
        ),
        opened(view, path, title).path == Some(path),
        opened(view, path, title).typed == title,
        title_of(title) is Some <==> !is_blank(title),
{
}

/// Every event whose session is still known is delivered under its key, and no other is.
pub proof fn lemma_events_are_labelled<E>(
    batch: Seq<(SessionToken, E)>,
    labels: Seq<Option<String>>,
    n: nat,
)
    requires
        n < batch.len(),
        labels.len() == batch.len(),
    ensures
        labelled(batch, labels, 0).len() == 0,
        labels[n as int] matches Some(key) ==> labelled(batch, labels, n + 1) == labelled(
            batch,
            labels,
            n,
        ).push((key@, batch[n as int].1)),
        labels[n as int] is None ==> labelled(batch, labels, n + 1) == labelled(batch, labels, n),
{
}

/// Figures are worked out with as many digits as a fraction has: whole numbers up to the
/// fifty-third power of two are exact.
pub proof fn lemma_whole_numbers_are_exact(n: nat)
    requires
        n < 0x20_0000_0000_0000,
    ensures
        rounded(n) == n,
{
    assert(n / 1 == n);
    assert(n % 1 == 0);
}

} // verus!
