//! Properties of whole runs of the worker: what its decisions guarantee over
//! any sequence of answers from the outside.
use vstd::prelude::*;

use crate::worker::{transition, Action, Observation, Outcome, Phase};

verus! {

/// The final phase and the actions of a run that starts in `p` and takes in
/// the observations `obs` in turn; the action at position `i` answers `obs[i]`.
pub open spec fn run(db: bool, p: Phase, obs: Seq<Observation>) -> (Phase, Seq<Action>)
    decreases obs.len(),
{
    if obs.len() == 0 {
        (p, Seq::empty())
    } else {
        let (q, a) = transition(db, p, obs[0]);
        let (r, acts) = run(db, q, obs.drop_first());
        (r, seq![a] + acts)
    }
}

/// Fetched events and their outcomes alternate. `open` tells whether an event
/// is outstanding: a fetched event (`Resolve`) comes only when none is, an
/// outcome (`Finalize`) only when one is, and the source is asked again
/// (`Fetch`) only when none is.
pub open spec fn bracketed(acts: Seq<Action>, open: bool) -> bool
    decreases acts.len(),
{
    if acts.len() == 0 {
        true
    } else {
        let rest = acts.drop_first();
        match acts[0] {
            Action::Resolve => !open && bracketed(rest, true),
            Action::Finalize(_) => open && bracketed(rest, false),
            Action::Fetch => !open && bracketed(rest, false),
            _ => bracketed(rest, open),
        }
    }
}

/// Whether an event is outstanding after the actions `acts`, when `open`
/// told so before them.
pub open spec fn open_after(acts: Seq<Action>, open: bool) -> bool
    decreases acts.len(),
{
    if acts.len() == 0 {
        open
    } else {
        let next = match acts[0] {
            Action::Resolve => true,
            Action::Finalize(_) => false,
            _ => open,
        };
        open_after(acts.drop_first(), next)
    }
}

/// The rows of the outbox, as counts: `rows` committed, `staged` written in
/// the open transaction. A written event is staged; a commit makes the staged
/// rows durable; a failure drops the transaction with what it staged.
pub open spec fn ledger_step(p: Phase, o: Observation, a: Action, rows: nat, staged: nat) -> (nat, nat) {
    if p is Storing && o == Observation::Stored(true) {
        (rows, staged + 1)
    } else if p is Committing && o == Observation::Committed(true) {
        (rows + staged, 0)
    } else if a == Action::Finalize(Outcome::Failed) {
        (rows, 0)
    } else {
        (rows, staged)
    }
}

/// The outbox counts after a run from `p` over `obs`.
pub open spec fn ledger(db: bool, p: Phase, obs: Seq<Observation>, rows: nat, staged: nat) -> (nat, nat)
    decreases obs.len(),
{
    if obs.len() == 0 {
        (rows, staged)
    } else {
        let (q, a) = transition(db, p, obs[0]);
        let (rows2, staged2) = ledger_step(p, obs[0], a, rows, staged);
        ledger(db, q, obs.drop_first(), rows2, staged2)
    }
}

proof fn lemma_absorbed(db: bool, p: Phase, obs: Seq<Observation>, open: bool)
    requires
        p is Halted || p is Stopped,
    ensures
        run(db, p, obs).0 == p,
        bracketed(run(db, p, obs).1, open),
    decreases obs.len(),
{
    if obs.len() > 0 {
        lemma_absorbed(db, p, obs.drop_first(), open);
        let acts = run(db, p, obs).1;
        assert(acts.drop_first() == run(db, p, obs.drop_first()).1);
    }
}

/// A step keeps phases consistent.
pub proof fn lemma_step_wf(db: bool, p: Phase, o: Observation)
    requires
        p.wf(),
    ensures
        transition(db, p, o).0.wf(),
{
}

/// Every event that the source hands out gets exactly one outcome (succeeded,
/// failed or skipped) before the source is asked again, so outcomes are
/// reported in the order in which the events were fetched.
pub proof fn lemma_one_outcome_per_event(db: bool, p: Phase, obs: Seq<Observation>)
    requires
        p.wf(),
    ensures
        bracketed(run(db, p, obs).1, p.holds_event()),
        !(run(db, p, obs).0 is Halted) ==> open_after(run(db, p, obs).1, p.holds_event())
            == run(db, p, obs).0.holds_event(),
    decreases obs.len(),
{
    if obs.len() > 0 {
        let (q, a) = transition(db, p, obs[0]);
        let acts = run(db, p, obs).1;
        assert(acts.drop_first() == run(db, q, obs.drop_first()).1);
        assert(acts[0] == a);
        if q is Halted {
            lemma_absorbed(db, q, obs.drop_first(), p.holds_event());
        } else {
            lemma_one_outcome_per_event(db, q, obs.drop_first());
        }
    }
}

/// After a fetched event (`Resolve`), the rest of the actions is bracketed
/// with that event outstanding.
proof fn lemma_after_resolve(acts: Seq<Action>, open: bool, i: int)
    requires
        bracketed(acts, open),
        0 <= i < acts.len(),
        acts[i] is Resolve,
    ensures
        bracketed(acts.subrange(i + 1, acts.len() as int), true),
        open_after(acts.subrange(i + 1, acts.len() as int), true) == open_after(acts, open),
    decreases acts.len(),
{
    let rest = acts.drop_first();
    if i == 0 {
        assert(rest =~= acts.subrange(1, acts.len() as int));
    } else {
        assert(rest.subrange(i, rest.len() as int) =~= acts.subrange(i + 1, acts.len() as int));
        assert(rest[i - 1] == acts[i]);
        match acts[0] {
            Action::Resolve => lemma_after_resolve(rest, true, i - 1),
            Action::Finalize(_) => lemma_after_resolve(rest, false, i - 1),
            Action::Fetch => lemma_after_resolve(rest, false, i - 1),
            _ => lemma_after_resolve(rest, open, i - 1),
        }
    }
}

/// A request for a new event is a fetch or a resolve.
pub open spec fn asks_for_event(a: Action) -> bool {
    a is Fetch || a is Resolve
}

/// With no event outstanding and no new one asked for in the first `m`
/// actions, none of them is an outcome.
proof fn lemma_no_outcome_while_idle(s: Seq<Action>, m: int)
    requires
        bracketed(s, false),
        0 <= m <= s.len(),
        forall|g: int| 0 <= g < m ==> !asks_for_event(#[trigger] s[g]),
    ensures
        forall|g: int| 0 <= g < m ==> !(#[trigger] s[g] is Finalize),
    decreases m,
{
    if m > 0 {
        let rest = s.drop_first();
        assert(!asks_for_event(s[0]));
        assert forall|g: int| 0 <= g < m - 1 implies !asks_for_event(#[trigger] rest[g]) by {
            assert(rest[g] == s[g + 1]);
        }
        lemma_no_outcome_while_idle(rest, m - 1);
        assert forall|g: int| 0 <= g < m implies !(#[trigger] s[g] is Finalize) by {
            if g > 0 {
                assert(s[g] == rest[g - 1]);
            }
        }
    }
}

/// With an event outstanding, the actions before the next request for an
/// event hold exactly one outcome.
proof fn lemma_one_outcome_before_next(s: Seq<Action>, m: int)
    requires
        bracketed(s, true),
        0 <= m < s.len(),
        asks_for_event(s[m]),
        forall|g: int| 0 <= g < m ==> !asks_for_event(#[trigger] s[g]),
    ensures
        exists|f: int| 0 <= f < m && s[f] is Finalize
            && forall|g: int| 0 <= g < m && #[trigger] s[g] is Finalize ==> g == f,
    decreases m,
{
    let rest = s.drop_first();
    if m == 0 {
        assert(false);
    } else {
        assert(!asks_for_event(s[0]));
        assert forall|g: int| 0 <= g < m - 1 implies !asks_for_event(#[trigger] rest[g]) by {
            assert(rest[g] == s[g + 1]);
        }
        if s[0] is Finalize {
            lemma_no_outcome_while_idle(rest, m - 1);
            assert forall|g: int| 0 <= g < m && #[trigger] s[g] is Finalize implies g == 0 by {
                if g > 0 {
                    assert(s[g] == rest[g - 1]);
                }
            }
        } else {
            assert(rest[m - 1] == s[m]);
            lemma_one_outcome_before_next(rest, m - 1);
            let f = choose|f: int| 0 <= f < m - 1 && rest[f] is Finalize
                && forall|g: int| 0 <= g < m - 1 && #[trigger] rest[g] is Finalize ==> g == f;
            assert(s[f + 1] == rest[f]);
            assert forall|g: int| 0 <= g < m && #[trigger] s[g] is Finalize implies g == f + 1 by {
                assert(g > 0);
                assert(s[g] == rest[g - 1]);
            }
        }
    }
}

/// In a run from the boundary, a fetched event gets exactly one outcome
/// (succeeded, failed or skipped) before the source is asked for the next
/// event: between a `Resolve` and the next `Fetch` or `Resolve` there is
/// exactly one `Finalize`. So an event is finalized before the next one is
/// fetched, and outcomes come in fetch order.
pub proof fn lemma_exactly_one_outcome(db: bool, obs: Seq<Observation>, i: int, j: int)
    requires
        0 <= i < j < run(db, Phase::Boundary, obs).1.len(),
        run(db, Phase::Boundary, obs).1[i] is Resolve,
        asks_for_event(run(db, Phase::Boundary, obs).1[j]),
        forall|g: int| i < g < j ==> !asks_for_event(#[trigger] run(db, Phase::Boundary, obs).1[g]),
    ensures
        exists|f: int| i < f < j && run(db, Phase::Boundary, obs).1[f] is Finalize
            && forall|g: int| i < g < j && #[trigger] run(db, Phase::Boundary, obs).1[g] is Finalize ==> g == f,
{
    let acts = run(db, Phase::Boundary, obs).1;
    lemma_one_outcome_per_event(db, Phase::Boundary, obs);
    lemma_after_resolve(acts, false, i);
    let s = acts.subrange(i + 1, acts.len() as int);
    assert forall|g: int| 0 <= g < j - i - 1 implies !asks_for_event(#[trigger] s[g]) by {
        assert(s[g] == acts[g + i + 1]);
    }
    assert(s[j - i - 1] == acts[j]);
    lemma_one_outcome_before_next(s, j - i - 1);
    let f = choose|f: int| 0 <= f < j - i - 1 && s[f] is Finalize
        && forall|g: int| 0 <= g < j - i - 1 && #[trigger] s[g] is Finalize ==> g == f;
    assert(acts[f + i + 1] == s[f]);
    assert forall|g: int| i < g < j && #[trigger] acts[g] is Finalize implies g == f + i + 1 by {
        assert(s[g - i - 1] == acts[g]);
    }
}

/// With an event outstanding, an outcome comes before any later fetched event.
proof fn lemma_outcome_before_resolve(s: Seq<Action>, m: int)
    requires
        bracketed(s, true),
        0 <= m < s.len(),
        s[m] is Resolve,
    ensures
        exists|f: int| 0 <= f < m && #[trigger] s[f] is Finalize,
    decreases m,
{
    let rest = s.drop_first();
    if m == 0 {
        assert(false);
    } else if !(s[0] is Finalize) {
        assert(rest[m - 1] == s[m]);
        assert(bracketed(rest, true));
        lemma_outcome_before_resolve(rest, m - 1);
        let f = choose|f: int| 0 <= f < m - 1 && #[trigger] rest[f] is Finalize;
        assert(s[f + 1] == rest[f]);
    }
}

/// With an event outstanding and none left outstanding at the end, an
/// outcome comes.
proof fn lemma_outcome_comes(s: Seq<Action>)
    requires
        bracketed(s, true),
        !open_after(s, true),
    ensures
        exists|f: int| 0 <= f < s.len() && #[trigger] s[f] is Finalize,
    decreases s.len(),
{
    let rest = s.drop_first();
    if s.len() == 0 {
        assert(false);
    } else if !(s[0] is Finalize) {
        lemma_outcome_comes(rest);
        let f = choose|f: int| 0 <= f < rest.len() && #[trigger] rest[f] is Finalize;
        assert(s[f + 1] == rest[f]);
    }
}

/// A run that stops leaves no event unfinished: every event fetched in a run
/// from the boundary that ends stopped has had its outcome reported.
pub proof fn lemma_stop_leaves_nothing_open(db: bool, obs: Seq<Observation>, i: int)
    requires
        run(db, Phase::Boundary, obs).0 is Stopped,
        0 <= i < run(db, Phase::Boundary, obs).1.len(),
        run(db, Phase::Boundary, obs).1[i] is Resolve,
    ensures
        exists|f: int| i < f < run(db, Phase::Boundary, obs).1.len()
            && #[trigger] run(db, Phase::Boundary, obs).1[f] is Finalize,
{
    let acts = run(db, Phase::Boundary, obs).1;
    lemma_one_outcome_per_event(db, Phase::Boundary, obs);
    lemma_after_resolve(acts, false, i);
    let s = acts.subrange(i + 1, acts.len() as int);
    lemma_outcome_comes(s);
    let f = choose|f: int| 0 <= f < s.len() && #[trigger] s[f] is Finalize;
    assert(acts[f + i + 1] == s[f]);
}

/// Events are finalized in the order in which they were fetched: when event
/// N+1 is fetched (a later `Resolve`), event N has already had its outcome.
pub proof fn lemma_fetch_order(db: bool, obs: Seq<Observation>, i: int, j: int)
    requires
        0 <= i < j < run(db, Phase::Boundary, obs).1.len(),
        run(db, Phase::Boundary, obs).1[i] is Resolve,
        run(db, Phase::Boundary, obs).1[j] is Resolve,
    ensures
        exists|f: int| i < f < j && #[trigger] run(db, Phase::Boundary, obs).1[f] is Finalize,
{
    let acts = run(db, Phase::Boundary, obs).1;
    lemma_one_outcome_per_event(db, Phase::Boundary, obs);
    lemma_after_resolve(acts, false, i);
    let s = acts.subrange(i + 1, acts.len() as int);
    assert(s[j - i - 1] == acts[j]);
    lemma_outcome_before_resolve(s, j - i - 1);
    let f = choose|f: int| 0 <= f < j - i - 1 && #[trigger] s[f] is Finalize;
    assert(acts[f + i + 1] == s[f]);
}

/// The outbox gains rows only at a commit, and every commit is reported as a
/// success: in a run that reports no success, no row becomes durable. In
/// particular, when a handler fails after an earlier handler of the same event
/// produced events, none of those events reaches the outbox.
pub proof fn lemma_rows_only_on_success(db: bool, p: Phase, obs: Seq<Observation>, rows: nat, staged: nat)
    requires
        !run(db, p, obs).1.contains(Action::Finalize(Outcome::Succeeded)),
    ensures
        ledger(db, p, obs, rows, staged).0 == rows,
    decreases obs.len(),
{
    if obs.len() > 0 {
        let (q, a) = transition(db, p, obs[0]);
        let acts = run(db, p, obs).1;
        assert(acts.drop_first() == run(db, q, obs.drop_first()).1);
        assert(acts[0] == a);
        assert(!acts.drop_first().contains(Action::Finalize(Outcome::Succeeded))) by {
            if acts.drop_first().contains(Action::Finalize(Outcome::Succeeded)) {
                let i = choose|i: int| 0 <= i < acts.drop_first().len()
                    && acts.drop_first()[i] == Action::Finalize(Outcome::Succeeded);
                assert(acts[i + 1] == Action::Finalize(Outcome::Succeeded));
            }
        }
        if a == Action::Finalize(Outcome::Succeeded) {
            assert(acts.contains(a));
        }
        let (rows2, staged2) = ledger_step(p, obs[0], a, rows, staged);
        lemma_rows_only_on_success(db, q, obs.drop_first(), rows2, staged2);
    }
}

/// A failing handler ends the event at once: the failure is reported, the
/// remaining handlers do not run, and what the transaction staged is dropped.
pub proof fn lemma_failure_discards(db: bool, next: usize, handlers: usize, rows: nat, staged: nat)
    ensures
        transition(db, Phase::Handling { next, handlers }, Observation::Handled(None))
            == (Phase::Boundary, Action::Finalize(Outcome::Failed)),
        ledger_step(Phase::Handling { next, handlers }, Observation::Handled(None),
            Action::Finalize(Outcome::Failed), rows, staged) == (rows, 0nat),
{
}

/// An event without handlers is reported as skipped, and nothing else
/// happens: no transaction is opened and the outbox is unchanged.
pub proof fn lemma_skip_opens_nothing(db: bool, rows: nat, staged: nat)
    ensures
        transition(db, Phase::Resolving, Observation::Resolved(None))
            == (Phase::Boundary, Action::Finalize(Outcome::Skipped)),
        ledger_step(Phase::Resolving, Observation::Resolved(None),
            Action::Finalize(Outcome::Skipped), rows, staged) == (rows, staged),
{
}

/// Shutdown happens only between events: the run stops only from the
/// boundary, where no event is outstanding and no transaction is open, and the
/// activeness flag is read nowhere else.
pub proof fn lemma_stop_between_events(db: bool, p: Phase, o: Observation)
    ensures
        transition(db, p, o).0 is Stopped ==> !p.holds_event() && !p.in_transaction(),
        o is Activeness && !(p is Stopped) && !(p is Halted) ==> p is Boundary || transition(db, p, o).0 is Halted,
        transition(db, p, o).1 == Action::ReadActiveness ==> transition(db, p, o).0 is Boundary,
{
}

} // verus!
