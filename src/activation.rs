use vstd::prelude::*;

use crate::filter::{WS_MAXIMIZE, WS_MINIMIZE};

verus! {

/// Pause, in milliseconds, before the single retry of a refused foreground request.
pub const RETRY_DELAY_MS: u64 = 100;

/// How a window is brought back before it is given the foreground.
#[derive(Clone, Copy, Debug, PartialEq, Eq, Structural)]
pub enum ShowCommand {
    /// Show the window as it is, keeping it maximized.
    Show,
    /// Restore the window from minimized (or another) state to its normal size.
    Restore,
}

/// The window's style says it is maximized.
pub open spec fn is_maximized(style: u32) -> bool {
    style & WS_MAXIMIZE != 0
}

/// The window's style says it is minimized.
pub open spec fn is_minimized(style: u32) -> bool {
    style & WS_MINIMIZE != 0
}

/// The show request for a window with the given style: a maximized window is
/// shown, so that it stays maximized; any other is restored.
pub fn show_command(style: u32) -> (r: ShowCommand)
    ensures
        is_maximized(style) ==> r == ShowCommand::Show,
        !is_maximized(style) ==> r == ShowCommand::Restore,
{
    if style & WS_MAXIMIZE == 0 {
        ShowCommand::Restore
    } else {
        ShowCommand::Show
    }
}

/// Where an activation stands.
#[derive(Clone, Copy, Debug, PartialEq, Eq, Structural)]
pub enum ActivationPhase {
    /// Waiting for the window's style.
    QueryingStyle,
    /// Waiting for the show or restore request to be made.
    Showing,
    /// Waiting for the answer to the first foreground request.
    Requesting,
    /// Waiting for the pause before the retry to end.
    Waiting,
    /// Waiting for the answer to the retried foreground request.
    Retrying,
    /// Done, with the result that was reported.
    Finished(bool),
}

/// What the caller observed after performing the last action.
#[derive(Clone, Copy, Debug, PartialEq, Eq, Structural)]
pub enum ActivationEvent {
    /// The window's style flags were read.
    StyleRead(u32),
    /// The show or restore request was made.
    Shown,
    /// The environment answered a foreground request: granted or refused.
    ForegroundAnswered(bool),
    /// The pause is over.
    Waited,
}

/// What the caller is to do next.
#[derive(Clone, Copy, Debug, PartialEq, Eq, Structural)]
pub enum ActivationAction {
    /// Read the window's style flags.
    QueryStyle,
    /// Make the given show request.
    ShowWindow(ShowCommand),
    /// Ask for the window to become the foreground window.
    RequestForeground,
    /// Block for the given number of milliseconds.
    Sleep(u64),
    /// Stop and report whether the window was given the foreground.
    Report(bool),
}

/// The transition taken from `phase` on `event`. An event that does not
/// answer the pending action ends the activation as failed; a finished
/// activation keeps reporting its result.
pub open spec fn transition(phase: ActivationPhase, event: ActivationEvent) -> (ActivationPhase, ActivationAction) {
    match (phase, event) {
        (ActivationPhase::QueryingStyle, ActivationEvent::StyleRead(style)) => (
            ActivationPhase::Showing,
            ActivationAction::ShowWindow(
                if is_maximized(style) {
                    ShowCommand::Show
                } else {
                    ShowCommand::Restore
                },
            ),
        ),
        (ActivationPhase::Showing, ActivationEvent::Shown) => (
            ActivationPhase::Requesting,
            ActivationAction::RequestForeground,
        ),
        (ActivationPhase::Requesting, ActivationEvent::ForegroundAnswered(granted)) => if granted {
            (ActivationPhase::Finished(true), ActivationAction::Report(true))
        } else {
            (ActivationPhase::Waiting, ActivationAction::Sleep(RETRY_DELAY_MS))
        },
        (ActivationPhase::Waiting, ActivationEvent::Waited) => (
            ActivationPhase::Retrying,
            ActivationAction::RequestForeground,
        ),
        (ActivationPhase::Retrying, ActivationEvent::ForegroundAnswered(granted)) => (
            ActivationPhase::Finished(granted),
            ActivationAction::Report(granted),
        ),
        (ActivationPhase::Finished(result), _) => (
            ActivationPhase::Finished(result),
            ActivationAction::Report(result),
        ),
        _ => (ActivationPhase::Finished(false), ActivationAction::Report(false)),
    }
}

/// Begins the activation of a window: its style is read first.
pub fn start_activation() -> (r: (ActivationPhase, ActivationAction))
    ensures
        r == (ActivationPhase::QueryingStyle, ActivationAction::QueryStyle),
{
    (ActivationPhase::QueryingStyle, ActivationAction::QueryStyle)
}

/// Decides the next phase and action of an activation from the event that
/// answered its last action.
pub fn next_step(phase: ActivationPhase, event: ActivationEvent) -> (r: (ActivationPhase, ActivationAction))
    ensures
        r == transition(phase, event),
{
    match (phase, event) {
        (ActivationPhase::QueryingStyle, ActivationEvent::StyleRead(style)) => {
            (ActivationPhase::Showing, ActivationAction::ShowWindow(show_command(style)))
        },
        (ActivationPhase::Showing, ActivationEvent::Shown) => {
            (ActivationPhase::Requesting, ActivationAction::RequestForeground)
        },
        (ActivationPhase::Requesting, ActivationEvent::ForegroundAnswered(granted)) => {
            if granted {
                (ActivationPhase::Finished(true), ActivationAction::Report(true))
            } else {
                (ActivationPhase::Waiting, ActivationAction::Sleep(RETRY_DELAY_MS))
            }
        },
        (ActivationPhase::Waiting, ActivationEvent::Waited) => {
            (ActivationPhase::Retrying, ActivationAction::RequestForeground)
        },
        (ActivationPhase::Retrying, ActivationEvent::ForegroundAnswered(granted)) => {
            (ActivationPhase::Finished(granted), ActivationAction::Report(granted))
        },
        (ActivationPhase::Finished(result), _) => {
            (ActivationPhase::Finished(result), ActivationAction::Report(result))
        },
        _ => (ActivationPhase::Finished(false), ActivationAction::Report(false)),
    }
}

/// The actions an activation takes from `phase` as `events` answer them in turn.
pub open spec fn trace(phase: ActivationPhase, events: Seq<ActivationEvent>) -> Seq<ActivationAction>
    decreases events.len(),
{
    if events.len() == 0 {
        Seq::empty()
    } else {
        let (next, action) = transition(phase, events[0]);
        seq![action] + trace(next, events.drop_first())
    }
}

/// The phase an activation reaches from `phase` after `events`.
pub open spec fn phase_after(phase: ActivationPhase, events: Seq<ActivationEvent>) -> ActivationPhase
    decreases events.len(),
{
    if events.len() == 0 {
        phase
    } else {
        phase_after(transition(phase, events[0]).0, events.drop_first())
    }
}

/// The actions of a whole activation: the style query, then what follows.
pub open spec fn activation_actions(events: Seq<ActivationEvent>) -> Seq<ActivationAction> {
    seq![ActivationAction::QueryStyle] + trace(ActivationPhase::QueryingStyle, events)
}

/// The number of foreground requests among `actions`.
pub open spec fn foreground_requests(actions: Seq<ActivationAction>) -> nat
    decreases actions.len(),
{
    if actions.len() == 0 {
        0
    } else {
        (if actions[0] == ActivationAction::RequestForeground {
            1nat
        } else {
            0nat
        }) + foreground_requests(actions.drop_first())
    }
}

/// How many foreground requests an activation may still make from `phase`.
pub open spec fn requests_left(phase: ActivationPhase) -> nat {
    match phase {
        ActivationPhase::QueryingStyle | ActivationPhase::Showing => 2,
        ActivationPhase::Requesting | ActivationPhase::Waiting => 1,
        _ => 0,
    }
}

/// How many events at most an activation still takes from `phase` to finish.
pub open spec fn steps_left(phase: ActivationPhase) -> nat {
    match phase {
        ActivationPhase::QueryingStyle => 5,
        ActivationPhase::Showing => 4,
        ActivationPhase::Requesting => 3,
        ActivationPhase::Waiting => 2,
        ActivationPhase::Retrying => 1,
        ActivationPhase::Finished(_) => 0,
    }
}

proof fn lemma_requests_bounded(phase: ActivationPhase, events: Seq<ActivationEvent>)
    ensures
        foreground_requests(trace(phase, events)) <= requests_left(phase),
    decreases events.len(),
{
    if events.len() > 0 {
        let (next, action) = transition(phase, events[0]);
        lemma_requests_bounded(next, events.drop_first());
        let t = trace(phase, events);
        assert(t.drop_first() =~= trace(next, events.drop_first()));
        assert(t[0] == action);
    }
}

/// An activation makes at most two foreground requests, whatever the
/// environment answers: the first and a single retry.
pub proof fn lemma_at_most_one_retry(events: Seq<ActivationEvent>)
    ensures
        foreground_requests(activation_actions(events)) <= 2,
{
    lemma_requests_bounded(ActivationPhase::QueryingStyle, events);
    let a = activation_actions(events);
    assert(a.drop_first() =~= trace(ActivationPhase::QueryingStyle, events));
}

/// When the first foreground request is refused, the activation pauses for
/// the retry delay, requests the foreground once more, and reports that
/// second answer.
pub proof fn lemma_refusal_retried_once(style: u32, retry: bool)
    ensures
        activation_actions(
            seq![
                ActivationEvent::StyleRead(style),
                ActivationEvent::Shown,
                ActivationEvent::ForegroundAnswered(false),
                ActivationEvent::Waited,
                ActivationEvent::ForegroundAnswered(retry),
            ],
        ) == seq![
            ActivationAction::QueryStyle,
            ActivationAction::ShowWindow(
                if is_maximized(style) {
                    ShowCommand::Show
                } else {
                    ShowCommand::Restore
                },
            ),
            ActivationAction::RequestForeground,
            ActivationAction::Sleep(RETRY_DELAY_MS),
            ActivationAction::RequestForeground,
            ActivationAction::Report(retry),
        ],
{
    let evs = seq![
        ActivationEvent::StyleRead(style),
        ActivationEvent::Shown,
        ActivationEvent::ForegroundAnswered(false),
        ActivationEvent::Waited,
        ActivationEvent::ForegroundAnswered(retry),
    ];
    let p1 = ActivationPhase::Showing;
    assert(evs.drop_first() =~= seq![ActivationEvent::Shown, ActivationEvent::ForegroundAnswered(false), ActivationEvent::Waited, ActivationEvent::ForegroundAnswered(retry)]);
    let e2 = evs.drop_first().drop_first();
    assert(e2 =~= seq![ActivationEvent::ForegroundAnswered(false), ActivationEvent::Waited, ActivationEvent::ForegroundAnswered(retry)]);
    let e3 = e2.drop_first();
    assert(e3 =~= seq![ActivationEvent::Waited, ActivationEvent::ForegroundAnswered(retry)]);
    let e4 = e3.drop_first();
    assert(e4 =~= seq![ActivationEvent::ForegroundAnswered(retry)]);
    let e5 = e4.drop_first();
    assert(e5 =~= Seq::<ActivationEvent>::empty());
    assert(trace(ActivationPhase::Finished(retry), e5) =~= Seq::<ActivationAction>::empty());
    assert(trace(ActivationPhase::Retrying, e4) =~= seq![ActivationAction::Report(retry)]);
    assert(trace(ActivationPhase::Waiting, e3) =~= seq![ActivationAction::RequestForeground, ActivationAction::Report(retry)]);
    assert(trace(ActivationPhase::Requesting, e2) =~= seq![ActivationAction::Sleep(RETRY_DELAY_MS), ActivationAction::RequestForeground, ActivationAction::Report(retry)]);
    assert(trace(p1, evs.drop_first()) =~= seq![ActivationAction::RequestForeground, ActivationAction::Sleep(RETRY_DELAY_MS), ActivationAction::RequestForeground, ActivationAction::Report(retry)]);
    assert(activation_actions(evs) =~= seq![
            ActivationAction::QueryStyle,
            ActivationAction::ShowWindow(
                if is_maximized(style) {
                    ShowCommand::Show
                } else {
                    ShowCommand::Restore
                },
            ),
            ActivationAction::RequestForeground,
            ActivationAction::Sleep(RETRY_DELAY_MS),
            ActivationAction::RequestForeground,
            ActivationAction::Report(retry),
        ]);
}

proof fn lemma_steps_bounded(phase: ActivationPhase, events: Seq<ActivationEvent>)
    ensures
        events.len() >= steps_left(phase) ==> phase_after(phase, events) is Finished,
    decreases events.len(),
{
    if events.len() > 0 {
        lemma_steps_bounded(transition(phase, events[0]).0, events.drop_first());
    }
}

/// Every activation has finished once five events have answered it: the
/// protocol never waits on the environment without bound.
pub proof fn lemma_activation_finishes(events: Seq<ActivationEvent>)
    requires
        events.len() >= 5,
    ensures
        phase_after(ActivationPhase::QueryingStyle, events) is Finished,
{
    lemma_steps_bounded(ActivationPhase::QueryingStyle, events);
}

/// An activation reports success only where the environment granted a
/// foreground request.
proof fn lemma_success_needs_grant_from(phase: ActivationPhase, events: Seq<ActivationEvent>)
    requires
        phase != ActivationPhase::Finished(true),
        forall|k: int| 0 <= k < events.len() ==> #[trigger] events[k] != ActivationEvent::ForegroundAnswered(true),
    ensures
        forall|k: int| 0 <= k < trace(phase, events).len() ==> #[trigger] trace(phase, events)[k] != ActivationAction::Report(true),
        phase_after(phase, events) != ActivationPhase::Finished(true),
    decreases events.len(),
{
    if events.len() > 0 {
        let (next, action) = transition(phase, events[0]);
        let rest = events.drop_first();
        assert(events[0] != ActivationEvent::ForegroundAnswered(true));
        assert forall|k: int| 0 <= k < rest.len() implies #[trigger] rest[k] != ActivationEvent::ForegroundAnswered(true) by {
            assert(rest[k] == events[k + 1]);
        }
        lemma_success_needs_grant_from(next, rest);
        let t = trace(phase, events);
        assert forall|k: int| 0 <= k < t.len() implies #[trigger] t[k] != ActivationAction::Report(true) by {
            if k > 0 {
                assert(t[k] == trace(next, rest)[k - 1]);
            }
        }
    }
}

/// An activation whose foreground requests are all refused, as those for a
/// handle that no longer names a window are, reports failure.
pub proof fn lemma_refused_reports_failure(events: Seq<ActivationEvent>)
    requires
        forall|k: int| 0 <= k < events.len() ==> #[trigger] events[k] != ActivationEvent::ForegroundAnswered(true),
    ensures
        forall|k: int| 0 <= k < activation_actions(events).len() ==> #[trigger] activation_actions(events)[k] != ActivationAction::Report(true),
        phase_after(ActivationPhase::QueryingStyle, events) != ActivationPhase::Finished(true),
{
    lemma_success_needs_grant_from(ActivationPhase::QueryingStyle, events);
    let a = activation_actions(events);
    assert forall|k: int| 0 <= k < a.len() implies #[trigger] a[k] != ActivationAction::Report(true) by {
        if k > 0 {
            assert(a[k] == trace(ActivationPhase::QueryingStyle, events)[k - 1]);
        }
    }
}

proof fn lemma_no_show_after_style(phase: ActivationPhase, events: Seq<ActivationEvent>)
    requires
        phase != ActivationPhase::QueryingStyle,
    ensures
        forall|k: int| 0 <= k < trace(phase, events).len() ==> !(#[trigger] trace(phase, events)[k] is ShowWindow),
    decreases events.len(),
{
    if events.len() > 0 {
        let (next, action) = transition(phase, events[0]);
        lemma_no_show_after_style(next, events.drop_first());
        let t = trace(phase, events);
        assert forall|k: int| 0 <= k < t.len() implies !(#[trigger] t[k] is ShowWindow) by {
            if k > 0 {
                assert(t[k] == trace(next, events.drop_first())[k - 1]);
            }
        }
    }
}

/// The one show request of an activation of a window with style `style`:
/// a maximized window is shown and never restored, so it stays maximized.
pub proof fn lemma_only_show_request(style: u32, events: Seq<ActivationEvent>)
    ensures
        ({
            let a = activation_actions(seq![ActivationEvent::StyleRead(style)] + events);
            &&& a[1] == ActivationAction::ShowWindow(
                if is_maximized(style) {
                    ShowCommand::Show
                } else {
                    ShowCommand::Restore
                },
            )
            &&& forall|k: int| 0 <= k < a.len() && k != 1 ==> !(#[trigger] a[k] is ShowWindow)
        }),
{
    let evs = seq![ActivationEvent::StyleRead(style)] + events;
    assert(evs.drop_first() =~= events);
    lemma_no_show_after_style(ActivationPhase::Showing, events);
    let a = activation_actions(evs);
    let t = trace(ActivationPhase::QueryingStyle, evs);
    assert(a.len() == t.len() + 1);
    assert forall|k: int| 0 <= k < a.len() && k != 1 implies !(#[trigger] a[k] is ShowWindow) by {
        if k > 1 {
            assert(a[k] == t[k - 1]);
            assert(t[k - 1] == trace(ActivationPhase::Showing, events)[k - 2]);
        }
    }
}

/// A minimized window that is not maximized is restored; where none of its
/// foreground requests is granted, its activation does not report success.
pub proof fn lemma_minimized_window_restored(style: u32, events: Seq<ActivationEvent>)
    requires
        is_minimized(style),
        !is_maximized(style),
        forall|k: int| 0 <= k < events.len() ==> #[trigger] events[k] != ActivationEvent::ForegroundAnswered(true),
    ensures
        ({
            let a = activation_actions(seq![ActivationEvent::StyleRead(style)] + events);
            &&& a[1] == ActivationAction::ShowWindow(ShowCommand::Restore)
            &&& forall|k: int| 0 <= k < a.len() ==> #[trigger] a[k] != ActivationAction::Report(true)
        }),
{
    let evs = seq![ActivationEvent::StyleRead(style)] + events;
    lemma_only_show_request(style, events);
    assert forall|k: int| 0 <= k < evs.len() implies #[trigger] evs[k] != ActivationEvent::ForegroundAnswered(true) by {
        if k > 0 {
            assert(evs[k] == events[k - 1]);
        }
    }
    lemma_refused_reports_failure(evs);
}

} // verus!
