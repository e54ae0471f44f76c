//! Session-level laws, proved of the controller's transition relation.
//!
//! Each law quantifies over abstract states and whole event sequences;
//! [`crate::controller::Controller::step`] is proved to implement
//! [`step_view`] exactly, so the laws hold of every run of the event
//! loop.

use vstd::prelude::*;

use crate::controller::{
    accepts_line, apply_action, initial_effects_view, quit_status, step_view, Effect, Event,
    ExitStatus, SessionEnd, StartConfig, StateView,
};
use crate::keymap::{lookup, Action};
use crate::line::Line;

verus! {

/// The state after processing a whole sequence of events.
pub open spec fn fold_steps(s: StateView, evs: Seq<Event>) -> StateView
    decreases evs.len(),
{
    if evs.len() == 0 {
        s
    } else {
        fold_steps(step_view(s, evs[0]).0, evs.drop_first())
    }
}

/// All effects emitted while processing a whole sequence of events.
pub open spec fn fold_effects(s: StateView, evs: Seq<Event>) -> Seq<Effect>
    decreases evs.len(),
{
    if evs.len() == 0 {
        Seq::empty()
    } else {
        step_view(s, evs[0]).1 + fold_effects(step_view(s, evs[0]).0, evs.drop_first())
    }
}

/// No effect in the sequence enters the alternate screen.
pub open spec fn no_enter_alternate(effs: Seq<Effect>) -> bool {
    forall|i: int| 0 <= i < effs.len() ==> !((#[trigger] effs[i]) is EnterAlternate)
}

/// Dispatched actions never leave streaming mode, touch the store, or
/// change the terminal height.
pub proof fn lemma_action_keeps_streaming(s: StateView, a: Action)
    requires
        s.mode is Streaming,
    ensures
        apply_action(s, a).0.mode is Streaming,
        apply_action(s, a).0.lines == s.lines,
        apply_action(s, a).0.height == s.height,
{
}

/// While every event is a proposed line and fewer lines than one
/// terminal height have accumulated, the mode stays streaming.
pub proof fn lemma_streaming_below_height(s: StateView, evs: Seq<Event>)
    requires
        s.mode is Streaming,
        forall|i: int| 0 <= i < evs.len() ==> evs[i] is SourceLine,
        s.lines.len() + evs.len() < s.height,
    ensures
        fold_steps(s, evs).mode is Streaming,
        fold_steps(s, evs).lines.len() <= s.lines.len() + evs.len(),
        fold_steps(s, evs).height == s.height,
    decreases evs.len(),
{
    if evs.len() > 0 {
        let s1 = step_view(s, evs[0]).0;
        assert(s1.mode is Streaming && s1.lines.len() <= s.lines.len() + 1 && s1.height
            == s.height);
        lemma_streaming_below_height(s1, evs.drop_first());
    }
}

/// Law: with no flags, lines up to one terminal height minus one leave
/// the mode streaming ([`lemma_streaming_below_height`]); the accepted
/// line that reaches exactly one height flips to full screen with the
/// viewport's bottom row at the store's last index — no gap and no
/// duplicate against the streamed tail.
pub proof fn lemma_fullscreen_at_height(s: StateView, source: usize, line: Line)
    requires
        s.mode is Streaming,
        s.done is None,
        accepts_line(s, source as int),
        s.height >= 1,
        s.lines.len() + 1 == s.height,
    ensures
        step_view(s, Event::SourceLine { source, line }).0.mode is FullScreen,
        step_view(s, Event::SourceLine { source, line }).0.lines.len() == s.height,
        step_view(s, Event::SourceLine { source, line }).0.top + s.height == step_view(
            s,
            Event::SourceLine { source, line },
        ).0.lines.len(),
{
}

/// Law: under the delayed flag, while the timer has not fired (and the
/// terminal is not resized) and fewer events than fill one terminal
/// height have arrived, the mode stays streaming — the transition to
/// full screen cannot happen before the surrounding timer task fires,
/// which it does at or after the configured delay.
pub proof fn lemma_delayed_waits_for_timer(s: StateView, evs: Seq<Event>)
    requires
        s.mode is Streaming,
        forall|i: int|
            0 <= i < evs.len() ==> !((#[trigger] evs[i]) is TimerFired) && !(evs[i] is Resize),
        s.lines.len() + evs.len() < s.height,
    ensures
        fold_steps(s, evs).mode is Streaming,
    decreases evs.len(),
{
    if evs.len() > 0 {
        let s1 = step_view(s, evs[0]).0;
        assert(s1.mode is Streaming && s1.lines.len() <= s.lines.len() + 1 && s1.height
            == s.height) by {
            if s.done is None {
                match evs[0] {
                    Event::Key { code, ch } => {
                        let pend = s.pending_keys.push(code);
                        match lookup(s.keymap, s.mode, pend) {
                            Some(a) => {
                                lemma_action_keeps_streaming(
                                    StateView { pending_keys: Seq::empty(), ..s },
                                    a,
                                );
                            },
                            None => {},
                        }
                    },
                    _ => {},
                }
            }
        }
        lemma_delayed_waits_for_timer(s1, evs.drop_first());
    }
}

/// Law: under the delayed flag the timer event itself completes the
/// transition to full screen.
pub proof fn lemma_delayed_timer_fires(s: StateView)
    requires
        s.cfg is Delayed,
        s.mode is Streaming,
        s.done is None,
    ensures
        step_view(s, Event::TimerFired).0.mode is FullScreen,
{
}

/// One step never enters the alternate screen under the no-alternate
/// flag, and leaves the flag and the alternate state alone.
pub proof fn lemma_no_alternate_step(s: StateView, ev: Event)
    requires
        s.cfg is NoAlternate,
        !s.alt,
    ensures
        !step_view(s, ev).0.alt,
        step_view(s, ev).0.cfg is NoAlternate,
        no_enter_alternate(step_view(s, ev).1),
{
    if s.done is None {
        match ev {
            Event::Key { code, ch } => {
                let pend = s.pending_keys.push(code);
                match lookup(s.keymap, s.mode, pend) {
                    Some(a) => {
                        let s1 = StateView { pending_keys: Seq::empty(), ..s };
                        assert(!apply_action(s1, a).0.alt && no_enter_alternate(
                            apply_action(s1, a).1,
                        ));
                    },
                    None => {},
                }
            },
            _ => {},
        }
    }
}

/// Law: with the no-alternate flag the alternate screen is never
/// invoked: no startup effect and no effect of any event sequence ever
/// enters it, regardless of mode.
pub proof fn lemma_no_alternate_never_entered(s: StateView, evs: Seq<Event>)
    requires
        s.cfg is NoAlternate,
        !s.alt,
    ensures
        !fold_steps(s, evs).alt,
        no_enter_alternate(fold_effects(s, evs)),
        no_enter_alternate(initial_effects_view(StartConfig::NoAlternate)),
    decreases evs.len(),
{
    if evs.len() > 0 {
        lemma_no_alternate_step(s, evs[0]);
        let s1 = step_view(s, evs[0]).0;
        lemma_no_alternate_never_entered(s1, evs.drop_first());
        assert forall|i: int|
            0 <= i < fold_effects(s, evs).len() implies !((#[trigger] fold_effects(s, evs)[i])
            is EnterAlternate) by {
            if i < step_view(s, evs[0]).1.len() {
                assert(fold_effects(s, evs)[i] == step_view(s, evs[0]).1[i]);
            } else {
                assert(fold_effects(s, evs)[i] == fold_effects(s1, evs.drop_first())[i - step_view(
                    s,
                    evs[0],
                ).1.len()]);
            }
        }
    }
}

/// Law: a source failure is local. It removes no line from the store,
/// does not end the session, changes no other source's state — so two
/// concurrently running sources never disturb each other — and a quit
/// while any other source is still healthy reports a normal exit.
pub proof fn lemma_source_failure_local(s: StateView, source: usize)
    ensures
        step_view(s, Event::SourceFailed { source }).0.lines == s.lines,
        step_view(s, Event::SourceFailed { source }).0.done == s.done,
        forall|j: int|
            0 <= j < s.sources.len() && j != source ==> step_view(
                s,
                Event::SourceFailed { source },
            ).0.sources[j] == s.sources[j],
        (exists|j: int| 0 <= j < s.sources.len() && j != source && !(s.sources[j] is Failed))
            ==> quit_status(step_view(s, Event::SourceFailed { source }).0) == ExitStatus::Normal,
{
    let s2 = step_view(s, Event::SourceFailed { source }).0;
    if exists|j: int| 0 <= j < s.sources.len() && j != source && !(s.sources[j] is Failed) {
        let j = choose|j: int| 0 <= j < s.sources.len() && j != source && !(s.sources[j] is Failed);
        assert(!(s2.sources[j] is Failed));
    }
}

/// Law: quit is reachable from every mode and is terminal. The session
/// is marked ended with the computed exit status, the alternate screen
/// is left exactly when it had been entered, and every later event is
/// absorbed without change or effect.
pub proof fn lemma_quit_is_terminal(s: StateView, code: u32, ch: Option<char>, later: Event)
    requires
        s.done is None,
        lookup(s.keymap, s.mode, s.pending_keys.push(code)) == Some(Action::Quit),
    ensures
        step_view(s, Event::Key { code, ch }).0.done == Some(
            SessionEnd::Quit(quit_status(s)),
        ),
        !step_view(s, Event::Key { code, ch }).0.alt,
        s.alt ==> step_view(s, Event::Key { code, ch }).1 == seq![Effect::LeaveAlternate],
        !s.alt ==> step_view(s, Event::Key { code, ch }).1 == Seq::<Effect>::empty(),
        step_view(step_view(s, Event::Key { code, ch }).0, later).0 == step_view(
            s,
            Event::Key { code, ch },
        ).0,
        step_view(step_view(s, Event::Key { code, ch }).0, later).1 == Seq::<Effect>::empty(),
{
}

} // verus!
