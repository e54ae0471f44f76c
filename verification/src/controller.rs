//! The controller: owner of all mutable session state.
//!
//! The controller is a state machine. The surrounding event loop feeds
//! it one [`Event`] at a time — a proposed line, a completion or
//! failure signal, a progress update, a key event, the delayed
//! full-screen timer, a resize, or the loss of the input channel — and
//! carries out the [`Effect`]s it returns against the real terminal.
//! Processing one event to completion before the next serializes every
//! mutation of shared state.
//!
//! The whole transition relation is also stated as a specification
//! function, [`step_view`], over the abstract state [`StateView`];
//! [`Controller::step`] is proved to implement it exactly, and the
//! session-level laws in [`crate::laws`] are proved of it.

use vstd::prelude::*;

use crate::keymap::{lookup, some_binding_extends, Action, BindingV, KeymapTable, Mode};
use crate::line::{Line, LineV};
use crate::search::{
    first_match_after, last_match_before, lemma_matches_up_to_prefix, matches_up_to, pattern_ok,
    texts_of, SearchState,
};
use crate::store::LineStore;

verus! {

/// How the session starts, resolved from configuration before the
/// event loop begins.
#[derive(Clone, Copy, PartialEq, Eq, Structural, Debug)]
pub enum StartConfig {
    /// Enter full screen immediately, on the alternate screen.
    Fullscreen,
    /// Stream until the delay timer fires or the store reaches one
    /// terminal height, whichever is first.
    Delayed,
    /// Never enter the alternate screen; full-screen rendering is
    /// painted inline.
    NoAlternate,
    /// Stream until the store reaches one terminal height.
    Standard,
}

/// How the session ended.
#[derive(Clone, Copy, PartialEq, Eq, Structural, Debug)]
pub enum ExitStatus {
    /// The user quit.
    Normal,
    /// The user quit after every source had failed.
    SourceFailure,
}

/// Terminal state of the controller: no further event is processed.
#[derive(Clone, Copy, PartialEq, Eq, Structural, Debug)]
pub enum SessionEnd {
    /// A quit action was dispatched.
    Quit(ExitStatus),
    /// The terminal input channel broke: fatal for the session.
    TerminalLost,
}

/// Lifecycle state of one source.
#[derive(Clone, Copy, PartialEq, Eq, Structural, Debug)]
pub enum SourceStatus {
    Active,
    Complete,
    Failed,
}

/// One inbound event, as delivered by the event loop.
pub enum Event {
    /// A source proposes a line for the store.
    SourceLine { source: usize, line: Line },
    /// A source reached its end.
    SourceComplete { source: usize },
    /// A source's underlying read failed; the source is done.
    SourceFailed { source: usize },
    /// New text for the transient progress region.
    Progress { source: usize, text: String },
    /// A key event; `ch` is the character it carries, if printable.
    Key { code: u32, ch: Option<char> },
    /// The delayed full-screen timer fired.
    TimerFired,
    /// The terminal changed size.
    Resize { width: usize, height: usize },
    /// The terminal input channel broke.
    InputClosed,
}

/// One outbound effect for the event loop to carry out, in order.
#[derive(Clone, Copy, PartialEq, Eq, Structural, Debug)]
pub enum Effect {
    /// Enter the alternate screen (before any full-screen paint).
    EnterAlternate,
    /// Leave the alternate screen, restoring normal scrollback.
    LeaveAlternate,
    /// Write the stored line at `index` inline, in arrival order.
    StreamLine { index: usize },
    /// Repaint the viewport from the store.
    Repaint,
    /// Refresh the status region from the progress text of `source`.
    StatusProgress { source: usize },
    /// Report in the status region that `source` failed.
    StatusSourceFailed { source: usize },
    /// Show the pending search input in the status region.
    StatusSearchInput,
    /// Report an invalid search pattern in the status region.
    StatusSearchError,
}

/// Abstract state of the controller.
#[verifier::ext_equal]
pub struct StateView {
    pub cfg: StartConfig,
    pub width: nat,
    pub height: nat,
    pub mode: Mode,
    pub lines: Seq<LineV>,
    pub top: nat,
    pub alt: bool,
    pub done: Option<SessionEnd>,
    pub sources: Seq<SourceStatus>,
    pub progress: Seq<Option<Seq<char>>>,
    pub pending_keys: Seq<u32>,
    pub pending_pattern: Seq<char>,
    pub search: Option<Seq<char>>,
    pub keymap: Seq<BindingV>,
}

/// Whether this configuration may ever touch the alternate screen.
pub open spec fn uses_alternate(cfg: StartConfig) -> bool {
    !(cfg is NoAlternate)
}

/// The top index that puts the store's last line at the bottom of the
/// screen: the streamed tail becomes exactly the first paint.
pub open spec fn tail_top(len: nat, height: nat) -> nat {
    if len >= height {
        (len - height) as nat
    } else {
        0
    }
}

/// The streaming-to-full-screen transition: one-directional, never
/// taken back except via quit.
pub open spec fn enter_fullscreen(s: StateView) -> StateView {
    StateView {
        mode: Mode::FullScreen,
        top: tail_top(s.lines.len(), s.height),
        alt: s.alt || uses_alternate(s.cfg),
        ..s
    }
}

pub open spec fn enter_fullscreen_effects(s: StateView) -> Seq<Effect> {
    if uses_alternate(s.cfg) && !s.alt {
        seq![Effect::EnterAlternate, Effect::Repaint]
    } else {
        seq![Effect::Repaint]
    }
}

/// A proposed line is accepted only from a known, still active source.
pub open spec fn accepts_line(s: StateView, source: int) -> bool {
    0 <= source < s.sources.len() && s.sources[source] is Active
}

pub open spec fn step_source_line(s: StateView, source: usize, l: LineV) -> (StateView, Seq<
    Effect,
>) {
    if !accepts_line(s, source as int) {
        (s, Seq::empty())
    } else {
        let s1 = StateView { lines: s.lines.push(l), ..s };
        if s.mode is Streaming {
            if s1.lines.len() >= s1.height {
                (enter_fullscreen(s1), enter_fullscreen_effects(s1))
            } else {
                (s1, seq![Effect::StreamLine { index: s.lines.len() as usize }])
            }
        } else {
            (s1, seq![Effect::Repaint])
        }
    }
}

pub open spec fn step_source_complete(s: StateView, source: usize) -> (StateView, Seq<Effect>) {
    if accepts_line(s, source as int) {
        (StateView { sources: s.sources.update(source as int, SourceStatus::Complete), ..s },
        Seq::empty())
    } else {
        (s, Seq::empty())
    }
}

pub open spec fn step_source_failed(s: StateView, source: usize) -> (StateView, Seq<Effect>) {
    if accepts_line(s, source as int) {
        (StateView { sources: s.sources.update(source as int, SourceStatus::Failed), ..s },
        seq![Effect::StatusSourceFailed { source }])
    } else {
        (s, Seq::empty())
    }
}

pub open spec fn step_progress(s: StateView, source: usize, text: Seq<char>) -> (StateView, Seq<
    Effect,
>) {
    if 0 <= source < s.progress.len() {
        (StateView { progress: s.progress.update(source as int, Some(text)), ..s },
        seq![Effect::StatusProgress { source }])
    } else {
        (s, Seq::empty())
    }
}

pub open spec fn step_timer(s: StateView) -> (StateView, Seq<Effect>) {
    if s.cfg is Delayed && s.mode is Streaming {
        (enter_fullscreen(s), enter_fullscreen_effects(s))
    } else {
        (s, Seq::empty())
    }
}

pub open spec fn step_resize(s: StateView, width: usize, height: usize) -> (StateView, Seq<
    Effect,
>) {
    let w: nat = if width >= 1 {
        width as nat
    } else {
        1
    };
    let h: nat = if height >= 1 {
        height as nat
    } else {
        1
    };
    let s1 = StateView { width: w, height: h, ..s };
    if s.mode is Streaming {
        (s1, Seq::empty())
    } else {
        (s1, seq![Effect::Repaint])
    }
}

pub open spec fn step_input_closed(s: StateView) -> (StateView, Seq<Effect>) {
    (StateView { done: Some(SessionEnd::TerminalLost), alt: false, ..s },
    if s.alt {
        seq![Effect::LeaveAlternate]
    } else {
        Seq::empty()
    })
}

/// Every source has failed: the only condition under which a quit
/// counts as a source failure.
pub open spec fn all_failed(sources: Seq<SourceStatus>) -> bool {
    forall|i: int| 0 <= i < sources.len() ==> sources[i] is Failed
}

pub open spec fn quit_status(s: StateView) -> ExitStatus {
    if s.sources.len() > 0 && all_failed(s.sources) {
        ExitStatus::SourceFailure
    } else {
        ExitStatus::Normal
    }
}

/// Quit: terminal for the session, reachable from every mode; the
/// alternate screen is left before anything else, whenever it was
/// entered.
pub open spec fn do_quit(s: StateView) -> (StateView, Seq<Effect>) {
    (StateView { done: Some(SessionEnd::Quit(quit_status(s))), alt: false, ..s },
    if s.alt {
        seq![Effect::LeaveAlternate]
    } else {
        Seq::empty()
    })
}

pub open spec fn apply_action(s: StateView, a: Action) -> (StateView, Seq<Effect>) {
    match a {
        Action::Quit => do_quit(s),
        Action::ScrollUp => if s.mode is FullScreen {
            (StateView { top: if s.top > 0 { (s.top - 1) as nat } else { 0 }, ..s },
            seq![Effect::Repaint])
        } else {
            (s, Seq::empty())
        },
        Action::ScrollDown => if s.mode is FullScreen {
            (StateView { top: if s.top < s.lines.len() { s.top + 1 } else { s.top }, ..s },
            seq![Effect::Repaint])
        } else {
            (s, Seq::empty())
        },
        Action::ScrollTop => if s.mode is FullScreen {
            (StateView { top: 0, ..s }, seq![Effect::Repaint])
        } else {
            (s, Seq::empty())
        },
        Action::ScrollBottom => if s.mode is FullScreen {
            (StateView { top: tail_top(s.lines.len(), s.height), ..s }, seq![Effect::Repaint])
        } else {
            (s, Seq::empty())
        },
        Action::SearchBegin => if s.mode is FullScreen {
            (StateView { mode: Mode::SearchInput, pending_pattern: Seq::empty(), ..s },
            seq![Effect::StatusSearchInput])
        } else {
            (s, Seq::empty())
        },
        Action::SearchAccept => if s.mode is SearchInput {
            if pattern_ok(s.pending_pattern) {
                (StateView {
                    mode: Mode::FullScreen,
                    search: Some(s.pending_pattern),
                    pending_pattern: Seq::empty(),
                    ..s
                }, seq![Effect::Repaint])
            } else {
                (StateView { pending_pattern: Seq::empty(), ..s }, seq![Effect::StatusSearchError])
            }
        } else {
            (s, Seq::empty())
        },
        Action::SearchCancel => if s.mode is SearchInput {
            (StateView { mode: Mode::FullScreen, pending_pattern: Seq::empty(), ..s },
            seq![Effect::Repaint])
        } else {
            (s, Seq::empty())
        },
        Action::SearchNext => if s.mode is FullScreen && s.search is Some {
            let ms = matches_up_to(s.search.unwrap(), texts_of(s.lines), s.lines.len() as int);
            match first_match_after(ms, s.top as usize, usize::MAX) {
                Some(m) => (StateView {
                    top: if m.line as nat <= s.lines.len() { m.line as nat } else { s.lines.len() },
                    ..s
                }, seq![Effect::Repaint]),
                None => (s, Seq::empty()),
            }
        } else {
            (s, Seq::empty())
        },
        Action::SearchPrev => if s.mode is FullScreen && s.search is Some {
            let ms = matches_up_to(s.search.unwrap(), texts_of(s.lines), s.lines.len() as int);
            match last_match_before(ms, s.top as usize, 0) {
                Some(m) => (StateView {
                    top: if m.line as nat <= s.lines.len() { m.line as nat } else { s.lines.len() },
                    ..s
                }, seq![Effect::Repaint]),
                None => (s, Seq::empty()),
            }
        } else {
            (s, Seq::empty())
        },
    }
}

/// Key dispatch: the pending key-sequence grows by the new key; an
/// exact binding fires its action, a strict prefix of some binding
/// waits for more keys, and anything else clears the pending keys —
/// in search input an unmatched printable key is a literal pattern
/// character.
pub open spec fn step_key(s: StateView, code: u32, ch: Option<char>) -> (StateView, Seq<Effect>) {
    let pend = s.pending_keys.push(code);
    match lookup(s.keymap, s.mode, pend) {
        Some(a) => apply_action(StateView { pending_keys: Seq::empty(), ..s }, a),
        None => {
            if some_binding_extends(s.keymap, s.mode, pend) {
                (StateView { pending_keys: pend, ..s }, Seq::empty())
            } else if s.mode is SearchInput && ch is Some {
                (StateView {
                    pending_keys: Seq::empty(),
                    pending_pattern: s.pending_pattern.push(ch.unwrap()),
                    ..s
                }, seq![Effect::StatusSearchInput])
            } else {
                (StateView { pending_keys: Seq::empty(), ..s }, Seq::empty())
            }
        },
    }
}

/// The full transition relation. A finished session absorbs every
/// further event without change or effect.
pub open spec fn step_view(s: StateView, ev: Event) -> (StateView, Seq<Effect>) {
    if s.done is Some {
        (s, Seq::empty())
    } else {
        match ev {
            Event::SourceLine { source, line } => step_source_line(s, source, line@),
            Event::SourceComplete { source } => step_source_complete(s, source),
            Event::SourceFailed { source } => step_source_failed(s, source),
            Event::Progress { source, text } => step_progress(s, source, text@),
            Event::Key { code, ch } => step_key(s, code, ch),
            Event::TimerFired => step_timer(s),
            Event::Resize { width, height } => step_resize(s, width, height),
            Event::InputClosed => step_input_closed(s),
        }
    }
}

/// The state the session starts in, before the first event.
pub open spec fn initial_view(
    cfg: StartConfig,
    keymap: Seq<BindingV>,
    n_sources: nat,
    width: nat,
    height: nat,
) -> StateView {
    StateView {
        cfg,
        width: if width >= 1 { width } else { 1 },
        height: if height >= 1 { height } else { 1 },
        mode: if cfg is Fullscreen { Mode::FullScreen } else { Mode::Streaming },
        lines: Seq::empty(),
        top: 0,
        alt: cfg is Fullscreen,
        done: None,
        sources: Seq::new(n_sources, |i: int| SourceStatus::Active),
        progress: Seq::new(n_sources, |i: int| None),
        pending_keys: Seq::empty(),
        pending_pattern: Seq::empty(),
        search: None,
        keymap,
    }
}

/// The effects owed before the first event: with an immediate
/// full-screen start the alternate screen is entered before any line
/// is painted.
pub open spec fn initial_effects_view(cfg: StartConfig) -> Seq<Effect> {
    if cfg is Fullscreen {
        seq![Effect::EnterAlternate, Effect::Repaint]
    } else {
        Seq::empty()
    }
}

/// Copies a character buffer.
fn copy_chars(v: &Vec<char>) -> (r: Vec<char>)
    ensures
        r@ == v@,
{
    let mut r: Vec<char> = Vec::new();
    let mut i: usize = 0;
    while i < v.len()
        invariant
            i <= v@.len(),
            r@ == v@.take(i as int),
        decreases v@.len() - i,
    {
        r.push(v[i]);
        proof {
            assert(v@.take(i + 1) =~= v@.take(i as int).push(v@[i as int]));
        }
        i += 1;
    }
    proof {
        assert(v@.take(v@.len() as int) =~= v@);
    }
    r
}

/// The controller: sole owner of the store, viewport, mode, sources,
/// progress and search state.
pub struct Controller {
    config: StartConfig,
    width: usize,
    height: usize,
    mode: Mode,
    store: LineStore,
    top: usize,
    alt: bool,
    done: Option<SessionEnd>,
    sources: Vec<SourceStatus>,
    progress: Vec<Option<String>>,
    pending_keys: Vec<u32>,
    pending_pattern: Vec<char>,
    search: Option<SearchState>,
    keymap: KeymapTable,
}

impl View for Controller {
    type V = StateView;

    closed spec fn view(&self) -> StateView {
        StateView {
            cfg: self.config,
            width: self.width as nat,
            height: self.height as nat,
            mode: self.mode,
            lines: self.store@,
            top: self.top as nat,
            alt: self.alt,
            done: self.done,
            sources: self.sources@,
            progress: self.progress@.map(
                |i: int, o: Option<String>|
                    match o {
                        Some(t) => Some(t@),
                        None => None::<Seq<char>>,
                    },
            ),
            pending_keys: self.pending_keys@,
            pending_pattern: self.pending_pattern@,
            search: match self.search {
                Some(st) => Some(st.pattern()),
                None => None::<Seq<char>>,
            },
            keymap: self.keymap@,
        }
    }
}

impl Controller {
    /// Internal invariant: sane dimensions, the viewport inside the
    /// store, one progress slot per source, the alternate screen never
    /// touched under the no-alternate flag, and any active search in
    /// sync with the whole store.
    pub closed spec fn wf(&self) -> bool {
        &&& self.height >= 1
        &&& self.width >= 1
        &&& self.top <= self.store@.len()
        &&& self.progress@.len() == self.sources@.len()
        &&& (self.config is NoAlternate ==> !self.alt)
        &&& match self.search {
            Some(st) => st.wf() && st.synced(self.store@) && st.scanned() == self.store@.len(),
            None => true,
        }
    }

    /// Builds the controller in its start state together with the
    /// effects owed before the first event.
    pub fn new(
        config: StartConfig,
        keymap: KeymapTable,
        n_sources: usize,
        width: usize,
        height: usize,
    ) -> (r: (Controller, Vec<Effect>))
        ensures
            r.0.wf(),
            r.0@ == initial_view(config, keymap@, n_sources as nat, width as nat, height as nat),
            r.1@ == initial_effects_view(config),
    {
        let w = if width >= 1 { width } else { 1 };
        let h = if height >= 1 { height } else { 1 };
        let fullscreen = config == StartConfig::Fullscreen;
        let mut sources: Vec<SourceStatus> = Vec::new();
        let mut progress: Vec<Option<String>> = Vec::new();
        let mut i: usize = 0;
        while i < n_sources
            invariant
                i <= n_sources,
                sources@.len() == i,
                progress@.len() == i,
                forall|k: int| 0 <= k < i ==> sources@[k] is Active,
                forall|k: int| 0 <= k < i ==> progress@[k] is None,
            decreases n_sources - i,
        {
            sources.push(SourceStatus::Active);
            progress.push(None);
            i += 1;
        }
        let c = Controller {
            config,
            width: w,
            height: h,
            mode: if fullscreen {
                Mode::FullScreen
            } else {
                Mode::Streaming
            },
            store: LineStore::new(),
            top: 0,
            alt: fullscreen,
            done: None,
            sources,
            progress,
            pending_keys: Vec::new(),
            pending_pattern: Vec::new(),
            search: None,
            keymap,
        };
        let eff: Vec<Effect> = if fullscreen {
            vec![Effect::EnterAlternate, Effect::Repaint]
        } else {
            Vec::new()
        };
        proof {
            assert(c@ =~= initial_view(config, c.keymap@, n_sources as nat, width as nat,
                height as nat));
            assert(eff@ =~= initial_effects_view(config));
        }
        (c, eff)
    }

    /// Whether and how the session has ended.
    pub fn session_end(&self) -> (r: Option<SessionEnd>)
        ensures
            r == self@.done,
    {
        self.done
    }

    /// The current interaction mode.
    pub fn current_mode(&self) -> (r: Mode)
        ensures
            r == self@.mode,
    {
        self.mode
    }

    /// The line store, for painting and streaming.
    pub fn lines(&self) -> (r: &LineStore)
        ensures
            r@ == self@.lines,
    {
        &self.store
    }

    /// The viewport's top line index.
    pub fn viewport_top(&self) -> (r: usize)
        ensures
            r == self@.top,
    {
        self.top
    }

    /// The terminal dimensions the controller believes in.
    pub fn dimensions(&self) -> (r: (usize, usize))
        ensures
            r.0 == self@.width,
            r.1 == self@.height,
    {
        (self.width, self.height)
    }

    /// The pending search input, for the status region.
    pub fn pending_pattern(&self) -> (r: &Vec<char>)
        ensures
            r@ == self@.pending_pattern,
    {
        &self.pending_pattern
    }

    /// The latest progress text of one source.
    pub fn progress_of(&self, source: usize) -> (r: &Option<String>)
        requires
            source < self@.progress.len(),
        ensures
            r is Some <==> self@.progress[source as int] is Some,
            r matches Some(t) ==> self@.progress[source as int] == Some(t@),
    {
        &self.progress[source]
    }

    /// The ordered match set of the active search, if one is active.
    pub fn active_matches(&self) -> (r: Option<&Vec<crate::search::Match>>)
        requires
            self.wf(),
        ensures
            r is Some <==> self@.search is Some,
            r matches Some(v) ==> self@.search matches Some(pat) && v@ == matches_up_to(
                pat,
                texts_of(self@.lines),
                self@.lines.len() as int,
            ),
    {
        match &self.search {
            Some(st) => Some(st.all_matches()),
            None => None,
        }
    }

    fn all_sources_failed(&self) -> (r: bool)
        ensures
            r == (self@.sources.len() > 0 && all_failed(self@.sources)),
    {
        let n = self.sources.len();
        if n == 0 {
            return false;
        }
        let mut i: usize = 0;
        while i < n
            invariant
                i <= n,
                n == self.sources@.len(),
                forall|k: int| 0 <= k < i ==> self.sources@[k] is Failed,
            decreases n - i,
        {
            if !(self.sources[i] == SourceStatus::Failed) {
                proof {
                    assert(!all_failed(self@.sources));
                }
                return false;
            }
            i += 1;
        }
        true
    }

    /// Processes one event to completion and returns the effects owed,
    /// in order. Implements [`step_view`] exactly; after the session
    /// has ended every event is absorbed without change or effect.
    pub fn step(&mut self, ev: Event) -> (eff: Vec<Effect>)
        requires
            old(self).wf(),
        ensures
            final(self).wf(),
            final(self)@ == step_view(old(self)@, ev).0,
            eff@ == step_view(old(self)@, ev).1,
    {
        if self.done.is_some() {
            return Vec::new();
        }
        match ev {
            Event::SourceLine { source, line } => self.handle_source_line(source, line),
            Event::SourceComplete { source } => self.handle_source_done(source, false),
            Event::SourceFailed { source } => self.handle_source_done(source, true),
            Event::Progress { source, text } => self.handle_progress(source, text),
            Event::Key { code, ch } => self.handle_key(code, ch),
            Event::TimerFired => self.handle_timer(),
            Event::Resize { width, height } => self.handle_resize(width, height),
            Event::InputClosed => self.handle_input_closed(),
        }
    }

    /// Streaming flips to full screen; sets top so the streamed tail is
    /// exactly the bottom of the first paint.
    fn go_fullscreen(&mut self) -> (eff: Vec<Effect>)
        requires
            old(self).wf(),
        ensures
            final(self).wf(),
            final(self)@ == enter_fullscreen(old(self)@),
            eff@ == enter_fullscreen_effects(old(self)@),
    {
        let mut eff: Vec<Effect> = Vec::new();
        self.mode = Mode::FullScreen;
        let len = self.store.len();
        self.top = if len >= self.height {
            len - self.height
        } else {
            0
        };
        let uses_alt = !(self.config == StartConfig::NoAlternate);
        if uses_alt && !self.alt {
            eff.push(Effect::EnterAlternate);
        }
        eff.push(Effect::Repaint);
        self.alt = self.alt || uses_alt;
        proof {
            assert(self@ =~= enter_fullscreen(old(self)@));
            assert(eff@ =~= enter_fullscreen_effects(old(self)@));
        }
        eff
    }

    fn handle_source_line(&mut self, source: usize, line: Line) -> (eff: Vec<Effect>)
        requires
            old(self).wf(),
            old(self)@.done is None,
        ensures
            final(self).wf(),
            final(self)@ == step_source_line(old(self)@, source, line@).0,
            eff@ == step_source_line(old(self)@, source, line@).1,
    {
        if !(source < self.sources.len() && self.sources[source] == SourceStatus::Active) {
            return Vec::new();
        }
        let ghost s0 = self@;
        let idx = self.store.append(line);
        proof {
            assert forall|k: int| 0 <= k < s0.lines.len() implies texts_of(s0.lines)[k]
                == texts_of(self.store@)[k] by {}
            if let Some(st) = &self.search {
                lemma_matches_up_to_prefix(
                    st.pattern(),
                    texts_of(s0.lines),
                    texts_of(self.store@),
                    st.scanned() as int,
                );
            }
        }
        match &mut self.search {
            Some(st) => st.extend(&self.store),
            None => {},
        }
        let mut eff: Vec<Effect> = Vec::new();
        if self.mode == Mode::Streaming {
            if self.store.len() >= self.height {
                let eff2 = self.go_fullscreen();
                proof {
                    assert(eff2@ == step_source_line(s0, source, line@).1);
                }
                return eff2;
            } else {
                eff.push(Effect::StreamLine { index: idx });
            }
        } else {
            eff.push(Effect::Repaint);
        }
        proof {
            assert(self@ =~= step_source_line(s0, source, line@).0);
            assert(eff@ =~= step_source_line(s0, source, line@).1);
        }
        eff
    }

    fn handle_source_done(&mut self, source: usize, failed: bool) -> (eff: Vec<Effect>)
        requires
            old(self).wf(),
            old(self)@.done is None,
        ensures
            final(self).wf(),
            failed ==> final(self)@ == step_source_failed(old(self)@, source).0 && eff@
                == step_source_failed(old(self)@, source).1,
            !failed ==> final(self)@ == step_source_complete(old(self)@, source).0 && eff@
                == step_source_complete(old(self)@, source).1,
    {
        if !(source < self.sources.len() && self.sources[source] == SourceStatus::Active) {
            return Vec::new();
        }
        let ghost s0 = self@;
        let mut eff: Vec<Effect> = Vec::new();
        if failed {
            self.sources[source] = SourceStatus::Failed;
            eff.push(Effect::StatusSourceFailed { source });
            proof {
                assert(self@ =~= step_source_failed(s0, source).0);
                assert(eff@ =~= step_source_failed(s0, source).1);
            }
        } else {
            self.sources[source] = SourceStatus::Complete;
            proof {
                assert(self@ =~= step_source_complete(s0, source).0);
            }
        }
        eff
    }

    fn handle_progress(&mut self, source: usize, text: String) -> (eff: Vec<Effect>)
        requires
            old(self).wf(),
            old(self)@.done is None,
        ensures
            final(self).wf(),
            final(self)@ == step_progress(old(self)@, source, text@).0,
            eff@ == step_progress(old(self)@, source, text@).1,
    {
        if !(source < self.progress.len()) {
            return Vec::new();
        }
        let ghost s0 = self@;
        self.progress[source] = Some(text);
        let eff: Vec<Effect> = vec![Effect::StatusProgress { source }];
        proof {
            assert(self@.progress =~= s0.progress.update(source as int, self@.progress[source as int]));
            assert(self@ =~= step_progress(s0, source, text@).0);
            assert(eff@ =~= step_progress(s0, source, text@).1);
        }
        eff
    }

    fn handle_timer(&mut self) -> (eff: Vec<Effect>)
        requires
            old(self).wf(),
            old(self)@.done is None,
        ensures
            final(self).wf(),
            final(self)@ == step_timer(old(self)@).0,
            eff@ == step_timer(old(self)@).1,
    {
        if self.config == StartConfig::Delayed && self.mode == Mode::Streaming {
            self.go_fullscreen()
        } else {
            Vec::new()
        }
    }

    fn handle_resize(&mut self, width: usize, height: usize) -> (eff: Vec<Effect>)
        requires
            old(self).wf(),
            old(self)@.done is None,
        ensures
            final(self).wf(),
            final(self)@ == step_resize(old(self)@, width, height).0,
            eff@ == step_resize(old(self)@, width, height).1,
    {
        let ghost s0 = self@;
        self.width = if width >= 1 {
            width
        } else {
            1
        };
        self.height = if height >= 1 {
            height
        } else {
            1
        };
        let mut eff: Vec<Effect> = Vec::new();
        if !(self.mode == Mode::Streaming) {
            eff.push(Effect::Repaint);
        }
        proof {
            assert(self@ =~= step_resize(s0, width, height).0);
            assert(eff@ =~= step_resize(s0, width, height).1);
        }
        eff
    }

    fn handle_input_closed(&mut self) -> (eff: Vec<Effect>)
        requires
            old(self).wf(),
            old(self)@.done is None,
        ensures
            final(self).wf(),
            final(self)@ == step_input_closed(old(self)@).0,
            eff@ == step_input_closed(old(self)@).1,
    {
        let ghost s0 = self@;
        self.done = Some(SessionEnd::TerminalLost);
        let was_alt = self.alt;
        self.alt = false;
        let mut eff: Vec<Effect> = Vec::new();
        if was_alt {
            eff.push(Effect::LeaveAlternate);
        }
        proof {
            assert(self@ =~= step_input_closed(s0).0);
            assert(eff@ =~= step_input_closed(s0).1);
        }
        eff
    }

    fn handle_key(&mut self, code: u32, ch: Option<char>) -> (eff: Vec<Effect>)
        requires
            old(self).wf(),
            old(self)@.done is None,
        ensures
            final(self).wf(),
            final(self)@ == step_key(old(self)@, code, ch).0,
            eff@ == step_key(old(self)@, code, ch).1,
    {
        let ghost s0 = self@;
        self.pending_keys.push(code);
        let act = self.keymap.resolve(self.mode, &self.pending_keys);
        match act {
            Some(a) => {
                self.pending_keys = Vec::new();
                proof {
                    assert(self@ =~= StateView { pending_keys: Seq::empty(), ..s0 });
                }
                let eff = self.run_action(a);
                eff
            },
            None => {
                if self.keymap.awaits_more(self.mode, &self.pending_keys) {
                    proof {
                        assert(self@ =~= step_key(s0, code, ch).0);
                    }
                    Vec::new()
                } else {
                    self.pending_keys = Vec::new();
                    let mut eff: Vec<Effect> = Vec::new();
                    if self.mode == Mode::SearchInput {
                        match ch {
                            Some(c) => {
                                self.pending_pattern.push(c);
                                eff.push(Effect::StatusSearchInput);
                            },
                            None => {},
                        }
                    }
                    proof {
                        assert(self@ =~= step_key(s0, code, ch).0);
                        assert(eff@ =~= step_key(s0, code, ch).1);
                    }
                    eff
                }
            },
        }
    }

    fn run_action(&mut self, a: Action) -> (eff: Vec<Effect>)
        requires
            old(self).wf(),
        ensures
            final(self).wf(),
            final(self)@ == apply_action(old(self)@, a).0,
            eff@ == apply_action(old(self)@, a).1,
    {
        let ghost s0 = self@;
        match a {
            Action::Quit => {
                let status = if self.all_sources_failed() {
                    ExitStatus::SourceFailure
                } else {
                    ExitStatus::Normal
                };
                self.done = Some(SessionEnd::Quit(status));
                let was_alt = self.alt;
                self.alt = false;
                let mut eff: Vec<Effect> = Vec::new();
                if was_alt {
                    eff.push(Effect::LeaveAlternate);
                }
                proof {
                    assert(self@ =~= do_quit(s0).0);
                    assert(eff@ =~= do_quit(s0).1);
                }
                eff
            },
            Action::ScrollUp => {
                let mut eff: Vec<Effect> = Vec::new();
                if self.mode == Mode::FullScreen {
                    if self.top > 0 {
                        self.top = self.top - 1;
                    }
                    eff.push(Effect::Repaint);
                }
                proof {
                    assert(self@ =~= apply_action(s0, a).0);
                    assert(eff@ =~= apply_action(s0, a).1);
                }
                eff
            },
            Action::ScrollDown => {
                let mut eff: Vec<Effect> = Vec::new();
                if self.mode == Mode::FullScreen {
                    if self.top < self.store.len() {
                        self.top = self.top + 1;
                    }
                    eff.push(Effect::Repaint);
                }
                proof {
                    assert(self@ =~= apply_action(s0, a).0);
                    assert(eff@ =~= apply_action(s0, a).1);
                }
                eff
            },
            Action::ScrollTop => {
                let mut eff: Vec<Effect> = Vec::new();
                if self.mode == Mode::FullScreen {
                    self.top = 0;
                    eff.push(Effect::Repaint);
                }
                proof {
                    assert(self@ =~= apply_action(s0, a).0);
                    assert(eff@ =~= apply_action(s0, a).1);
                }
                eff
            },
            Action::ScrollBottom => {
                let mut eff: Vec<Effect> = Vec::new();
                if self.mode == Mode::FullScreen {
                    let len = self.store.len();
                    self.top = if len >= self.height {
                        len - self.height
                    } else {
                        0
                    };
                    eff.push(Effect::Repaint);
                }
                proof {
                    assert(self@ =~= apply_action(s0, a).0);
                    assert(eff@ =~= apply_action(s0, a).1);
                }
                eff
            },
            Action::SearchBegin => {
                let mut eff: Vec<Effect> = Vec::new();
                if self.mode == Mode::FullScreen {
                    self.mode = Mode::SearchInput;
                    self.pending_pattern = Vec::new();
                    eff.push(Effect::StatusSearchInput);
                }
                proof {
                    assert(self@ =~= apply_action(s0, a).0);
                    assert(eff@ =~= apply_action(s0, a).1);
                }
                eff
            },
            Action::SearchCancel => {
                let mut eff: Vec<Effect> = Vec::new();
                if self.mode == Mode::SearchInput {
                    self.mode = Mode::FullScreen;
                    self.pending_pattern = Vec::new();
                    eff.push(Effect::Repaint);
                }
                proof {
                    assert(self@ =~= apply_action(s0, a).0);
                    assert(eff@ =~= apply_action(s0, a).1);
                }
                eff
            },
            Action::SearchAccept => {
                let mut eff: Vec<Effect> = Vec::new();
                if self.mode == Mode::SearchInput {
                    let pat = copy_chars(&self.pending_pattern);
                    self.pending_pattern = Vec::new();
                    match SearchState::new(pat) {
                        Ok(st) => {
                            let mut st = st;
                            proof {
                                assert(st.matches() =~= matches_up_to(
                                    st.pattern(),
                                    texts_of(self.store@),
                                    0,
                                ));
                            }
                            st.extend(&self.store);
                            self.search = Some(st);
                            self.mode = Mode::FullScreen;
                            eff.push(Effect::Repaint);
                        },
                        Err(_) => {
                            eff.push(Effect::StatusSearchError);
                        },
                    }
                }
                proof {
                    assert(self@ =~= apply_action(s0, a).0);
                    assert(eff@ =~= apply_action(s0, a).1);
                }
                eff
            },
            Action::SearchNext => {
                let mut eff: Vec<Effect> = Vec::new();
                let mut m_opt: Option<crate::search::Match> = None;
                let mut has_search = false;
                let is_fs = self.mode == Mode::FullScreen;
                match &self.search {
                    Some(st) => {
                        has_search = true;
                        if is_fs {
                            m_opt = st.next_match(self.top, usize::MAX, true);
                        }
                    },
                    None => {},
                }
                if is_fs && has_search {
                    match m_opt {
                        Some(m) => {
                            self.top = if m.line <= self.store.len() {
                                m.line
                            } else {
                                self.store.len()
                            };
                            eff.push(Effect::Repaint);
                        },
                        None => {},
                    }
                }
                proof {
                    assert(self@ =~= apply_action(s0, a).0);
                    assert(eff@ =~= apply_action(s0, a).1);
                }
                eff
            },
            Action::SearchPrev => {
                let mut eff: Vec<Effect> = Vec::new();
                let mut m_opt: Option<crate::search::Match> = None;
                let mut has_search = false;
                let is_fs = self.mode == Mode::FullScreen;
                match &self.search {
                    Some(st) => {
                        has_search = true;
                        if is_fs {
                            m_opt = st.next_match(self.top, 0, false);
                        }
                    },
                    None => {},
                }
                if is_fs && has_search {
                    match m_opt {
                        Some(m) => {
                            self.top = if m.line <= self.store.len() {
                                m.line
                            } else {
                                self.store.len()
                            };
                            eff.push(Effect::Repaint);
                        },
                        None => {},
                    }
                }
                proof {
                    assert(self@ =~= apply_action(s0, a).0);
                    assert(eff@ =~= apply_action(s0, a).1);
                }
                eff
            },
        }
    }
}

} // verus!
