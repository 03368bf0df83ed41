//! The widget engine: authoritative state, overlay state, and the
//! event-driven update step.
//!
//! The host owns a persistent [`State`] and a per-session [`Menu`], feeds
//! every user event through [`update`], and renders from the snapshot that
//! [`prepare_overlay`] reconciles. The engine produces the outgoing
//! messages; the host forwards them.

use vstd::prelude::*;

use crate::filtered::{clone_strings, Filtered};
use crate::search::{build_matchers, matchers_spec, search, search_spec};

verus! {

/// Authoritative widget state: typed value, focus flag, the candidate list
/// with its matcher keys, and the cached filtered result.
///
/// The fields are public so that contracts can speak of them; hosts should
/// change them only through the operations of this module, which keep
/// [`State::wf`].
#[derive(Debug, Clone)]
pub struct State {
    /// The text currently typed into the input.
    pub value: String,
    /// Whether the input holds focus.
    pub focused: bool,
    /// All candidates, by display string, in their fixed order.
    pub options: Vec<String>,
    /// The matcher key of each candidate, index for index.
    pub matchers: Vec<String>,
    /// The candidates passing the current value, with a version stamp.
    pub filtered: Filtered,
}

impl State {
    /// Well-formedness: the matcher list is derived from the candidate list,
    /// and the cached filtered result is exactly the search result for the
    /// current value.
    pub open spec fn wf(&self) -> bool {
        &&& self.matchers.deep_view() == matchers_spec(self.options.deep_view())
        &&& self.filtered.options.deep_view() == search_spec(
            self.options.deep_view(),
            self.matchers.deep_view(),
            self.value@,
        )
        &&& self.filtered.updated >= 1
    }

    /// A new widget state with the given candidates and no selection.
    pub fn new(options: Vec<String>) -> (s: Self)
        ensures
            s.wf(),
            s.options == options,
            s.focused == false,
            s.value@ == Seq::<char>::empty(),
    {
        Self::with_selection(options, None)
    }

    /// A new widget state with the given candidates and an optional
    /// preselected value shown as the initial text.
    pub fn with_selection(options: Vec<String>, selection: Option<&String>) -> (s: Self)
        ensures
            s.wf(),
            s.options == options,
            s.focused == false,
            match selection {
                Some(v) => s.value@ == v@,
                None => s.value@ == Seq::<char>::empty(),
            },
    {
        let value = match selection {
            Some(v) => (*v).clone(),
            None => String::new(),
        };
        let matchers = build_matchers(&options);
        proof {
            assert(matchers.deep_view().len() == options.deep_view().len());
            assert(options.deep_view().len() == options@.len());
            assert(matchers.deep_view().len() == matchers@.len());
        }
        let results = search(&options, &matchers, value.as_str());
        let filtered = Filtered::new(results);
        State { value, focused: false, options, matchers, filtered }
    }

    /// Focus the widget, in builder style.
    pub fn focused(self) -> (s: Self)
        ensures
            s.focused == true,
            s.value == self.value,
            s.options == self.options,
            s.matchers == self.matchers,
            s.filtered == self.filtered,
            self.wf() ==> s.wf(),
    {
        let mut s = self;
        s.focus();
        s
    }

    /// Focus the widget.
    pub fn focus(&mut self)
        ensures
            *final(self) == (State { focused: true, ..*old(self) }),
    {
        self.focused = true;
    }

    /// Unfocus the widget.
    pub fn unfocus(&mut self)
        ensures
            *final(self) == (State { focused: false, ..*old(self) }),
    {
        self.focused = false;
    }

    /// Whether the widget currently holds focus.
    pub fn is_focused(&self) -> (r: bool)
        ensures
            r == self.focused,
    {
        self.focused
    }

    /// The text currently typed into the input.
    pub fn value(&self) -> (r: String)
        ensures
            r@ == self.value@,
    {
        self.value.clone()
    }

    /// Reconcile an overlay snapshot with the authoritative filtered result.
    pub fn sync_filtered_options(&self, options: &mut Filtered)
        ensures
            old(options).updated != self.filtered.updated ==> final(options).options@
                == self.filtered.options@ && final(options).updated == self.filtered.updated,
            old(options).updated == self.filtered.updated ==> *final(options) == *old(options),
    {
        self.filtered.sync(options);
    }
}

/// Overlay state, created for one focus session: the hovered index, a
/// pending committed selection, and the snapshot of the filtered result the
/// overlay renders from.
#[derive(Debug, Clone)]
pub struct Menu {
    /// The index into the filtered list currently highlighted, if any.
    pub hovered_option: Option<usize>,
    /// A selection made but not yet applied; consumed within the same
    /// update step.
    pub new_selection: Option<String>,
    /// The overlay's local copy of the filtered result.
    pub filtered: Filtered,
}

impl Menu {
    /// A closed overlay: nothing hovered, nothing pending, empty snapshot.
    pub fn new() -> (m: Self)
        ensures
            m.hovered_option is None,
            m.new_selection is None,
            m.filtered.options@ == Seq::<String>::empty(),
            m.filtered.updated == 0,
    {
        Menu { hovered_option: None, new_selection: None, filtered: Filtered::empty() }
    }
}

/// The hovered index never points outside the current filtered list.
pub open spec fn nav_wf(menu: Menu, state: State) -> bool {
    match menu.hovered_option {
        Some(i) => (i as int) < state.filtered.options@.len(),
        None => true,
    }
}

/// A key the engine reacts to.
#[derive(Debug, Clone, Copy, PartialEq, Eq)]
pub enum Key {
    Enter,
    ArrowUp,
    ArrowDown,
    Tab,
}

/// One user event, as interpreted by the host and handed to [`update`].
#[derive(Debug, Clone)]
pub enum ComboEvent {
    /// The text input reported a new value.
    TextChanged(String),
    /// A key was pressed; the flag tells whether shift was held.
    KeyPressed(Key, bool),
    /// The input gained focus.
    FocusGained,
    /// The input lost focus.
    FocusLost,
    /// The pointer hovered the overlay row with this index.
    OptionHovered(usize),
    /// The pointer chose the overlay row with this index.
    OptionSelected(usize),
}

/// A message for the host.
#[derive(Debug, Clone, PartialEq, Eq)]
pub enum ComboMessage {
    /// A candidate was committed as the selection.
    Selected(String),
    /// A candidate was highlighted, not yet committed.
    Hovered(String),
    /// The free text changed to this value.
    Input(String),
    /// The overlay closed without any other outcome.
    Closed,
}

/// Ghost image of a message, over character sequences.
#[verifier::ext_equal]
pub enum MsgView {
    Selected(Seq<char>),
    Hovered(Seq<char>),
    Input(Seq<char>),
    Closed,
}

impl View for ComboMessage {
    type V = MsgView;

    open spec fn view(&self) -> MsgView {
        match self {
            ComboMessage::Selected(s) => MsgView::Selected(s@),
            ComboMessage::Hovered(s) => MsgView::Hovered(s@),
            ComboMessage::Input(s) => MsgView::Input(s@),
            ComboMessage::Closed => MsgView::Closed,
        }
    }
}

/// The ghost image of a message list.
pub open spec fn msgs_view(s: Seq<ComboMessage>) -> Seq<MsgView> {
    s.map_values(|m: ComboMessage| m@)
}

/// Which optional callbacks the host registered. A message of an optional
/// kind is emitted only when its callback is registered; the selection
/// callback always is.
#[derive(Debug, Clone, Copy)]
pub struct Callbacks {
    pub on_input: bool,
    pub on_hover: bool,
    pub on_close: bool,
}

/// What one update step hands back: the messages for the host, whether the
/// widget tree must be rebuilt (the focus flag changed or the text changed),
/// and whether a redraw is due.
#[derive(Debug)]
pub struct Effects {
    pub messages: Vec<ComboMessage>,
    pub relayout: bool,
    pub redraw: bool,
}

/// Ghost image of a hovered index.
pub open spec fn hov(h: Option<usize>) -> Option<int> {
    match h {
        Some(i) => Some(i as int),
        None => None,
    }
}

/// Ghost image of a pending selection.
pub open spec fn pend(o: Option<String>) -> Option<Seq<char>> {
    match o {
        Some(s) => Some(s@),
        None => None,
    }
}

/// One Advance step of the hover: from no hover to the first row, otherwise
/// one row down, wrapping from the last row to the first. On an empty list
/// nothing moves.
pub open spec fn advance(h: Option<int>, len: int) -> Option<int> {
    if len <= 0 {
        h
    } else {
        match h {
            None => Some(0int),
            Some(i) => Some(
                if i == len - 1 {
                    0int
                } else {
                    i + 1
                },
            ),
        }
    }
}

/// One Retreat step of the hover: from no hover to the first row, otherwise
/// one row up, wrapping from the first row to the last. On an empty list
/// nothing moves.
pub open spec fn retreat(h: Option<int>, len: int) -> Option<int> {
    if len <= 0 {
        h
    } else {
        match h {
            None => Some(0int),
            Some(i) => Some(
                if i == 0 {
                    len - 1
                } else {
                    i - 1
                },
            ),
        }
    }
}

/// The hover after one navigation step in the given direction.
pub open spec fn nav_hover(s: State, m: Menu, forward: bool) -> Option<int> {
    if forward {
        advance(hov(m.hovered_option), s.filtered.options@.len() as int)
    } else {
        retreat(hov(m.hovered_option), s.filtered.options@.len() as int)
    }
}

/// The messages of one navigation step: the newly hovered candidate, when
/// the list is non-empty and the hover callback is registered.
pub open spec fn nav_msgs(s: State, m: Menu, cb: Callbacks, forward: bool) -> Seq<MsgView> {
    let flen = s.filtered.options@.len() as int;
    if flen > 0 && cb.on_hover {
        match nav_hover(s, m, forward) {
            Some(j) => seq![MsgView::Hovered(s.filtered.options.deep_view()[j])],
            None => Seq::empty(),
        }
    } else {
        Seq::empty()
    }
}

/// Intermediate image of an update step: the state after the event is
/// handled, before a pending selection is applied.
pub struct Phase1 {
    pub value: Seq<char>,
    pub focused: bool,
    pub hovered: Option<int>,
    pub pending: Option<Seq<char>>,
    pub overlay_reset: bool,
    pub messages: Seq<MsgView>,
    pub redraw: bool,
}

/// An event that changes nothing.
pub open spec fn phase1_noop(s: State, m: Menu) -> Phase1 {
    Phase1 {
        value: s.value@,
        focused: s.focused,
        hovered: hov(m.hovered_option),
        pending: pend(m.new_selection),
        overlay_reset: false,
        messages: Seq::empty(),
        redraw: false,
    }
}

/// How one event is handled, before a pending selection is applied.
pub open spec fn phase1(s: State, m: Menu, e: ComboEvent, cb: Callbacks) -> Phase1 {
    let flen = s.filtered.options@.len() as int;
    let fopts = s.filtered.options.deep_view();
    match e {
        ComboEvent::TextChanged(v) => Phase1 {
            value: v@,
            focused: s.focused,
            hovered: if s.focused && search_spec(
                s.options.deep_view(),
                s.matchers.deep_view(),
                v@,
            ).len() > 0 {
                Some(0int)
            } else {
                None
            },
            pending: pend(m.new_selection),
            overlay_reset: false,
            messages: if cb.on_input {
                seq![MsgView::Input(v@)]
            } else {
                Seq::empty()
            },
            redraw: true,
        },
        ComboEvent::KeyPressed(k, shift) => if !s.focused {
            phase1_noop(s, m)
        } else {
            match k {
                Key::Enter => Phase1 {
                    value: s.value@,
                    focused: s.focused,
                    hovered: hov(m.hovered_option),
                    pending: match hov(m.hovered_option) {
                        Some(i) => if i < flen {
                            Some(fopts[i])
                        } else {
                            pend(m.new_selection)
                        },
                        None => pend(m.new_selection),
                    },
                    overlay_reset: false,
                    messages: Seq::empty(),
                    redraw: true,
                },
                Key::ArrowUp => phase1_nav(s, m, cb, false),
                Key::ArrowDown => phase1_nav(s, m, cb, true),
                Key::Tab => phase1_nav(s, m, cb, !shift),
            }
        },
        ComboEvent::FocusGained => if s.focused {
            phase1_noop(s, m)
        } else {
            Phase1 {
                value: s.value@,
                focused: true,
                hovered: if flen > 0 {
                    Some(0int)
                } else {
                    None
                },
                pending: pend(m.new_selection),
                overlay_reset: true,
                messages: if flen > 0 && cb.on_hover {
                    seq![MsgView::Hovered(fopts[0])]
                } else {
                    Seq::empty()
                },
                redraw: true,
            }
        },
        ComboEvent::FocusLost => if !s.focused {
            phase1_noop(s, m)
        } else {
            Phase1 {
                value: s.value@,
                focused: false,
                hovered: None,
                pending: pend(m.new_selection),
                overlay_reset: true,
                messages: Seq::empty(),
                redraw: true,
            }
        },
        ComboEvent::OptionHovered(i) => if s.focused && (i as int) < flen {
            Phase1 {
                value: s.value@,
                focused: s.focused,
                hovered: Some(i as int),
                pending: pend(m.new_selection),
                overlay_reset: false,
                messages: if cb.on_hover {
                    seq![MsgView::Hovered(fopts[i as int])]
                } else {
                    Seq::empty()
                },
                redraw: true,
            }
        } else {
            phase1_noop(s, m)
        },
        ComboEvent::OptionSelected(i) => if s.focused && (i as int) < flen {
            Phase1 {
                value: s.value@,
                focused: s.focused,
                hovered: hov(m.hovered_option),
                pending: Some(fopts[i as int]),
                overlay_reset: false,
                messages: Seq::empty(),
                redraw: true,
            }
        } else {
            phase1_noop(s, m)
        },
    }
}

/// A navigation key while focused.
pub open spec fn phase1_nav(s: State, m: Menu, cb: Callbacks, forward: bool) -> Phase1 {
    Phase1 {
        value: s.value@,
        focused: s.focused,
        hovered: nav_hover(s, m, forward),
        pending: pend(m.new_selection),
        overlay_reset: false,
        messages: nav_msgs(s, m, cb, forward),
        redraw: true,
    }
}

/// The full image of one update step.
pub struct StepResult {
    /// The typed value afterwards.
    pub value: Seq<char>,
    /// The focus flag afterwards.
    pub focused: bool,
    /// The hovered index afterwards.
    pub hovered: Option<int>,
    /// Whether a pending selection was applied.
    pub committed: bool,
    /// Whether the overlay snapshot was reset to its closed form.
    pub overlay_reset: bool,
    /// The messages handed to the host, in order.
    pub messages: Seq<MsgView>,
    /// Whether the widget tree must be rebuilt.
    pub relayout: bool,
    /// Whether a redraw is due.
    pub redraw: bool,
}

/// One full update step: handle the event, apply a pending selection —
/// clearing the text, restoring the full candidate list and dropping focus —
/// and emit exactly one close message when focus was lost while no other
/// message explains it.
pub open spec fn step_spec(s: State, m: Menu, e: ComboEvent, cb: Callbacks) -> StepResult {
    let p = phase1(s, m, e, cb);
    match p.pending {
        Some(sel) => StepResult {
            value: Seq::empty(),
            focused: false,
            hovered: None,
            committed: true,
            overlay_reset: true,
            messages: p.messages + seq![MsgView::Selected(sel)],
            relayout: s.focused || (e is TextChanged),
            redraw: true,
        },
        None => StepResult {
            value: p.value,
            focused: p.focused,
            hovered: p.hovered,
            committed: false,
            overlay_reset: p.overlay_reset,
            messages: if s.focused && !p.focused && p.messages.len() == 0 && cb.on_close {
                p.messages + seq![MsgView::Closed]
            } else {
                p.messages
            },
            relayout: (s.focused != p.focused) || (e is TextChanged),
            redraw: p.redraw,
        },
    }
}

/// The hover after `k` Advance steps.
pub open spec fn iter_advance(h: Option<int>, len: int, k: nat) -> Option<int>
    decreases k,
{
    if k == 0 {
        h
    } else {
        advance(iter_advance(h, len, (k - 1) as nat), len)
    }
}

/// Stepping the remainder: adding one moves `i % len` up by one, wrapping
/// from `len - 1` to 0.
proof fn lemma_mod_succ(i: int, len: int)
    requires
        len > 0,
        i >= 0,
    ensures
        (i + 1) % len == if i % len == len - 1 {
            0int
        } else {
            i % len + 1
        },
{
    let q = i / len;
    let m = i % len;
    vstd::arithmetic::div_mod::lemma_fundamental_div_mod(i, len);
    vstd::arithmetic::div_mod::lemma_mod_bound(i, len);
    if m == len - 1 {
        assert(i + 1 == len * (q + 1) + 0) by {
            vstd::arithmetic::mul::lemma_mul_is_distributive_add(len, q, 1);
        }
        vstd::arithmetic::div_mod::lemma_fundamental_div_mod_converse(i + 1, len, q + 1, 0);
    } else {
        vstd::arithmetic::div_mod::lemma_fundamental_div_mod_converse(i + 1, len, q, m + 1);
    }
}

/// Where the hover stands after `k` Advance steps from row `i` of a
/// non-empty list: on row `(i + k) % len`.
pub proof fn lemma_advance_formula(i: int, len: int, k: nat)
    requires
        len > 0,
        0 <= i < len,
    ensures
        iter_advance(Some(i), len, k) == Some((i + k) % len),
    decreases k,
{
    if k == 0 {
        vstd::arithmetic::div_mod::lemma_small_mod(i as nat, len as nat);
    } else {
        lemma_advance_formula(i, len, (k - 1) as nat);
        vstd::arithmetic::div_mod::lemma_mod_bound(i + k - 1, len);
        lemma_mod_succ(i + k - 1, len);
    }
}

/// Law: on a non-empty filtered list, Advance walks the rows cyclically.
/// From any hovered row, as many Advance steps as the list has rows lead
/// back to that row.
pub proof fn lemma_advance_full_cycle(i: int, len: int)
    requires
        len > 0,
        0 <= i < len,
    ensures
        iter_advance(Some(i), len, len as nat) == Some(i),
{
    lemma_advance_formula(i, len, len as nat);
    vstd::arithmetic::div_mod::lemma_mod_add_multiples_vanish(i, len);
    vstd::arithmetic::div_mod::lemma_small_mod(i as nat, len as nat);
}

/// Law: from no hover, the first Advance hovers the first row, and the
/// `k`-th Advance hovers row `(k - 1) % len`: one full round after the
/// first press returns the hover to the first row.
pub proof fn lemma_advance_from_none(len: int, k: nat)
    requires
        len > 0,
        k >= 1,
    ensures
        iter_advance(None, len, k) == Some((k - 1) % len),
    decreases k,
{
    if k == 1 {
        vstd::arithmetic::div_mod::lemma_small_mod(0, len as nat);
    } else {
        lemma_advance_from_none(len, (k - 1) as nat);
        vstd::arithmetic::div_mod::lemma_mod_bound(k - 2, len);
        lemma_mod_succ(k - 2, len);
    }
}

/// The Advance key moves the hover by exactly one [`advance`] step: what
/// [`iter_advance`] iterates is what the engine does on each press.
pub proof fn lemma_step_advances_hover(s: State, m: Menu, cb: Callbacks, shift: bool)
    requires
        s.focused,
        m.new_selection is None,
    ensures
        step_spec(s, m, ComboEvent::KeyPressed(Key::ArrowDown, shift), cb).hovered == advance(
            hov(m.hovered_option),
            s.filtered.options@.len() as int,
        ),
        step_spec(s, m, ComboEvent::KeyPressed(Key::Tab, false), cb).hovered == advance(
            hov(m.hovered_option),
            s.filtered.options@.len() as int,
        ),
        step_spec(s, m, ComboEvent::KeyPressed(Key::ArrowUp, shift), cb).hovered == retreat(
            hov(m.hovered_option),
            s.filtered.options@.len() as int,
        ),
        step_spec(s, m, ComboEvent::KeyPressed(Key::Tab, true), cb).hovered == retreat(
            hov(m.hovered_option),
            s.filtered.options@.len() as int,
        ),
{
}

/// Law: a step that applies a pending selection clears the typed text,
/// drops focus, and leaves the filtered set equal to the full candidate
/// list — the search for the cleared text keeps every candidate.
pub proof fn lemma_commit_resets(s: State, m: Menu, e: ComboEvent, cb: Callbacks)
    requires
        s.wf(),
        step_spec(s, m, e, cb).committed,
    ensures
        step_spec(s, m, e, cb).value == Seq::<char>::empty(),
        step_spec(s, m, e, cb).focused == false,
        search_spec(s.options.deep_view(), s.matchers.deep_view(), step_spec(s, m, e, cb).value)
            == s.options.deep_view(),
{
    crate::search::lemma_search_no_tokens(
        s.options.deep_view(),
        s.matchers.deep_view(),
        Seq::<char>::empty(),
    );
}

/// No phase of event handling emits a close message on its own.
proof fn lemma_phase1_no_close(s: State, m: Menu, e: ComboEvent, cb: Callbacks)
    ensures
        !phase1(s, m, e, cb).messages.contains(MsgView::Closed),
{
    let pm = phase1(s, m, e, cb).messages;
    assert forall|i: int| 0 <= i < pm.len() implies !(#[trigger] pm[i] is Closed) by {
        match e {
            ComboEvent::TextChanged(v) => {},
            ComboEvent::KeyPressed(k, shift) => {},
            ComboEvent::FocusGained => {},
            ComboEvent::FocusLost => {},
            ComboEvent::OptionHovered(j) => {},
            ComboEvent::OptionSelected(j) => {},
        }
    }
    if pm.contains(MsgView::Closed) {
        let i = choose|i: int| 0 <= i < pm.len() && pm[i] == MsgView::Closed;
    }
}

/// Law: losing focus while no hover, selection or input message explains it
/// produces exactly one close message, and nothing else.
pub proof fn lemma_focus_loss_close(s: State, m: Menu, cb: Callbacks)
    requires
        s.focused,
        m.new_selection is None,
        cb.on_close,
    ensures
        step_spec(s, m, ComboEvent::FocusLost, cb).messages == seq![MsgView::Closed],
{
    assert(step_spec(s, m, ComboEvent::FocusLost, cb).messages =~= seq![MsgView::Closed]);
}

/// Law: a step never produces two close messages, and produces one only as
/// its sole message — a hover, selection or input message in the same step
/// rules the close message out.
pub proof fn lemma_close_exclusive(s: State, m: Menu, e: ComboEvent, cb: Callbacks)
    ensures
        ({
            let msgs = step_spec(s, m, e, cb).messages;
            msgs.contains(MsgView::Closed) ==> msgs == seq![MsgView::Closed]
        }),
{
    lemma_phase1_no_close(s, m, e, cb);
    let p = phase1(s, m, e, cb);
    let msgs = step_spec(s, m, e, cb).messages;
    match p.pending {
        Some(sel) => {
            if msgs.contains(MsgView::Closed) {
                let i = choose|i: int| 0 <= i < msgs.len() && msgs[i] == MsgView::Closed;
                if i < p.messages.len() {
                    assert(p.messages.contains(MsgView::Closed));
                }
                assert(false);
            }
        },
        None => {
            if s.focused && !p.focused && p.messages.len() == 0 && cb.on_close {
                assert(msgs =~= seq![MsgView::Closed]);
            } else {
                if msgs.contains(MsgView::Closed) {
                    assert(p.messages.contains(MsgView::Closed));
                    assert(false);
                }
            }
        },
    }
}

/// One navigation step: move the hover and notify the newly hovered
/// candidate.
fn nav_step(
    state: &State,
    menu: &mut Menu,
    cb: Callbacks,
    messages: &mut Vec<ComboMessage>,
    forward: bool,
)
    requires
        nav_wf(*old(menu), *state),
    ensures
        hov(final(menu).hovered_option) == nav_hover(*state, *old(menu), forward),
        final(menu).new_selection == old(menu).new_selection,
        final(menu).filtered == old(menu).filtered,
        nav_wf(*final(menu), *state),
        msgs_view(final(messages)@) == msgs_view(old(messages)@) + nav_msgs(
            *state,
            *old(menu),
            cb,
            forward,
        ),
{
    let flen = state.filtered.options.len();
    if flen > 0 {
        let ni: usize = match menu.hovered_option {
            None => 0,
            Some(i) => if forward {
                if i == flen - 1 {
                    0
                } else {
                    i + 1
                }
            } else {
                if i == 0 {
                    flen - 1
                } else {
                    i - 1
                }
            },
        };
        menu.hovered_option = Some(ni);
        if cb.on_hover {
            proof {
                assert(state.filtered.options@[ni as int]@ =~= state.filtered.options.deep_view()[ni as int]);
            }
            let ghost pre = msgs_view(messages@);
            messages.push(ComboMessage::Hovered(state.filtered.options[ni].clone()));
            proof {
                assert(msgs_view(messages@) =~~= pre + seq![
                    MsgView::Hovered(state.filtered.options.deep_view()[ni as int]),
                ]);
            }
        } else {
            proof {
                assert(msgs_view(messages@) =~= msgs_view(messages@) + Seq::<MsgView>::empty());
            }
        }
    } else {
        proof {
            assert(msgs_view(messages@) =~= msgs_view(messages@) + Seq::<MsgView>::empty());
        }
    }
}

/// Handle one user event.
///
/// The widget state and the overlay state move exactly as [`step_spec`]
/// says of them; the returned effects carry the messages for the host, in
/// order, and the relayout and redraw signals.
pub fn update(state: &mut State, menu: &mut Menu, event: ComboEvent, cb: Callbacks) -> (eff:
    Effects)
    requires
        old(state).wf(),
        nav_wf(*old(menu), *old(state)),
    ensures
        ({
            let r = step_spec(*old(state), *old(menu), event, cb);
            &&& final(state).wf()
            &&& nav_wf(*final(menu), *final(state))
            &&& final(state).value@ == r.value
            &&& final(state).focused == r.focused
            &&& final(state).options == old(state).options
            &&& final(state).matchers == old(state).matchers
            &&& final(state).filtered.options.deep_view() == search_spec(
                old(state).options.deep_view(),
                old(state).matchers.deep_view(),
                r.value,
            )
            &&& ((event is TextChanged || r.committed)
                ==> final(state).filtered.updated != old(state).filtered.updated)
            &&& (!(event is TextChanged || r.committed)
                ==> final(state).filtered == old(state).filtered)
            &&& hov(final(menu).hovered_option) == r.hovered
            &&& final(menu).new_selection is None
            &&& (r.overlay_reset
                ==> final(menu).filtered.options@.len() == 0 && final(menu).filtered.updated == 0)
            &&& (!r.overlay_reset ==> final(menu).filtered == old(menu).filtered)
            &&& msgs_view(eff.messages@) == r.messages
            &&& eff.relayout == r.relayout
            &&& eff.redraw == r.redraw
        }),
{
    let ghost s0 = *old(state);
    let ghost m0 = *old(menu);
    let ghost ev = event;
    let started_focused = state.focused;
    let mut messages: Vec<ComboMessage> = Vec::new();
    let mut redraw = false;
    let mut text_changed = false;
    match event {
        ComboEvent::TextChanged(v) => {
            text_changed = true;
            if cb.on_input {
                let ghost pre = msgs_view(messages@);
                messages.push(ComboMessage::Input(v.clone()));
                proof {
                    assert(msgs_view(messages@) =~~= pre + seq![MsgView::Input(v@)]);
                }
            }
            state.value = v;
            let results = search(&state.options, &state.matchers, state.value.as_str());
            state.filtered.update(results);
            menu.hovered_option = if state.focused && state.filtered.options.len() > 0 {
                Some(0)
            } else {
                None
            };
            redraw = true;
        },
        ComboEvent::KeyPressed(k, shift) => {
            if state.focused {
                match k {
                    Key::Enter => {
                        match menu.hovered_option {
                            Some(i) => {
                                if i < state.filtered.options.len() {
                                    proof {
                                        assert(state.filtered.options@[i as int]@
                                            =~= state.filtered.options.deep_view()[i as int]);
                                    }
                                    menu.new_selection = Some(
                                        state.filtered.options[i].clone(),
                                    );
                                }
                            },
                            None => {},
                        }
                        redraw = true;
                    },
                    Key::ArrowUp => {
                        nav_step(state, menu, cb, &mut messages, false);
                        redraw = true;
                    },
                    Key::ArrowDown => {
                        nav_step(state, menu, cb, &mut messages, true);
                        redraw = true;
                    },
                    Key::Tab => {
                        nav_step(state, menu, cb, &mut messages, !shift);
                        redraw = true;
                    },
                }
            }
        },
        ComboEvent::FocusGained => {
            if !state.focused {
                state.focused = true;
                let flen = state.filtered.options.len();
                menu.hovered_option = if flen > 0 {
                    Some(0)
                } else {
                    None
                };
                menu.filtered = Filtered::empty();
                if flen > 0 && cb.on_hover {
                    proof {
                        assert(state.filtered.options@[0]@
                            =~= state.filtered.options.deep_view()[0]);
                    }
                    let ghost pre = msgs_view(messages@);
                    messages.push(ComboMessage::Hovered(state.filtered.options[0].clone()));
                    proof {
                        assert(msgs_view(messages@) =~~= pre + seq![
                            MsgView::Hovered(state.filtered.options.deep_view()[0]),
                        ]);
                    }
                }
                redraw = true;
            }
        },
        ComboEvent::FocusLost => {
            if state.focused {
                state.focused = false;
                menu.hovered_option = None;
                menu.filtered = Filtered::empty();
                redraw = true;
            }
        },
        ComboEvent::OptionHovered(i) => {
            if state.focused && i < state.filtered.options.len() {
                menu.hovered_option = Some(i);
                if cb.on_hover {
                    proof {
                        assert(state.filtered.options@[i as int]@
                            =~= state.filtered.options.deep_view()[i as int]);
                    }
                    let ghost pre = msgs_view(messages@);
                    messages.push(ComboMessage::Hovered(state.filtered.options[i].clone()));
                    proof {
                        assert(msgs_view(messages@) =~~= pre + seq![
                            MsgView::Hovered(state.filtered.options.deep_view()[i as int]),
                        ]);
                    }
                }
                redraw = true;
            }
        },
        ComboEvent::OptionSelected(i) => {
            if state.focused && i < state.filtered.options.len() {
                proof {
                    assert(state.filtered.options@[i as int]@
                        =~= state.filtered.options.deep_view()[i as int]);
                }
                menu.new_selection = Some(state.filtered.options[i].clone());
                redraw = true;
            }
        },
    }
    proof {
        let p = phase1(s0, m0, ev, cb);
        assert(state.value@ == p.value);
        assert(state.focused == p.focused);
        assert(hov(menu.hovered_option) == p.hovered);
        assert(pend(menu.new_selection) == p.pending);
        assert(msgs_view(messages@) =~~= p.messages);
        assert(redraw == p.redraw);
    }
    let pending = menu.new_selection.take();
    match pending {
        Some(sel) => {
            state.value = String::new();
            let full = clone_strings(&state.options);
            proof {
                assert(full.deep_view() =~= state.options.deep_view());
                crate::search::lemma_search_no_tokens(
                    state.options.deep_view(),
                    state.matchers.deep_view(),
                    Seq::<char>::empty(),
                );
            }
            state.filtered.update(full);
            state.focused = false;
            menu.hovered_option = None;
            menu.filtered = Filtered::empty();
            let ghost pre = msgs_view(messages@);
            messages.push(ComboMessage::Selected(sel));
            proof {
                assert(msgs_view(messages@) =~~= pre + seq![MsgView::Selected(sel@)]);
            }
            redraw = true;
        },
        None => {},
    }
    if started_focused && !state.focused && messages.len() == 0 && cb.on_close {
        let ghost pre = msgs_view(messages@);
        messages.push(ComboMessage::Closed);
        proof {
            assert(pre =~= Seq::<MsgView>::empty());
            assert(msgs_view(messages@) =~~= pre + seq![MsgView::Closed]);
        }
    }
    let relayout = (started_focused != state.focused) || text_changed;
    Effects { messages, relayout, redraw }
}

/// Render-pass entry for the overlay: while the input holds focus, the
/// overlay is shown and its snapshot is reconciled with the authoritative
/// filtered result; while it does not, the overlay stays closed and
/// untouched.
pub fn prepare_overlay(state: &State, menu: &mut Menu) -> (shown: bool)
    ensures
        shown == state.focused,
        final(menu).hovered_option == old(menu).hovered_option,
        final(menu).new_selection == old(menu).new_selection,
        !state.focused ==> *final(menu) == *old(menu),
        state.focused && old(menu).filtered.updated != state.filtered.updated
            ==> final(menu).filtered.options@ == state.filtered.options@
            && final(menu).filtered.updated == state.filtered.updated,
        state.focused && old(menu).filtered.updated == state.filtered.updated
            ==> final(menu).filtered == old(menu).filtered,
{
    if state.is_focused() {
        state.sync_filtered_options(&mut menu.filtered);
        true
    } else {
        false
    }
}

} // verus!

