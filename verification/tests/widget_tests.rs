use combo_box::widget::{
    update, Callbacks, ComboEvent, ComboMessage, Key, Menu, State,
};

fn strings(xs: &[&str]) -> Vec<String> {
    xs.iter().map(|s| s.to_string()).collect()
}

fn no_callbacks() -> Callbacks {
    Callbacks { on_input: false, on_hover: false, on_close: false }
}

fn all_callbacks() -> Callbacks {
    Callbacks { on_input: true, on_hover: true, on_close: true }
}

#[test]
fn new_state_filters_nothing() {
    let state = State::new(strings(&["Alice", "Bob"]));
    assert_eq!(state.filtered.options, strings(&["Alice", "Bob"]));
    assert!(!state.is_focused());
    assert_eq!(state.value(), "".to_string());
}

#[test]
fn with_selection_prefilters() {
    let state = State::with_selection(strings(&["Alice", "Bob"]), Some(&"Bob".to_string()));
    assert_eq!(state.value(), "Bob".to_string());
    assert_eq!(state.filtered.options, strings(&["Bob"]));
}

#[test]
fn advance_and_retreat_wrap() {
    let state = State::new(strings(&["Alice", "Bob", "Charlie"])).focused();
    let mut state = state;
    let mut menu = Menu::new();
    assert_eq!(menu.hovered_option, None);
    let cb = no_callbacks();
    update(&mut state, &mut menu, ComboEvent::KeyPressed(Key::ArrowDown, false), cb);
    assert_eq!(menu.hovered_option, Some(0));
    update(&mut state, &mut menu, ComboEvent::KeyPressed(Key::ArrowDown, false), cb);
    assert_eq!(menu.hovered_option, Some(1));
    update(&mut state, &mut menu, ComboEvent::KeyPressed(Key::ArrowUp, false), cb);
    assert_eq!(menu.hovered_option, Some(0));
    update(&mut state, &mut menu, ComboEvent::KeyPressed(Key::ArrowUp, false), cb);
    assert_eq!(menu.hovered_option, Some(2));
}

#[test]
fn advance_full_cycle_returns() {
    let mut state = State::new(strings(&["a", "b", "c"])).focused();
    let mut menu = Menu::new();
    let cb = no_callbacks();
    update(&mut state, &mut menu, ComboEvent::KeyPressed(Key::ArrowDown, false), cb);
    assert_eq!(menu.hovered_option, Some(0));
    for _ in 0..3 {
        update(&mut state, &mut menu, ComboEvent::KeyPressed(Key::ArrowDown, false), cb);
    }
    assert_eq!(menu.hovered_option, Some(0));
}

#[test]
fn tab_advances_and_shift_tab_retreats() {
    let mut state = State::new(strings(&["a", "b", "c"])).focused();
    let mut menu = Menu::new();
    let cb = no_callbacks();
    update(&mut state, &mut menu, ComboEvent::KeyPressed(Key::Tab, false), cb);
    assert_eq!(menu.hovered_option, Some(0));
    update(&mut state, &mut menu, ComboEvent::KeyPressed(Key::Tab, false), cb);
    assert_eq!(menu.hovered_option, Some(1));
    update(&mut state, &mut menu, ComboEvent::KeyPressed(Key::Tab, true), cb);
    assert_eq!(menu.hovered_option, Some(0));
}

#[test]
fn navigation_notifies_hover() {
    let mut state = State::new(strings(&["Alice", "Bob"])).focused();
    let mut menu = Menu::new();
    let eff = update(
        &mut state,
        &mut menu,
        ComboEvent::KeyPressed(Key::ArrowDown, false),
        all_callbacks(),
    );
    assert_eq!(eff.messages, vec![ComboMessage::Hovered("Alice".to_string())]);
}

#[test]
fn text_change_filters_and_resets_hover() {
    let mut state = State::new(strings(&["Alice", "Bob", "Charlie"])).focused();
    let mut menu = Menu::new();
    let cb = all_callbacks();
    let eff = update(&mut state, &mut menu, ComboEvent::TextChanged("li".to_string()), cb);
    assert_eq!(state.filtered.options, strings(&["Alice", "Charlie"]));
    assert_eq!(menu.hovered_option, Some(0));
    assert_eq!(eff.messages, vec![ComboMessage::Input("li".to_string())]);
    assert!(eff.relayout);
    let eff = update(&mut state, &mut menu, ComboEvent::TextChanged("zzz".to_string()), cb);
    assert_eq!(state.filtered.options, Vec::<String>::new());
    assert_eq!(menu.hovered_option, None);
    assert_eq!(eff.messages, vec![ComboMessage::Input("zzz".to_string())]);
}

#[test]
fn commit_resets_text_filter_and_focus() {
    let mut state = State::new(strings(&["Alice", "Bob", "Charlie"])).focused();
    let mut menu = Menu::new();
    let cb = all_callbacks();
    update(&mut state, &mut menu, ComboEvent::TextChanged("bo".to_string()), cb);
    assert_eq!(state.filtered.options, strings(&["Bob"]));
    let eff = update(&mut state, &mut menu, ComboEvent::KeyPressed(Key::Enter, false), cb);
    assert_eq!(eff.messages, vec![ComboMessage::Selected("Bob".to_string())]);
    assert_eq!(state.value(), "".to_string());
    assert_eq!(state.filtered.options, strings(&["Alice", "Bob", "Charlie"]));
    assert!(!state.is_focused());
    assert_eq!(menu.hovered_option, None);
    assert_eq!(menu.new_selection, None);
    assert!(eff.relayout);
}

#[test]
fn enter_without_hover_is_noop() {
    let mut state = State::new(Vec::<String>::new()).focused();
    let mut menu = Menu::new();
    let eff = update(
        &mut state,
        &mut menu,
        ComboEvent::KeyPressed(Key::Enter, false),
        all_callbacks(),
    );
    assert_eq!(eff.messages, Vec::<ComboMessage>::new());
    assert!(state.is_focused());
}

#[test]
fn navigation_on_empty_list_is_noop() {
    let mut state = State::new(Vec::<String>::new()).focused();
    let mut menu = Menu::new();
    let eff = update(
        &mut state,
        &mut menu,
        ComboEvent::KeyPressed(Key::ArrowDown, false),
        all_callbacks(),
    );
    assert_eq!(menu.hovered_option, None);
    assert_eq!(eff.messages, Vec::<ComboMessage>::new());
}

#[test]
fn focus_gain_hovers_first_and_notifies() {
    let mut state = State::new(strings(&["Alice", "Bob"]));
    let mut menu = Menu::new();
    let eff = update(&mut state, &mut menu, ComboEvent::FocusGained, all_callbacks());
    assert!(state.is_focused());
    assert_eq!(menu.hovered_option, Some(0));
    assert_eq!(eff.messages, vec![ComboMessage::Hovered("Alice".to_string())]);
    assert!(eff.relayout);
}

#[test]
fn focus_loss_emits_exactly_one_close() {
    let mut state = State::new(strings(&["Alice", "Bob"])).focused();
    let mut menu = Menu::new();
    let eff = update(&mut state, &mut menu, ComboEvent::FocusLost, all_callbacks());
    assert_eq!(eff.messages, vec![ComboMessage::Closed]);
    assert!(!state.is_focused());
    assert_eq!(menu.hovered_option, None);
    assert!(eff.relayout);
}

#[test]
fn focus_loss_without_close_callback_is_silent() {
    let mut state = State::new(strings(&["Alice"])).focused();
    let mut menu = Menu::new();
    let eff = update(&mut state, &mut menu, ComboEvent::FocusLost, no_callbacks());
    assert_eq!(eff.messages, Vec::<ComboMessage>::new());
}

#[test]
fn commit_suppresses_close() {
    let mut state = State::new(strings(&["Alice"])).focused();
    let mut menu = Menu::new();
    let cb = all_callbacks();
    update(&mut state, &mut menu, ComboEvent::KeyPressed(Key::ArrowDown, false), cb);
    let eff = update(&mut state, &mut menu, ComboEvent::KeyPressed(Key::Enter, false), cb);
    assert_eq!(eff.messages, vec![ComboMessage::Selected("Alice".to_string())]);
    assert!(!state.is_focused());
}

#[test]
fn pointer_hover_and_select() {
    let mut state = State::new(strings(&["Alice", "Bob"])).focused();
    let mut menu = Menu::new();
    let cb = all_callbacks();
    let eff = update(&mut state, &mut menu, ComboEvent::OptionHovered(1), cb);
    assert_eq!(menu.hovered_option, Some(1));
    assert_eq!(eff.messages, vec![ComboMessage::Hovered("Bob".to_string())]);
    let eff = update(&mut state, &mut menu, ComboEvent::OptionSelected(1), cb);
    assert_eq!(eff.messages, vec![ComboMessage::Selected("Bob".to_string())]);
    assert_eq!(state.filtered.options, strings(&["Alice", "Bob"]));
}

#[test]
fn pointer_out_of_range_is_noop() {
    let mut state = State::new(strings(&["Alice"])).focused();
    let mut menu = Menu::new();
    let eff = update(&mut state, &mut menu, ComboEvent::OptionSelected(5), all_callbacks());
    assert_eq!(eff.messages, Vec::<ComboMessage>::new());
    assert!(state.is_focused());
}

#[test]
fn focus_session_resets_hover() {
    let mut state = State::new(strings(&["Alice", "Bob", "Charlie"])).focused();
    let mut menu = Menu::new();
    let cb = no_callbacks();
    update(&mut state, &mut menu, ComboEvent::KeyPressed(Key::ArrowDown, false), cb);
    update(&mut state, &mut menu, ComboEvent::KeyPressed(Key::ArrowDown, false), cb);
    assert_eq!(menu.hovered_option, Some(1));
    update(&mut state, &mut menu, ComboEvent::FocusLost, cb);
    assert_eq!(menu.hovered_option, None);
    update(&mut state, &mut menu, ComboEvent::FocusGained, cb);
    assert_eq!(menu.hovered_option, Some(0));
}
