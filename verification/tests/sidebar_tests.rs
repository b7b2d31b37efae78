use std::time::{Duration, SystemTime};

use clibuddy_sidebar::activity::{
    filter_shows, filtered_indices, get_item_text, ActivityFilter, ActivityItem, CommandStatus,
    CurrentGoal, GoalAction,
};
use clibuddy_sidebar::card::Card;
use clibuddy_sidebar::chat::handle_chat_send;
use clibuddy_sidebar::config::{
    default_body_font_weight, default_glow_layers, default_show_on_startup, default_sidebar_width,
    SidebarMode,
};
use clibuddy_sidebar::log_render;
use clibuddy_sidebar::samples::{SAMPLE_GOAL, SAMPLE_QUESTION, SAMPLE_SUGGESTION};
use clibuddy_sidebar::modal::{
    modal_animation_complete, Modal, ModalAnimationState, ModalTiming, ModalEvent, ModalEventResult, ModalManager, SuggestionModal,
};
use clibuddy_sidebar::multiline::{EditKey, EditModifiers, MultilineTextInput};
use clibuddy_sidebar::sidebar::AiSidebar;
use clibuddy_sidebar::activity::{AgentMode, CurrentSuggestion};
use clibuddy_sidebar::selection::{
    create_selection_spans, span_selection, SelectionSpan, SelectionState, SelectionTarget,
};
use clibuddy_sidebar::widgets::{Chip, ChipGroup, ChipSize, CodeBlockContainer};

fn chat(id: &str, message: &str) -> ActivityItem {
    ActivityItem::Chat {
        id: id.to_string(),
        message: message.to_string(),
        is_user: true,
        timestamp: SystemTime::now(),
    }
}

fn command(id: &str, cmd: &str, output: Option<&str>, status: CommandStatus, expanded: bool) -> ActivityItem {
    ActivityItem::Command {
        id: id.to_string(),
        command: cmd.to_string(),
        output: output.map(|o| o.to_string()),
        pane_id: None,
        status,
        timestamp: SystemTime::now(),
        expanded,
    }
}

fn suggestion(id: &str, content: &str) -> ActivityItem {
    ActivityItem::Suggestion {
        id: id.to_string(),
        title: "T".to_string(),
        content: content.to_string(),
        timestamp: SystemTime::now(),
        is_current: true,
    }
}

#[test]
fn span_selection_within_one_entry() {
    let texts = vec!["hello"];
    assert_eq!(span_selection(&texts, 0, 1, 0, 4), Some("ell".to_string()));
    assert_eq!(span_selection(&texts, 0, 4, 0, 1), Some("ell".to_string()));
    assert_eq!(span_selection(&texts, 0, 2, 0, 2), Some(String::new()));
    assert_eq!(span_selection(&texts, 1, 0, 1, 2), None);
    let accented = vec!["h\u{e9}llo"];
    assert_eq!(span_selection(&accented, 0, 0, 0, 2), None);
    assert_eq!(span_selection(&accented, 0, 0, 0, 3), Some("h\u{e9}".to_string()));
}

#[test]
fn span_selection_across_entries_either_direction() {
    let texts = vec!["hello", "big", "world"];
    let forward = span_selection(&texts, 0, 2, 2, 3);
    let backward = span_selection(&texts, 2, 3, 0, 2);
    assert_eq!(forward, Some("llo\nbig\nwor".to_string()));
    assert_eq!(forward, backward);
    // the end past the entries contributes nothing
    assert_eq!(span_selection(&texts, 1, 1, 5, 0), Some("ig\nworld\n".to_string()));
}

#[test]
fn selection_state_reads_activity_log() {
    let log = vec![chat("c0", "first message"), command("k1", "ls", Some("a b"), CommandStatus::Success, true)];
    let mut s = SelectionState::new();
    s.start_activity_item_selection(0, 6, log.len());
    assert!(s.is_selecting());
    s.update_activity_log_selection_drag(1, 1);
    let lines: Vec<String> = Vec::new();
    assert_eq!(s.get_selected_text(&log, None, None, &lines), Some("message\na".to_string()));
    s.end_selection();
    assert!(!s.is_selecting());
    s.clear_selection_if_invalid(2);
    assert!(s.active_selection.is_some());
    s.clear_selection_if_invalid(1);
    assert!(s.active_selection.is_none());
}

#[test]
fn selection_state_out_of_range_start_is_ignored() {
    let mut s = SelectionState::new();
    s.start_activity_item_selection(3, 0, 2);
    assert_eq!(s.active_selection, None);
    assert!(!s.is_selecting());
    s.start_suggestion_selection(1, false);
    s.start_goal_selection(1, false);
    assert_eq!(s.active_selection, None);
}

#[test]
fn selection_state_suggestion_goal_and_chat() {
    let mut s = SelectionState::new();
    s.start_suggestion_selection(4, true);
    s.update_selection_drag(0);
    let log: Vec<ActivityItem> = Vec::new();
    let lines = vec!["abc".to_string(), "def".to_string()];
    assert_eq!(s.get_selected_text(&log, Some("run tests"), None, &lines), Some("run ".to_string()));
    assert_eq!(s.get_selected_text(&log, None, None, &lines), None);
    s.start_goal_selection(0, true);
    s.update_selection_drag(4);
    assert_eq!(s.get_selected_text(&log, None, Some("ship it"), &lines), Some("ship".to_string()));
    s.start_chat_input_selection(0, 1);
    s.update_chat_input_selection(1, 2);
    assert_eq!(s.get_selected_text(&log, None, None, &lines), Some("bc\nde".to_string()));
}

#[test]
fn prepared_selection_lifecycle() {
    let mut s = SelectionState::new();
    let target = SelectionTarget::Goal { anchor_byte: 0, current_byte: 0 };
    assert!(!s.prepare_selection(target));
    assert_eq!(s.prepared_selection, Some(target));
    s.activate_prepared_selection();
    assert_eq!(s.active_selection, Some(target));
    assert_eq!(s.prepared_selection, None);
    assert!(s.is_selecting());
    assert!(s.prepare_selection(target));
    assert_eq!(s.active_selection, None);
    assert!(s.clear_selection());
    assert!(!s.clear_selection());
    s.clear();
    assert_eq!(s.active_selection, None);
}

#[test]
fn selection_spans_cover_the_line() {
    assert_eq!(
        create_selection_spans(10, 2, 5),
        vec![
            SelectionSpan { start: 0, end: 2, selected: false },
            SelectionSpan { start: 2, end: 5, selected: true },
            SelectionSpan { start: 5, end: 10, selected: false },
        ]
    );
    assert_eq!(create_selection_spans(5, 0, 5), vec![SelectionSpan { start: 0, end: 5, selected: true }]);
}

#[test]
fn filters_pick_item_kinds() {
    let log = vec![
        chat("c0", "hi"),
        command("k1", "ls", None, CommandStatus::Running, false),
        suggestion("s2", "try this"),
        command("k3", "pwd", None, CommandStatus::Failed(1), false),
    ];
    assert_eq!(filtered_indices(&log, ActivityFilter::All), vec![0, 1, 2, 3]);
    assert_eq!(filtered_indices(&log, ActivityFilter::Commands), vec![1, 3]);
    assert_eq!(filtered_indices(&log, ActivityFilter::Chat), vec![0]);
    assert_eq!(filtered_indices(&log, ActivityFilter::Suggestions), vec![2]);
    assert!(filter_shows(ActivityFilter::All, &log[3]));
    assert!(!filter_shows(ActivityFilter::Chat, &log[3]));
    let empty: Vec<ActivityItem> = Vec::new();
    assert!(filtered_indices(&empty, ActivityFilter::All).is_empty());
}

#[test]
fn item_texts_for_selection_and_rendering() {
    let bare = command("k", "ls -l", None, CommandStatus::Success, true);
    let done = command("k", "ls", Some("out"), CommandStatus::Success, true);
    let folded = command("k", "ls", Some("out"), CommandStatus::Failed(2), false);
    let busy = command("k", "make", None, CommandStatus::Running, false);
    assert_eq!(get_item_text(&bare), "ls -l");
    assert_eq!(get_item_text(&done), "out");
    assert_eq!(log_render::get_item_text(&done), "\u{2713} ls\n\nout");
    assert_eq!(log_render::get_item_text(&folded), "\u{2715} ls");
    assert_eq!(log_render::get_item_text(&busy), "\u{25D0} make");
    assert_eq!(log_render::get_item_text(&chat("c", "hey")), "hey");
    assert_eq!(log_render::get_item_id(&suggestion("s9", "x")), "s9");
    assert!(log_render::should_include_item_in_selection_offset(&busy));
    let _renderer = log_render::ActivityLogRenderer::new();
}

#[test]
fn chat_send_appends_message_and_clears_input() {
    let mut log = vec![chat("c0", "earlier")];
    let mut input = MultilineTextInput::new(3);
    input.set_text("   ");
    assert!(!handle_chat_send(&mut log, &mut input));
    assert_eq!(log.len(), 1);
    assert_eq!(input.get_text(), "   ");
    input.set_text("hello\nthere");
    assert!(handle_chat_send(&mut log, &mut input));
    assert_eq!(log.len(), 2);
    match &log[1] {
        ActivityItem::Chat { id, message, is_user, .. } => {
            assert_eq!(id, "chat_1");
            assert_eq!(message, "hello\nthere");
            assert!(*is_user);
        },
        _ => panic!("expected a chat message"),
    }
    assert_eq!(input.get_text(), "");
}

#[test]
fn goal_edit_and_save() {
    let mut g = CurrentGoal::inferred("deploy".to_string());
    assert_eq!(g.text(), "deploy");
    g.confirm();
    g.toggle_edit();
    g.save();
    assert_eq!(g.text(), "deploy");
}

#[test]
fn single_select_click_selects_one_chip() {
    let mut g = ChipGroup::new();
    for label in ["a", "b", "c"] {
        g.add_chip(Chip::new(label.to_string()));
    }
    assert!(g.handle_chip_click(1));
    assert_eq!(g.get_selected(), vec![1]);
    assert!(g.handle_chip_click(2));
    assert_eq!(g.get_selected(), vec![2]);
    assert!(!g.handle_chip_click(7));
    assert_eq!(g.get_selected(), vec![2]);
}

#[test]
fn multi_select_click_twice_restores() {
    let mut g = ChipGroup::new().with_multi_select(true);
    g.add_chip(Chip::new("a".to_string()).selected(true));
    g.add_chip(Chip::new("b".to_string()).with_size(ChipSize::Small).with_icon("*".to_string()));
    assert_eq!(g.get_selected(), vec![0]);
    assert!(g.handle_chip_click(1));
    assert_eq!(g.get_selected(), vec![0, 1]);
    assert!(g.handle_chip_click(1));
    assert_eq!(g.get_selected(), vec![0]);
}

#[test]
fn chip_state() {
    let mut c = Chip::new("x".to_string()).closeable(true).clickable(true);
    assert!(!c.is_selected());
    c.toggle_selected();
    assert!(c.is_selected());
    c.set_hovering(true);
    assert!(c.is_selected());
}

#[test]
fn card_builders_and_toggle() {
    let mut card: Card<u8, u8> = Card::new()
        .with_title("t".to_string())
        .with_content(vec![1, 2])
        .with_actions(vec![3])
        .expandable(true)
        .with_item_type(9);
    let v = card.render();
    assert_eq!(v.title, Some("t"));
    assert_eq!(v.indicator, Some('\u{25B6}'));
    assert_eq!(v.content, Some(&vec![1, 2]));
    assert_eq!(v.actions, Some(&vec![3]));
    assert_eq!(v.item_type, Some(&9));
    assert!(!v.hovered);
    card.toggle_expand();
    assert_eq!(card.render().indicator, Some('\u{25BC}'));
    card.toggle_expand();
    let v = card.render();
    assert_eq!(v.indicator, Some('\u{25B6}'));
    assert_eq!(v.content, None);
    assert_eq!(v.actions, None);
    // toggling twice gives the collapsed card back
    card.toggle_expand();
    card.toggle_expand();
    assert_eq!(card.render().content, None);
    card.set_hover(true);
    assert!(card.render().hovered);
}

#[test]
fn card_that_cannot_expand_keeps_its_state() {
    let mut card: Card<u8, u8> = Card::new().with_content(vec![1]);
    card.toggle_expand();
    let v = card.render();
    assert_eq!(v.title, None);
    assert_eq!(v.indicator, None);
    assert_eq!(v.content, Some(&vec![1]));
    assert_eq!(v.actions, None);
}

#[test]
fn defaults_of_configuration() {
    assert_eq!(default_sidebar_width(), 400);
    assert!(default_show_on_startup());
    assert_eq!(default_glow_layers(), 6);
    assert_eq!(default_body_font_weight(), "Regular");
    assert_eq!(SidebarMode::default(), SidebarMode::Expand);
    let block = CodeBlockContainer::new("b1".to_string());
    assert_eq!(block.id, "b1");
    assert!(block.raw_code.is_empty());
    assert!(block.language.is_none());
}

fn keys(shift: bool) -> EditModifiers {
    EditModifiers { shift, ctrl: false, alt: false, super_key: false }
}

fn typed(sidebar: &mut AiSidebar, text: &str) {
    for c in text.chars() {
        sidebar.handle_chat_input(c);
    }
}

#[test]
fn sidebar_starts_empty() {
    let s = AiSidebar::new(400, true);
    assert_eq!(s.get_width(), 400);
    assert!(s.is_visible());
    assert_eq!(s.agent_mode, AgentMode::Idle);
    assert_eq!(s.activity_filter, ActivityFilter::All);
    assert!(s.activity_log.is_empty());
    assert_eq!(s.chat_input.placeholder, "Type a message...");
    assert_eq!(s.get_chat_input_display_lines(), 2);
    assert!(!s.has_input_focus());
    assert!(!s.has_keyboard_focus());
    assert!(!s.has_modal_active());
    assert!(!s.needs_animation_frame());
    assert!(s.get_current_suggestion().is_none());
    assert!(s.get_active_selection().is_none());
}

#[test]
fn sidebar_keys_go_to_focused_input_only() {
    let mut s = AiSidebar::new(300, false);
    assert!(!s.handle_key_event(&EditKey::Char('x'), keys(false)));
    assert_eq!(s.chat_input.get_text(), "");
    s.focus_chat_input();
    assert!(s.handle_key_event(&EditKey::Char('h'), keys(false)));
    assert!(s.handle_key_event(&EditKey::Char('i'), keys(false)));
    assert!(s.handle_key_event(&EditKey::Enter, keys(true)));
    assert!(s.handle_key_event(&EditKey::Char('!'), keys(false)));
    assert_eq!(s.chat_input.get_text(), "hi\n!");
    assert!(s.handle_key_event(&EditKey::Enter, keys(false)));
    assert_eq!(s.activity_log.len(), 1);
    assert_eq!(s.chat_input.get_text(), "");
    match &s.activity_log[0] {
        ActivityItem::Chat { id, message, .. } => {
            assert_eq!(id, "chat_0");
            assert_eq!(message, "hi\n!");
        },
        _ => panic!("expected a chat message"),
    }
    // a blank message is not sent, but Enter is still taken
    assert!(s.handle_key_event(&EditKey::Enter, keys(false)));
    assert_eq!(s.activity_log.len(), 1);
    assert!(s.handle_key_event(&EditKey::Escape, keys(false)));
    assert!(!s.has_input_focus());
}

#[test]
fn sidebar_chat_send() {
    let mut s = AiSidebar::new(300, true);
    typed(&mut s, "  ");
    assert!(!s.handle_chat_send());
    assert_eq!(s.chat_input.get_text(), "  ");
    s.chat_input.clear();
    typed(&mut s, "ok");
    assert!(s.handle_chat_send());
    assert_eq!(s.activity_log.len(), 1);
    assert!(s.chat_input.get_text().is_empty());
}

#[test]
fn sidebar_goal_handlers() {
    let mut s = AiSidebar::new(300, true);
    s.handle_goal_confirm();
    s.handle_goal_edit_toggle();
    s.handle_goal_save();
    assert!(s.current_goal.is_none());
    s.current_goal = Some(CurrentGoal::inferred("ship".to_string()));
    s.handle_goal_confirm();
    s.handle_goal_edit_toggle();
    s.handle_goal_save();
    assert_eq!(s.current_goal.as_ref().map(|g| g.text().to_string()), Some("ship".to_string()));
}

#[test]
fn sidebar_suggestion_and_filter() {
    let mut s = AiSidebar::new(300, true);
    s.current_suggestion = Some(CurrentSuggestion {
        title: "t".to_string(),
        content: "run it".to_string(),
        has_action: false,
        action_type: None,
    });
    assert_eq!(s.get_current_suggestion().map(|x| x.content.clone()), Some("run it".to_string()));
    assert!(s.handle_filter_click(ActivityFilter::Chat));
    assert!(!s.handle_filter_click(ActivityFilter::Chat));
    assert_eq!(s.activity_filter, ActivityFilter::Chat);
    s.handle_suggestion_dismiss();
    assert!(s.current_suggestion.is_none());
    s.toggle_visibility();
    assert!(!s.is_visible());
    s.set_width(250);
    assert_eq!(s.get_width(), 250);
}

#[test]
fn sidebar_selection_reads_its_own_texts() {
    let mut s = AiSidebar::new(300, true);
    s.activity_log.push(chat("c0", "hello world"));
    s.start_activity_item_selection(0, 6);
    s.selection_state.update_selection_drag(11);
    assert_eq!(s.get_selected_text(), Some("world".to_string()));
    assert_eq!(s.handle_copy(), Some("world".to_string()));
    s.start_activity_log_selection(4, 0);
    assert_eq!(
        s.get_active_selection().copied(),
        Some(SelectionTarget::ActivityItem { anchor_index: 0, anchor_byte: 6, current_index: 0, current_byte: 11 })
    );
    s.start_suggestion_selection(0);
    s.start_goal_selection(0);
    assert!(matches!(s.get_active_selection(), Some(SelectionTarget::ActivityItem { .. })));
    s.activity_log.clear();
    s.clear_selection_if_invalid();
    assert!(s.get_active_selection().is_none());
}

#[test]
fn sidebar_copy_prefers_chat_selection() {
    let mut s = AiSidebar::new(300, true);
    s.activity_log.push(chat("c0", "logged"));
    s.start_activity_item_selection(0, 0);
    s.selection_state.update_selection_drag(3);
    typed(&mut s, "draft");
    s.focus_chat_input();
    assert_eq!(s.handle_copy(), Some("log".to_string()));
    assert!(s.handle_key_event(&EditKey::LeftArrow, keys(true)));
    assert!(s.handle_key_event(&EditKey::LeftArrow, keys(true)));
    assert_eq!(s.handle_copy(), Some("ft".to_string()));
    s.clear_focus();
    assert_eq!(s.handle_copy(), Some("log".to_string()));
}

#[test]
fn log_highlights_selected_entries() {
    let single = Some(SelectionTarget::ActivityItem { anchor_index: 2, anchor_byte: 7, current_index: 2, current_byte: 3 });
    assert_eq!(log_render::item_selection_range(&single, 2), Some((3, 7)));
    assert_eq!(log_render::item_selection_range(&single, 1), None);
    let across = Some(SelectionTarget::ActivityItem { anchor_index: 4, anchor_byte: 5, current_index: 1, current_byte: 2 });
    assert_eq!(log_render::item_selection_range(&across, 1), Some((2, usize::MAX)));
    assert_eq!(log_render::item_selection_range(&across, 4), Some((0, 5)));
    assert_eq!(log_render::item_selection_range(&across, 2), Some((0, usize::MAX)));
    assert_eq!(log_render::item_selection_range(&across, 3), Some((0, usize::MAX)));
    assert_eq!(log_render::item_selection_range(&across, 0), None);
    assert_eq!(log_render::item_selection_range(&across, 5), None);
    let other = Some(SelectionTarget::Goal { anchor_byte: 0, current_byte: 4 });
    assert_eq!(log_render::item_selection_range(&other, 0), None);
    assert_eq!(log_render::item_selection_range(&None, 0), None);
}

#[test]
fn chip_render_texts() {
    let plain = Chip::new("All".to_string());
    assert_eq!(plain.render(), vec!["All".to_string()]);
    let full = Chip::new("Tag".to_string()).with_icon("#".to_string()).closeable(true);
    assert_eq!(full.render(), vec!["# ".to_string(), "Tag".to_string(), " \u{00D7}".to_string()]);
}

#[test]
fn goal_card_shows_text_selection_and_buttons() {
    let mut s = AiSidebar::new(300, true);
    assert!(s.render_current_goal().is_none());
    s.current_goal = Some(CurrentGoal::inferred("deploy".to_string()));
    let v = s.render_current_goal().unwrap();
    assert_eq!(v.text, "deploy");
    assert_eq!(v.selection, None);
    assert_eq!(v.actions, vec![GoalAction::Confirm, GoalAction::Edit]);
    s.start_goal_selection(5);
    s.selection_state.update_selection_drag(1);
    assert_eq!(s.render_current_goal().unwrap().selection, Some((1, 5)));
    s.handle_goal_confirm();
    assert_eq!(s.render_current_goal().unwrap().actions, vec![GoalAction::Edit]);
    s.handle_goal_edit_toggle();
    let v = s.render_current_goal().unwrap();
    assert_eq!(v.text, "deploy_");
    assert_eq!(v.selection, None);
    assert_eq!(v.actions, vec![GoalAction::Save, GoalAction::Cancel]);
}

#[test]
fn status_chip_names_the_agent_mode() {
    let mut sidebar = AiSidebar::new(350, true);
    let chip = sidebar.render_status_chip();
    assert_eq!(chip.render(), vec!["\u{25CB} ".to_string(), "Idle".to_string()]);
    assert!(!chip.is_selected());

    sidebar.agent_mode = AgentMode::NeedsApproval;
    let chip = sidebar.render_status_chip();
    assert_eq!(chip.render(), vec!["\u{26A0} ".to_string(), "Needs Approval".to_string()]);

    sidebar.agent_mode = AgentMode::GatheringData;
    let chip = sidebar.render_status_chip();
    assert_eq!(chip.render(), vec!["\u{25D1} ".to_string(), "Gathering Data".to_string()]);
}

#[test]
fn filter_chips_mark_the_current_filter() {
    let mut sidebar = AiSidebar::new(350, true);
    sidebar.activity_filter = ActivityFilter::Chat;
    let chips = sidebar.render_filter_chips();
    let labels: Vec<Vec<String>> = chips.iter().map(|c| c.render()).collect();
    assert_eq!(
        labels,
        vec![
            vec!["All".to_string()],
            vec!["Commands".to_string()],
            vec!["Chat".to_string()],
            vec!["Suggestions".to_string()],
        ]
    );
    let selected: Vec<bool> = chips.iter().map(|c| c.is_selected()).collect();
    assert_eq!(selected, vec![false, false, true, false]);
}

fn offered(title: &str) -> CurrentSuggestion {
    CurrentSuggestion {
        title: title.to_string(),
        content: "Try `ls -la`".to_string(),
        has_action: true,
        action_type: Some("run".to_string()),
    }
}

#[test]
fn suggestion_modal_opens_takes_escape_and_closes() {
    let mut s = AiSidebar::new(300, true);
    s.show_suggestion_modal(offered("List files"));
    assert!(s.has_modal_active());
    assert!(s.has_keyboard_focus());
    {
        let m = s.modal_manager.active_modal().unwrap();
        assert_eq!(m.id, "suggestion_modal");
        assert_eq!(m.content.suggestion.title, "List files");
        assert_eq!(m.animation_state, ModalAnimationState::Opening);
        assert!(m.close_on_escape && m.close_on_click_outside);
    }
    assert!(s.modal_manager.is_dimmed());
    s.modal_manager.update();
    assert_eq!(s.modal_manager.active_modal().unwrap().animation_state, ModalAnimationState::Open);

    // a key other than a plain Escape is not the modal's
    assert!(!s.handle_key_event(&EditKey::Char('q'), keys(false)));
    assert!(!s.handle_key_event(&EditKey::Escape, keys(true)));
    assert!(s.has_modal_active());

    assert!(s.handle_key_event(&EditKey::Escape, keys(false)));
    assert_eq!(s.modal_manager.active_modal().unwrap().animation_state, ModalAnimationState::Closing);
    assert!(!s.modal_manager.is_dimmed());
    s.modal_manager.update();
    assert!(!s.has_modal_active());
    assert!(!s.has_keyboard_focus());
}

#[test]
fn modal_without_escape_keeps_the_key_for_the_input() {
    let mut manager: ModalManager<u8> = ModalManager::new();
    manager.show(Modal {
        id: "confirm".to_string(),
        content: 7,
        animation_state: ModalAnimationState::Closed,
        close_on_click_outside: false,
        close_on_escape: false,
    });
    // showing always starts the entrance
    assert_eq!(manager.active_modal().unwrap().animation_state, ModalAnimationState::Opening);
    assert!(!manager.handle_key_event(&EditKey::Escape, keys(false)));
    assert!(manager.is_active());
    manager.close();
    manager.close();
    assert_eq!(manager.active_modal().unwrap().animation_state, ModalAnimationState::Closing);
    manager.update();
    assert!(!manager.is_active());
    // closing with nothing up changes nothing
    manager.close();
    assert!(!manager.is_active());
    assert!(!manager.is_dimmed());
}

#[test]
fn sidebar_close_modal() {
    let mut s = AiSidebar::new(300, true);
    s.close_modal();
    assert!(!s.has_modal_active());
    s.show_suggestion_modal(offered("x"));
    s.close_modal();
    assert_eq!(s.modal_manager.active_modal().unwrap().animation_state, ModalAnimationState::Closing);
    s.modal_manager.update();
    assert!(!s.has_modal_active());
}

#[test]
fn suggestion_modal_takes_no_event() {
    let mut m = SuggestionModal::new(offered("y"));
    assert_eq!(m.handle_event(&ModalEvent::Mouse), ModalEventResult::NotHandled);
    assert_eq!(
        m.handle_event(&ModalEvent::Key { key: EditKey::Escape, mods: keys(false) }),
        ModalEventResult::NotHandled
    );
    assert_eq!(m.suggestion.title, "y");
}

#[test]
fn mock_data_fills_goal_suggestion_and_log() {
    let mut s = AiSidebar::new(300, true);
    s.activity_log.push(chat("mine", "kept"));
    assert!(s.populate_mock_data());
    assert_eq!(s.agent_mode, AgentMode::Thinking);
    assert_eq!(s.current_goal.as_ref().unwrap().text(), SAMPLE_GOAL);
    let suggestion = s.current_suggestion.as_ref().unwrap();
    assert_eq!(suggestion.title, "Install missing dependency");
    assert_eq!(suggestion.content, SAMPLE_SUGGESTION);
    assert_eq!(suggestion.action_type.as_deref(), Some("run"));
    assert_eq!(s.activity_log.len(), 26);
    assert_eq!(get_item_text(&s.activity_log[0]), "kept");
    match &s.activity_log[1] {
        ActivityItem::Command { id, command, output, status, expanded, .. } => {
            assert_eq!(id, "cmd1");
            assert_eq!(command, "make (~/project)");
            assert_eq!(output.as_deref(), Some("Error: OpenSSL not found"));
            assert_eq!(*status, CommandStatus::Failed(1));
            assert!(*expanded);
        },
        _ => panic!("expected the failed build"),
    }
    match &s.activity_log[2] {
        ActivityItem::Chat { id, message, is_user, .. } => {
            assert_eq!(id, "chat1");
            assert_eq!(message, SAMPLE_QUESTION);
            assert!(*is_user);
        },
        _ => panic!("expected the question"),
    }
    // the first of the twenty short items is a successful command
    match &s.activity_log[6] {
        ActivityItem::Command { id, command, output, status, expanded, .. } => {
            assert_eq!(id, "cmd10");
            assert_eq!(command, "test command 0");
            assert_eq!(output.as_deref(), Some("Output for command 0"));
            assert_eq!(*status, CommandStatus::Success);
            assert!(!*expanded);
        },
        _ => panic!("expected a command"),
    }
    match &s.activity_log[7] {
        ActivityItem::Chat { id, message, is_user, .. } => {
            assert_eq!(id, "chat11");
            assert_eq!(message, "Test message 1 from AI");
            assert!(!*is_user);
        },
        _ => panic!("expected a message"),
    }
    match &s.activity_log[9] {
        ActivityItem::Command { id, status, .. } => {
            assert_eq!(id, "cmd13");
            assert_eq!(*status, CommandStatus::Failed(1));
        },
        _ => panic!("expected a command"),
    }
    match &s.activity_log[25] {
        ActivityItem::Chat { id, message, is_user, .. } => {
            assert_eq!(id, "chat29");
            assert_eq!(message, "Test message 19 from AI");
            assert!(!*is_user);
        },
        _ => panic!("expected a message"),
    }
}

#[test]
fn mock_data_at_dates_each_item() {
    let base = SystemTime::UNIX_EPOCH + Duration::from_secs(1_000_000);
    let stamps: Vec<Option<SystemTime>> =
        (0..25u64).map(|k| Some(base + Duration::from_secs(k))).collect();
    let mut s = AiSidebar::new(300, true);
    assert!(s.populate_mock_data_at(&stamps));
    assert_eq!(s.activity_log.len(), 25);
    for (k, item) in s.activity_log.iter().enumerate() {
        let t = match item {
            ActivityItem::Command { timestamp, .. } => *timestamp,
            ActivityItem::Chat { timestamp, .. } => *timestamp,
            _ => panic!("unexpected item"),
        };
        assert_eq!(t, base + Duration::from_secs(k as u64));
    }
}

#[test]
fn mock_data_at_needs_every_time() {
    let base = SystemTime::UNIX_EPOCH + Duration::from_secs(1_000_000);
    let mut stamps: Vec<Option<SystemTime>> = vec![Some(base); 25];
    stamps[7] = None;
    let mut s = AiSidebar::new(300, true);
    assert!(!s.populate_mock_data_at(&stamps));
    assert!(s.activity_log.is_empty());
    assert!(s.current_goal.is_none());
    assert_eq!(s.agent_mode, AgentMode::Idle);
    let short: Vec<Option<SystemTime>> = vec![Some(base); 24];
    assert!(!s.populate_mock_data_at(&short));
    assert!(s.current_suggestion.is_none());
}

#[test]
fn modal_entrance_timing() {
    assert!(modal_animation_complete(None, 20));
    assert!(!modal_animation_complete(Some(19), 20));
    assert!(modal_animation_complete(Some(20), 20));
    let mut t = ModalTiming::new();
    assert_eq!(t.duration_ms(), 20);
    assert!(t.start_time().is_none());
    assert!(t.is_complete());
    t.start_open();
    assert!(t.start_time().is_some());
    assert!(!t.is_complete());
    let wait = std::time::Instant::now();
    while wait.elapsed() < std::time::Duration::from_millis(25) {}
    assert!(t.is_complete());
    t.start_close();
    assert!(!t.is_complete());
}
