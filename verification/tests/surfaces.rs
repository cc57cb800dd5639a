//! The Observer and its manager: what they show and what keys do.

use herdr_tether::agent_view::AgentViewFilter;
use herdr_tether::capture::{
    bounded_capture_tail, capture_viewport, is_unsafe_format, sanitize_capture, sanitize_label,
    split_lines, MAX_CAPTURE_BYTES, MAX_CAPTURE_LINES,
};
use herdr_tether::clock::Timestamp;
use herdr_tether::manager_names::{
    bounded_label, candidate_label, label_for, next_group_identity, repository_name,
    safe_component, slug, viewport_metadata,
};
use herdr_tether::manager_view::{
    manager_drawings, manager_drawings_in, render_to_styles as manager_styles,
    render_to_text as manager_text, wrapped_line_count, ManagerDrawing,
};
use herdr_tether::model::{OrchestrationGroupId, OrchestrationTitle, SessionId};
use herdr_tether::observer::{
    action_for_key, workload_reference, AttentionReason, CaptureStatus, ObserverAction,
    ObserverAgentState, ObserverCapabilities, ObserverCapture, ObserverKey, ObserverLifecycle,
    ObserverOutcome, ObserverState, ObserverWorker, StaleReason, MAX_PROMPT_TARGETS, MAX_WORKERS,
};
use herdr_tether::observer_manager::{
    event_for_key, ObserverManagerAction, ObserverManagerEvent, ObserverManagerOutcome,
    ObserverManagerScreen, ObserverManagerState,
};
use herdr_tether::observer_runtime::{
    observer_turn, ObserverTurn, TerminalKey, TerminalKeyCode, TerminalKeyKind,
};
use herdr_tether::observer_view::{
    observer_drawings, render_to_styles, render_to_text, widest_that_fits, worker_rects, Area,
    Drawing,
};
use herdr_tether::paint::BOLD;
use herdr_tether::state::{
    OrchestrationCapabilities, OrchestrationGroup, OrchestrationMember, SessionRecord,
    SessionStatus, State,
};
use ratatui::text::Line;

fn id(tail: u8) -> SessionId {
    format!("tether-0197f1980000700080000000000000{tail:02}").parse().unwrap()
}

fn record(tail: u8, directory: &str) -> SessionRecord {
    let at = Timestamp { secs: 1_000 + i64::from(tail), nanos: 0 };
    SessionRecord {
        id: id(tail),
        host: "build".to_owned(),
        target: "build".to_owned(),
        directory: directory.to_owned(),
        preset: Some("agent".to_owned()),
        herdr_agent: None,
        command: Some("codex".to_owned()),
        tmux_session_id: Some(format!("${tail}").parse().unwrap()),
        ownership_proof: Some("0197f198000070008000000000000099".parse().unwrap()),
        status: SessionStatus::Running,
        created_at: at,
        last_used_at: at,
        closed_at: None,
        exit_status: None,
    }
}

fn state_of(sessions: Vec<SessionRecord>, groups: Vec<OrchestrationGroup>) -> State {
    State { version: State::CURRENT_VERSION, sessions, orchestration_groups: groups }
}

fn group() -> OrchestrationGroup {
    OrchestrationGroup {
        id: "observer-build-atlas".parse().unwrap(),
        title: "Observer build atlas".parse().unwrap(),
        orchestrator_session_id: id(1),
        workers: vec![OrchestrationMember {
            session_id: id(2),
            membership_id: "0197f198000070008000000000000012".parse().unwrap(),
            title: None,
            capabilities: OrchestrationCapabilities {
                observe_output: true,
                open_interactive: true,
                prompt_agent: false,
            },
        }],
    }
}

fn worker(name: &str) -> ObserverWorker {
    ObserverWorker {
        id: name.to_owned(),
        title: Some(format!("Worker {name}")),
        capabilities: ObserverCapabilities {
            observe_output: true,
            open_interactive: true,
            prompt_agent: true,
        },
        lifecycle: ObserverLifecycle::Running,
        agent_state: ObserverAgentState::Idle,
        live_agent: true,
        owned: true,
        last_observed: None,
        latency_ms: None,
        incarnation: Some("$1".parse().unwrap()),
        capture: None,
        sampled: false,
        stale_reason: None,
    }
}

fn key(code: TerminalKeyCode, kind: TerminalKeyKind) -> TerminalKey {
    TerminalKey { code, control: false, alt: false, kind }
}

#[test]
fn key_mapping_keeps_mutations_press_only() {
    for key in [
        key(TerminalKeyCode::Char(' '), TerminalKeyKind::Repeat),
        key(TerminalKeyCode::Char('d'), TerminalKeyKind::Repeat),
    ] {
        assert_eq!(event_for_key(key, ObserverManagerScreen::EditWorkers), None);
    }
}

#[test]
fn manager_label_truncation_preserves_extended_graphemes() {
    let cases = [
        ("adjacent flags", "🇺🇸", "🇨🇦xxxx"),
        ("keycap", "1\u{fe0f}\u{20e3}", "xxxx"),
        ("combining mark", "e\u{301}", "xxxx"),
        ("text variation selector", "❤\u{fe0e}", "xxxx"),
        ("emoji variation selector", "❤\u{fe0f}", "xxxx"),
        ("emoji ZWJ sequence", "👩\u{200d}💻", "xxxx"),
    ];

    for (name, cluster, tail) in cases {
        let prefix = "aaaaaaaa";
        let boundary = format!("{prefix}{cluster}");
        let max_width = Line::from(boundary.as_str()).width() + 1;
        assert_eq!(
            bounded_label(&format!("{boundary}{tail}"), max_width),
            format!("{boundary}…"),
            "{name}"
        );
    }
}

#[test]
fn keys_of_the_manager_ask_for_what_they_say() {
    let event = |code: TerminalKeyCode, screen: ObserverManagerScreen| {
        event_for_key(key(code, TerminalKeyKind::Press), screen)
    };
    let groups = ObserverManagerScreen::Groups;
    assert_eq!(event(TerminalKeyCode::Char('j'), groups), Some(ObserverManagerEvent::Next));
    assert_eq!(event(TerminalKeyCode::Char('N'), groups), Some(ObserverManagerEvent::Create));
    let question = ObserverManagerScreen::ConfirmDelete;
    assert_eq!(
        event(TerminalKeyCode::Char('y'), question),
        Some(ObserverManagerEvent::ConfirmDelete)
    );
    assert_eq!(event(TerminalKeyCode::Enter, question), None);
    let leave = TerminalKey {
        code: TerminalKeyCode::Char('c'),
        control: true,
        alt: false,
        kind: TerminalKeyKind::Press,
    };
    assert_eq!(event_for_key(leave, question), Some(ObserverManagerEvent::Back));
}

#[test]
fn held_keys_do_not_go_round() {
    let state = state_of(vec![record(1, "/a"), record(2, "/b")], vec![group()]);
    let mut manager = ObserverManagerState::from_state(&state, None);
    manager.handle(ObserverManagerEvent::Confirm);
    let last = manager.item_labels().len() - 1;
    let held = |manager: &mut ObserverManagerState, code: TerminalKeyCode| {
        let event = event_for_key(key(code, TerminalKeyKind::Repeat), manager.screen()).unwrap();
        assert_eq!(manager.handle(event), ObserverManagerOutcome::Continue);
        manager.selected_index()
    };
    assert_eq!(held(&mut manager, TerminalKeyCode::Up), 0);
    assert_eq!(held(&mut manager, TerminalKeyCode::Char('k')), 0);
    for row in 1..=last {
        assert_eq!(held(&mut manager, TerminalKeyCode::Down), row);
    }
    assert_eq!(held(&mut manager, TerminalKeyCode::Down), last);
    assert_eq!(held(&mut manager, TerminalKeyCode::Tab), last);
    assert_eq!(held(&mut manager, TerminalKeyCode::BackTab), last - 1);
    manager.handle(ObserverManagerEvent::Next);
    manager.handle(ObserverManagerEvent::Next);
    assert_eq!(manager.selected_index(), 0, "a key that is pressed goes round");
    manager.handle(ObserverManagerEvent::Previous);
    assert_eq!(manager.selected_index(), last);
}

#[test]
fn the_sidebar_shows_a_group_or_is_shown_as_usual() {
    let state = state_of(vec![record(1, "/a"), record(2, "/b")], vec![group()]);
    let chosen = |row: &str| {
        let mut manager = ObserverManagerState::from_state(&state, None);
        manager.handle(ObserverManagerEvent::Confirm);
        let at = manager.item_labels().iter().position(|label| label == row).unwrap();
        for _ in 0..at {
            manager.handle(ObserverManagerEvent::Next);
        }
        manager.handle(ObserverManagerEvent::Confirm)
    };
    assert_eq!(
        chosen("Show group in Agents sidebar"),
        ObserverManagerOutcome::Action(ObserverManagerAction::SetAgentView {
            group_id: group().id,
            filter: AgentViewFilter::All,
        })
    );
    assert_eq!(
        chosen("Restore default Agents sidebar"),
        ObserverManagerOutcome::Action(ObserverManagerAction::ClearAgentView)
    );
    assert_eq!(
        chosen("Open Observer"),
        ObserverManagerOutcome::Action(ObserverManagerAction::Launch { group_id: group().id })
    );
}

#[test]
fn a_group_is_created_behind_its_review() {
    let state = state_of(vec![record(1, "/srv/atlas"), record(2, "/srv/atlas")], Vec::new());
    let mut manager = ObserverManagerState::from_state(&state, None);
    assert_eq!(manager.screen(), ObserverManagerScreen::Groups);
    assert_eq!(manager.handle(ObserverManagerEvent::Create), ObserverManagerOutcome::Continue);
    assert_eq!(manager.screen(), ObserverManagerScreen::CreateOrchestrator);
    manager.handle(ObserverManagerEvent::Confirm);
    assert_eq!(manager.screen(), ObserverManagerScreen::CreateWorkers);
    manager.handle(ObserverManagerEvent::Toggle);
    manager.handle(ObserverManagerEvent::Confirm);
    assert_eq!(manager.screen(), ObserverManagerScreen::ReviewTopology);
    match manager.handle(ObserverManagerEvent::Confirm) {
        ObserverManagerOutcome::Action(ObserverManagerAction::Create {
            id: group_id,
            title,
            orchestrator_session_id,
            workers,
        }) => {
            assert_eq!(group_id.as_str(), "observer-build-atlas");
            assert_eq!(title.as_str(), "Observer build atlas");
            assert_eq!(orchestrator_session_id, id(2), "the one that was used last comes first");
            assert_eq!(workers.len(), 1);
            assert_eq!(workers[0].session_id, id(1));
        }
        other => panic!("{other:?}"),
    }
}

#[test]
fn a_group_is_deleted_only_behind_its_question() {
    let state = state_of(vec![record(1, "/a"), record(2, "/b")], vec![group()]);
    let mut manager = ObserverManagerState::from_state(&state, Some("hello".to_owned()));
    assert!(!manager.item_labels().is_empty());
    manager.handle(ObserverManagerEvent::Confirm);
    assert_eq!(manager.screen(), ObserverManagerScreen::GroupActions);
    manager.handle(ObserverManagerEvent::Delete);
    assert_eq!(manager.screen(), ObserverManagerScreen::ConfirmDelete);
    assert_eq!(
        manager.handle(ObserverManagerEvent::DismissDelete),
        ObserverManagerOutcome::Continue
    );
    manager.handle(ObserverManagerEvent::Delete);
    assert_eq!(
        manager.handle(ObserverManagerEvent::ConfirmDelete),
        ObserverManagerOutcome::Action(ObserverManagerAction::Delete { expected_group: group() })
    );
}

/// Everything that is drawn of a manager, as one text.
fn drawn(manager: &ObserverManagerState, width: u16, height: u16) -> String {
    let mut text = String::new();
    for drawing in manager_drawings(Area { x: 0, y: 0, width, height }, manager) {
        match drawing {
            ManagerDrawing::Background { .. } => {}
            ManagerDrawing::Message { text: line, .. }
            | ManagerDrawing::Panel { title: line, .. }
            | ManagerDrawing::Wrapped { text: line, .. }
            | ManagerDrawing::Line { text: line, .. } => text.push_str(&line),
            ManagerDrawing::List { rows, .. } => {
                for row in rows {
                    text.push_str(&row.marker);
                    text.push_str(&row.label);
                    text.push('\n');
                }
            }
        }
        text.push('\n');
    }
    text
}

#[test]
fn the_parts_of_the_panel_stand_below_each_other() {
    let state = state_of(vec![record(1, "/a"), record(2, "/b")], vec![group()]);
    let mut manager = ObserverManagerState::from_state(&state, None);
    manager.handle(ObserverManagerEvent::Confirm);
    let area = Area { x: 0, y: 0, width: 100, height: 40 };
    let context = wrapped_line_count(&manager.context_text().unwrap(), 68);
    let footer = wrapped_line_count(&manager.footer_text(), 68);
    let height = 6 + context + footer + 4;
    let top = (40 - height) / 2 + 1;
    let part = |y: u16, height: u16| Area { x: 15, y, width: 70, height };
    let parts = vec![
        part(top, context),
        part(top + context, height - 2 - context - footer),
        part(top + height - 2 - footer, footer),
    ];
    let list =
        vec![part(top + context, 1), part(top + context + 1, height - 3 - context - footer)];
    assert_eq!(
        manager_drawings(area, &manager),
        manager_drawings_in(area, &manager, &parts, &list)
    );
}

#[test]
fn the_manager_shows_its_groups_and_its_notice() {
    let state = state_of(vec![record(1, "/a"), record(2, "/b")], vec![group()]);
    let manager = ObserverManagerState::from_state(&state, Some("Created it".to_owned()));
    let shown = drawn(&manager, 100, 24);
    assert!(shown.contains("Observer build atlas"), "{shown}");
    assert!(shown.contains("Created it"), "{shown}");
    assert!(shown.contains(manager.frame_title()), "{shown}");
    let areas = manager_drawings(Area { x: 3, y: 4, width: 60, height: 20 }, &manager);
    for drawing in areas {
        let area = match drawing {
            ManagerDrawing::Background { area }
            | ManagerDrawing::Message { area, .. }
            | ManagerDrawing::Panel { area, .. }
            | ManagerDrawing::Wrapped { area, .. }
            | ManagerDrawing::Line { area, .. }
            | ManagerDrawing::List { area, .. } => area,
        };
        assert!(area.x >= 3 && area.y >= 4);
        assert!(area.x + area.width <= 63 && area.y + area.height <= 24);
    }
}

#[test]
fn texts_take_the_rows_that_they_need() {
    assert_eq!(wrapped_line_count("", 10), 1);
    assert_eq!(wrapped_line_count("0123456789", 10), 1);
    assert_eq!(wrapped_line_count("0123456789a", 10), 2);
    assert_eq!(wrapped_line_count("a\n\nb", 10), 3);
    assert_eq!(wrapped_line_count("日本語", 2), 3);
    for text in ["a b", "x\r\ny", "é\u{301}", "👩\u{200d}💻 z"] {
        let expected: usize =
            text.lines().map(|line| Line::from(line).width().max(1).div_ceil(3)).sum();
        assert_eq!(usize::from(wrapped_line_count(text, 3)), expected.max(1), "{text:?}");
    }
}

#[test]
fn names_of_groups_are_safe_and_free() {
    let (group_id, title) =
        next_group_identity("build", "atlas", &vec!["observer-build-atlas".to_owned()]);
    assert_eq!(group_id.as_str(), "observer-build-atlas-2");
    assert_eq!(title.as_str(), "Observer build atlas 2");
    assert!(safe_component("a\u{202e}b\n", 32).parse::<OrchestrationTitle>().is_ok());
    assert!(format!("x-{}", slug("Ünï cödé!", 32)).parse::<OrchestrationGroupId>().is_ok());
    assert_eq!(slug("Build Atlas", 32), "build-atlas");
    assert_eq!(repository_name("/srv/atlas/"), "atlas");
}

#[test]
fn workloads_of_one_name_are_told_apart() {
    let records = vec![record(1, "/srv/atlas"), record(2, "/srv/atlas"), record(3, "/srv/other")];
    let first = label_for(&records, &records[0]);
    let second = label_for(&records, &records[1]);
    assert_ne!(first, second);
    assert!(first.starts_with(&candidate_label(&records[0])));
    assert_eq!(label_for(&records, &records[2]), candidate_label(&records[2]));
}

#[test]
fn the_selected_row_is_in_view() {
    for len in 1..12 {
        for selected in 0..len {
            for rows in 1..6 {
                let (start, _) = viewport_metadata(selected, len, rows);
                assert!(start <= selected && selected < start + rows);
            }
        }
    }
}

#[test]
fn navigation_moves_the_selection_and_nothing_else() {
    let mut observer = ObserverState::new((0..6).map(|n| worker(&n.to_string())).collect());
    assert_eq!(observer.selected_id(), Some("0"));
    assert_eq!(observer.page_count(), 2);
    observer.apply(ObserverAction::NextPage);
    assert_eq!(observer.page(), 1);
    assert_eq!(observer.visible_workers().len(), 2);
    observer.apply(ObserverAction::PreviousPage);
    observer.apply(ObserverAction::NextWorker);
    assert_eq!(observer.selected_id(), Some("1"));
    assert_eq!(observer.workers().len(), 6);
    assert_eq!(action_for_key(ObserverKey::Char('q')), Some(ObserverAction::Quit));
    assert_eq!(
        observer_turn(&mut observer, ObserverAction::OpenSelected),
        ObserverTurn::Open { worker_id: "1".to_owned() }
    );
    assert_eq!(observer_turn(&mut observer, ObserverAction::Quit), ObserverTurn::Quit);
    observer.set_notice(Some("Could not refresh".to_owned()));
    assert_eq!(
        observer_turn(&mut observer, ObserverAction::TogglePromptTarget),
        ObserverTurn::Wait
    );
    assert_eq!(observer.notice(), None, "an action that asks for nothing clears the notice");
}

#[test]
fn a_truncated_capture_is_kept_when_workers_are_read_again() {
    let mut observer = ObserverState::new(vec![worker("a")]);
    assert!(observer.merge_capture("a", ObserverCapture::Truncated("out".to_owned())));
    assert_eq!(observer.capture_status("a"), CaptureStatus::Truncated);
    observer.update_workers(vec![worker("a")]);
    assert_eq!(observer.workers()[0].capture.as_deref(), Some("out"));
    assert_eq!(observer.capture_status("a"), CaptureStatus::Truncated);
    let sample = ObserverCapture::Preview { text: "row".to_owned(), truncated: true };
    assert!(observer.merge_capture("a", sample));
    assert!(observer.workers()[0].sampled);
    observer.update_workers(vec![worker("a")]);
    assert_eq!(observer.workers()[0].capture.as_deref(), Some("row"));
    assert!(observer.workers()[0].sampled);
}

#[test]
fn workers_are_bounded_and_each_is_shown_once() {
    let mut many: Vec<ObserverWorker> = (0..MAX_WORKERS + 5).map(|n| worker(&n.to_string())).collect();
    many.push(worker("0"));
    let observer = ObserverState::new(many);
    assert_eq!(observer.workers().len(), MAX_WORKERS);
}

#[test]
fn prompts_go_to_the_chosen_few() {
    let mut observer = ObserverState::new((0..12).map(|n| worker(&n.to_string())).collect());
    for _ in 0..12 {
        observer.apply(ObserverAction::TogglePromptTarget);
        observer.apply(ObserverAction::NextWorker);
    }
    assert_eq!(observer.prompt_target_ids().len(), MAX_PROMPT_TARGETS);
    match observer.apply(ObserverAction::ComposePrompt) {
        ObserverOutcome::ComposePrompt { worker_ids } => {
            assert_eq!(worker_ids, observer.prompt_target_ids());
        }
        other => panic!("{other:?}"),
    }
}

#[test]
fn news_are_told_once() {
    let mut observer = ObserverState::new(vec![worker("a")]);
    let blocked = || {
        let mut worker = worker("a");
        worker.agent_state = ObserverAgentState::Blocked;
        worker
    };
    let news = observer.update_workers(vec![blocked()]);
    assert_eq!(news.len(), 1);
    assert_eq!(news[0].reason, AttentionReason::Agent(ObserverAgentState::Blocked));
    assert!(observer.update_workers(vec![blocked()]).is_empty());
    let failed = |identity: &str| {
        let mut worker = worker("a");
        worker.lifecycle = ObserverLifecycle::Failed { exit_status: 2 };
        worker.incarnation = Some(identity.parse().unwrap());
        worker
    };
    let news = observer.update_workers(vec![failed("$1")]);
    assert_eq!(news[0].reason, AttentionReason::Failed { exit_status: 2 });
    assert!(observer.update_workers(vec![failed("$1")]).is_empty());
    assert_eq!(observer.update_workers(vec![failed("$2")]).len(), 1);
}

#[test]
fn what_was_shown_is_dated_when_it_is_lost() {
    let mut observer = ObserverState::new(vec![worker("a")]);
    assert!(observer.merge_capture("a", ObserverCapture::Ready("out\u{1b}[31m".to_owned())));
    assert_eq!(observer.workers()[0].capture.as_deref(), Some("out"));
    assert_eq!(observer.capture_status("a"), CaptureStatus::Ready);
    observer.set_connection_observation("a", 12, Some("12:00".to_owned()));
    observer.merge_capture("a", ObserverCapture::Unavailable);
    assert_eq!(observer.capture_status("a"), CaptureStatus::Stale);
    assert_eq!(observer.workers()[0].stale_reason, Some(StaleReason::Retained));
    assert!(!observer.merge_capture("nobody", ObserverCapture::Loading));
}

#[test]
fn captures_are_plain_and_bounded() {
    assert_eq!(sanitize_capture("a\u{1b}]0;title\u{7}b\u{1b}[2Jc"), "abc");
    assert_eq!(sanitize_capture("one\r\ntwo"), "one\ntwo");
    for text in ["a\u{1b}[31mb\tc", "🇳🇱🇩🇪🇫🇷", "👩\u{200d}💻e\u{301}", "क्षि\r\n"] {
        let shown = sanitize_capture(&text.repeat(3_000));
        assert_eq!(sanitize_capture(&shown), shown, "{text:?}");
    }
    let long = "line\n".repeat(MAX_CAPTURE_LINES * 2);
    assert!(split_lines(&sanitize_capture(&long)).len() <= MAX_CAPTURE_LINES + 1);
    assert!(bounded_capture_tail(&"x".repeat(MAX_CAPTURE_BYTES * 2)).len() <= MAX_CAPTURE_BYTES);
    assert!(is_unsafe_format('\u{202e}') && !is_unsafe_format('a'));
    let label = sanitize_label("a\nb\u{202e}c日本", 4);
    assert!(Line::from(label.as_str()).width() <= 4, "{label}");
    let viewport = capture_viewport("one\ntwo\nthree", 3, 2);
    assert_eq!(viewport, "thr\nee");
}

#[test]
fn tiles_share_the_canvas_and_stay_on_it() {
    for count in 1..=4 {
        let canvas = Area { x: 2, y: 1, width: 81, height: 25 };
        let rects = worker_rects(canvas, count);
        assert_eq!(rects.len(), count);
        let cells: u32 =
            rects.iter().map(|rect| u32::from(rect.width) * u32::from(rect.height)).sum();
        let corner = if count == 3 { 41 * 13 } else { 0 };
        assert_eq!(cells + corner, 81 * 25);
        for rect in &rects {
            assert!(rect.x >= 2 && rect.x + rect.width <= 83);
            assert!(rect.y >= 1 && rect.y + rect.height <= 26);
        }
    }
    let candidates = vec!["a long footer".to_owned(), "short".to_owned()];
    assert_eq!(widest_that_fits(6, &candidates), "short");
    assert_eq!(widest_that_fits(60, &candidates), "a long footer");
}

#[test]
fn the_selected_tile_is_marked() {
    let observer = ObserverState::new(vec![worker("a"), worker("b")]);
    let drawings = observer_drawings(Area { x: 0, y: 0, width: 100, height: 30 }, &observer);
    let tiles: Vec<bool> = drawings
        .iter()
        .filter_map(|drawing| match drawing {
            Drawing::Tile { selected, .. } => Some(*selected),
            _ => None,
        })
        .collect();
    assert_eq!(tiles, [true, false]);
    assert!(observer_drawings(Area { x: 0, y: 0, width: 0, height: 0 }, &observer).len() <= 1);
}

#[test]
fn references_say_which_workload_and_nothing_of_it() {
    let reference = workload_reference(&id(7).to_string());
    assert!(!reference.contains("tether-"));
    assert!(!reference.is_empty());
    assert_ne!(reference, workload_reference(&id(8).to_string()));
}

#[test]
fn test_renderer_exposes_only_terminal_default_colors() {
    let observer = ObserverState::new(Vec::new());
    let styles = render_to_styles(12, 3, &observer);
    assert_eq!(styles.len(), 36);
    assert!(styles
        .iter()
        .all(|style| style.foreground == "Reset" && style.background == "Reset"));
}

#[test]
fn manager_chrome_uses_terminal_default_colors_with_bold_selection() {
    let manager = ObserverManagerState::from_state(&state_of(Vec::new(), Vec::new()), None);
    let styles = manager_styles(60, 12, &manager);
    assert!(styles
        .iter()
        .all(|style| style.foreground == "Reset" && style.background == "Reset"));
    assert!(styles.iter().any(|style| style.modifiers & BOLD != 0));
}

#[test]
fn surfaces_are_painted_cell_by_cell() {
    let observer = ObserverState::new(Vec::new());
    let shown = render_to_text(40, 6, &observer);
    let lines: Vec<&str> = shown.split('\n').collect();
    assert_eq!(lines.len(), 6);
    assert!(lines.iter().all(|line| line.chars().count() == 40));
    assert_eq!(lines[0].trim_end(), "Observer  0 workers");
    assert_eq!(lines[1].trim_end(), "No workers registered");
    assert_eq!(lines[2].trim_end(), "Press r to refresh");
    assert_eq!(render_to_text(0, 6, &observer), "");
    assert_eq!(render_to_text(40, 0, &observer), "");
    assert!(render_to_styles(0, 6, &observer).is_empty());

    let observer = ObserverState::new(vec![worker("a"), worker("b")]);
    let shown = render_to_text(100, 12, &observer);
    assert!(shown.contains('┌') && shown.contains('┘'), "{shown}");
    assert!(render_to_styles(100, 12, &observer).iter().any(|style| style.modifiers == BOLD));
}

#[test]
fn the_manager_is_painted_in_its_panel() {
    let state = state_of(vec![record(1, "/a"), record(2, "/b")], vec![group()]);
    let manager = ObserverManagerState::from_state(&state, Some("Created it".to_owned()));
    let shown = manager_text(80, 20, &manager);
    assert_eq!(shown.split('\n').count(), 20);
    assert!(shown.contains("> Observer build atlas"), "{shown}");
    assert!(shown.contains(" Tether · "), "{shown}");
    assert!(manager_text(39, 20, &manager).contains("Resize terminal"));
    assert_eq!(manager_text(80, 0, &manager), "");
}

#[test]
fn workers_of_one_title_are_told_apart() {
    let named = |tail: u8| ObserverWorker {
        title: Some("Build".to_owned()),
        ..worker(&id(tail).to_string())
    };
    let observer = ObserverState::new(vec![named(1), named(2), worker("c")]);
    let titles: Vec<String> =
        observer.workers().iter().map(|worker| observer.worker_display_title(worker)).collect();
    assert!(titles[0].starts_with("Build · "), "{titles:?}");
    assert_ne!(titles[0], titles[1]);
    assert_eq!(titles[2], "Worker c");
}

#[test]
fn pages_are_short_and_follow_the_selection() {
    let mut observer =
        ObserverState::new((0..6).map(|index: u8| worker(&index.to_string())).collect());
    assert_eq!((observer.page(), observer.page_count()), (0, 2));
    assert_eq!(observer.visible_workers().len(), 4);
    for _ in 0..9 {
        observer.apply(ObserverAction::NextWorker);
    }
    assert_eq!(observer.selected_id(), Some("5"));
    assert_eq!(observer.page(), 1);
    assert_eq!(observer.visible_workers().len(), 2);
    for _ in 0..9 {
        observer.apply(ObserverAction::PreviousWorker);
    }
    assert_eq!(observer.selected_id(), Some("0"));
}

#[test]
fn a_group_without_workers_offers_refresh_and_back() {
    let observer = ObserverState::new(Vec::new());
    for (key, offered) in [
        (ObserverKey::Char('r'), Some(ObserverAction::Refresh)),
        (ObserverKey::Escape, Some(ObserverAction::Quit)),
        (ObserverKey::Enter, None),
        (ObserverKey::Down, None),
        (ObserverKey::Char('p'), None),
    ] {
        assert_eq!(observer.action_for_key(key), offered);
    }
}
