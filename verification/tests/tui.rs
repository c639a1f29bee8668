use tunnel_deck::application::hosts::{HostCatalog, HostError, ProcessOutput};
use tunnel_deck::application::import::{preview_effective_forwards, ImportPreview};
use tunnel_deck::cli::ForwardKind;
use tunnel_deck::config::{LogLevel, Rule as WireRule, Settings, Theme};
use tunnel_deck::tui::answers::{
    browser_opened, form_probed, hosts_refreshed, import_with, imported, open_import, refreshed,
    rule_added, rule_removed, rule_switched, saved_started, settings_saved, submit_form,
};
use tunnel_deck::tui::form::{first_free, port_candidates, Form, Probe};
use tunnel_deck::tui::keys::{handle_import_key, handle_key, handle_key_with, Action, Key, KeyCode};
use tunnel_deck::tui::mouse::{
    centered, handle_mouse, handle_mouse_in, import_sections, list_offset, screen_areas,
    tab_titles, Area, Mouse, MouseKind,
};
use tunnel_deck::tui::state::{
    loaded_rules, rule_snapshots, App, ImportPanel, Page, StatusEntry,
};
use tunnel_deck::tui::view::{
    candidate_lines, candidate_text, dashboard_rows, dashboard_title, detail_text, footer_text,
    form_lines, form_title, help_text, hint_for, host_items, import_scroll, page_hint,
    panel_controls, panel_error, settings_text, suggestion_line, tab_index,
};
use tunnel_deck::tui::RuleView;

const LOOPBACK: &str = "127.0.0.1";

fn import_preview() -> ImportPreview {
    preview_effective_forwards(
        "dev",
        b"localforward 127.0.0.1:3000 127.0.0.1:30\nremoteforward 127.0.0.1:4000 127.0.0.1:40\ndynamicforward 127.0.0.1:1080\nlocalforward 127.0.0.1:3000 127.0.0.1:30\nlocalforward 127.0.0.1:3000 127.0.0.1:31\nremoteforward 9000\n",
        &[],
        &[],
    )
    .unwrap()
}

fn key(code: KeyCode) -> Key {
    Key { code, control: false }
}

fn press(app: &mut App, code: KeyCode) -> Action {
    handle_key(app, key(code))
}

fn quiet(action: Action) {
    assert!(matches!(action, Action::Nothing), "{action:?}");
}

fn mouse(kind: MouseKind, column: u16, row: u16) -> Mouse {
    Mouse { kind, column, row }
}

fn screen(width: u16, height: u16) -> Area {
    Area { x: 0, y: 0, width, height }
}

fn rule_view(id: u128, name: &str) -> RuleView {
    RuleView {
        id,
        name: name.to_owned(),
        host: "dev".to_owned(),
        bind_address: LOOPBACK.to_owned(),
        bind_port: 3000,
        destination_port: Some(3000),
        destination_host: Some(LOOPBACK.to_owned()),
        state: "stopped".to_owned(),
        kind: ForwardKind::Local,
        auto_start: false,
        reconnect: false,
        uptime_seconds: 0,
        reconnect_count: 0,
        last_error: None,
    }
}

fn squeezed(text: &str) -> String {
    text.replace(' ', "")
}

#[test]
fn new_hosts_escape_returns_to_origin_after_closing_overlays_without_mutation() {
    let mut app = App {
        hosts: vec!["dev".to_owned()],
        rules: vec![rule_view(1, "web")],
        ..App::default()
    };
    quiet(press(&mut app, KeyCode::Char('n')));
    assert_eq!(app.page, Page::Hosts);
    assert_eq!(app.hosts_return, Some(Page::Dashboard));
    quiet(press(&mut app, KeyCode::Enter));
    assert!(app.form.is_some());
    quiet(press(&mut app, KeyCode::Esc));
    assert!(app.form.is_none());
    assert_eq!(app.page, Page::Hosts);
    app.import = Some(ImportPanel::preview(import_preview()));
    quiet(press(&mut app, KeyCode::Esc));
    assert!(app.import.is_none());
    assert_eq!(app.page, Page::Hosts);
    quiet(press(&mut app, KeyCode::Esc));
    assert_eq!(app.page, Page::Dashboard);
    assert_eq!(app.hosts_return, None);

    app.show_page(Page::Detail);
    quiet(press(&mut app, KeyCode::Char('n')));
    quiet(press(&mut app, KeyCode::Char('n')));
    quiet(press(&mut app, KeyCode::Esc));
    assert_eq!(app.page, Page::Detail);
}

#[test]
fn leaving_hosts_by_tab_clears_the_escape_destination() {
    let mut app = App::default();
    quiet(press(&mut app, KeyCode::Char('n')));
    quiet(press(&mut app, KeyCode::Tab));
    assert_eq!(app.hosts_return, None);
    app.show_page(Page::Hosts);
    quiet(press(&mut app, KeyCode::Esc));
    assert_eq!(app.page, Page::Hosts);
}

#[test]
fn dashboard_hosts_and_help_show_discoverable_keys_at_normal_and_narrow_widths() {
    let mut app = App::default();
    for width in [80, 42] {
        let screen = squeezed(&footer_text(&app, width));
        assert!(screen.contains("n:新規"), "{width}: {screen}");
        assert!(screen.contains("Enter:詳細"), "{width}: {screen}");
        assert!(screen.contains("?:ヘルプ"), "{width}: {screen}");
    }
    app.show_page(Page::Hosts);
    let screen = squeezed(&footer_text(&app, 42));
    assert!(screen.contains("Tab:切替"), "{screen}");
    assert!(!screen.contains("Esc:戻る"), "{screen}");
    app.hosts_return = Some(Page::Dashboard);
    for width in [80, 42] {
        let screen = squeezed(&footer_text(&app, width));
        assert!(screen.contains("Enter:新規"), "{width}: {screen}");
        assert!(screen.contains("Esc:戻る"), "{width}: {screen}");
        assert!(screen.contains("?:ヘルプ"), "{width}: {screen}");
    }
    quiet(press(&mut app, KeyCode::Char('?')));
    assert_eq!(app.page, Page::Help);
    assert!(squeezed(help_text()).contains("Escnから開いたホスト一覧から戻る"));
}

#[test]
fn renders_normal_narrow_short_and_empty_states() {
    let app = App::default();
    for (width, height) in [(100, 30), (41, 30), (100, 9), (42, 10)] {
        let areas = screen_areas(screen(width, height));
        assert_eq!(areas.is_some(), width >= 42 && height >= 10);
        if let Some((_, content, footer)) = areas {
            assert!(dashboard_rows(&app, content.height).is_empty());
            assert_eq!(dashboard_title(&app), "転送 0件 / 稼働 0件");
            assert!(footer_text(&app, footer.width).ends_with(&app.message));
        }
    }
}

#[test]
fn a_hint_is_long_where_it_fits_and_short_elsewhere() {
    let app = App::default();
    assert!(page_hint(&app, 80).contains("↑/↓"));
    assert!(!page_hint(&app, 30).contains("↑/↓"));
    let full = page_hint(&app, 80);
    let columns = ratatui::text::Line::from(full).width();
    assert!(columns > full.chars().count());
    assert_eq!(page_hint(&app, columns as u16), full);
    assert_ne!(page_hint(&app, columns as u16 - 1), full);
    assert_eq!(hint_for(Page::Dashboard, false, 10, 10), full);
    assert_ne!(hint_for(Page::Dashboard, false, 11, 10), full);
    assert_eq!(hint_for(Page::Settings, false, 0, 10), "");
}

#[test]
fn mouse_tabs_select_pages_and_ignore_borders_and_popup() {
    let mut app = App::default();
    let size = screen(80, 20);
    handle_mouse(&mut app, mouse(MouseKind::LeftDown, 19, 1), size);
    assert_eq!(app.page, Page::Hosts);
    handle_mouse(&mut app, mouse(MouseKind::LeftDown, 0, 1), size);
    assert_eq!(app.page, Page::Hosts);
    app.form = Some(Form::new("dev".to_owned()));
    handle_mouse(&mut app, mouse(MouseKind::LeftDown, 3, 1), size);
    assert_eq!(app.page, Page::Hosts);
    app.form = None;
    handle_mouse(&mut app, mouse(MouseKind::LeftDown, 3, 1), screen(41, 20));
    assert_eq!(app.page, Page::Hosts);
}

#[test]
fn tabs_are_found_by_the_width_of_their_titles() {
    let tabs = Area { x: 0, y: 0, width: 30, height: 3 };
    let content = Area { x: 0, y: 3, width: 30, height: 10 };
    let widths = vec![2, 4, 1, 1, 1];
    let page_at = |column| {
        let mut app = App { page: Page::Help, ..App::default() };
        handle_mouse_in(&mut app, mouse(MouseKind::LeftDown, column, 1), tabs, content, &widths);
        app.page
    };
    let expected = [
        (0, Page::Help),
        (1, Page::Dashboard),
        (5, Page::Dashboard),
        (6, Page::Hosts),
        (12, Page::Hosts),
        (13, Page::Detail),
        (16, Page::Detail),
        (17, Page::Settings),
        (20, Page::Settings),
        (21, Page::Help),
        (28, Page::Help),
    ];
    for (column, page) in expected {
        assert_eq!(page_at(column), page, "{column}");
    }
    assert_eq!(tab_titles().len(), 5);
    for (index, page) in
        [Page::Dashboard, Page::Hosts, Page::Detail, Page::Settings, Page::Help].into_iter().enumerate()
    {
        assert_eq!(tab_index(page), index);
    }
}

#[test]
fn mouse_rows_only_select_and_wheel_moves_visible_selection() {
    let mut app = App::default();
    app.replace_rules((0..20).map(|i| rule_view(100 + i, "web")).collect());
    app.hosts = (0..20).map(|i| format!("host-{i}")).collect();
    let size = screen(80, 12);
    handle_mouse(&mut app, mouse(MouseKind::LeftDown, 5, 6), size);
    assert_eq!(app.selected_rule, 1);
    assert_eq!(app.selected_id, Some(app.rules[1].id));
    assert!(app.form.is_none() && app.confirm_delete.is_none() && !app.quit);
    for _ in 0..10 {
        handle_mouse(&mut app, mouse(MouseKind::ScrollDown, 5, 5), size);
    }
    assert_eq!(app.selected_rule, 11);
    let offset = list_offset(app.selected_rule, 4, app.rule_offset);
    handle_mouse(&mut app, mouse(MouseKind::LeftDown, 5, 5), size);
    assert_eq!(app.selected_rule, offset);
    assert_eq!(app.rule_offset, offset, "click must preserve the viewport");
    assert_eq!(list_offset(app.selected_rule, 4, app.rule_offset), offset);
    handle_mouse(&mut app, mouse(MouseKind::LeftDown, 5, 4), size);
    assert_eq!(app.selected_rule, offset);
    app.page = Page::Hosts;
    handle_mouse(&mut app, mouse(MouseKind::LeftDown, 5, 6), size);
    assert_eq!(app.selected_host, 2);
    handle_mouse(&mut app, mouse(MouseKind::ScrollUp, 5, 5), size);
    assert_eq!(app.selected_host, 1);
    assert!(app.form.is_none() && app.confirm_delete.is_none());
}

#[test]
fn mouse_ignores_empty_rows_and_scroll_keeps_selection_visible_after_resize() {
    let mut app = App::default();
    let size = screen(42, 10);
    handle_mouse(&mut app, mouse(MouseKind::LeftDown, 2, 5), size);
    assert!(app.selected_id.is_none());
    app.hosts = (0..20).map(|i| format!("host-{i}")).collect();
    app.page = Page::Hosts;
    for _ in 0..19 {
        handle_mouse(&mut app, mouse(MouseKind::ScrollDown, 2, 4), size);
    }
    assert_eq!(app.selected_host, 19);
    let (_, content, _) = screen_areas(size).unwrap();
    let shown: Vec<String> =
        host_items(&app, content.height).into_iter().take(content.height as usize - 2).collect();
    assert!(
        shown.contains(&"> host-19".to_owned()),
        "selected host is hidden: {shown:?}"
    );
    handle_mouse(&mut app, mouse(MouseKind::LeftDown, 2, 8), size);
    assert_eq!(app.selected_host, 19, "footer click must be ignored");
}

#[test]
fn host_refresh_clamps_selection_and_viewport() {
    let mut app = App {
        hosts: (0..20).map(|i| format!("host-{i}")).collect(),
        selected_host: 19,
        host_offset: 16,
        ..App::default()
    };
    app.replace_hosts(vec!["remaining".to_owned()]);
    assert_eq!(app.selected_host, 0);
    assert_eq!(app.host_offset, 0);
    assert_eq!(list_offset(app.selected_host, 4, app.host_offset), 0);
    app.replace_hosts(Vec::new());
    assert_eq!(app.selected_host, 0);
    assert_eq!(app.host_offset, 0);
}

fn import_press(app: &mut App, code: KeyCode) -> Action {
    handle_import_key(app, key(code))
}

#[test]
fn import_saves_only_explicit_supported_selection_after_confirmation_without_starting() {
    let mut app =
        App { import: Some(ImportPanel::preview(import_preview())), ..App::default() };
    quiet(import_press(&mut app, KeyCode::Char(' ')));
    quiet(import_press(&mut app, KeyCode::Down));
    quiet(import_press(&mut app, KeyCode::Down));
    quiet(import_press(&mut app, KeyCode::Char(' ')));
    quiet(import_press(&mut app, KeyCode::Enter));
    assert!(matches!(
        import_press(&mut app, KeyCode::Enter),
        Action::LoadImportSettings
    ));
    let rules = match import_with(&mut app, Ok(Settings::default())) {
        Action::ImportRules { rules } => rules,
        other => panic!("{other:?}"),
    };
    assert_eq!(rules.len(), 2);
    assert!(matches!(rules[0], WireRule::Local { .. }));
    assert!(matches!(rules[1], WireRule::Dynamic { .. }));
    assert!(matches!(imported(&mut app, Ok(())), Action::Refresh));
    assert!(app.import.is_none());
    assert_eq!(app.message, "選択した 2 件を保存しました（未起動）");
}

#[test]
fn import_cancel_and_save_failure_leave_the_preview_without_other_mutations() {
    let mut app =
        App { import: Some(ImportPanel::preview(import_preview())), ..App::default() };
    quiet(import_press(&mut app, KeyCode::Esc));
    assert!(app.import.is_none());

    app.import = Some(ImportPanel::preview(import_preview()));
    quiet(import_press(&mut app, KeyCode::Char(' ')));
    quiet(import_press(&mut app, KeyCode::Enter));
    assert!(matches!(
        import_press(&mut app, KeyCode::Enter),
        Action::LoadImportSettings
    ));
    assert!(matches!(
        import_with(&mut app, Ok(Settings::default())),
        Action::ImportRules { .. }
    ));
    quiet(imported(&mut app, Err("save failed".to_owned())));
    let panel = app.import.as_ref().expect("failed save keeps preview open");
    assert_eq!(panel.error.as_deref(), Some("save failed"));
    assert!(!panel.confirming);

    app.import = Some(ImportPanel::preview(import_preview()));
    quiet(import_press(&mut app, KeyCode::Char(' ')));
    quiet(import_press(&mut app, KeyCode::Enter));
    assert!(matches!(
        import_press(&mut app, KeyCode::Enter),
        Action::LoadImportSettings
    ));
    quiet(import_with(&mut app, Err("settings unavailable".to_owned())));
    let panel = app.import.as_ref().expect("settings failure keeps preview open");
    assert_eq!(panel.error.as_deref(), Some("settings unavailable"));
    assert_eq!(app.message, "settings unavailable");
}

#[test]
fn import_renders_normal_empty_error_narrow_and_short_states() {
    let panel = ImportPanel::preview(import_preview());
    let text = candidate_lines(&panel).join("\n");
    for expected in ["Local", "Remote", "Dynamic"] {
        assert!(text.contains(expected), "missing {expected}: {text}");
    }
    let preview = panel.preview.as_ref().unwrap();
    assert!(candidate_text(&preview.candidates[3]).contains("重複"));
    assert!(candidate_text(&preview.candidates[4]).contains("競合"));
    assert!(candidate_text(&preview.candidates[5]).contains("未対応"));
    assert_eq!(
        candidate_text(&preview.candidates[0]),
        "Local   127.0.0.1:3000 -> 127.0.0.1:30  [保存可能]"
    );
    let empty = ImportPanel::preview(ImportPreview {
        ssh_host_alias: "empty".to_owned(),
        candidates: vec![],
    });
    assert_eq!(candidate_lines(&empty), ["転送候補はありません"]);
    let error = ImportPanel::error("dev".to_owned(), "query failed".to_owned());
    assert!(candidate_lines(&error).is_empty());
    assert_eq!(panel_error(&error).as_deref(), Some("エラー: query failed"));
    assert!(panel_controls(&panel).contains("Esc"));
    for (width, height) in [(50, 12), (100, 10), (100, 30)] {
        let popup = centered(screen(width, height), 90, 18);
        let inner = Area {
            x: popup.x + 1,
            y: popup.y + 1,
            width: popup.width - 2,
            height: popup.height - 2,
        };
        let (top, middle, bottom) = import_sections(inner, 2);
        assert_eq!(top.height, 1);
        assert_eq!(bottom.height, 2);
        assert_eq!(middle.height, inner.height - 3);
        assert_eq!((top.y, middle.y, bottom.y), (inner.y, inner.y + 1, inner.y + inner.height - 2));
    }
}

#[test]
fn import_scrolls_long_candidate_lists_while_keeping_controls_visible() {
    let output = (1..=24)
        .map(|port| format!("localforward 127.0.0.1:{} 127.0.0.1:80", 3000 + port))
        .collect::<Vec<_>>()
        .join("\n");
    let preview = preview_effective_forwards("dev", output.as_bytes(), &[], &[]).unwrap();
    let mut panel = ImportPanel::preview(preview);
    panel.cursor = 23;
    let popup = centered(screen(80, 20), 90, 18);
    let inner = Area {
        x: popup.x + 1,
        y: popup.y + 1,
        width: popup.width - 2,
        height: popup.height - 2,
    };
    let (_, middle, bottom) = import_sections(inner, 1);
    let scroll = import_scroll(panel.cursor, middle.height) as usize;
    let shown: Vec<String> = candidate_lines(&panel)
        .into_iter()
        .skip(scroll)
        .take(middle.height as usize)
        .collect();
    assert!(
        shown.iter().any(|line| line.starts_with(">[ ] 24.")),
        "cursor candidate is hidden: {shown:?}"
    );
    assert_eq!(bottom.height, 1);
    assert!(panel_controls(&panel).contains("Esc:"));
    assert_eq!(import_scroll(0, 5), 0);
    assert_eq!(import_scroll(usize::MAX, 1), u16::MAX);
}

#[test]
fn remote_port_becomes_local_default_and_busy_port_needs_acceptance() {
    let port = 43210u16;
    let mut form = Form::new("dev".to_owned());
    form.field = 1;
    let mut asked = None;
    for ch in port.to_string().chars() {
        asked = form.input(ch);
    }
    assert_eq!(form.local_port, port.to_string());
    assert_eq!(asked, Some(port));
    let busy = Probe::Busy { next: Some(port + 1) };
    form.apply_probe(busy);
    assert!(form.suggestion.is_some());
    assert!(form.payload(busy).is_none());
    form.accept_suggestion();
    assert_eq!(form.local_port, (port + 1).to_string());
    assert!(form.payload(Probe::Free).is_none(), "name remains required");
    assert_eq!(form.error.as_deref(), Some("RuleName must not be empty"));
}

#[test]
fn remote_form_maps_remote_listener_to_local_destination() {
    let mut form = Form::new("dev".to_owned());
    form.kind = ForwardKind::Remote;
    form.name = "callback".to_owned();
    form.remote_port = "9000".to_owned();
    form.local_port = "3000".to_owned();

    assert_eq!(form.port_to_probe(), None);
    let payload = form.payload(Probe::Free).expect("valid remote forwarding");

    assert!(matches!(
        payload,
        WireRule::Remote { bind_port: 9000, destination_port: 3000, .. }
    ));
}

#[test]
fn a_busy_port_is_reported_before_the_rule_is_saved() {
    let mut form = Form::with_id(9, "dev".to_owned());
    form.name = "web".to_owned();
    form.remote_port = "80".to_owned();
    form.local_port = "3000".to_owned();
    assert_eq!(form.port_to_probe(), Some(3000));
    assert!(form.payload(Probe::Busy { next: Some(3001) }).is_none());
    assert_eq!(form.suggestion, Some(3001));
    assert_eq!(
        form.error.as_deref(),
        Some("ローカルポート 3000 は使用中です。候補を選択してください")
    );
    assert!(matches!(
        form.payload(Probe::Free),
        Some(WireRule::Local { id: 9, bind_port: 3000, destination_port: 80, .. })
    ));
}

#[test]
fn the_ports_behind_a_busy_one_are_tried_in_order() {
    let candidates = port_candidates(3000);
    assert_eq!(candidates.len(), 100);
    assert_eq!((candidates[0], candidates[99]), (3001, 3100));
    assert_eq!(port_candidates(65530), [65531, 65532, 65533, 65534, 65535]);
    assert_eq!(port_candidates(65535), [65535]);
}

#[test]
fn suggestion_shortcut_does_not_consume_a_in_the_name_field() {
    let mut app = App::default();
    let mut form = Form::new("dev".to_owned());
    form.local_port = "43210".to_owned();
    form.suggestion = Some(3001);
    app.form = Some(form);

    let action = press(&mut app, KeyCode::Char('a'));

    assert!(matches!(action, Action::Probe { port: 43210 }));
    form_probed(&mut app, Probe::Busy { next: Some(43211) });
    let form = app.form.as_ref().expect("form remains open");
    assert_eq!(form.name, "a");
    assert!(form.suggestion.is_some());

    quiet(press(&mut app, KeyCode::Tab));
    quiet(press(&mut app, KeyCode::Char('a')));
    let form = app.form.as_ref().unwrap();
    assert_eq!(form.local_port, "43211");
    assert_eq!(form.suggestion, None);
}

#[test]
fn selection_survives_event_refresh_by_rule_id() {
    let first = 11;
    let second = 22;
    let mut app = App::default();
    app.replace_rules(vec![rule_view(first, "a"), rule_view(second, "b")]);
    app.selected_rule = 1;
    app.selected_id = Some(second);
    app.replace_rules(vec![rule_view(second, "b"), rule_view(first, "a")]);
    assert_eq!(app.selected_rule, 0);
}

#[test]
fn settings_page_renders_the_daemon_values() {
    let mut app = App { page: Page::Settings, ..App::default() };
    app.settings.theme = Theme::Dark;
    app.settings.log_level = LogLevel::Debug;
    app.settings.default_reconnect = true;
    let text = settings_text(&app);
    assert!(text.contains("Dark"));
    assert!(text.contains("Debug"));
    assert!(text.starts_with("> テーマ: Dark\n  ログレベル: Debug\n"));
}

#[test]
fn ipv6_urls_are_bracketed() {
    let mut rule = rule_view(1, "web");
    rule.bind_address = "::1".to_owned();
    assert_eq!(rule.url("https"), "https://[::1]:3000");
    rule.bind_address = LOOPBACK.to_owned();
    assert_eq!(rule.url("http"), "http://127.0.0.1:3000");
}

#[test]
fn a_new_rule_goes_from_the_form_to_the_daemon_and_is_started() {
    let mut app = App { hosts: vec!["dev".to_owned()], page: Page::Hosts, ..App::default() };
    app.settings.default_reconnect = true;
    quiet(handle_key_with(&mut app, key(KeyCode::Enter), 77));
    press(&mut app, KeyCode::Char('w'));
    quiet(press(&mut app, KeyCode::Tab));
    for digit in "8080".chars() {
        press(&mut app, KeyCode::Char(digit));
    }
    press(&mut app, KeyCode::Char('x'));
    assert!(matches!(
        press(&mut app, KeyCode::Enter),
        Action::Submit { port: Some(8080) }
    ));
    let rule = match submit_form(&mut app, Probe::Free) {
        Action::AddRule { rule } => rule,
        other => panic!("{other:?}"),
    };
    assert!(matches!(
        &rule,
        WireRule::Local { id: 77, name, bind_port: 8080, destination_port: 8080, reconnect: true, .. }
            if name == "w"
    ));
    assert!(matches!(
        rule_added(&mut app, Ok(None)),
        Action::StartSaved { rule_id: 77 }
    ));
    assert!(matches!(
        rule_added(&mut app, Ok(Some(5))),
        Action::StartSaved { rule_id: 5 }
    ));
    quiet(saved_started(&mut app, Err("boom".to_owned())));
    assert_eq!(
        app.form.as_ref().unwrap().error.as_deref(),
        Some("保存済みですが起動できません: boom")
    );
    quiet(rule_added(&mut app, Err("refused".to_owned())));
    assert_eq!(app.form.as_ref().unwrap().error.as_deref(), Some("refused"));
    assert!(matches!(saved_started(&mut app, Ok(())), Action::Refresh));
    assert!(app.form.is_none());
}

#[test]
fn a_rule_is_removed_only_after_the_question_is_answered() {
    let mut app = App { rules: vec![rule_view(7, "web")], ..App::default() };
    quiet(press(&mut app, KeyCode::Char('d')));
    assert_eq!(app.confirm_delete, Some(7));
    quiet(press(&mut app, KeyCode::Char('q')));
    assert!(!app.quit);
    quiet(press(&mut app, KeyCode::Char('n')));
    assert_eq!(app.confirm_delete, None);
    quiet(press(&mut app, KeyCode::Char('d')));
    assert!(matches!(
        press(&mut app, KeyCode::Char('y')),
        Action::RemoveRule { rule_id: 7 }
    ));
    quiet(rule_removed(&mut app, Err("running".to_owned())));
    assert_eq!(app.message, "running");
    app.confirm_delete = Some(7);
    assert!(matches!(rule_removed(&mut app, Ok(())), Action::Refresh));
    assert_eq!(app.confirm_delete, None);
}

#[test]
fn rules_are_started_stopped_copied_and_edited_by_their_keys() {
    let mut app = App { rules: vec![rule_view(7, "web")], ..App::default() };
    assert!(matches!(
        press(&mut app, KeyCode::Char(' ')),
        Action::StartRule { rule_id: 7 }
    ));
    quiet(press(&mut app, KeyCode::Char('e')));
    assert!(app.form.as_ref().unwrap().editing);
    assert_eq!(form_title(app.form.as_ref().unwrap()), "転送を編集");
    app.form = None;
    quiet(handle_key_with(&mut app, key(KeyCode::Char('c')), 99));
    let copy = app.form.as_ref().unwrap();
    assert_eq!((copy.id, copy.editing, copy.name.as_str()), (99, false, "web copy"));
    app.form = None;
    app.rules[0].state = "active".to_owned();
    assert!(matches!(
        press(&mut app, KeyCode::Char(' ')),
        Action::StopRule { rule_id: 7 }
    ));
    assert!(matches!(rule_switched(&mut app, Ok(())), Action::Refresh));
    quiet(rule_switched(&mut app, Err("late".to_owned())));
    assert_eq!(app.message, "late");
    quiet(press(&mut app, KeyCode::Char('e')));
    assert!(app.form.is_none());
    assert_eq!(app.message, "編集前に転送を停止してください");
    app.page = Page::Detail;
    match press(&mut app, KeyCode::Char('s')) {
        Action::OpenBrowser { url } => {
            assert_eq!(url, "https://127.0.0.1:3000");
            browser_opened(&mut app, &url, Ok(()));
        }
        other => panic!("{other:?}"),
    }
    assert_eq!(app.message, "ブラウザで https://127.0.0.1:3000 を開きました");
    browser_opened(&mut app, "u", Err("none".to_owned()));
    assert_eq!(app.message, "ブラウザを起動できません: none");
    quiet(handle_key(&mut app, Key { code: KeyCode::Char('c'), control: true }));
    assert!(app.quit);
}

#[test]
fn settings_are_changed_saved_and_taken_back() {
    let mut app = App { page: Page::Settings, ..App::default() };
    let before = app.settings;
    let (settings, previous) = match press(&mut app, KeyCode::Enter) {
        Action::SaveSettings { settings, previous } => (settings, previous),
        other => panic!("{other:?}"),
    };
    assert_eq!((settings.theme, previous), (Theme::Dark, before));
    settings_saved(&mut app, previous, Err("no".to_owned()));
    assert_eq!((app.settings, app.message.as_str()), (before, "no"));
    settings_saved(&mut app, previous, Ok(settings));
    assert_eq!((app.settings, app.message.as_str()), (settings, "設定を保存しました"));
    quiet(press(&mut app, KeyCode::Up));
    assert_eq!(app.settings_field, 3);
    quiet(press(&mut app, KeyCode::Down));
    quiet(press(&mut app, KeyCode::Char('j')));
    assert_eq!(app.settings_field, 1);
    assert!(matches!(press(&mut app, KeyCode::Left), Action::SaveSettings { .. }));
    assert_eq!(app.settings.log_level, LogLevel::Debug);
}

fn catalog() -> HostCatalog {
    HostCatalog::new(b"/c".to_vec(), b"/s".to_vec(), b"/".to_vec(), b"ssh".to_vec())
}

#[test]
fn the_import_panel_opens_on_the_answer_to_the_query() {
    let mut app = App { hosts: vec!["dev".to_owned()], page: Page::Hosts, ..App::default() };
    app.rules = vec![rule_view(7, "web")];
    let host = match press(&mut app, KeyCode::Char('i')) {
        Action::QueryForwards { host } => host,
        other => panic!("{other:?}"),
    };
    let output = ProcessOutput {
        success: true,
        stdout: b"localforward 127.0.0.1:3000 127.0.0.1:3000\nlocalforward 4000 localhost:1\n".to_vec(),
        stderr: vec![],
        timed_out: false,
    };
    open_import(&mut app, &catalog(), host.clone(), Ok(output));
    let lines = candidate_lines(app.import.as_ref().unwrap());
    assert!(lines[0].starts_with(">[-] 1.") && lines[0].contains("重複: 保存済み"));
    assert!(lines[1].starts_with(" [ ] 2."));
    open_import(&mut app, &catalog(), host, Err(HostError::Spawn("x".to_owned())));
    let panel = app.import.as_ref().unwrap();
    assert_eq!(panel.error.as_deref(), Some("could not start OpenSSH"));
    assert!(panel.preview.is_none());

    app.import = None;
    app.rules[0].name = String::new();
    quiet(press(&mut app, KeyCode::Char('i')));
    assert_eq!(
        app.import.as_ref().unwrap().error.as_deref(),
        Some("RuleName must not be empty")
    );
    assert!(rule_snapshots(&app).is_err());
}

#[test]
fn selecting_a_candidate_twice_takes_it_back() {
    let mut app =
        App { import: Some(ImportPanel::preview(import_preview())), ..App::default() };
    for _ in 0..2 {
        quiet(import_press(&mut app, KeyCode::Char(' ')));
    }
    assert!(app.import.as_ref().unwrap().selected.is_empty());
    quiet(import_press(&mut app, KeyCode::Enter));
    assert!(!app.import.as_ref().unwrap().confirming);
    for _ in 0..10 {
        quiet(import_press(&mut app, KeyCode::Char('j')));
    }
    assert_eq!(app.import.as_ref().unwrap().cursor, 5);
    quiet(import_press(&mut app, KeyCode::Char(' ')));
    assert!(app.import.as_ref().unwrap().selected.is_empty());
}

#[test]
fn loaded_rules_show_what_the_daemon_reports() {
    let wire = rule_view(7, "web").to_wire();
    let entry = StatusEntry {
        rule_id: 7,
        state: "active".to_owned(),
        uptime_seconds: 61,
        reconnect_count: 2,
        last_error: Some("lost".to_owned()),
    };
    let stray = StatusEntry {
        rule_id: 8,
        state: "active".to_owned(),
        uptime_seconds: 1,
        reconnect_count: 0,
        last_error: None,
    };
    let mut app = App::default();
    refreshed(&mut app, Ok(loaded_rules(&vec![wire], &vec![stray, entry])), Ok(Settings::default()));
    assert_eq!(dashboard_title(&app), "転送 1件 / 稼働 1件");
    let rows = dashboard_rows(&app, 10);
    assert_eq!(rows.len(), 1);
    assert_eq!(
        (rows[0].marker, rows[0].name.as_str(), rows[0].state.as_str(), rows[0].address.as_str()),
        (">", "web", "active", "127.0.0.1:3000")
    );
    let detail = detail_text(&app);
    assert!(detail.contains("稼働時間: 61秒 / 再接続: 2回"));
    assert!(detail.contains("最終診断: lost"));
    assert!(detail.contains("URL: http://127.0.0.1:3000"));
    let (_, running) = rule_snapshots(&app).unwrap();
    assert_eq!(running.len(), 1);
    refreshed(&mut app, Err("gone".to_owned()), Err("gone".to_owned()));
    assert_eq!(app.message, "gone");
    assert_eq!(app.rules.len(), 1);
    assert_eq!(detail_text(&App::default()), "転送がありません");
}

#[test]
fn hosts_are_listed_with_a_mark_and_replaced_on_refresh() {
    let mut app = App { page: Page::Hosts, ..App::default() };
    assert_eq!(host_items(&app, 10), ["SSH config に具体的な Host がありません"]);
    assert!(matches!(press(&mut app, KeyCode::Char('r')), Action::RefreshHosts));
    hosts_refreshed(&mut app, Ok(vec!["a".to_owned(), "b".to_owned()]));
    assert_eq!(host_items(&app, 10), ["> a", "  b"]);
    assert_eq!(app.message, "ホスト一覧を更新しました");
    hosts_refreshed(&mut app, Err("no".to_owned()));
    assert_eq!(app.hosts.len(), 2);
    assert_eq!(app.message, "no");
}

#[test]
fn a_form_shows_its_fields_and_its_suggestion() {
    let mut form = Form::with_id(1, "dev".to_owned());
    form.field = 2;
    form.local_port = "80".to_owned();
    assert_eq!(
        form_lines(&form),
        [
            "ホスト: dev",
            "種別: local (F2で変更)",
            "  名前: ",
            "  リモートポート: ",
            "> ローカルポート: 80",
            "auto_start: false (F3) / reconnect: false (F4)",
            "Tab: 項目移動  Enter: 保存して起動  Esc: キャンセル",
        ]
    );
    assert_eq!(suggestion_line(&form), None);
    form.suggestion = Some(81);
    assert_eq!(suggestion_line(&form).as_deref(), Some("ポート使用中。候補 81 (a で選択)"));
    assert_eq!(form_title(&form), "ポートを追加");
    assert_eq!(form.backspace(), Some(8));
    assert_eq!(form.local_port, "8");
    assert_eq!(form.backspace(), None);
    assert_eq!(form.backspace(), None);
}

#[test]
fn rows_of_the_screen_are_divided_for_every_size() {
    for (width, height) in [(42, 10), (80, 20), (100, 30), (300, 1000), (65535, 65535)] {
        let (tabs, content, footer) = screen_areas(screen(width, height)).unwrap();
        assert_eq!(tabs, Area { x: 0, y: 0, width, height: 3 });
        assert_eq!(content, Area { x: 0, y: 3, width, height: height - 5 });
        assert_eq!(footer, Area { x: 0, y: height - 2, width, height: 2 });
    }
    assert!(screen_areas(screen(41, 30)).is_none());
    assert!(screen_areas(screen(100, 9)).is_none());
    let inner = Area { x: 4, y: 7, width: 20, height: 2 };
    let (top, middle, bottom) = import_sections(inner, 3);
    assert_eq!((top.height, middle.height, bottom.height), (1, 1, 0));
    assert_eq!((top.y, middle.y, bottom.y, bottom.x), (7, 8, 9, 4));
}

#[test]
fn the_first_free_candidate_is_suggested() {
    let candidates = port_candidates(3000);
    let mut free = vec![false; candidates.len()];
    assert_eq!(first_free(&candidates, &free), None);
    free[7] = true;
    free[3] = true;
    assert_eq!(first_free(&candidates, &free), Some(3004));
    assert_eq!(first_free(&vec![], &vec![]), None);
}
