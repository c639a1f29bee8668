//! What a key does. A key that needs the world outside names an `Action`; what came of it is
//! handed to the function that follows it.
use super::form::Form;
use super::state::{rule_snapshots, App, ImportPanel, Page};
use crate::application::import;
use crate::application::import::ImportClassification;
use crate::cli::ForwardKind;
use crate::config;
use crate::config::conversion;
use crate::config::{LogLevel, Rule as WireRule, Settings, Theme};
use crate::domain::host;
use crate::domain::rule;
use crate::domain::validation;
use crate::identity;
use crate::text;
use crate::tui;
use crate::tui::form;
use crate::tui::state;
use vstd::prelude::*;
use vstd::string::*;

verus! {

#[derive(Clone, Copy, Debug, PartialEq, Eq, Structural)]
pub enum KeyCode {
    Char(char),
    Enter,
    Esc,
    Tab,
    BackTab,
    Up,
    Down,
    Left,
    Right,
    Backspace,
    Function(u8),
    Other,
}

#[derive(Clone, Copy, Debug, PartialEq, Eq, Structural)]
pub struct Key {
    pub code: KeyCode,
    pub control: bool,
}

/// What is to be done outside.
#[derive(Debug)]
pub enum Action {
    Nothing,
    /// Try the port; `form_probed` takes the answer.
    Probe { port: u16 },
    /// Try the port if one is named; `submit_form` takes the answer.
    Submit { port: Option<u16> },
    /// Save the rule; `rule_added` takes the answer.
    AddRule { rule: WireRule },
    /// Start the rule that was saved; `saved_started` takes the answer.
    StartSaved { rule_id: u128 },
    /// Remove the rule; `rule_removed` takes the answer.
    RemoveRule { rule_id: u128 },
    /// Save the settings; `settings_saved` takes the answer and the previous ones.
    SaveSettings { settings: Settings, previous: Settings },
    /// Start the rule; `rule_switched` takes the answer.
    StartRule { rule_id: u128 },
    /// Stop the rule; `rule_switched` takes the answer.
    StopRule { rule_id: u128 },
    /// Look for hosts; `hosts_refreshed` takes the answer.
    RefreshHosts,
    /// Ask OpenSSH about the host; `open_import` takes the answer.
    QueryForwards { host: String },
    /// Load the settings; `import_with` takes the answer.
    LoadImportSettings,
    /// Save the rules together; `imported` takes the answer.
    ImportRules { rules: Vec<WireRule> },
    /// Open a browser; `browser_opened` takes the answer.
    OpenBrowser { url: String },
    /// Load rules and settings; `refreshed` takes them.
    Refresh,
}

#[verifier::ext_equal]
pub enum ActionModel {
    Nothing,
    Probe { port: u16 },
    Submit { port: Option<u16> },
    AddRule { rule: rule::RuleModel },
    StartSaved { rule_id: u128 },
    RemoveRule { rule_id: u128 },
    SaveSettings { settings: Settings, previous: Settings },
    StartRule { rule_id: u128 },
    StopRule { rule_id: u128 },
    RefreshHosts,
    QueryForwards { host: Seq<char> },
    LoadImportSettings,
    ImportRules { rules: Seq<rule::RuleModel> },
    OpenBrowser { url: Seq<char> },
    Refresh,
}

impl View for Action {
    type V = ActionModel;

    open spec fn view(&self) -> ActionModel {
        match self {
            Action::Nothing => ActionModel::Nothing,
            Action::Probe { port } => ActionModel::Probe { port: *port },
            Action::Submit { port } => ActionModel::Submit { port: *port },
            Action::AddRule { rule } => ActionModel::AddRule { rule: rule@ },
            Action::StartSaved { rule_id } => ActionModel::StartSaved { rule_id: *rule_id },
            Action::RemoveRule { rule_id } => ActionModel::RemoveRule { rule_id: *rule_id },
            Action::SaveSettings { settings, previous } => ActionModel::SaveSettings {
                settings: *settings,
                previous: *previous,
            },
            Action::StartRule { rule_id } => ActionModel::StartRule { rule_id: *rule_id },
            Action::StopRule { rule_id } => ActionModel::StopRule { rule_id: *rule_id },
            Action::RefreshHosts => ActionModel::RefreshHosts,
            Action::QueryForwards { host } => ActionModel::QueryForwards { host: host@ },
            Action::LoadImportSettings => ActionModel::LoadImportSettings,
            Action::ImportRules { rules } => ActionModel::ImportRules {
                rules: config::wires(rules@),
            },
            Action::OpenBrowser { url } => ActionModel::OpenBrowser { url: url@ },
            Action::Refresh => ActionModel::Refresh,
        }
    }
}

// ---------------------------------------------------------------------------
// Keys on the import panel
// ---------------------------------------------------------------------------
pub open spec fn without(selected: Seq<usize>, number: usize) -> Seq<usize>
    decreases selected.len(),
{
    if selected.len() == 0 {
        selected
    } else {
        let earlier = without(selected.drop_last(), number);
        if selected.last() == number {
            earlier
        } else {
            earlier.push(selected.last())
        }
    }
}

/// Takes a number out of the selection, or puts it there.
pub open spec fn toggled(selected: Seq<usize>, number: usize) -> Seq<usize> {
    if selected.contains(number) {
        without(selected, number)
    } else {
        selected.push(number)
    }
}

pub open spec fn panel_len(p: state::PanelModel) -> nat {
    match p.preview {
        Some(preview) => preview.candidates.len(),
        None => 0,
    }
}

pub open spec fn can_be_selected(p: state::PanelModel) -> bool {
    match p.preview {
        Some(preview) => preview.candidates[p.cursor].verdict is Supported,
        None => false,
    }
}

/// A key that leaves the panel open.
pub open spec fn panel_step(p: state::PanelModel, code: KeyCode) -> state::PanelModel {
    let len = panel_len(p);
    if p.confirming {
        if code == KeyCode::Esc || code == KeyCode::Char('n') {
            state::PanelModel { confirming: false, ..p }
        } else {
            p
        }
    } else if (code == KeyCode::Down || code == KeyCode::Char('j')) && len != 0 {
        state::PanelModel { cursor: state::nearest(p.cursor + 1, len), ..p }
    } else if (code == KeyCode::Up || code == KeyCode::Char('k')) && len != 0 {
        state::PanelModel { cursor: state::nearest(p.cursor - 1, len), ..p }
    } else if code == KeyCode::Char(' ') && len != 0 {
        if can_be_selected(p) {
            state::PanelModel { selected: toggled(p.selected, (p.cursor + 1) as usize), ..p }
        } else {
            p
        }
    } else if code == KeyCode::Enter && p.selected.len() > 0 {
        state::PanelModel { confirming: true, ..p }
    } else {
        p
    }
}

pub open spec fn with_panel(m: state::AppModel, p: state::PanelModel) -> state::AppModel {
    state::AppModel { import: Some(p), ..m }
}

/// The reason why the rules that are shown cannot be compared with others.
pub open spec fn snapshot_refusal(m: state::AppModel) -> Option<validation::Refusal> {
    conversion::first_refusal(state::stored_rules(m.rules))
}

/// What a key does on the import panel.
pub open spec fn import_step(
    m: state::AppModel,
    p: state::PanelModel,
    code: KeyCode,
) -> (state::AppModel, ActionModel) {
    if p.confirming && (code == KeyCode::Enter || code == KeyCode::Char('y')) {
        if p.preview is None {
            (m, ActionModel::Nothing)
        } else {
            match snapshot_refusal(m) {
                Some(refusal) => (
                    state::AppModel { message: validation::refusal_message(refusal), ..m },
                    ActionModel::Nothing,
                ),
                None => (m, ActionModel::LoadImportSettings),
            }
        }
    } else if !p.confirming && code == KeyCode::Esc {
        (state::AppModel { import: None, ..m }, ActionModel::Nothing)
    } else {
        (with_panel(m, panel_step(p, code)), ActionModel::Nothing)
    }
}

proof fn without_keeps_others(selected: Seq<usize>, number: usize)
    ensures
        without(selected, number).len() <= selected.len(),
        !without(selected, number).contains(number),
        forall|n: usize|
            n != number ==> (#[trigger] without(selected, number).contains(n)
                == selected.contains(n)),
    decreases selected.len(),
{
    if selected.len() > 0 {
        let earlier = selected.drop_last();
        let last = selected.last();
        without_keeps_others(earlier, number);
        let kept = without(selected, number);
        let before = without(earlier, number);
        assert(selected =~= earlier.push(last));
        if last != number {
            assert(kept == before.push(last));
            assert forall|n: usize| #[trigger] kept.contains(n) == (before.contains(n) || n
                == last) by {
                if before.contains(n) {
                    let i = choose|i: int| 0 <= i < before.len() && before[i] == n;
                    assert(kept[i] == n);
                }
                if n == last {
                    assert(kept[before.len() as int] == n);
                }
                if kept.contains(n) {
                    let i = choose|i: int| 0 <= i < kept.len() && kept[i] == n;
                    if i < before.len() {
                        assert(before[i] == n);
                    }
                }
            }
        }
        assert forall|n: usize| #[trigger] selected.contains(n) == (earlier.contains(n) || n
            == last) by {
            if earlier.contains(n) {
                let i = choose|i: int| 0 <= i < earlier.len() && earlier[i] == n;
                assert(selected[i] == n);
            }
            if n == last {
                assert(selected[earlier.len() as int] == n);
            }
            if selected.contains(n) {
                let i = choose|i: int| 0 <= i < selected.len() && selected[i] == n;
                if i < earlier.len() {
                    assert(earlier[i] == n);
                }
            }
        }
    }
}

proof fn without_keeps_distinct(selected: Seq<usize>, number: usize)
    requires
        forall|i: int, j: int| 0 <= i < j < selected.len() ==> selected[i] != selected[j],
    ensures
        forall|i: int, j: int|
            0 <= i < j < without(selected, number).len() ==> without(selected, number)[i]
                != without(selected, number)[j],
    decreases selected.len(),
{
    if selected.len() > 0 {
        let earlier = selected.drop_last();
        let last = selected.last();
        without_keeps_distinct(earlier, number);
        without_keeps_others(earlier, number);
        if last != number {
            let before = without(earlier, number);
            assert forall|i: int| 0 <= i < before.len() implies before[i] != last by {
                assert(before.contains(before[i]));
                if before[i] == last {
                    assert(earlier.contains(last));
                    let k = choose|k: int| 0 <= k < earlier.len() && earlier[k] == last;
                    assert(selected[k] == last);
                }
            }
        }
    }
}

/// Selecting a candidate twice changes nothing of what is selected.
pub proof fn toggling_twice_keeps_the_selection(selected: Seq<usize>, number: usize)
    ensures
        forall|n: usize|
            toggled(toggled(selected, number), number).contains(n) == #[trigger] selected.contains(
                n,
            ),
{
    let once = toggled(selected, number);
    let twice = toggled(once, number);
    without_keeps_others(selected, number);
    without_keeps_others(once, number);
    if selected.contains(number) {
        assert(twice == once.push(number));
        assert forall|n: usize| twice.contains(n) == #[trigger] selected.contains(n) by {
            if once.contains(n) {
                let i = choose|i: int| 0 <= i < once.len() && once[i] == n;
                assert(twice[i] == n);
            }
            assert(twice[once.len() as int] == number);
            if twice.contains(n) {
                let i = choose|i: int| 0 <= i < twice.len() && twice[i] == n;
                if i < once.len() {
                    assert(once[i] == n);
                }
            }
        }
    } else {
        assert(once[selected.len() as int] == number);
        assert(once.contains(number));
        assert forall|n: usize| twice.contains(n) == #[trigger] selected.contains(n) by {
            if n != number {
                assert(twice.contains(n) == once.contains(n));
                if selected.contains(n) {
                    let i = choose|i: int| 0 <= i < selected.len() && selected[i] == n;
                    assert(once[i] == n);
                }
                if once.contains(n) {
                    let i = choose|i: int| 0 <= i < once.len() && once[i] == n;
                    assert(selected[i] == n);
                }
            }
        }
    }
}

/// A key on a sound panel leaves it sound: the cursor stays on a candidate, and only candidates
/// that can be saved are ever selected.
pub proof fn panel_stays_sound(p: state::PanelModel, code: KeyCode)
    requires
        state::sound_panel(p),
        panel_len(p) <= usize::MAX,
    ensures
        state::sound_panel(panel_step(p, code)),
{
    let q = panel_step(p, code);
    if !p.confirming && code == KeyCode::Char(' ') && panel_len(p) != 0 && can_be_selected(p) {
        let number = (p.cursor + 1) as usize;
        let candidates = p.preview->0.candidates;
        without_keeps_others(p.selected, number);
        without_keeps_distinct(p.selected, number);
        assert forall|i: int| 0 <= i < q.selected.len() implies import::importable(
            candidates,
            #[trigger] q.selected[i],
        ) by {
            let n = q.selected[i];
            assert(q.selected.contains(n));
            if p.selected.contains(number) {
                assert(p.selected.contains(n));
                let k = choose|k: int| 0 <= k < p.selected.len() && p.selected[k] == n;
                assert(import::importable(candidates, p.selected[k]));
            } else if i < p.selected.len() {
                assert(n == p.selected[i]);
            }
        }
        assert forall|i: int, j: int| 0 <= i < j < q.selected.len() implies q.selected[i]
            != q.selected[j] by {
            if !p.selected.contains(number) {
                if j == p.selected.len() {
                    assert(p.selected[i] == q.selected[i]);
                }
            }
        }
    }
}

// ---------------------------------------------------------------------------
// Keys on the question whether to remove a rule
// ---------------------------------------------------------------------------
pub open spec fn confirm_step(m: state::AppModel, id: u128, code: KeyCode) -> (
    state::AppModel,
    ActionModel,
) {
    if code == KeyCode::Char('y') || code == KeyCode::Enter {
        (m, ActionModel::RemoveRule { rule_id: id })
    } else if code == KeyCode::Char('n') || code == KeyCode::Esc {
        (state::AppModel { confirm_delete: None, ..m }, ActionModel::Nothing)
    } else {
        (m, ActionModel::Nothing)
    }
}

// ---------------------------------------------------------------------------
// Keys on a form
// ---------------------------------------------------------------------------
pub open spec fn with_form(m: state::AppModel, f: form::FormModel) -> state::AppModel {
    state::AppModel { form: Some(f), ..m }
}

pub open spec fn probe_action(f: form::FormModel) -> ActionModel {
    match form::local_port_of(f) {
        Some(port) => ActionModel::Probe { port },
        None => ActionModel::Nothing,
    }
}

pub open spec fn form_step(m: state::AppModel, f: form::FormModel, code: KeyCode) -> (
    state::AppModel,
    ActionModel,
) {
    match code {
        KeyCode::Esc => (state::AppModel { form: None, ..m }, ActionModel::Nothing),
        KeyCode::Tab | KeyCode::Down => (
            with_form(m, form::FormModel { field: (f.field + 1) % 3, ..f }),
            ActionModel::Nothing,
        ),
        KeyCode::BackTab | KeyCode::Up => (
            with_form(m, form::FormModel { field: (f.field + 2) % 3, ..f }),
            ActionModel::Nothing,
        ),
        KeyCode::Backspace => (with_form(m, form::erased(f)), probe_action(form::erased(f))),
        KeyCode::Function(n) => if n == 2 {
            (
                with_form(m, form::FormModel { kind: form::next_kind(f.kind), ..f }),
                ActionModel::Nothing,
            )
        } else if n == 3 {
            (
                with_form(m, form::FormModel { auto_start: !f.auto_start, ..f }),
                ActionModel::Nothing,
            )
        } else if n == 4 {
            (with_form(m, form::FormModel { reconnect: !f.reconnect, ..f }), ActionModel::Nothing)
        } else {
            (m, ActionModel::Nothing)
        },
        KeyCode::Char(c) => if c == 'a' && f.field != 0 && f.suggestion is Some {
            (with_form(m, form::accepted(f)), ActionModel::Nothing)
        } else {
            (with_form(m, form::typed(f, c)), probe_action(form::typed(f, c)))
        },
        KeyCode::Enter => (m, ActionModel::Submit { port: form::submit_port(f) }),
        _ => (m, ActionModel::Nothing),
    }
}

// ---------------------------------------------------------------------------
// Keys on a page
// ---------------------------------------------------------------------------
pub open spec fn next_page(page: Page) -> Page {
    match page {
        Page::Dashboard => Page::Hosts,
        Page::Hosts => Page::Detail,
        Page::Detail => Page::Settings,
        Page::Settings => Page::Help,
        Page::Help => Page::Dashboard,
    }
}

pub open spec fn next_theme(theme: Theme) -> Theme {
    match theme {
        Theme::System => Theme::Dark,
        Theme::Dark => Theme::Light,
        Theme::Light => Theme::System,
    }
}

pub open spec fn next_level(level: LogLevel) -> LogLevel {
    match level {
        LogLevel::Error => LogLevel::Warn,
        LogLevel::Warn => LogLevel::Info,
        LogLevel::Info => LogLevel::Debug,
        LogLevel::Debug => LogLevel::Trace,
        LogLevel::Trace => LogLevel::Error,
    }
}

/// The settings after a change of the field that is pointed at.
pub open spec fn changed_settings(settings: Settings, field: int) -> Settings {
    if field == 0 {
        Settings { theme: next_theme(settings.theme), ..settings }
    } else if field == 1 {
        Settings { log_level: next_level(settings.log_level), ..settings }
    } else if field == 2 {
        Settings { default_reconnect: !settings.default_reconnect, ..settings }
    } else {
        Settings { default_auto_start: !settings.default_auto_start, ..settings }
    }
}

pub open spec fn settings_step(m: state::AppModel) -> (state::AppModel, ActionModel) {
    let settings = changed_settings(m.settings, m.settings_field);
    (
        state::AppModel { settings, ..m },
        ActionModel::SaveSettings { settings, previous: m.settings },
    )
}

/// Asks for the forwardings of a host, unless the rules at hand cannot be compared with them.
pub open spec fn ask_forwards(m: state::AppModel, host: Seq<char>) -> (
    state::AppModel,
    ActionModel,
) {
    match snapshot_refusal(m) {
        Some(refusal) => (
            with_panel(m, state::error_panel(host, validation::refusal_message(refusal))),
            ActionModel::Nothing,
        ),
        None => (m, ActionModel::QueryForwards { host }),
    }
}

pub open spec fn open_url(m: state::AppModel, scheme: Seq<char>) -> (state::AppModel, ActionModel) {
    match state::selected_of(m) {
        Some(rule) => (m, ActionModel::OpenBrowser { url: tui::url_of(rule, scheme) }),
        None => (m, ActionModel::Nothing),
    }
}

/// What a letter, a digit or a sign does on a page.
pub open spec fn char_step(m: state::AppModel, c: char, fresh: u128) -> (
    state::AppModel,
    ActionModel,
) {
    let nothing = (m, ActionModel::Nothing);
    if c == 'q' {
        (state::AppModel { quit: true, ..m }, ActionModel::Nothing)
    } else if c == '?' {
        (state::on_page(m, Page::Help), ActionModel::Nothing)
    } else if c == 'j' || c == 'k' {
        vertical_step(m, c == 'j')
    } else if c == ' ' {
        if m.page == Page::Settings {
            settings_step(m)
        } else {
            match state::selected_of(m) {
                Some(rule) => if rule.state == "stopped"@ {
                    (m, ActionModel::StartRule { rule_id: rule.id })
                } else {
                    (m, ActionModel::StopRule { rule_id: rule.id })
                },
                None => nothing,
            }
        }
    } else if c == 'n' {
        (
            state::AppModel {
                hosts_return: if m.page != Page::Hosts {
                    Some(m.page)
                } else {
                    m.hosts_return
                },
                page: Page::Hosts,
                message: "ホストを選び Enter を押してください"@,
                ..m
            },
            ActionModel::Nothing,
        )
    } else if c == 'r' && m.page == Page::Hosts {
        (m, ActionModel::RefreshHosts)
    } else if c == 'i' && m.page == Page::Hosts {
        match state::selected_host_of(m) {
            Some(host) => ask_forwards(m, host),
            None => nothing,
        }
    } else if c == 'i' && (m.page == Page::Dashboard || m.page == Page::Detail) {
        match state::selected_of(m) {
            Some(rule) => ask_forwards(m, rule.host),
            None => nothing,
        }
    } else if c == 'e' {
        match state::selected_of(m) {
            Some(rule) => if rule.state == "stopped"@ {
                (with_form(m, form::edit_form(rule)), ActionModel::Nothing)
            } else {
                (
                    state::AppModel { message: "編集前に転送を停止してください"@, ..m },
                    ActionModel::Nothing,
                )
            },
            None => nothing,
        }
    } else if c == 'c' {
        match state::selected_of(m) {
            Some(rule) => (with_form(m, form::copy_form(fresh, rule)), ActionModel::Nothing),
            None => nothing,
        }
    } else if c == 'd' {
        match state::selected_of(m) {
            Some(rule) => (
                state::AppModel { confirm_delete: Some(rule.id), ..m },
                ActionModel::Nothing,
            ),
            None => nothing,
        }
    } else if c == 'h' && m.page == Page::Detail {
        open_url(m, "http"@)
    } else if c == 's' && m.page == Page::Detail {
        open_url(m, "https"@)
    } else {
        nothing
    }
}

/// One step down or up.
pub open spec fn vertical_step(m: state::AppModel, down: bool) -> (state::AppModel, ActionModel) {
    if m.page == Page::Settings {
        (
            state::AppModel {
                settings_field: (m.settings_field + if down {
                    1int
                } else {
                    3int
                }) % 4,
                ..m
            },
            ActionModel::Nothing,
        )
    } else {
        (
            state::moved(
                m,
                if down {
                    1
                } else {
                    -1
                },
            ),
            ActionModel::Nothing,
        )
    }
}

pub open spec fn new_form(m: state::AppModel, fresh: u128, host: Seq<char>) -> form::FormModel {
    form::FormModel {
        auto_start: m.settings.default_auto_start,
        reconnect: m.settings.default_reconnect,
        ..form::empty_form(fresh, host)
    }
}

/// What a key does on a page.
pub open spec fn page_step(m: state::AppModel, code: KeyCode, fresh: u128) -> (
    state::AppModel,
    ActionModel,
) {
    let nothing = (m, ActionModel::Nothing);
    match code {
        KeyCode::Char(c) => char_step(m, c, fresh),
        KeyCode::Esc => if m.page == Page::Hosts {
            match m.hosts_return {
                Some(previous) => (
                    state::on_page(state::AppModel { hosts_return: None, ..m }, previous),
                    ActionModel::Nothing,
                ),
                None => nothing,
            }
        } else {
            nothing
        },
        KeyCode::Tab => (state::on_page(m, next_page(m.page)), ActionModel::Nothing),
        KeyCode::Down => vertical_step(m, true),
        KeyCode::Up => vertical_step(m, false),
        KeyCode::Left | KeyCode::Right => if m.page == Page::Settings {
            settings_step(m)
        } else {
            nothing
        },
        KeyCode::Enter => match m.page {
            Page::Settings => settings_step(m),
            Page::Hosts => match state::selected_host_of(m) {
                Some(host) => (with_form(m, new_form(m, fresh, host)), ActionModel::Nothing),
                None => nothing,
            },
            Page::Dashboard => (state::on_page(m, Page::Detail), ActionModel::Nothing),
            _ => nothing,
        },
        _ => nothing,
    }
}

/// What a key does. A new rule gets the ID `fresh`.
pub open spec fn key_step(m: state::AppModel, key: Key, fresh: u128) -> (
    state::AppModel,
    ActionModel,
) {
    if key.control && key.code == KeyCode::Char('c') {
        (state::AppModel { quit: true, ..m }, ActionModel::Nothing)
    } else {
        match m.import {
            Some(panel) => import_step(m, panel, key.code),
            None => match m.confirm_delete {
                Some(id) => confirm_step(m, id, key.code),
                None => match m.form {
                    Some(f) => form_step(m, f, key.code),
                    None => page_step(m, key.code, fresh),
                },
            },
        }
    }
}

// ---------------------------------------------------------------------------
// Laws
// ---------------------------------------------------------------------------
/// No key takes an index out of its range.
pub proof fn keys_keep_the_client_sound(m: state::AppModel, key: Key, fresh: u128)
    requires
        state::sound(m),
        m.import matches Some(panel) ==> panel_len(panel) <= usize::MAX,
    ensures
        state::sound(key_step(m, key, fresh).0),
{
    match m.import {
        Some(panel) => {
            panel_stays_sound(panel, key.code);
        },
        None => {},
    }
    state::selections_stay_in_range(m, m.rules, m.hosts, Page::Help, 1);
    state::selections_stay_in_range(m, m.rules, m.hosts, Page::Help, -1);
}

/// A rule is removed only by answering the question about it.
pub proof fn removal_needs_confirmation(m: state::AppModel, key: Key, fresh: u128)
    ensures
        key_step(m, key, fresh).1 matches ActionModel::RemoveRule { rule_id } ==> {
            &&& m.confirm_delete == Some(rule_id)
            &&& key.code == KeyCode::Char('y') || key.code == KeyCode::Enter
        },
{
}

/// Candidates are saved only from a panel on which a selection is being confirmed.
pub proof fn import_needs_confirmation(m: state::AppModel, key: Key, fresh: u128)
    requires
        state::sound(m),
    ensures
        key_step(m, key, fresh).1 is LoadImportSettings ==> {
            &&& m.import is Some
            &&& m.import->0.confirming
            &&& m.import->0.selected.len() > 0
        },
{
}

/// A panel is first confirmed and then saved: no single key does both.
pub proof fn confirmation_is_a_step_of_its_own(m: state::AppModel, key: Key, fresh: u128)
    requires
        m.import matches Some(panel) && !panel.confirming,
    ensures
        key_step(m, key, fresh).1 is Nothing,
{
}

/// Keys on the import panel start nothing and stop nothing.
pub proof fn import_starts_nothing(m: state::AppModel, key: Key, fresh: u128)
    requires
        m.import is Some,
    ensures
        key_step(m, key, fresh).1 is Nothing || key_step(m, key, fresh).1 is LoadImportSettings,
        key_step(m, key, fresh).0.rules == m.rules,
{
}

/// Escape closes what is open over a page and leaves the page as it is.
pub proof fn escape_closes_the_overlay(m: state::AppModel, fresh: u128)
    requires
        m.import is Some || m.confirm_delete is Some || m.form is Some,
    ensures
        ({
            let (after, action) = key_step(
                m,
                Key { code: KeyCode::Esc, control: false },
                fresh,
            );
            &&& action is Nothing
            &&& after.page == m.page && after.hosts_return == m.hosts_return
            &&& after.rules == m.rules && after.settings == m.settings
            &&& m.import is None ==> after.confirm_delete is None
            &&& m.import is None && m.confirm_delete is None ==> after.form is None
            &&& m.import matches Some(panel) ==> (if panel.confirming {
                after.import == Some(state::PanelModel { confirming: false, ..panel })
            } else {
                after.import is None
            })
        }),
{
}

/// After the list of hosts was opened for a new rule, Escape leads back to where it was opened.
pub proof fn escape_returns_from_the_hosts(m: state::AppModel, fresh: u128, again: u128)
    requires
        m.import is None,
        m.confirm_delete is None,
        m.form is None,
        m.page != Page::Hosts,
    ensures
        ({
            let opened = key_step(m, Key { code: KeyCode::Char('n'), control: false }, fresh).0;
            let back = key_step(opened, Key { code: KeyCode::Esc, control: false }, again);
            &&& opened.page == Page::Hosts
            &&& back.0.page == m.page
            &&& back.0.hosts_return is None
            &&& back.1 is Nothing
        }),
{
}

/// Leaving the client never asks for anything to be done: forwardings go on.
pub proof fn quitting_changes_nothing_else(m: state::AppModel, key: Key, fresh: u128)
    requires
        !m.quit,
        key_step(m, key, fresh).0.quit,
    ensures
        key_step(m, key, fresh) == (
            state::AppModel { quit: true, ..m },
            ActionModel::Nothing,
        ),
{
}

// ---------------------------------------------------------------------------
// The code
// ---------------------------------------------------------------------------
fn toggle(selected: &Vec<usize>, number: usize) -> (r: Vec<usize>)
    ensures
        r@ == toggled(selected@, number),
{
    let mut kept: Vec<usize> = Vec::new();
    let mut found = false;
    let mut i: usize = 0;
    assert(selected@.take(0) =~= Seq::<usize>::empty());
    while i < selected.len()
        invariant
            i <= selected@.len(),
            kept@ == without(selected@.take(i as int), number),
            found == exists|k: int| 0 <= k < i && #[trigger] selected@[k] == number,
            !found ==> kept@ == selected@.take(i as int),
        decreases selected.len() - i,
    {
        assert(selected@.take(i as int + 1).drop_last() =~= selected@.take(i as int));
        assert(selected@.take(i as int + 1).last() == selected@[i as int]);
        assert(selected@.take(i as int + 1) =~= selected@.take(i as int).push(selected@[i as int]));
        if selected[i] == number {
            found = true;
        } else {
            kept.push(selected[i]);
        }
        i = i + 1;
    }
    assert(selected@.take(selected@.len() as int) =~= selected@);
    if found {
        assert(selected@.contains(number));
    } else {
        assert(!selected@.contains(number));
        kept.push(number);
    }
    kept
}

proof fn panel_fits(panel: ImportPanel)
    ensures
        panel_len(panel@) <= usize::MAX,
{
    match panel.preview {
        Some(preview) => {
            assert(preview.candidates@.len() == preview.candidates.len());
        },
        None => {},
    }
}

/// A key on a panel that stays open.
fn panel_key(panel: &mut ImportPanel, code: KeyCode)
    requires
        state::sound_panel(old(panel)@),
    ensures
        final(panel)@ == panel_step(old(panel)@, code),
{
    if panel.confirming {
        match code {
            KeyCode::Esc | KeyCode::Char('n') => {
                panel.confirming = false;
            },
            _ => {},
        }
        return;
    }
    let len: usize = match &panel.preview {
        Some(preview) => preview.candidates.len(),
        None => 0,
    };
    match code {
        KeyCode::Down | KeyCode::Char('j') => {
            if len != 0 && panel.cursor < len - 1 {
                panel.cursor = panel.cursor + 1;
            }
        },
        KeyCode::Up | KeyCode::Char('k') => {
            if len != 0 && panel.cursor > 0 {
                panel.cursor = panel.cursor - 1;
            }
        },
        KeyCode::Char(' ') => {
            if len != 0 {
                let selectable = match &panel.preview {
                    Some(preview) => {
                        assert(import::candidate_models(preview.candidates@)[panel.cursor as int]
                            == preview.candidates@[panel.cursor as int]@);
                        matches!(
                            preview.candidates[panel.cursor].classification,
                            ImportClassification::Supported
                        )
                    },
                    None => false,
                };
                if selectable {
                    panel.selected = toggle(&panel.selected, panel.cursor + 1);
                }
            }
        },
        KeyCode::Enter => {
            if panel.selected.len() > 0 {
                panel.confirming = true;
            }
        },
        _ => {},
    }
}

/// What a key does on the import panel, if it is open.
pub fn handle_import_key(app: &mut App, key: Key) -> (r: Action)
    requires
        state::sound(old(app)@),
    ensures
        (final(app)@, r@) == (match old(app)@.import {
            Some(panel) => import_step(old(app)@, panel, key.code),
            None => (old(app)@, ActionModel::Nothing),
        }),
        state::sound(final(app)@),
{
    let mut panel = match app.import.take() {
        Some(panel) => panel,
        None => {
            return Action::Nothing;
        },
    };
    let ghost before = panel@;
    let save = panel.confirming && match key.code {
        KeyCode::Enter | KeyCode::Char('y') => true,
        _ => false,
    };
    let close = !panel.confirming && match key.code {
        KeyCode::Esc => true,
        _ => false,
    };
    if save {
        let ready = panel.preview.is_some();
        app.import = Some(panel);
        if !ready {
            return Action::Nothing;
        }
        return match rule_snapshots(app) {
            Ok(_) => Action::LoadImportSettings,
            Err(message) => {
                app.message = message;
                Action::Nothing
            },
        };
    }
    if !close {
        proof {
            panel_fits(panel);
            panel_stays_sound(before, key.code);
        }
        panel_key(&mut panel, key.code);
        app.import = Some(panel);
    }
    Action::Nothing
}

fn confirm_key(app: &mut App, id: u128, code: KeyCode) -> (r: Action)
    ensures
        (final(app)@, r@) == confirm_step(old(app)@, id, code),
{
    match code {
        KeyCode::Char('y') | KeyCode::Enter => Action::RemoveRule { rule_id: id },
        KeyCode::Char('n') | KeyCode::Esc => {
            app.confirm_delete = None;
            Action::Nothing
        },
        _ => Action::Nothing,
    }
}

fn probe_for(port: Option<u16>) -> (r: Action)
    ensures
        r@ == (match port {
            Some(port) => ActionModel::Probe { port },
            None => ActionModel::Nothing,
        }),
{
    match port {
        Some(port) => Action::Probe { port },
        None => Action::Nothing,
    }
}

/// A key on a form that stays open.
fn open_form_key(form: &mut Form, code: KeyCode) -> (r: Action)
    requires
        old(form).well_formed(),
        code != KeyCode::Esc,
    ensures
        forall|m: state::AppModel|
            (with_form(m, final(form)@), r@) == #[trigger] form_step(
                with_form(m, old(form)@),
                old(form)@,
                code,
            ),
        final(form).well_formed(),
{
    match code {
        KeyCode::Tab | KeyCode::Down => {
            form.field = (form.field + 1) % 3;
            Action::Nothing
        },
        KeyCode::BackTab | KeyCode::Up => {
            form.field = (form.field + 2) % 3;
            Action::Nothing
        },
        KeyCode::Backspace => {
            let port: Option<u16> = form.backspace();
            probe_for(port)
        },
        KeyCode::Function(n) => {
            if n == 2 {
                form.kind = match form.kind {
                    ForwardKind::Local => ForwardKind::Remote,
                    ForwardKind::Remote => ForwardKind::Dynamic,
                    ForwardKind::Dynamic => ForwardKind::Local,
                };
            } else if n == 3 {
                form.auto_start = !form.auto_start;
            } else if n == 4 {
                form.reconnect = !form.reconnect;
            }
            Action::Nothing
        },
        KeyCode::Char(c) => {
            if c == 'a' && form.field != 0 && form.suggestion.is_some() {
                form.accept_suggestion();
                Action::Nothing
            } else {
                let port: Option<u16> = form.input(c);
                probe_for(port)
            }
        },
        KeyCode::Enter => Action::Submit { port: form.port_to_probe() },
        _ => Action::Nothing,
    }
}

fn vertical_key(app: &mut App, down: bool)
    requires
        old(app).settings_field < 4,
    ensures
        (final(app)@, ActionModel::Nothing) == vertical_step(old(app)@, down),
{
    if app.page == Page::Settings {
        app.settings_field = (app.settings_field + if down {
            1
        } else {
            3
        }) % 4;
    } else {
        app.move_selection(
            if down {
                1
            } else {
                -1
            },
        );
    }
}

fn settings_key(app: &mut App) -> (r: Action)
    ensures
        (final(app)@, r@) == settings_step(old(app)@),
{
    let previous = app.settings;
    let mut settings = app.settings;
    if app.settings_field == 0 {
        settings.theme = match settings.theme {
            Theme::System => Theme::Dark,
            Theme::Dark => Theme::Light,
            Theme::Light => Theme::System,
        };
    } else if app.settings_field == 1 {
        settings.log_level = match settings.log_level {
            LogLevel::Error => LogLevel::Warn,
            LogLevel::Warn => LogLevel::Info,
            LogLevel::Info => LogLevel::Debug,
            LogLevel::Debug => LogLevel::Trace,
            LogLevel::Trace => LogLevel::Error,
        };
    } else if app.settings_field == 2 {
        settings.default_reconnect = !settings.default_reconnect;
    } else {
        settings.default_auto_start = !settings.default_auto_start;
    }
    app.settings = settings;
    Action::SaveSettings { settings, previous }
}

fn host_under_cursor(app: &App) -> (r: Option<String>)
    ensures
        match r {
            Some(host) => state::selected_host_of(app@) == Some(host@),
            None => state::selected_host_of(app@) is None,
        },
{
    if app.selected_host < app.hosts.len() {
        assert(app@.hosts[app.selected_host as int] == app.hosts@[app.selected_host as int]@);
        Some(app.hosts[app.selected_host].clone())
    } else {
        None
    }
}

fn ask_for_forwards(app: &mut App, host: String) -> (r: Action)
    ensures
        (final(app)@, r@) == ask_forwards(old(app)@, host@),
{
    match rule_snapshots(app) {
        Ok(_) => Action::QueryForwards { host },
        Err(message) => {
            app.import = Some(ImportPanel::error(host, message));
            Action::Nothing
        },
    }
}

/// Letters that open a form or the import panel, or ask something about the selected rule.
fn rule_key(app: &mut App, c: char, fresh: u128) -> (r: Action)
    requires
        c == 'e' || c == 'c' || c == 'd' || (c == ' ' && old(app).page != Page::Settings) || c
            == 'i' || ((c == 'h' || c == 's') && old(app).page == Page::Detail),
    ensures
        (final(app)@, r@) == char_step(old(app)@, c, fresh),
{
    if c == 'i' && app.page == Page::Hosts {
        return match host_under_cursor(app) {
            Some(host) => ask_for_forwards(app, host),
            None => Action::Nothing,
        };
    }
    let rule = match app.selected() {
        Some(rule) => rule.clone(),
        None => {
            return Action::Nothing;
        },
    };
    let stopped = text::same(rule.state.as_str(), "stopped");
    if c == 'e' {
        if stopped {
            app.form = Some(Form::edit(&rule));
        } else {
            app.message = "編集前に転送を停止してください".to_owned();
        }
    } else if c == 'c' {
        app.form = Some(Form::duplicate_as(fresh, &rule));
    } else if c == 'd' {
        app.confirm_delete = Some(rule.id);
    } else if c == ' ' {
        if stopped {
            return Action::StartRule { rule_id: rule.id };
        } else {
            return Action::StopRule { rule_id: rule.id };
        }
    } else if c == 'i' {
        if app.page == Page::Dashboard || app.page == Page::Detail {
            return ask_for_forwards(app, rule.host);
        }
    } else if c == 'h' {
        return Action::OpenBrowser { url: rule.url("http") };
    } else {
        return Action::OpenBrowser { url: rule.url("https") };
    }
    Action::Nothing
}

fn char_key(app: &mut App, c: char, fresh: u128) -> (r: Action)
    requires
        old(app).settings_field < 4,
    ensures
        (final(app)@, r@) == char_step(old(app)@, c, fresh),
{
    if c == 'q' {
        app.quit = true;
        Action::Nothing
    } else if c == '?' {
        app.show_page(Page::Help);
        Action::Nothing
    } else if c == 'j' || c == 'k' {
        vertical_key(app, c == 'j');
        Action::Nothing
    } else if c == ' ' && app.page == Page::Settings {
        settings_key(app)
    } else if c == 'n' {
        if app.page != Page::Hosts {
            app.hosts_return = Some(app.page);
        }
        app.page = Page::Hosts;
        app.message = "ホストを選び Enter を押してください".to_owned();
        Action::Nothing
    } else if c == 'r' && app.page == Page::Hosts {
        Action::RefreshHosts
    } else if c == 'e' || c == 'c' || c == 'd' || c == ' ' || c == 'i' || ((c == 'h' || c == 's')
        && app.page == Page::Detail) {
        rule_key(app, c, fresh)
    } else {
        Action::Nothing
    }
}

fn enter_key(app: &mut App, fresh: u128) -> (r: Action)
    ensures
        (final(app)@, r@) == page_step(old(app)@, KeyCode::Enter, fresh),
{
    match app.page {
        Page::Settings => settings_key(app),
        Page::Hosts => {
            match host_under_cursor(app) {
                Some(host) => {
                    let mut form = Form::with_id(fresh, host);
                    form.auto_start = app.settings.default_auto_start;
                    form.reconnect = app.settings.default_reconnect;
                    app.form = Some(form);
                },
                None => {},
            }
            Action::Nothing
        },
        Page::Dashboard => {
            app.show_page(Page::Detail);
            Action::Nothing
        },
        _ => Action::Nothing,
    }
}

fn page_key(app: &mut App, code: KeyCode, fresh: u128) -> (r: Action)
    requires
        old(app).settings_field < 4,
    ensures
        (final(app)@, r@) == page_step(old(app)@, code, fresh),
{
    match code {
        KeyCode::Char(c) => char_key(app, c, fresh),
        KeyCode::Esc => {
            if app.page == Page::Hosts {
                match app.hosts_return {
                    Some(previous) => {
                        app.hosts_return = None;
                        app.show_page(previous);
                    },
                    None => {},
                }
            }
            Action::Nothing
        },
        KeyCode::Tab => {
            let next = match app.page {
                Page::Dashboard => Page::Hosts,
                Page::Hosts => Page::Detail,
                Page::Detail => Page::Settings,
                Page::Settings => Page::Help,
                Page::Help => Page::Dashboard,
            };
            app.show_page(next);
            Action::Nothing
        },
        KeyCode::Down => {
            vertical_key(app, true);
            Action::Nothing
        },
        KeyCode::Up => {
            vertical_key(app, false);
            Action::Nothing
        },
        KeyCode::Left | KeyCode::Right => {
            if app.page == Page::Settings {
                settings_key(app)
            } else {
                Action::Nothing
            }
        },
        KeyCode::Enter => enter_key(app, fresh),
        _ => Action::Nothing,
    }
}

/// As `handle_key`, with the ID that a new rule gets.
pub fn handle_key_with(app: &mut App, key: Key, fresh: u128) -> (r: Action)
    requires
        state::sound(old(app)@),
    ensures
        (final(app)@, r@) == key_step(old(app)@, key, fresh),
        state::sound(final(app)@),
{
    let ghost before = app@;
    proof {
        if app.import is Some {
            panel_fits(app.import->0);
        }
        keys_keep_the_client_sound(before, key, fresh);
    }
    let interrupt = key.control && match key.code {
        KeyCode::Char('c') => true,
        _ => false,
    };
    if interrupt {
        app.quit = true;
        return Action::Nothing;
    }
    if app.import.is_some() {
        return handle_import_key(app, key);
    }
    match app.confirm_delete {
        Some(id) => {
            return confirm_key(app, id, key.code);
        },
        None => {},
    }
    match app.form.take() {
        Some(form) => {
            let mut form = form;
            match key.code {
                KeyCode::Esc => {
                    return Action::Nothing;
                },
                _ => {},
            }
            let ghost f = form@;
            let action = open_form_key(&mut form, key.code);
            app.form = Some(form);
            assert(with_form(before, f) == before);
            assert((with_form(before, form@), action@) == form_step(
                with_form(before, f),
                f,
                key.code,
            ));
            action
        },
        None => page_key(app, key.code, fresh),
    }
}

/// Takes a key and says what is to be done outside.
pub fn handle_key(app: &mut App, key: Key) -> (r: Action)
    requires
        state::sound(old(app)@),
    ensures
        exists|fresh: u128|
            identity::version_four(fresh) && (final(app)@, r@) == #[trigger] key_step(
                old(app)@,
                key,
                fresh,
            ),
        state::sound(final(app)@),
{
    let fresh: u128 = identity::random_uuid();
    handle_key_with(app, key, fresh)
}

// ---------------------------------------------------------------------------
// What each key does
// ---------------------------------------------------------------------------
/// No overlay is open over the page.
pub open spec fn on_a_page(m: state::AppModel) -> bool {
    m.import is None && m.confirm_delete is None && m.form is None
}

pub open spec fn plain(code: KeyCode) -> Key {
    Key { code, control: false }
}

/// The space bar starts the selected rule if it is stopped and stops it otherwise. On the settings it
/// changes a setting instead.
pub proof fn space_starts_and_stops(m: state::AppModel, fresh: u128)
    requires
        on_a_page(m),
        m.page != Page::Settings,
        0 <= m.selected_rule < m.rules.len(),
    ensures
        ({
            let v = m.rules[m.selected_rule];
            let (after, action) = key_step(m, plain(KeyCode::Char(' ')), fresh);
            &&& after == m
            &&& v.state == "stopped"@ ==> action == (ActionModel::StartRule { rule_id: v.id })
            &&& v.state != "stopped"@ ==> action == (ActionModel::StopRule { rule_id: v.id })
        }),
{
}

/// `e` edits the selected rule if it is stopped and asks to stop it otherwise, `c` copies it under a
/// new ID, and `d` asks whether it is to be removed. None of them does anything by itself.
pub proof fn letters_edit_copy_and_remove(m: state::AppModel, fresh: u128)
    requires
        on_a_page(m),
        0 <= m.selected_rule < m.rules.len(),
    ensures
        ({
            let v = m.rules[m.selected_rule];
            let edit = key_step(m, plain(KeyCode::Char('e')), fresh);
            let copy = key_step(m, plain(KeyCode::Char('c')), fresh);
            let remove = key_step(m, plain(KeyCode::Char('d')), fresh);
            &&& edit.1 is Nothing && copy.1 is Nothing && remove.1 is Nothing
            &&& v.state == "stopped"@ ==> edit.0 == (state::AppModel {
                form: Some(form::edit_form(v)),
                ..m
            })
            &&& v.state != "stopped"@ ==> edit.0 == (state::AppModel {
                message: "編集前に転送を停止してください"@,
                ..m
            })
            &&& copy.0 == (state::AppModel { form: Some(form::copy_form(fresh, v)), ..m })
            &&& remove.0 == (state::AppModel { confirm_delete: Some(v.id), ..m })
        }),
{
}

/// A removal that was asked for is confirmed by `y` or Enter and called off by `n` or Escape.
pub proof fn removals_are_confirmed_or_called_off(m: state::AppModel, id: u128, code: KeyCode, fresh: u128)
    requires
        m.import is None,
        m.confirm_delete == Some(id),
    ensures
        ({
            let (after, action) = key_step(m, plain(code), fresh);
            let yes = code == KeyCode::Char('y') || code == KeyCode::Enter;
            let no = code == KeyCode::Char('n') || code == KeyCode::Esc;
            &&& yes ==> action == (ActionModel::RemoveRule { rule_id: id }) && after == m
            &&& no ==> action is Nothing && after == (state::AppModel { confirm_delete: None, ..m })
            &&& !yes && !no ==> action is Nothing && after == m
        }),
{
}

/// On the details `h` opens the rule over HTTP and `s` over HTTPS. Elsewhere they do nothing.
pub proof fn letters_open_the_browser(m: state::AppModel, fresh: u128)
    requires
        on_a_page(m),
        0 <= m.selected_rule < m.rules.len(),
    ensures
        ({
            let v = m.rules[m.selected_rule];
            let plain_step = key_step(m, plain(KeyCode::Char('h')), fresh);
            let secure_step = key_step(m, plain(KeyCode::Char('s')), fresh);
            &&& m.page == Page::Detail ==> plain_step == (
                m,
                ActionModel::OpenBrowser { url: tui::url_of(v, "http"@) },
            ) && secure_step == (m, ActionModel::OpenBrowser { url: tui::url_of(v, "https"@) })
            &&& m.page != Page::Detail ==> plain_step == (m, ActionModel::Nothing) && secure_step
                == (m, ActionModel::Nothing)
        }),
{
}

/// `j` and the down key move down, `k` and the up key move up. On the settings they go from setting to
/// setting in a circle, and elsewhere from row to row.
pub proof fn keys_move_the_selection(m: state::AppModel, fresh: u128)
    requires
        on_a_page(m),
    ensures
        ({
            let down = key_step(m, plain(KeyCode::Down), fresh);
            let up = key_step(m, plain(KeyCode::Up), fresh);
            &&& key_step(m, plain(KeyCode::Char('j')), fresh) == down
            &&& key_step(m, plain(KeyCode::Char('k')), fresh) == up
            &&& down.1 is Nothing && up.1 is Nothing
            &&& m.page != Page::Settings ==> down.0 == state::moved(m, 1) && up.0 == state::moved(
                m,
                -1,
            )
            &&& m.page == Page::Settings && 0 <= m.settings_field < 4 ==> {
                &&& m.settings_field < 3 ==> down.0.settings_field == m.settings_field + 1
                &&& m.settings_field == 3 ==> down.0.settings_field == 0
                &&& m.settings_field > 0 ==> up.0.settings_field == m.settings_field - 1
                &&& m.settings_field == 0 ==> up.0.settings_field == 3
                &&& down.0 == (state::AppModel { settings_field: down.0.settings_field, ..m })
                &&& up.0 == (state::AppModel { settings_field: up.0.settings_field, ..m })
            }
        }),
{
}

/// Tab goes through the pages in a circle, the question mark goes to the help, `n` to the hosts and
/// Enter from the dashboard to the details.
pub proof fn keys_turn_the_page(m: state::AppModel, fresh: u128)
    requires
        on_a_page(m),
    ensures
        ({
            let page = key_step(m, plain(KeyCode::Tab), fresh).0.page;
            &&& m.page == Page::Dashboard ==> page == Page::Hosts
            &&& m.page == Page::Hosts ==> page == Page::Detail
            &&& m.page == Page::Detail ==> page == Page::Settings
            &&& m.page == Page::Settings ==> page == Page::Help
            &&& m.page == Page::Help ==> page == Page::Dashboard
            &&& key_step(m, plain(KeyCode::Char('?')), fresh).0.page == Page::Help
            &&& key_step(m, plain(KeyCode::Char('n')), fresh).0.page == Page::Hosts
            &&& m.page == Page::Dashboard ==> key_step(m, plain(KeyCode::Enter), fresh).0.page
                == Page::Detail
            &&& key_step(m, plain(KeyCode::Tab), fresh).1 is Nothing
            &&& key_step(m, plain(KeyCode::Char('?')), fresh).1 is Nothing
        }),
{
}

/// On the list of hosts Enter opens an empty form for the selected host, with the policy of the
/// settings; `r` reads the hosts anew.
pub proof fn hosts_lead_to_new_rules(m: state::AppModel, fresh: u128)
    requires
        on_a_page(m),
        m.page == Page::Hosts,
        0 <= m.selected_host < m.hosts.len(),
    ensures
        ({
            let (after, action) = key_step(m, plain(KeyCode::Enter), fresh);
            &&& action is Nothing
            &&& after.form matches Some(f) && f.id == fresh && f.host == m.hosts[m.selected_host]
                && !f.editing && f.auto_start == m.settings.default_auto_start && f.reconnect
                == m.settings.default_reconnect && f.name.len() == 0 && f.kind == ForwardKind::Local
            &&& key_step(m, plain(KeyCode::Char('r')), fresh) == (m, ActionModel::RefreshHosts)
        }),
        key_step(m, plain(KeyCode::Char('i')), fresh).1 is Nothing || key_step(
            m,
            plain(KeyCode::Char('i')),
            fresh,
        ).1 == (ActionModel::QueryForwards { host: m.hosts[m.selected_host] }),
{
}

/// `i` asks for the forwardings of the selected host, or of the host of the selected rule. Where the
/// rules at hand are not valid, it says so instead.
pub proof fn imports_are_about_the_selected_host(m: state::AppModel, fresh: u128)
    requires
        on_a_page(m),
    ensures
        ({
            let r = key_step(m, plain(KeyCode::Char('i')), fresh);
            let wanted = if m.page == Page::Hosts {
                state::selected_host_of(m)
            } else if m.page == Page::Dashboard || m.page == Page::Detail {
                match state::selected_of(m) {
                    Some(v) => Some(v.host),
                    None => None,
                }
            } else {
                None
            };
            &&& wanted is None ==> r == (m, ActionModel::Nothing)
            &&& wanted matches Some(host) ==> (match snapshot_refusal(m) {
                None => r == (m, ActionModel::QueryForwards { host }),
                Some(refusal) => r.1 is Nothing && r.0 == (state::AppModel {
                    import: Some(
                        state::error_panel(host, validation::refusal_message(refusal)),
                    ),
                    ..m
                }),
            })
        }),
{
}

/// Changing a setting changes the one that is pointed at and no other, and saves what it was before.
/// Themes and levels go round; the policies are switched.
pub proof fn settings_are_changed_one_at_a_time(m: state::AppModel, fresh: u128)
    requires
        on_a_page(m),
        m.page == Page::Settings,
        0 <= m.settings_field < 4,
    ensures
        ({
            let (after, action) = key_step(m, plain(KeyCode::Enter), fresh);
            let s = after.settings;
            &&& key_step(m, plain(KeyCode::Char(' ')), fresh) == (after, action)
            &&& key_step(m, plain(KeyCode::Left), fresh) == (after, action)
            &&& key_step(m, plain(KeyCode::Right), fresh) == (after, action)
            &&& action == (ActionModel::SaveSettings { settings: s, previous: m.settings })
            &&& after == (state::AppModel { settings: s, ..m })
            &&& m.settings_field == 0 ==> s == (Settings { theme: s.theme, ..m.settings })
                && s.theme != m.settings.theme
            &&& m.settings_field == 1 ==> s == (Settings { log_level: s.log_level, ..m.settings })
                && s.log_level != m.settings.log_level
            &&& m.settings_field == 2 ==> s == (Settings {
                default_reconnect: !m.settings.default_reconnect,
                ..m.settings
            })
            &&& m.settings_field == 3 ==> s == (Settings {
                default_auto_start: !m.settings.default_auto_start,
                ..m.settings
            })
        }),
{
}

/// The themes and the levels in their circles.
pub proof fn themes_and_levels_go_round(theme: Theme, level: LogLevel)
    ensures
        next_theme(Theme::System) == Theme::Dark,
        next_theme(Theme::Dark) == Theme::Light,
        next_theme(Theme::Light) == Theme::System,
        next_level(LogLevel::Error) == LogLevel::Warn,
        next_level(LogLevel::Warn) == LogLevel::Info,
        next_level(LogLevel::Info) == LogLevel::Debug,
        next_level(LogLevel::Debug) == LogLevel::Trace,
        next_level(LogLevel::Trace) == LogLevel::Error,
        next_theme(next_theme(next_theme(theme))) == theme,
        next_level(next_level(next_level(next_level(next_level(level))))) == level,
{
}

/// In a form Tab and the down key go to the next field and their opposites to the one before, in a
/// circle. The function keys change the type and the two policies, each its own.
pub proof fn keys_change_the_form(m: state::AppModel, f: form::FormModel, fresh: u128)
    requires
        m.import is None,
        m.confirm_delete is None,
        m.form == Some(f),
        0 <= f.field < 3,
    ensures
        ({
            let next = key_step(m, plain(KeyCode::Tab), fresh);
            let back = key_step(m, plain(KeyCode::BackTab), fresh);
            let kind = key_step(m, plain(KeyCode::Function(2)), fresh);
            let start = key_step(m, plain(KeyCode::Function(3)), fresh);
            let again = key_step(m, plain(KeyCode::Function(4)), fresh);
            &&& next == key_step(m, plain(KeyCode::Down), fresh)
            &&& back == key_step(m, plain(KeyCode::Up), fresh)
            &&& next.1 is Nothing && back.1 is Nothing && kind.1 is Nothing && start.1 is Nothing
                && again.1 is Nothing
            &&& next.0.form == Some(
                form::FormModel {
                    field: if f.field == 2 {
                        0
                    } else {
                        f.field + 1
                    },
                    ..f
                },
            )
            &&& back.0.form == Some(
                form::FormModel {
                    field: if f.field == 0 {
                        2
                    } else {
                        f.field - 1
                    },
                    ..f
                },
            )
            &&& kind.0.form == Some(form::FormModel { kind: form::next_kind(f.kind), ..f })
            &&& start.0.form == Some(form::FormModel { auto_start: !f.auto_start, ..f })
            &&& again.0.form == Some(form::FormModel { reconnect: !f.reconnect, ..f })
        }),
{
}

/// In a form characters are typed, the backspace erases, Enter submits and `a` accepts a suggested
/// port outside the name. Whenever the local port changes, it is tried.
pub proof fn characters_are_typed_into_the_form(
    m: state::AppModel,
    f: form::FormModel,
    c: char,
    fresh: u128,
)
    requires
        m.import is None,
        m.confirm_delete is None,
        m.form == Some(f),
    ensures
        ({
            let r = key_step(m, plain(KeyCode::Char(c)), fresh);
            let accepts = c == 'a' && f.field != 0 && f.suggestion is Some;
            let erase = key_step(m, plain(KeyCode::Backspace), fresh);
            &&& accepts ==> r.0.form == Some(form::accepted(f)) && r.1 is Nothing
            &&& !accepts ==> r.0.form == Some(form::typed(f, c)) && (
            match form::local_port_of(form::typed(f, c)) {
                Some(port) => r.1 == (ActionModel::Probe { port }),
                None => r.1 is Nothing,
            })
            &&& erase.0.form == Some(form::erased(f))
            &&& form::local_port_of(form::erased(f)) matches Some(port) ==> erase.1
                == (ActionModel::Probe { port })
            &&& key_step(m, plain(KeyCode::Enter), fresh) == (
                m,
                ActionModel::Submit { port: form::submit_port(f) },
            )
        }),
{
}

/// On the import panel `j` and `k` move the cursor, the space bar selects the candidate under it if
/// that can be saved, and Enter asks for a confirmation once something is selected.
pub proof fn keys_select_candidates(p: state::PanelModel)
    requires
        state::sound_panel(p),
        !p.confirming,
        panel_len(p) > 0,
    ensures
        ({
            let candidates = p.preview->0.candidates;
            let down = panel_step(p, KeyCode::Char('j'));
            let up = panel_step(p, KeyCode::Char('k'));
            let mark = panel_step(p, KeyCode::Char(' '));
            let number = (p.cursor + 1) as usize;
            &&& down == panel_step(p, KeyCode::Down) && up == panel_step(p, KeyCode::Up)
            &&& p.cursor + 1 < candidates.len() ==> down.cursor == p.cursor + 1
            &&& p.cursor + 1 == candidates.len() ==> down.cursor == p.cursor
            &&& p.cursor > 0 ==> up.cursor == p.cursor - 1
            &&& p.cursor == 0 ==> up.cursor == 0
            &&& down.selected == p.selected && up.selected == p.selected
            &&& !(candidates[p.cursor].verdict is Supported) ==> mark == p
            &&& candidates[p.cursor].verdict is Supported ==> (mark.selected.contains(number)
                <==> !p.selected.contains(number)) && mark.cursor == p.cursor && !mark.confirming
            &&& panel_step(p, KeyCode::Enter).confirming <==> p.selected.len() > 0
        }),
{
    let number = (p.cursor + 1) as usize;
    without_keeps_others(p.selected, number);
    if !p.selected.contains(number) {
        let more = p.selected.push(number);
        assert(more[more.len() - 1] == number);
    }
}

/// A selection that is being confirmed is saved by `y` or Enter, if the rules at hand are valid, and
/// called off by `n` or Escape. Nothing else happens to it.
pub proof fn imports_are_confirmed_or_called_off(
    m: state::AppModel,
    p: state::PanelModel,
    code: KeyCode,
    fresh: u128,
)
    requires
        m.import == Some(p),
        p.confirming,
        p.preview is Some,
    ensures
        ({
            let (after, action) = key_step(m, plain(code), fresh);
            let yes = code == KeyCode::Char('y') || code == KeyCode::Enter;
            let no = code == KeyCode::Char('n') || code == KeyCode::Esc;
            &&& yes && snapshot_refusal(m) is None ==> action is LoadImportSettings && after == m
            &&& yes && snapshot_refusal(m) is Some ==> action is Nothing && after
                == (state::AppModel {
                message: validation::refusal_message(snapshot_refusal(m)->0),
                ..m
            })
            &&& no ==> action is Nothing && after.import == Some(
                state::PanelModel { confirming: false, ..p },
            )
            &&& !yes && !no ==> action is Nothing && after.import == Some(p)
        }),
{
}

/// `q` quits from a page, and Control with `c` from anywhere. Letters without a meaning do nothing.
pub proof fn two_keys_quit(m: state::AppModel, c: char, fresh: u128)
    ensures
        key_step(m, Key { code: KeyCode::Char('c'), control: true }, fresh).0.quit,
        on_a_page(m) ==> key_step(m, plain(KeyCode::Char('q')), fresh).0.quit,
        on_a_page(m) && c != 'q' && c != '?' && c != 'j' && c != 'k' && c != ' ' && c != 'n' && c
            != 'r' && c != 'i' && c != 'e' && c != 'c' && c != 'd' && c != 'h' && c != 's'
            ==> key_step(m, plain(KeyCode::Char(c)), fresh) == (m, ActionModel::Nothing),
{
}

/// The rules at hand are refused exactly if one of them is invalid.
pub proof fn snapshots_are_refused_for_invalid_rules(m: state::AppModel)
    ensures
        snapshot_refusal(m) is None <==> forall|i: int|
            0 <= i < m.rules.len() ==> rule::valid_rule(#[trigger] state::stored_rules(m.rules)[i]),
{
    conversion::no_refusal_means_all_valid(state::stored_rules(m.rules));
    assert(state::stored_rules(m.rules).len() == m.rules.len());
}

/// What an action says is what it holds.
pub proof fn actions_say_what_they_hold(action: Action)
    ensures
        action is Nothing <==> action@ is Nothing,
        action matches Action::Probe { port } ==> action@ == (ActionModel::Probe { port }),
        action matches Action::Submit { port } ==> action@ == (ActionModel::Submit { port }),
        action matches Action::AddRule { rule } ==> action@ == (ActionModel::AddRule {
            rule: rule@,
        }),
        action matches Action::StartSaved { rule_id } ==> action@ == (ActionModel::StartSaved {
            rule_id,
        }),
        action matches Action::RemoveRule { rule_id } ==> action@ == (ActionModel::RemoveRule {
            rule_id,
        }),
        action matches Action::SaveSettings { settings, previous } ==> action@
            == (ActionModel::SaveSettings { settings, previous }),
        action matches Action::StartRule { rule_id } ==> action@ == (ActionModel::StartRule {
            rule_id,
        }),
        action matches Action::StopRule { rule_id } ==> action@ == (ActionModel::StopRule {
            rule_id,
        }),
        action is RefreshHosts <==> action@ is RefreshHosts,
        action matches Action::QueryForwards { host } ==> action@ == (ActionModel::QueryForwards {
            host: host@,
        }),
        action is LoadImportSettings <==> action@ is LoadImportSettings,
        action matches Action::ImportRules { rules } ==> action@ == (ActionModel::ImportRules {
            rules: config::wires(rules@),
        }),
        action matches Action::OpenBrowser { url } ==> action@ == (ActionModel::OpenBrowser {
            url: url@,
        }),
        action is Refresh <==> action@ is Refresh,
{
}

} // verus!
