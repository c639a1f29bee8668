//! The state of the client and the operations on it.
use super::form::Form;
use super::RuleView;
use crate::application::hosts;
use crate::application::import;
use crate::application::import::ImportPreview;
use crate::config::conversion;
use crate::config::{Rule as WireRule, Settings};
use crate::domain::rule;
use crate::domain::rule::{Rule, RuleId};
use crate::domain::validation;
use crate::text;
use crate::tui;
use crate::tui::form;
use vstd::prelude::*;
use vstd::string::*;

verus! {

#[derive(Clone, Copy, Debug, PartialEq, Eq, Structural)]
pub enum Page {
    Dashboard,
    Hosts,
    Detail,
    Settings,
    Help,
}

// ---------------------------------------------------------------------------
// The import panel
// ---------------------------------------------------------------------------
/// The forwardings of a host, of which some can be selected and saved.
#[derive(Debug)]
pub struct ImportPanel {
    pub host: String,
    pub preview: Option<ImportPreview>,
    pub error: Option<String>,
    pub cursor: usize,
    /// Numbers of candidates, counted from 1.
    pub selected: Vec<usize>,
    pub confirming: bool,
}

#[verifier::ext_equal]
pub struct PreviewModel {
    pub alias: Seq<char>,
    pub candidates: Seq<import::CandidateModel>,
}

/// What an import panel holds.
#[verifier::ext_equal]
pub struct PanelModel {
    pub host: Seq<char>,
    pub preview: Option<PreviewModel>,
    pub error: Option<Seq<char>>,
    pub cursor: int,
    pub selected: Seq<usize>,
    pub confirming: bool,
}

pub open spec fn preview_model(preview: ImportPreview) -> PreviewModel {
    PreviewModel {
        alias: preview.ssh_host_alias@,
        candidates: import::candidate_models(preview.candidates@),
    }
}

impl View for ImportPanel {
    type V = PanelModel;

    open spec fn view(&self) -> PanelModel {
        PanelModel {
            host: self.host@,
            preview: match self.preview {
                Some(preview) => Some(preview_model(preview)),
                None => None,
            },
            error: hosts::optional_text(self.error),
            cursor: self.cursor as int,
            selected: self.selected@,
            confirming: self.confirming,
        }
    }
}

pub open spec fn preview_panel(preview: PreviewModel) -> PanelModel {
    PanelModel {
        host: preview.alias,
        preview: Some(preview),
        error: None,
        cursor: 0,
        selected: Seq::empty(),
        confirming: false,
    }
}

pub open spec fn error_panel(host: Seq<char>, error: Seq<char>) -> PanelModel {
    PanelModel {
        host,
        preview: None,
        error: Some(error),
        cursor: 0,
        selected: Seq::empty(),
        confirming: false,
    }
}

impl ImportPanel {
    pub fn preview(preview: ImportPreview) -> (r: Self)
        ensures
            r@ == preview_panel(preview_model(preview)),
    {
        ImportPanel {
            host: preview.ssh_host_alias.clone(),
            preview: Some(preview),
            error: None,
            cursor: 0,
            selected: Vec::new(),
            confirming: false,
        }
    }

    pub fn error(host: String, error: String) -> (r: Self)
        ensures
            r@ == error_panel(host@, error@),
    {
        ImportPanel {
            host,
            preview: None,
            error: Some(error),
            cursor: 0,
            selected: Vec::new(),
            confirming: false,
        }
    }
}

// ---------------------------------------------------------------------------
// The client
// ---------------------------------------------------------------------------
#[derive(Debug)]
pub struct App {
    pub page: Page,
    /// Where Escape leads back to from the list of hosts.
    pub hosts_return: Option<Page>,
    pub hosts: Vec<String>,
    pub rules: Vec<RuleView>,
    pub selected_host: usize,
    pub selected_rule: usize,
    pub host_offset: usize,
    pub rule_offset: usize,
    pub selected_id: Option<u128>,
    pub form: Option<Form>,
    pub confirm_delete: Option<u128>,
    pub import: Option<ImportPanel>,
    pub message: String,
    pub settings: Settings,
    pub settings_field: usize,
    pub quit: bool,
}

/// What the client holds.
#[verifier::ext_equal]
pub struct AppModel {
    pub page: Page,
    pub hosts_return: Option<Page>,
    pub hosts: Seq<Seq<char>>,
    pub rules: Seq<tui::ShownRule>,
    pub selected_host: int,
    pub selected_rule: int,
    pub host_offset: int,
    pub rule_offset: int,
    pub selected_id: Option<u128>,
    pub form: Option<form::FormModel>,
    pub confirm_delete: Option<u128>,
    pub import: Option<PanelModel>,
    pub message: Seq<char>,
    pub settings: Settings,
    pub settings_field: int,
    pub quit: bool,
}

pub open spec fn shown_rules(rules: Seq<RuleView>) -> Seq<tui::ShownRule> {
    rules.map_values(|r: RuleView| r@)
}

impl View for App {
    type V = AppModel;

    open spec fn view(&self) -> AppModel {
        AppModel {
            page: self.page,
            hosts_return: self.hosts_return,
            hosts: text::texts(self.hosts@),
            rules: shown_rules(self.rules@),
            selected_host: self.selected_host as int,
            selected_rule: self.selected_rule as int,
            host_offset: self.host_offset as int,
            rule_offset: self.rule_offset as int,
            selected_id: self.selected_id,
            form: match self.form {
                Some(form) => Some(form@),
                None => None,
            },
            confirm_delete: self.confirm_delete,
            import: match self.import {
                Some(panel) => Some(panel@),
                None => None,
            },
            message: self.message@,
            settings: self.settings,
            settings_field: self.settings_field as int,
            quit: self.quit,
        }
    }
}

/// An index into a list of this length; 0 if the list is empty.
pub open spec fn in_range(index: int, len: nat) -> bool {
    0 <= index && (index < len || (len == 0 && index == 0))
}

/// The cursor is on a candidate, the selected numbers stand for different candidates that can be
/// saved, and only a selection is confirmed.
pub open spec fn sound_panel(p: PanelModel) -> bool {
    &&& p.confirming ==> p.selected.len() > 0
    &&& match p.preview {
        Some(preview) => {
            &&& in_range(p.cursor, preview.candidates.len())
            &&& import::coherent(preview.candidates)
            &&& import::all_importable(preview.candidates, p.selected)
            &&& forall|i: int, j: int|
                0 <= i < j < p.selected.len() ==> p.selected[i] != p.selected[j]
        },
        None => p.cursor == 0 && p.selected.len() == 0,
    }
}

/// Every index is in range.
pub open spec fn sound(m: AppModel) -> bool {
    &&& in_range(m.selected_host, m.hosts.len())
    &&& in_range(m.selected_rule, m.rules.len())
    &&& 0 <= m.settings_field < 4
    &&& m.form matches Some(form) ==> 0 <= form.field < 3
    &&& m.import matches Some(panel) ==> sound_panel(panel)
}

pub open spec fn first_message() -> Seq<char> {
    "Tab/上部クリック: 画面切替  行クリック/ホイール: 選択  ?: ヘルプ  q: 終了"@
}

impl Default for App {
    fn default() -> (r: Self)
        ensures
            sound(r@),
            r@ == (AppModel {
                page: Page::Dashboard,
                hosts_return: None,
                hosts: Seq::empty(),
                rules: Seq::empty(),
                selected_host: 0,
                selected_rule: 0,
                host_offset: 0,
                rule_offset: 0,
                selected_id: None,
                form: None,
                confirm_delete: None,
                import: None,
                message: first_message(),
                settings: r.settings,
                settings_field: 0,
                quit: false,
            }),
            r.settings == (Settings {
                theme: crate::config::Theme::System,
                log_level: crate::config::LogLevel::Info,
                default_reconnect: false,
                default_auto_start: false,
            }),
    {
        let r = App {
            page: Page::Dashboard,
            hosts_return: None,
            hosts: Vec::new(),
            rules: Vec::new(),
            selected_host: 0,
            selected_rule: 0,
            host_offset: 0,
            rule_offset: 0,
            selected_id: None,
            form: None,
            confirm_delete: None,
            import: None,
            message:
                "Tab/上部クリック: 画面切替  行クリック/ホイール: 選択  ?: ヘルプ  q: 終了".to_owned(),
            settings: Settings::default(),
            settings_field: 0,
            quit: false,
        };
        assert(r@.hosts =~= Seq::<Seq<char>>::empty());
        assert(r@.rules =~= Seq::<tui::ShownRule>::empty());
        r
    }
}

/// Leaving the list of hosts forgets where Escape leads.
pub open spec fn on_page(m: AppModel, page: Page) -> AppModel {
    AppModel {
        hosts_return: if m.page == Page::Hosts && page != Page::Hosts {
            None
        } else {
            m.hosts_return
        },
        page,
        ..m
    }
}

pub open spec fn selected_of(m: AppModel) -> Option<tui::ShownRule> {
    if 0 <= m.selected_rule < m.rules.len() {
        Some(m.rules[m.selected_rule])
    } else {
        None
    }
}

pub open spec fn selected_host_of(m: AppModel) -> Option<Seq<char>> {
    if 0 <= m.selected_host < m.hosts.len() {
        Some(m.hosts[m.selected_host])
    } else {
        None
    }
}

/// Remembers the selected rule by its ID.
pub open spec fn with_selected_id(m: AppModel) -> AppModel {
    AppModel {
        selected_id: match selected_of(m) {
            Some(rule) => Some(rule.id),
            None => None,
        },
        ..m
    }
}

/// The index nearest to `n` in a list of this length.
pub open spec fn nearest(n: int, len: nat) -> int {
    if len == 0 || n < 0 {
        0
    } else if n >= len {
        len - 1
    } else {
        n
    }
}

/// Moves the selection of hosts on the list of hosts, that of rules elsewhere.
pub open spec fn moved(m: AppModel, delta: int) -> AppModel {
    with_selected_id(
        if m.page == Page::Hosts {
            if m.hosts.len() == 0 {
                m
            } else {
                AppModel { selected_host: nearest(m.selected_host + delta, m.hosts.len()), ..m }
            }
        } else if m.rules.len() == 0 {
            m
        } else {
            AppModel { selected_rule: nearest(m.selected_rule + delta, m.rules.len()), ..m }
        },
    )
}

/// Where the first rule with this ID stands, or the number of rules.
pub open spec fn first_with_id(rules: Seq<tui::ShownRule>, id: u128) -> int
    decreases rules.len(),
{
    if rules.len() == 0 {
        0
    } else {
        let k = first_with_id(rules.drop_last(), id);
        if k < rules.len() - 1 || rules.last().id == id {
            k
        } else {
            rules.len() as int
        }
    }
}

pub proof fn first_with_id_position(rules: Seq<tui::ShownRule>, id: u128)
    ensures
        0 <= first_with_id(rules, id) <= rules.len(),
        first_with_id(rules, id) < rules.len() ==> rules[first_with_id(rules, id)].id == id,
        forall|i: int|
            0 <= i < first_with_id(rules, id) ==> (#[trigger] rules[i]).id != id,
    decreases rules.len(),
{
    if rules.len() > 0 {
        let earlier = rules.drop_last();
        first_with_id_position(earlier, id);
        assert forall|i: int| 0 <= i < first_with_id(rules, id) implies (#[trigger] rules[i]).id
            != id by {
            if i < earlier.len() {
                assert(earlier[i] == rules[i]);
            }
        }
    }
}

/// The ID that decides which rule stays selected.
pub open spec fn kept_id(m: AppModel) -> Option<u128> {
    match m.selected_id {
        Some(id) => Some(id),
        None => match selected_of(m) {
            Some(rule) => Some(rule.id),
            None => None,
        },
    }
}

/// Other rules: the selected one stays selected if it is still there.
pub open spec fn with_rules(m: AppModel, rules: Seq<tui::ShownRule>) -> AppModel {
    let fallback = nearest(m.selected_rule, rules.len());
    let selected_rule = match kept_id(m) {
        Some(id) => if first_with_id(rules, id) < rules.len() {
            first_with_id(rules, id)
        } else {
            fallback
        },
        None => fallback,
    };
    with_selected_id(AppModel { rules, selected_rule, ..m })
}

pub open spec fn with_hosts(m: AppModel, found: Seq<Seq<char>>) -> AppModel {
    let selected_host = nearest(m.selected_host, found.len());
    AppModel {
        hosts: found,
        selected_host,
        host_offset: if m.host_offset < selected_host {
            m.host_offset
        } else {
            selected_host
        },
        ..m
    }
}

/// A refresh keeps the selected rule selected, wherever it now stands.
pub proof fn selection_survives_refresh(
    m: AppModel,
    rules: Seq<tui::ShownRule>,
    id: u128,
    k: int,
)
    requires
        kept_id(m) == Some(id),
        0 <= k < rules.len(),
        rules[k].id == id,
    ensures
        selected_of(with_rules(m, rules)) matches Some(rule) && rule.id == id,
        with_rules(m, rules).selected_id == Some(id),
{
    first_with_id_position(rules, id);
}

/// Replacing the rules or the hosts, turning the page and moving the selection leave every index
/// in range.
pub proof fn selections_stay_in_range(
    m: AppModel,
    rules: Seq<tui::ShownRule>,
    found: Seq<Seq<char>>,
    page: Page,
    delta: int,
)
    requires
        sound(m),
    ensures
        sound(with_rules(m, rules)),
        sound(with_hosts(m, found)),
        sound(on_page(m, page)),
        sound(moved(m, delta)),
{
    match kept_id(m) {
        Some(id) => {
            first_with_id_position(rules, id);
        },
        None => {},
    }
}

fn id_position(rules: &Vec<RuleView>, id: u128) -> (r: usize)
    ensures
        r == first_with_id(shown_rules(rules@), id),
        r <= rules@.len(),
{
    let ghost all = shown_rules(rules@);
    proof {
        first_with_id_position(all, id);
    }
    let mut i: usize = 0;
    while i < rules.len() && rules[i].id != id
        invariant
            i <= rules@.len(),
            all == shown_rules(rules@),
            forall|k: int| 0 <= k < i ==> (#[trigger] all[k]).id != id,
        decreases rules.len() - i,
    {
        assert(all[i as int].id == rules@[i as int].id);
        i = i + 1;
    }
    assert(i < rules@.len() ==> all[i as int].id == id);
    i
}

fn nearest_index(n: usize, len: usize) -> (r: usize)
    ensures
        r == nearest(n as int, len as nat),
{
    if len == 0 {
        0
    } else if n >= len {
        len - 1
    } else {
        n
    }
}

fn stepped(n: usize, delta: isize, len: usize) -> (r: usize)
    requires
        len > 0,
    ensures
        r == nearest(n + delta, len as nat),
{
    let wanted: i128 = n as i128 + delta as i128;
    if wanted < 0 {
        0
    } else if wanted >= len as i128 {
        len - 1
    } else {
        wanted as usize
    }
}

impl App {
    pub fn show_page(&mut self, page: Page)
        ensures
            final(self)@ == on_page(old(self)@, page),
    {
        if self.page == Page::Hosts && page != Page::Hosts {
            self.hosts_return = None;
        }
        self.page = page;
    }

    pub fn selected(&self) -> (r: Option<&RuleView>)
        ensures
            match r {
                Some(rule) => selected_of(self@) == Some(rule@),
                None => selected_of(self@) is None,
            },
    {
        if self.selected_rule < self.rules.len() {
            Some(&self.rules[self.selected_rule])
        } else {
            None
        }
    }

    fn note_selected(&mut self)
        ensures
            final(self)@ == with_selected_id(old(self)@),
    {
        let id: Option<u128> = match self.selected() {
            Some(rule) => Some(rule.id),
            None => None,
        };
        self.selected_id = id;
    }

    pub fn move_selection(&mut self, delta: isize)
        ensures
            final(self)@ == moved(old(self)@, delta as int),
    {
        if self.page == Page::Hosts {
            if self.hosts.len() != 0 {
                self.selected_host = stepped(self.selected_host, delta, self.hosts.len());
            }
        } else {
            if self.rules.len() != 0 {
                self.selected_rule = stepped(self.selected_rule, delta, self.rules.len());
            }
        }
        self.note_selected();
    }

    pub fn replace_rules(&mut self, rules: Vec<RuleView>)
        ensures
            final(self)@ == with_rules(old(self)@, shown_rules(rules@)),
    {
        let keep: Option<u128> = match self.selected_id {
            Some(id) => Some(id),
            None => match self.selected() {
                Some(rule) => Some(rule.id),
                None => None,
            },
        };
        let fallback: usize = nearest_index(self.selected_rule, rules.len());
        let position: usize = match keep {
            Some(id) => {
                let found: usize = id_position(&rules, id);
                if found < rules.len() {
                    found
                } else {
                    fallback
                }
            },
            None => fallback,
        };
        self.rules = rules;
        self.selected_rule = position;
        self.note_selected();
    }

    pub fn replace_hosts(&mut self, found: Vec<String>)
        ensures
            final(self)@ == with_hosts(old(self)@, text::texts(found@)),
    {
        self.selected_host = nearest_index(self.selected_host, found.len());
        self.hosts = found;
        if self.host_offset > self.selected_host {
            self.host_offset = self.selected_host;
        }
    }
}

// ---------------------------------------------------------------------------
// What the client knows of the rules
// ---------------------------------------------------------------------------
pub open spec fn stored_rules(rules: Seq<tui::ShownRule>) -> Seq<rule::RuleModel> {
    rules.map_values(|r: tui::ShownRule| tui::stored(r))
}

/// The IDs of the rules that are not stopped.
pub open spec fn running_of(rules: Seq<tui::ShownRule>) -> Seq<u128>
    decreases rules.len(),
{
    if rules.len() == 0 {
        Seq::empty()
    } else {
        let earlier = running_of(rules.drop_last());
        if rules.last().state == "stopped"@ {
            earlier
        } else {
            earlier.push(rules.last().id)
        }
    }
}

/// The rules that are shown, and the IDs of those that run.
pub fn rule_snapshots(app: &App) -> (r: Result<(Vec<Rule>, Vec<RuleId>), String>)
    ensures
        ({
            let all = stored_rules(app@.rules);
            match r {
                Ok((rules, running)) => conversion::first_refusal(all) is None && rule::models(
                    rules@,
                ) == all && import::uuids(running@) == running_of(app@.rules),
                Err(message) => conversion::first_refusal(all) matches Some(refusal) && message@
                    == validation::refusal_message(refusal),
            }
        }),
{
    let ghost shown = app@.rules;
    let ghost all = stored_rules(shown);
    let mut rules: Vec<Rule> = Vec::new();
    let mut running: Vec<RuleId> = Vec::new();
    let mut i: usize = 0;
    assert(all.take(0) =~= Seq::<rule::RuleModel>::empty());
    assert(shown.take(0) =~= Seq::<tui::ShownRule>::empty());
    assert(rule::models(rules@) =~= all.take(0));
    assert(import::uuids(running@) =~= Seq::<u128>::empty());
    while i < app.rules.len()
        invariant
            i <= app.rules@.len(),
            shown == app@.rules,
            all == stored_rules(shown),
            conversion::first_refusal(all.take(i as int)) is None,
            rule::models(rules@) == all.take(i as int),
            import::uuids(running@) == running_of(shown.take(i as int)),
        decreases app.rules.len() - i,
    {
        assert(all.take(i as int + 1).drop_last() =~= all.take(i as int));
        assert(all.take(i as int + 1).last() == all[i as int]);
        assert(shown.take(i as int + 1).drop_last() =~= shown.take(i as int));
        assert(shown.take(i as int + 1).last() == shown[i as int]);
        let view = &app.rules[i];
        assert(view@ == shown[i as int]);
        let wire = view.to_wire();
        assert(wire@ == all[i as int]);
        match Rule::try_from(wire) {
            Ok(checked) => {
                assert(rule::models(rules@.push(checked)) =~= rule::models(rules@).push(checked@));
                assert(all.take(i as int + 1) =~= all.take(i as int).push(all[i as int]));
                rules.push(checked);
            },
            Err(error) => {
                proof {
                    conversion::refusal_of_prefix(all, i as int + 1);
                }
                return Err(error.to_string());
            },
        }
        if !text::same(view.state.as_str(), "stopped") {
            let id = RuleId::from_uuid(view.id);
            assert(import::uuids(running@.push(id)) =~= import::uuids(running@).push(id@));
            running.push(id);
        }
        i = i + 1;
    }
    assert(all.take(all.len() as int) =~= all);
    assert(shown.take(shown.len() as int) =~= shown);
    Ok((rules, running))
}

/// What the daemon reports of a rule.
#[derive(Debug)]
pub struct StatusEntry {
    pub rule_id: u128,
    pub state: String,
    pub uptime_seconds: u64,
    pub reconnect_count: u64,
    pub last_error: Option<String>,
}

#[verifier::ext_equal]
pub struct StatusModel {
    pub rule_id: u128,
    pub state: Seq<char>,
    pub uptime_seconds: u64,
    pub reconnect_count: u64,
    pub last_error: Option<Seq<char>>,
}

impl View for StatusEntry {
    type V = StatusModel;

    open spec fn view(&self) -> StatusModel {
        StatusModel {
            rule_id: self.rule_id,
            state: self.state@,
            uptime_seconds: self.uptime_seconds,
            reconnect_count: self.reconnect_count,
            last_error: hosts::optional_text(self.last_error),
        }
    }
}

pub open spec fn status_models(entries: Seq<StatusEntry>) -> Seq<StatusModel> {
    entries.map_values(|e: StatusEntry| e@)
}

/// The first rule with the reported ID shows what is reported.
pub open spec fn with_status(rules: Seq<tui::ShownRule>, e: StatusModel) -> Seq<tui::ShownRule> {
    let k = first_with_id(rules, e.rule_id);
    if k < rules.len() {
        rules.update(
            k,
            tui::ShownRule {
                state: e.state,
                uptime_seconds: e.uptime_seconds,
                reconnect_count: e.reconnect_count,
                last_error: e.last_error,
                ..rules[k]
            },
        )
    } else {
        rules
    }
}

pub open spec fn with_statuses(
    rules: Seq<tui::ShownRule>,
    entries: Seq<StatusModel>,
) -> Seq<tui::ShownRule>
    decreases entries.len(),
{
    if entries.len() == 0 {
        rules
    } else {
        with_status(with_statuses(rules, entries.drop_last()), entries.last())
    }
}

pub open spec fn fresh_rules(rules: Seq<rule::RuleModel>) -> Seq<tui::ShownRule> {
    rules.map_values(|m: rule::RuleModel| tui::shown(m))
}

fn views_of(rules: &Vec<WireRule>) -> (r: Vec<RuleView>)
    ensures
        shown_rules(r@) == fresh_rules(crate::config::wires(rules@)),
{
    let ghost all = fresh_rules(crate::config::wires(rules@));
    let mut out: Vec<RuleView> = Vec::new();
    let mut i: usize = 0;
    while i < rules.len()
        invariant
            i <= rules@.len(),
            all == fresh_rules(crate::config::wires(rules@)),
            shown_rules(out@) =~= all.take(i as int),
        decreases rules.len() - i,
    {
        let view = RuleView::from_wire(rules[i].clone());
        assert(view@ == all[i as int]);
        assert(shown_rules(out@.push(view)) =~= shown_rules(out@).push(view@));
        assert(all.take(i as int + 1) =~= all.take(i as int).push(all[i as int]));
        out.push(view);
        i = i + 1;
    }
    assert(all.take(all.len() as int) =~= all);
    out
}

/// The stored rules with what the daemon reports of them.
pub fn loaded_rules(rules: &Vec<WireRule>, entries: &Vec<StatusEntry>) -> (r: Vec<RuleView>)
    ensures
        shown_rules(r@) == with_statuses(
            fresh_rules(crate::config::wires(rules@)),
            status_models(entries@),
        ),
{
    let mut out = views_of(rules);
    let ghost fresh = shown_rules(out@);
    let ghost all = status_models(entries@);
    let mut i: usize = 0;
    assert(all.take(0) =~= Seq::<StatusModel>::empty());
    while i < entries.len()
        invariant
            i <= entries@.len(),
            all == status_models(entries@),
            shown_rules(out@) == with_statuses(fresh, all.take(i as int)),
        decreases entries.len() - i,
    {
        assert(all.take(i as int + 1).drop_last() =~= all.take(i as int));
        assert(all.take(i as int + 1).last() == all[i as int]);
        let entry = &entries[i];
        assert(entry@ == all[i as int]);
        let k: usize = id_position(&out, entry.rule_id);
        if k < out.len() {
            let ghost before = out@;
            let mut changed = out[k].clone();
            changed.state = entry.state.clone();
            changed.uptime_seconds = entry.uptime_seconds;
            changed.reconnect_count = entry.reconnect_count;
            changed.last_error = tui::optional_copy(&entry.last_error);
            assert(shown_rules(before)[k as int] == before[k as int]@);
            out.set(k, changed);
            assert(shown_rules(out@) =~= shown_rules(before).update(k as int, changed@));
        }
        i = i + 1;
    }
    assert(all.take(all.len() as int) =~= all);
    out
}

/// One step down selects the next row and one step up the one before, of the hosts on the list of
/// hosts and of the rules elsewhere. At either end the selection stays.
pub proof fn steps_move_by_one_row(m: AppModel)
    requires
        sound(m),
    ensures
        ({
            let down = moved(m, 1);
            let up = moved(m, -1);
            &&& m.page == Page::Hosts ==> {
                &&& down.selected_rule == m.selected_rule && up.selected_rule == m.selected_rule
                &&& m.selected_host + 1 < m.hosts.len() ==> down.selected_host == m.selected_host
                    + 1
                &&& m.selected_host + 1 >= m.hosts.len() ==> down.selected_host == m.selected_host
                &&& m.selected_host > 0 ==> up.selected_host == m.selected_host - 1
                &&& m.selected_host == 0 ==> up.selected_host == 0
            }
            &&& m.page != Page::Hosts ==> {
                &&& down.selected_host == m.selected_host && up.selected_host == m.selected_host
                &&& m.selected_rule + 1 < m.rules.len() ==> down.selected_rule == m.selected_rule
                    + 1
                &&& m.selected_rule + 1 >= m.rules.len() ==> down.selected_rule == m.selected_rule
                &&& m.selected_rule > 0 ==> up.selected_rule == m.selected_rule - 1
                &&& m.selected_rule == 0 ==> up.selected_rule == 0
            }
            &&& down.rules == m.rules && down.hosts == m.hosts && down.page == m.page
        }),
{
}

/// After every move the ID of the selected rule is remembered.
pub proof fn the_selected_rule_is_remembered(m: AppModel, delta: int)
    requires
        sound(m),
    ensures
        ({
            let n = moved(m, delta);
            &&& n.rules.len() > 0 ==> n.selected_id == Some(n.rules[n.selected_rule].id)
                && selected_of(n) == Some(n.rules[n.selected_rule])
            &&& n.rules.len() == 0 ==> n.selected_id is None && selected_of(n) is None
            &&& n.hosts.len() > 0 ==> selected_host_of(n) == Some(n.hosts[n.selected_host])
        }),
{
}

/// Rules that come in replace those that were there. If the selected rule is gone, the selection
/// stays at its row, or goes to the last one.
pub proof fn rules_are_replaced(m: AppModel, rules: Seq<tui::ShownRule>)
    requires
        sound(m),
        forall|i: int|
            0 <= i < rules.len() ==> kept_id(m) != Some((#[trigger] rules[i]).id),
    ensures
        with_rules(m, rules).rules == rules,
        m.selected_rule < rules.len() ==> with_rules(m, rules).selected_rule == m.selected_rule,
        m.selected_rule >= rules.len() && rules.len() > 0 ==> with_rules(m, rules).selected_rule
            == rules.len() - 1,
        with_rules(m, rules).page == m.page,
        with_rules(m, rules).hosts == m.hosts,
{
    match kept_id(m) {
        Some(id) => {
            first_with_id_position(rules, id);
        },
        None => {},
    }
}

/// Hosts that come in replace those that were there, and the selection stays at its row or goes to
/// the last one. The list is never scrolled beyond the selection.
pub proof fn hosts_are_replaced(m: AppModel, found: Seq<Seq<char>>)
    requires
        sound(m),
    ensures
        ({
            let n = with_hosts(m, found);
            &&& n.hosts == found && n.rules == m.rules && n.page == m.page
            &&& m.selected_host < found.len() ==> n.selected_host == m.selected_host
            &&& m.selected_host >= found.len() && found.len() > 0 ==> n.selected_host == found.len()
                - 1
            &&& n.host_offset <= n.selected_host
            &&& m.host_offset < n.selected_host ==> n.host_offset == m.host_offset
        }),
{
}

/// Turning the page changes the page. Leaving the list of hosts forgets where Escape leads, and
/// nothing else does.
pub proof fn turning_the_page_changes_the_page(m: AppModel, page: Page)
    ensures
        on_page(m, page).page == page,
        on_page(m, page).rules == m.rules,
        on_page(m, page).hosts == m.hosts,
        m.page == Page::Hosts && page != Page::Hosts ==> on_page(m, page).hosts_return is None,
        m.page != Page::Hosts || page == Page::Hosts ==> on_page(m, page).hosts_return
            == m.hosts_return,
{
}

/// A status changes the state and the history of the rule with its ID, and nothing else of that rule
/// or of any other.
pub proof fn statuses_reach_their_rule(rules: Seq<tui::ShownRule>, e: StatusModel, i: int)
    requires
        0 <= i < rules.len(),
        forall|a: int, b: int|
            0 <= a < b < rules.len() ==> (#[trigger] rules[a]).id != (#[trigger] rules[b]).id,
    ensures
        with_status(rules, e).len() == rules.len(),
        rules[i].id != e.rule_id ==> with_status(rules, e)[i] == rules[i],
        rules[i].id == e.rule_id ==> with_status(rules, e)[i] == (tui::ShownRule {
            state: e.state,
            uptime_seconds: e.uptime_seconds,
            reconnect_count: e.reconnect_count,
            last_error: e.last_error,
            ..rules[i]
        }),
{
    first_with_id_position(rules, e.rule_id);
    let k = first_with_id(rules, e.rule_id);
    if rules[i].id == e.rule_id && k < i {
        assert(rules[k].id != rules[i].id);
    }
    if rules[i].id == e.rule_id && k > i {
        assert(rules[i].id != e.rule_id);
    }
}

/// Statuses are applied in their order.
pub proof fn statuses_are_applied_in_order(
    rules: Seq<tui::ShownRule>,
    entries: Seq<StatusModel>,
    e: StatusModel,
)
    ensures
        with_statuses(rules, Seq::empty()) == rules,
        with_statuses(rules, entries.push(e)) == with_status(with_statuses(rules, entries), e),
{
    assert(entries.push(e).drop_last() =~= entries);
}

/// The rules that run are those that are shown in any other state than stopped, in order.
pub proof fn whatever_is_not_stopped_runs(rules: Seq<tui::ShownRule>)
    ensures
        running_of(rules) == rules.filter_map(
            |v: tui::ShownRule|
                if v.state == "stopped"@ {
                    None
                } else {
                    Some(v.id)
                },
        ),
    decreases rules.len(),
{
    if rules.len() > 0 {
        whatever_is_not_stopped_runs(rules.drop_last());
        let f = |v: tui::ShownRule|
            if v.state == "stopped"@ {
                None
            } else {
                Some(v.id)
            };
        assert(running_of(rules) =~= rules.filter_map(f));
    }
}

/// A panel opens on its host with nothing selected and nothing being confirmed. It shows candidates
/// or an error, never both.
pub proof fn panels_open_with_nothing_selected(
    preview: PreviewModel,
    host: Seq<char>,
    error: Seq<char>,
)
    ensures
        preview_panel(preview).host == preview.alias,
        preview_panel(preview).preview == Some(preview),
        preview_panel(preview).error is None,
        preview_panel(preview).cursor == 0,
        preview_panel(preview).selected.len() == 0,
        !preview_panel(preview).confirming,
        error_panel(host, error).host == host,
        error_panel(host, error).preview is None,
        error_panel(host, error).error == Some(error),
        error_panel(host, error).selected.len() == 0,
        !error_panel(host, error).confirming,
{
}

/// What is shown of a list of rules is shown of each of them, in order.
pub proof fn lists_are_shown_in_order(rules: Seq<rule::RuleModel>, shown: Seq<tui::ShownRule>, i: int)
    ensures
        fresh_rules(rules).len() == rules.len(),
        0 <= i < rules.len() ==> fresh_rules(rules)[i] == tui::shown(rules[i]),
        stored_rules(shown).len() == shown.len(),
        0 <= i < shown.len() ==> stored_rules(shown)[i] == tui::stored(shown[i]),
{
}

/// What the client, its panel and its statuses say is what they hold.
pub proof fn clients_say_what_they_hold(app: App, panel: ImportPanel, e: StatusEntry)
    ensures
        app@.page == app.page,
        app@.hosts_return == app.hosts_return,
        app@.hosts == text::texts(app.hosts@),
        app@.rules.len() == app.rules@.len(),
        app@.selected_host == app.selected_host,
        app@.selected_rule == app.selected_rule,
        app@.host_offset == app.host_offset,
        app@.rule_offset == app.rule_offset,
        app@.selected_id == app.selected_id,
        app.form matches Some(form) ==> app@.form == Some(form@),
        app.form is None ==> app@.form is None,
        app@.confirm_delete == app.confirm_delete,
        app.import matches Some(import) ==> app@.import == Some(import@),
        app.import is None ==> app@.import is None,
        app@.message == app.message@,
        app@.settings == app.settings,
        app@.settings_field == app.settings_field,
        app@.quit == app.quit,
        panel@.host == panel.host@,
        panel.preview matches Some(preview) ==> panel@.preview == Some(
            PreviewModel {
                alias: preview.ssh_host_alias@,
                candidates: import::candidate_models(preview.candidates@),
            },
        ),
        panel.preview is None ==> panel@.preview is None,
        panel@.cursor == panel.cursor,
        panel@.selected == panel.selected@,
        panel@.confirming == panel.confirming,
        panel.error matches Some(error) ==> panel@.error == Some(error@),
        panel.error is None ==> panel@.error is None,
        e@.rule_id == e.rule_id,
        e@.state == e.state@,
        e@.uptime_seconds == e.uptime_seconds,
        e@.reconnect_count == e.reconnect_count,
        e.last_error matches Some(error) ==> e@.last_error == Some(error@),
        e.last_error is None ==> e@.last_error is None,
{
}

/// The client greets with the most important keys.
pub proof fn the_first_message_names_keys()
    ensures
        first_message()
            == "Tab/上部クリック: 画面切替  行クリック/ホイール: 選択  ?: ヘルプ  q: 終了"@,
{
}

/// Lists of statuses and of rules say what their members say, in order.
pub proof fn lists_say_what_their_members_say(
    entries: Seq<StatusEntry>,
    rules: Seq<RuleView>,
    i: int,
)
    ensures
        status_models(entries).len() == entries.len(),
        0 <= i < entries.len() ==> status_models(entries)[i] == entries[i]@,
        shown_rules(rules).len() == rules.len(),
        0 <= i < rules.len() ==> shown_rules(rules)[i] == rules[i]@,
{
}

} // verus!
