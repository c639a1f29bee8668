//! What the pages and panels show.
use super::form::Form;
use super::mouse::{columns_of, list_offset};
use super::state::{App, ImportPanel, Page};
use crate::application::hosts;
use crate::application::import;
use crate::application::import::{
    DirectiveKind, ImportCandidate, ImportClassification, InvalidReason, UnsupportedReason,
};
use crate::cli;
use crate::config::{LogLevel, Theme};
use crate::text;
use crate::tui;
use crate::tui::form;
use crate::tui::mouse;
use crate::tui::state;
use vstd::prelude::*;
use vstd::string::*;

verus! {

// ---------------------------------------------------------------------------
// Tabs, hints and help
// ---------------------------------------------------------------------------
/// The tab of a page.
pub fn tab_index(page: Page) -> (r: usize)
    ensures
        r < 5,
        mouse::page_number(r as int) == page,
{
    match page {
        Page::Dashboard => 0,
        Page::Hosts => 1,
        Page::Detail => 2,
        Page::Settings => 3,
        Page::Help => 4,
    }
}

/// The long and the short reminder of the keys of a page.
pub open spec fn hints(page: Page, leads_back: bool) -> Option<(Seq<char>, Seq<char>)> {
    match page {
        Page::Dashboard => Some(
            (
                "n: 新規  ↑/↓: 選択  Enter: 詳細  ?: ヘルプ"@,
                "n: 新規  Enter: 詳細  ?: ヘルプ"@,
            ),
        ),
        Page::Hosts => if leads_back {
            Some(
                (
                    "↑/↓: 選択  Enter: 新規  Esc: 戻る  ?: ヘルプ"@,
                    "Enter: 新規  Esc: 戻る  ?: ヘルプ"@,
                ),
            )
        } else {
            Some(
                (
                    "↑/↓: 選択  Enter: 新規  Tab: 切替  ?: ヘルプ"@,
                    "Enter: 新規  Tab: 切替  ?: ヘルプ"@,
                ),
            )
        },
        _ => None,
    }
}

fn hint_texts(page: Page, leads_back: bool) -> (r: Option<(&'static str, &'static str)>)
    ensures
        match r {
            Some((full, compact)) => hints(page, leads_back) == Some((full@, compact@)),
            None => hints(page, leads_back) is None,
        },
{
    match page {
        Page::Dashboard => Some(
            (
                "n: 新規  ↑/↓: 選択  Enter: 詳細  ?: ヘルプ",
                "n: 新規  Enter: 詳細  ?: ヘルプ",
            ),
        ),
        Page::Hosts => if leads_back {
            Some(
                (
                    "↑/↓: 選択  Enter: 新規  Esc: 戻る  ?: ヘルプ",
                    "Enter: 新規  Esc: 戻る  ?: ヘルプ",
                ),
            )
        } else {
            Some(
                (
                    "↑/↓: 選択  Enter: 新規  Tab: 切替  ?: ヘルプ",
                    "Enter: 新規  Tab: 切替  ?: ヘルプ",
                ),
            )
        },
        _ => None,
    }
}

/// The reminder of a page, short where the long one is wider than there is room for.
pub open spec fn hint_of(page: Page, leads_back: bool, width: u16) -> Seq<char> {
    match hints(page, leads_back) {
        Some((full, compact)) => if mouse::display_width(full) <= width {
            full
        } else {
            compact
        },
        None => Seq::empty(),
    }
}

/// As `page_hint`, given how wide the long reminder is.
pub fn hint_for(page: Page, leads_back: bool, columns: usize, width: u16) -> (r: &'static str)
    ensures
        match hints(page, leads_back) {
            Some((full, compact)) => r@ == (if columns <= width {
                full
            } else {
                compact
            }),
            None => r@ == Seq::<char>::empty(),
        },
{
    match hint_texts(page, leads_back) {
        Some((full, compact)) => if columns <= width as usize {
            full
        } else {
            compact
        },
        None => {
            proof {
                reveal_strlit("");
            }
            ""
        },
    }
}

pub fn page_hint(app: &App, width: u16) -> (r: &'static str)
    ensures
        r@ == hint_of(app@.page, app@.hosts_return is Some, width),
{
    let leads_back = app.hosts_return.is_some();
    let columns: usize = match hint_texts(app.page, leads_back) {
        Some((full, _)) => columns_of(full),
        None => 0,
    };
    let r = hint_for(app.page, leads_back, columns, width);
    assert(r@ =~= hint_of(app@.page, app@.hosts_return is Some, width));
    r
}

/// The hint and the last message.
pub fn footer_text(app: &App, width: u16) -> (r: String)
    ensures
        r@ == hint_of(app@.page, app@.hosts_return is Some, width) + "\n"@ + app@.message,
{
    text::joined3(page_hint(app, width), "\n", app.message.as_str())
}

/// The keys, as the help page lists them.
pub open spec fn help() -> Seq<char> {
    "j/k・↑/↓/ホイール 選択  行クリック 選択のみ  Enter 詳細/決定  Space 起動/停止\nn 新規  e 編集  c 複製  d 削除  r ホスト更新  i SSH転送import\nEsc nから開いたホスト一覧から戻る（フォーム・importでは閉じる）\nh HTTP  s HTTPS  Tab/上部クリック 画面切替  q 終了（転送は継続）"@
}

pub fn help_text() -> (r: &'static str)
    ensures
        r@ == help(),
{
    "j/k・↑/↓/ホイール 選択  行クリック 選択のみ  Enter 詳細/決定  Space 起動/停止\nn 新規  e 編集  c 複製  d 削除  r ホスト更新  i SSH転送import\nEsc nから開いたホスト一覧から戻る（フォーム・importでは閉じる）\nh HTTP  s HTTPS  Tab/上部クリック 画面切替  q 終了（転送は継続）"
}

pub open spec fn mark(here: bool) -> Seq<char> {
    if here {
        ">"@
    } else {
        " "@
    }
}

fn marker(here: bool) -> (r: &'static str)
    ensures
        r@ == mark(here),
{
    if here {
        ">"
    } else {
        " "
    }
}

// ---------------------------------------------------------------------------
// Settings
// ---------------------------------------------------------------------------
pub open spec fn theme_label(theme: Theme) -> Seq<char> {
    match theme {
        Theme::System => "System"@,
        Theme::Dark => "Dark"@,
        Theme::Light => "Light"@,
    }
}

pub open spec fn level_label(level: LogLevel) -> Seq<char> {
    match level {
        LogLevel::Error => "Error"@,
        LogLevel::Warn => "Warn"@,
        LogLevel::Info => "Info"@,
        LogLevel::Debug => "Debug"@,
        LogLevel::Trace => "Trace"@,
    }
}

/// The settings page: a line for each setting, with a mark at the one that keys change.
pub open spec fn settings_page(m: state::AppModel) -> Seq<char> {
    mark(m.settings_field == 0) + " テーマ: "@ + theme_label(m.settings.theme) + "\n"@ + mark(
        m.settings_field == 1,
    ) + " ログレベル: "@ + level_label(m.settings.log_level) + "\n"@ + mark(m.settings_field == 2)
        + " 新規ルールの再接続: "@ + cli::truth(m.settings.default_reconnect) + "\n"@ + mark(
        m.settings_field == 3,
    ) + " 新規ルールの自動起動: "@ + cli::truth(m.settings.default_auto_start)
        + "\n\n↑/↓: 項目選択  Enter/Space/←/→: 変更して保存"@
}

pub fn settings_text(app: &App) -> (r: String)
    ensures
        r@ == settings_page(app@),
{
    let mut out = marker(app.settings_field == 0).to_owned();
    out.append(" テーマ: ");
    out.append(
        match app.settings.theme {
            Theme::System => "System",
            Theme::Dark => "Dark",
            Theme::Light => "Light",
        },
    );
    out.append("\n");
    out.append(marker(app.settings_field == 1));
    out.append(" ログレベル: ");
    out.append(
        match app.settings.log_level {
            LogLevel::Error => "Error",
            LogLevel::Warn => "Warn",
            LogLevel::Info => "Info",
            LogLevel::Debug => "Debug",
            LogLevel::Trace => "Trace",
        },
    );
    out.append("\n");
    out.append(marker(app.settings_field == 2));
    out.append(" 新規ルールの再接続: ");
    out.append(cli::truth_word(app.settings.default_reconnect));
    out.append("\n");
    out.append(marker(app.settings_field == 3));
    out.append(" 新規ルールの自動起動: ");
    out.append(cli::truth_word(app.settings.default_auto_start));
    out.append("\n\n↑/↓: 項目選択  Enter/Space/←/→: 変更して保存");
    out
}

// ---------------------------------------------------------------------------
// Rules
// ---------------------------------------------------------------------------
/// A rule on the dashboard.
#[derive(Debug)]
pub struct RuleRow {
    pub marker: &'static str,
    pub name: String,
    pub host: String,
    pub state: String,
    pub address: String,
}

#[verifier::ext_equal]
pub struct RowModel {
    pub marker: Seq<char>,
    pub name: Seq<char>,
    pub host: Seq<char>,
    pub state: Seq<char>,
    pub address: Seq<char>,
}

impl View for RuleRow {
    type V = RowModel;

    open spec fn view(&self) -> RowModel {
        RowModel {
            marker: self.marker@,
            name: self.name@,
            host: self.host@,
            state: self.state@,
            address: self.address@,
        }
    }
}

pub open spec fn row_models(rows: Seq<RuleRow>) -> Seq<RowModel> {
    rows.map_values(|r: RuleRow| r@)
}

pub open spec fn row_of(m: state::AppModel, i: int) -> RowModel {
    let v = m.rules[i];
    RowModel {
        marker: mark(i == m.selected_rule),
        name: v.name,
        host: v.host,
        state: v.state,
        address: v.bind_address + ":"@ + text::decimal(v.bind_port as nat),
    }
}

/// The rows from the first one shown to the end.
pub open spec fn rows_from(m: state::AppModel, offset: int) -> Seq<RowModel> {
    Seq::new(
        if offset < m.rules.len() {
            (m.rules.len() - offset) as nat
        } else {
            0
        },
        |k: int| row_of(m, offset + k),
    )
}

/// The rules that a page of this height shows, the selected one among them.
pub fn dashboard_rows(app: &App, height: u16) -> (r: Vec<RuleRow>)
    ensures
        row_models(r@) == rows_from(
            app@,
            mouse::shown_from(
                app@.selected_rule,
                if height >= 3 {
                    height - 3
                } else {
                    0
                },
                app@.rule_offset,
            ),
        ),
{
    let visible: usize = if height >= 3 {
        (height - 3) as usize
    } else {
        0
    };
    let offset: usize = list_offset(app.selected_rule, visible, app.rule_offset);
    let ghost all = rows_from(app@, offset as int);
    let mut out: Vec<RuleRow> = Vec::new();
    let mut i: usize = offset;
    assert(row_models(out@) =~= all.take(0));
    while i < app.rules.len()
        invariant
            offset <= i,
            offset < app.rules@.len() ==> i <= app.rules@.len(),
            all == rows_from(app@, offset as int),
            row_models(out@) =~= all.take(i - offset),
            i - offset <= all.len(),
        decreases app.rules.len() - i,
    {
        let rule = &app.rules[i];
        assert(app@.rules[i as int] == rule@);
        let mut address = text::joined(rule.bind_address.as_str(), ":");
        text::push_decimal(&mut address, rule.bind_port as u64);
        let row = RuleRow {
            marker: marker(i == app.selected_rule),
            name: rule.name.clone(),
            host: rule.host.clone(),
            state: rule.state.clone(),
            address,
        };
        assert(row@ =~= all[i - offset]);
        assert(row_models(out@.push(row)) =~= row_models(out@).push(row@));
        assert(all.take(i - offset + 1) =~= all.take(i - offset).push(all[i - offset]));
        out.push(row);
        i = i + 1;
    }
    assert(all.take(all.len() as int) =~= all);
    out
}

/// How many rules are active.
pub open spec fn active_count(rules: Seq<tui::ShownRule>) -> nat
    decreases rules.len(),
{
    if rules.len() == 0 {
        0
    } else {
        active_count(rules.drop_last()) + if rules.last().state == "active"@ {
            1nat
        } else {
            0nat
        }
    }
}

pub fn dashboard_title(app: &App) -> (r: String)
    ensures
        r@ == "転送 "@ + text::decimal(app@.rules.len()) + "件 / 稼働 "@ + text::decimal(
            active_count(app@.rules),
        ) + "件"@,
{
    let ghost all = app@.rules;
    let mut active: usize = 0;
    let mut i: usize = 0;
    assert(all.take(0) =~= Seq::<tui::ShownRule>::empty());
    while i < app.rules.len()
        invariant
            i <= app.rules@.len(),
            all == app@.rules,
            active == active_count(all.take(i as int)),
            active <= i,
        decreases app.rules.len() - i,
    {
        assert(all.take(i as int + 1).drop_last() =~= all.take(i as int));
        assert(all.take(i as int + 1).last() == app.rules@[i as int]@);
        if text::same(app.rules[i].state.as_str(), "active") {
            active = active + 1;
        }
        i = i + 1;
    }
    assert(all.take(all.len() as int) =~= all);
    let mut out = "転送 ".to_owned();
    text::push_decimal(&mut out, app.rules.len() as u64);
    out.append("件 / 稼働 ");
    text::push_decimal(&mut out, active as u64);
    out.append("件");
    out
}

/// All that is known of the selected rule.
pub open spec fn detail_page(m: state::AppModel) -> Seq<char> {
    match state::selected_of(m) {
        Some(v) => "名前: "@ + v.name + "\n種別: "@ + v.kind.shown() + "\nホスト: "@ + v.host
            + "\n状態: "@ + v.state + "\n待受: "@ + v.bind_address + ":"@ + text::decimal(
            v.bind_port as nat,
        ) + " / 宛先ポート: "@ + (match v.destination_port {
            Some(port) => text::decimal(port as nat),
            None => "-"@,
        }) + "\n稼働時間: "@ + text::decimal(v.uptime_seconds as nat) + "秒 / 再接続: "@
            + text::decimal(v.reconnect_count as nat) + "回\n最終診断: "@ + (match v.last_error {
            Some(error) => error,
            None => "-"@,
        }) + "\nURL: "@ + tui::url_of(v, "http"@) + "\n\nh: HTTPで開く  s: HTTPSで開く"@,
        None => "転送がありません"@,
    }
}

pub fn detail_text(app: &App) -> (r: String)
    ensures
        r@ == detail_page(app@),
{
    let rule = match app.selected() {
        Some(rule) => rule,
        None => {
            return "転送がありません".to_owned();
        },
    };
    let mut out = text::joined("名前: ", rule.name.as_str());
    out.append("\n種別: ");
    out.append(rule.kind.as_str());
    out.append("\nホスト: ");
    out.append(rule.host.as_str());
    out.append("\n状態: ");
    out.append(rule.state.as_str());
    out.append("\n待受: ");
    out.append(rule.bind_address.as_str());
    out.append(":");
    text::push_decimal(&mut out, rule.bind_port as u64);
    out.append(" / 宛先ポート: ");
    match rule.destination_port {
        Some(port) => {
            text::push_decimal(&mut out, port as u64);
        },
        None => {
            out.append("-");
        },
    }
    out.append("\n稼働時間: ");
    text::push_decimal(&mut out, rule.uptime_seconds);
    out.append("秒 / 再接続: ");
    text::push_decimal(&mut out, rule.reconnect_count);
    out.append("回\n最終診断: ");
    match &rule.last_error {
        Some(error) => {
            out.append(error.as_str());
        },
        None => {
            out.append("-");
        },
    }
    out.append("\nURL: ");
    out.append(rule.url("http").as_str());
    out.append("\n\nh: HTTPで開く  s: HTTPSで開く");
    out
}

// ---------------------------------------------------------------------------
// Hosts
// ---------------------------------------------------------------------------
pub open spec fn host_line(m: state::AppModel, i: int) -> Seq<char> {
    mark(i == m.selected_host) + " "@ + m.hosts[i]
}

pub open spec fn host_lines_from(m: state::AppModel, offset: int) -> Seq<Seq<char>> {
    if m.hosts.len() == 0 {
        seq!["SSH config に具体的な Host がありません"@]
    } else {
        Seq::new(
            if offset < m.hosts.len() {
                (m.hosts.len() - offset) as nat
            } else {
                0
            },
            |k: int| host_line(m, offset + k),
        )
    }
}

/// The hosts that a page of this height shows, the selected one among them.
pub fn host_items(app: &App, height: u16) -> (r: Vec<String>)
    ensures
        text::texts(r@) == host_lines_from(
            app@,
            mouse::shown_from(
                app@.selected_host,
                if height >= 2 {
                    height - 2
                } else {
                    0
                },
                app@.host_offset,
            ),
        ),
{
    let visible: usize = if height >= 2 {
        (height - 2) as usize
    } else {
        0
    };
    let offset: usize = list_offset(app.selected_host, visible, app.host_offset);
    let ghost all = host_lines_from(app@, offset as int);
    let mut out: Vec<String> = Vec::new();
    if app.hosts.len() == 0 {
        out.push("SSH config に具体的な Host がありません".to_owned());
        assert(text::texts(out@) =~= all);
        return out;
    }
    let mut i: usize = offset;
    assert(text::texts(out@) =~= all.take(0));
    while i < app.hosts.len()
        invariant
            app.hosts@.len() > 0,
            offset <= i,
            offset < app.hosts@.len() ==> i <= app.hosts@.len(),
            all == host_lines_from(app@, offset as int),
            text::texts(out@) =~= all.take(i - offset),
            i - offset <= all.len(),
        decreases app.hosts.len() - i,
    {
        let line = text::joined3(marker(i == app.selected_host), " ", app.hosts[i].as_str());
        proof {
            assert(app@.hosts[i as int] == app.hosts@[i as int]@);
            assert(line@ =~= all[i - offset]);
            text::texts_push(out@, line);
            assert(all.take(i - offset + 1) =~= all.take(i - offset).push(all[i - offset]));
        }
        out.push(line);
        i = i + 1;
    }
    assert(all.take(all.len() as int) =~= all);
    out
}

// ---------------------------------------------------------------------------
// The import panel
// ---------------------------------------------------------------------------
pub open spec fn kind_column(kind: DirectiveKind) -> Seq<char> {
    match kind {
        DirectiveKind::Local => "Local  "@,
        DirectiveKind::Remote => "Remote "@,
        DirectiveKind::Dynamic => "Dynamic"@,
    }
}

pub open spec fn running_note(running: bool) -> Seq<char> {
    if running {
        "・実行中"@
    } else {
        ""@
    }
}

/// Whether a candidate can be saved, and why not.
pub open spec fn verdict_note(classification: ImportClassification) -> Seq<char> {
    match classification {
        ImportClassification::Supported => "保存可能"@,
        ImportClassification::DuplicateDirective { first_index } => "重複: 候補 "@
            + text::decimal((first_index + 1) as nat),
        ImportClassification::DuplicateRule { running, .. } => "重複: 保存済み"@ + running_note(
            running,
        ),
        ImportClassification::Conflict { running, .. } => "競合"@ + running_note(running),
        ImportClassification::Unsupported { reason } => "未対応: "@ + (match reason {
            UnsupportedReason::UnixSocket => "Unix socket"@,
            UnsupportedReason::RemoteDynamic => "Remote SOCKS"@,
        }),
        ImportClassification::Invalid { reason } => "無効: "@ + (match reason {
            InvalidReason::Syntax => "構文"@,
            InvalidReason::BindAddress => "bind"@,
            InvalidReason::DestinationHost => "宛先"@,
            InvalidReason::Port => "port"@,
            InvalidReason::NonUtf8Output => "非UTF-8"@,
        }),
    }
}

pub open spec fn candidate_note(candidate: ImportCandidate) -> Seq<char> {
    kind_column(candidate.kind) + " "@ + cli::endpoints_text(candidate.forwarding) + "  ["@
        + verdict_note(candidate.classification) + "]"@
}

fn running_word(running: bool) -> (r: &'static str)
    ensures
        r@ == running_note(running),
{
    if running {
        "・実行中"
    } else {
        ""
    }
}

pub fn candidate_text(candidate: &ImportCandidate) -> (r: String)
    requires
        candidate.classification matches ImportClassification::DuplicateDirective { first_index }
            ==> first_index < usize::MAX,
    ensures
        r@ == candidate_note(*candidate),
{
    let kind = match candidate.kind {
        DirectiveKind::Local => "Local  ",
        DirectiveKind::Remote => "Remote ",
        DirectiveKind::Dynamic => "Dynamic",
    };
    let status = match &candidate.classification {
        ImportClassification::Supported => "保存可能".to_owned(),
        ImportClassification::DuplicateDirective { first_index } => {
            let mut status = "重複: 候補 ".to_owned();
            text::push_decimal(&mut status, (*first_index + 1) as u64);
            status
        },
        ImportClassification::DuplicateRule { running, .. } => text::joined(
            "重複: 保存済み",
            running_word(*running),
        ),
        ImportClassification::Conflict { running, .. } => text::joined(
            "競合",
            running_word(*running),
        ),
        ImportClassification::Unsupported { reason } => text::joined(
            "未対応: ",
            match reason {
                UnsupportedReason::UnixSocket => "Unix socket",
                UnsupportedReason::RemoteDynamic => "Remote SOCKS",
            },
        ),
        ImportClassification::Invalid { reason } => text::joined(
            "無効: ",
            match reason {
                InvalidReason::Syntax => "構文",
                InvalidReason::BindAddress => "bind",
                InvalidReason::DestinationHost => "宛先",
                InvalidReason::Port => "port",
                InvalidReason::NonUtf8Output => "非UTF-8",
            },
        ),
    };
    let mut out = text::joined(kind, " ");
    out.append(cli::endpoints(&candidate.forwarding).as_str());
    out.append("  [");
    out.append(status.as_str());
    out.append("]");
    out
}

/// `[x]` is selected, `[ ]` can be, `[-]` cannot.
pub open spec fn selection_mark(selected: bool, supported: bool) -> Seq<char> {
    if selected {
        "[x]"@
    } else if supported {
        "[ ]"@
    } else {
        "[-]"@
    }
}

pub open spec fn panel_line(panel: ImportPanel, i: int) -> Seq<char> {
    let candidate = panel.preview->0.candidates@[i];
    mark(i == panel.cursor) + selection_mark(
        panel.selected@.contains((i + 1) as usize),
        candidate.classification is Supported,
    ) + " "@ + text::decimal((i + 1) as nat) + ". "@ + candidate_note(candidate)
}

pub open spec fn panel_lines(panel: ImportPanel) -> Seq<Seq<char>> {
    match panel.preview {
        Some(preview) => if preview.candidates@.len() == 0 {
            seq!["転送候補はありません"@]
        } else {
            Seq::new(preview.candidates@.len(), |i: int| panel_line(panel, i))
        },
        None => Seq::empty(),
    }
}

fn has_number(list: &Vec<usize>, wanted: usize) -> (r: bool)
    ensures
        r == list@.contains(wanted),
{
    let mut i: usize = 0;
    while i < list.len()
        invariant
            i <= list@.len(),
            forall|k: int| 0 <= k < i ==> list@[k] != wanted,
        decreases list.len() - i,
    {
        if list[i] == wanted {
            return true;
        }
        i = i + 1;
    }
    false
}

/// The candidates, one on a line.
pub fn candidate_lines(panel: &ImportPanel) -> (r: Vec<String>)
    requires
        state::sound_panel(panel@),
    ensures
        text::texts(r@) == panel_lines(*panel),
{
    let mut out: Vec<String> = Vec::new();
    let ghost all = panel_lines(*panel);
    let preview = match &panel.preview {
        Some(preview) => preview,
        None => {
            assert(text::texts(out@) =~= all);
            return out;
        },
    };
    if preview.candidates.len() == 0 {
        out.push("転送候補はありません".to_owned());
        assert(text::texts(out@) =~= all);
        return out;
    }
    let ghost models = import::candidate_models(preview.candidates@);
    let mut i: usize = 0;
    assert(text::texts(out@) =~= all.take(0));
    while i < preview.candidates.len()
        invariant
            i <= preview.candidates@.len(),
            preview.candidates@.len() > 0,
            panel.preview == Some(*preview),
            all == panel_lines(*panel),
            models == import::candidate_models(preview.candidates@),
            import::coherent(models),
            text::texts(out@) =~= all.take(i as int),
        decreases preview.candidates.len() - i,
    {
        let candidate = &preview.candidates[i];
        assert(models[i as int] == candidate@);
        let supported = matches!(candidate.classification, ImportClassification::Supported);
        let mut line = marker(i == panel.cursor).to_owned();
        line.append(
            if has_number(&panel.selected, i + 1) {
                "[x]"
            } else if supported {
                "[ ]"
            } else {
                "[-]"
            },
        );
        line.append(" ");
        text::push_decimal(&mut line, (i + 1) as u64);
        line.append(". ");
        line.append(candidate_text(candidate).as_str());
        proof {
            assert(line@ =~= all[i as int]);
            text::texts_push(out@, line);
            assert(all.take(i as int + 1) =~= all.take(i as int).push(all[i as int]));
        }
        out.push(line);
        i = i + 1;
    }
    assert(all.take(all.len() as int) =~= all);
    out
}

/// The error of the panel, if there is one.
pub fn panel_error(panel: &ImportPanel) -> (r: Option<String>)
    ensures
        hosts::optional_text(r) == (match panel@.error {
            Some(error) => Some("エラー: "@ + error),
            None => None,
        }),
{
    match &panel.error {
        Some(error) => Some(text::joined("エラー: ", error.as_str())),
        None => None,
    }
}

/// The keys of the panel, or what is to be confirmed.
pub fn panel_controls(panel: &ImportPanel) -> (r: String)
    ensures
        r@ == (if panel@.confirming {
            "選択した "@ + text::decimal(panel@.selected.len())
                + " 件だけ保存します。Enter/y: 保存  Esc/n: 戻る"@
        } else {
            "Space: 選択  Enter: 最終確認  Esc: キャンセル（変更なし）"@
        }),
{
    if panel.confirming {
        let mut out = "選択した ".to_owned();
        text::push_decimal(&mut out, panel.selected.len() as u64);
        out.append(" 件だけ保存します。Enter/y: 保存  Esc/n: 戻る");
        out
    } else {
        "Space: 選択  Enter: 最終確認  Esc: キャンセル（変更なし）".to_owned()
    }
}

/// How many lines are scrolled away so that the line of the cursor is the last one shown.
pub open spec fn scrolled_lines(cursor: int, visible: int) -> int {
    if cursor + 1 <= visible {
        0
    } else if cursor + 1 - visible <= u16::MAX {
        cursor + 1 - visible
    } else {
        u16::MAX as int
    }
}

pub fn import_scroll(cursor: usize, visible: u16) -> (r: u16)
    ensures
        r == scrolled_lines(cursor as int, visible as int),
{
    if cursor < visible as usize {
        0
    } else {
        let hidden: usize = cursor - visible as usize;
        if hidden < 0xffff {
            (hidden + 1) as u16
        } else {
            u16::MAX
        }
    }
}

/// The line of the cursor is shown, as far as a panel can be scrolled.
pub proof fn cursor_line_is_shown(cursor: int, visible: int)
    requires
        0 <= cursor < u16::MAX,
        0 < visible,
    ensures
        scrolled_lines(cursor, visible) <= cursor < scrolled_lines(cursor, visible) + visible,
{
}

// ---------------------------------------------------------------------------
// The form
// ---------------------------------------------------------------------------
pub open spec fn form_page(f: form::FormModel) -> Seq<Seq<char>> {
    seq![
        "ホスト: "@ + f.host,
        "種別: "@ + f.kind.shown() + " (F2で変更)"@,
        mark(f.field == 0) + " 名前: "@ + f.name,
        mark(f.field == 1) + " リモートポート: "@ + f.remote_port,
        mark(f.field == 2) + " ローカルポート: "@ + f.local_port,
        "auto_start: "@ + cli::truth(f.auto_start) + " (F3) / reconnect: "@ + cli::truth(
            f.reconnect,
        ) + " (F4)"@,
        "Tab: 項目移動  Enter: 保存して起動  Esc: キャンセル"@,
    ]
}

/// The lines of a form.
pub fn form_lines(form: &Form) -> (r: Vec<String>)
    ensures
        text::texts(r@) == form_page(form@),
{
    let mut out: Vec<String> = Vec::new();
    out.push(text::joined("ホスト: ", form.host.as_str()));
    out.push(text::joined3("種別: ", form.kind.as_str(), " (F2で変更)"));
    out.push(text::joined3(marker(form.field == 0), " 名前: ", form.name.as_str()));
    out.push(text::joined3(marker(form.field == 1), " リモートポート: ", form.remote_port.as_str()));
    out.push(text::joined3(marker(form.field == 2), " ローカルポート: ", form.local_port.as_str()));
    let mut policy = text::joined("auto_start: ", cli::truth_word(form.auto_start));
    policy.append(" (F3) / reconnect: ");
    policy.append(cli::truth_word(form.reconnect));
    policy.append(" (F4)");
    out.push(policy);
    out.push("Tab: 項目移動  Enter: 保存して起動  Esc: キャンセル".to_owned());
    assert(text::texts(out@) =~= form_page(form@));
    out
}

/// The port that the form suggests, if it does.
pub fn suggestion_line(form: &Form) -> (r: Option<String>)
    ensures
        hosts::optional_text(r) == (match form@.suggestion {
            Some(port) => Some(
                "ポート使用中。候補 "@ + text::decimal(port as nat) + " (a で選択)"@,
            ),
            None => None,
        }),
{
    match form.suggestion {
        Some(port) => {
            let mut out = "ポート使用中。候補 ".to_owned();
            text::push_decimal(&mut out, port as u64);
            out.append(" (a で選択)");
            Some(out)
        },
        None => None,
    }
}

pub fn form_title(form: &Form) -> (r: &'static str)
    ensures
        r@ == (if form@.editing {
            "転送を編集"@
        } else {
            "ポートを追加"@
        }),
{
    if form.editing {
        "転送を編集"
    } else {
        "ポートを追加"
    }
}

// ---------------------------------------------------------------------------
// What the pages show
// ---------------------------------------------------------------------------
/// A mark stands at the row or the field with the focus, and nowhere else.
pub proof fn marks_stand_at_the_focus(here: bool)
    ensures
        here ==> mark(here) == ">"@,
        !here ==> mark(here) == " "@,
{
}

/// A row of the dashboard shows the rule at its place: its name, host and state, and the address and
/// port on which it listens.
pub proof fn rows_show_their_rule(m: state::AppModel, offset: int, k: int)
    requires
        0 <= offset,
        0 <= k,
        offset + k < m.rules.len(),
    ensures
        ({
            let v = m.rules[offset + k];
            let row = rows_from(m, offset)[k];
            &&& rows_from(m, offset).len() == m.rules.len() - offset
            &&& row.name == v.name && row.host == v.host && row.state == v.state
            &&& row.address == v.bind_address + ":"@ + text::decimal(v.bind_port as nat)
            &&& row.marker == ">"@ <==> offset + k == m.selected_rule
        }),
{
    reveal_strlit(">");
    reveal_strlit(" ");
    assert(">"@[0] == '>' && " "@[0] == ' ');
}

/// The rules that are up are counted.
pub proof fn active_rules_are_counted(rules: Seq<tui::ShownRule>, v: tui::ShownRule)
    ensures
        active_count(Seq::<tui::ShownRule>::empty()) == 0,
        active_count(rules.push(v)) == active_count(rules) + (if v.state == "active"@ {
            1nat
        } else {
            0nat
        }),
        active_count(rules) <= rules.len(),
    decreases rules.len(),
{
    assert(rules.push(v).drop_last() =~= rules);
    if rules.len() > 0 {
        active_rules_are_counted(rules.drop_last(), v);
    }
}

/// The details are those of the selected rule, and without one there are none.
pub proof fn details_are_of_the_selected_rule(m: state::AppModel)
    ensures
        m.rules.len() == 0 ==> detail_page(m) == "転送がありません"@,
        0 <= m.selected_rule < m.rules.len() ==> text::begins(
            detail_page(m),
            "名前: "@ + m.rules[m.selected_rule].name + "\n種別: "@
                + m.rules[m.selected_rule].kind.shown() + "\nホスト: "@
                + m.rules[m.selected_rule].host + "\n状態: "@ + m.rules[m.selected_rule].state
                + "\n待受: "@ + m.rules[m.selected_rule].bind_address + ":"@ + text::decimal(
                m.rules[m.selected_rule].bind_port as nat,
            ) + " / 宛先ポート: "@,
        ),
{
    if 0 <= m.selected_rule < m.rules.len() {
        let v = m.rules[m.selected_rule];
        let start = "名前: "@ + v.name + "\n種別: "@ + v.kind.shown() + "\nホスト: "@ + v.host
            + "\n状態: "@ + v.state + "\n待受: "@ + v.bind_address + ":"@ + text::decimal(
            v.bind_port as nat,
        ) + " / 宛先ポート: "@;
        let rest = (match v.destination_port {
            Some(port) => text::decimal(port as nat),
            None => "-"@,
        }) + "\n稼働時間: "@ + text::decimal(v.uptime_seconds as nat) + "秒 / 再接続: "@
            + text::decimal(v.reconnect_count as nat) + "回\n最終診断: "@ + (match v.last_error {
            Some(error) => error,
            None => "-"@,
        }) + "\nURL: "@ + tui::url_of(v, "http"@) + "\n\nh: HTTPで開く  s: HTTPSで開く"@;
        assert(detail_page(m) =~= start + rest);
        text::texts_begin_with_their_start(start, rest);
    }
}

/// Behind them come the destination port, the time it is up in seconds, the reconnections, the last
/// diagnosis and the address for a browser.
pub proof fn details_tell_the_history(m: state::AppModel, v: tui::ShownRule)
    requires
        0 <= m.selected_rule < m.rules.len(),
        m.rules[m.selected_rule] == v,
    ensures
        ({
            let start = "名前: "@ + v.name + "\n種別: "@ + v.kind.shown() + "\nホスト: "@ + v.host
                + "\n状態: "@ + v.state + "\n待受: "@ + v.bind_address + ":"@ + text::decimal(
                v.bind_port as nat,
            ) + " / 宛先ポート: "@;
            let target = match v.destination_port {
                Some(port) => text::decimal(port as nat),
                None => "-"@,
            };
            let diagnosis = match v.last_error {
                Some(error) => error,
                None => "-"@,
            };
            detail_page(m) == start + target + "\n稼働時間: "@ + text::decimal(
                v.uptime_seconds as nat,
            ) + "秒 / 再接続: "@ + text::decimal(v.reconnect_count as nat)
                + "回\n最終診断: "@ + diagnosis + "\nURL: "@ + tui::url_of(v, "http"@)
                + "\n\nh: HTTPで開く  s: HTTPSで開く"@
        }),
{
}

/// Hosts are listed from the first one shown, with a mark at the selected one.
pub proof fn hosts_are_listed(m: state::AppModel, offset: int, k: int)
    requires
        0 <= offset,
        0 <= k,
        offset + k < m.hosts.len(),
    ensures
        host_lines_from(m, offset).len() == m.hosts.len() - offset,
        offset + k == m.selected_host ==> host_lines_from(m, offset)[k] == ">"@ + " "@
            + m.hosts[offset + k],
        offset + k != m.selected_host ==> host_lines_from(m, offset)[k] == " "@ + " "@
            + m.hosts[offset + k],
{
}

/// Each setting is shown with its own value, and the mark stands at the one that keys change.
pub proof fn settings_are_shown(m: state::AppModel)
    requires
        m.settings_field == 0,
    ensures
        settings_page(m) == ">"@ + " テーマ: "@ + theme_label(m.settings.theme) + "\n"@ + " "@
            + " ログレベル: "@ + level_label(m.settings.log_level) + "\n"@ + " "@
            + " 新規ルールの再接続: "@ + cli::truth(m.settings.default_reconnect) + "\n"@ + " "@
            + " 新規ルールの自動起動: "@ + cli::truth(m.settings.default_auto_start)
            + "\n\n↑/↓: 項目選択  Enter/Space/←/→: 変更して保存"@,
        settings_page(state::AppModel { settings_field: 1, ..m }) == " "@ + " テーマ: "@
            + theme_label(m.settings.theme) + "\n"@ + ">"@ + " ログレベル: "@ + level_label(
            m.settings.log_level,
        ) + "\n"@ + " "@ + " 新規ルールの再接続: "@ + cli::truth(m.settings.default_reconnect)
            + "\n"@ + " "@ + " 新規ルールの自動起動: "@ + cli::truth(m.settings.default_auto_start)
            + "\n\n↑/↓: 項目選択  Enter/Space/←/→: 変更して保存"@,
        settings_page(state::AppModel { settings_field: 2, ..m }) == " "@ + " テーマ: "@
            + theme_label(m.settings.theme) + "\n"@ + " "@ + " ログレベル: "@ + level_label(
            m.settings.log_level,
        ) + "\n"@ + ">"@ + " 新規ルールの再接続: "@ + cli::truth(m.settings.default_reconnect)
            + "\n"@ + " "@ + " 新規ルールの自動起動: "@ + cli::truth(m.settings.default_auto_start)
            + "\n\n↑/↓: 項目選択  Enter/Space/←/→: 変更して保存"@,
        settings_page(state::AppModel { settings_field: 3, ..m }) == " "@ + " テーマ: "@
            + theme_label(m.settings.theme) + "\n"@ + " "@ + " ログレベル: "@ + level_label(
            m.settings.log_level,
        ) + "\n"@ + " "@ + " 新規ルールの再接続: "@ + cli::truth(m.settings.default_reconnect)
            + "\n"@ + ">"@ + " 新規ルールの自動起動: "@ + cli::truth(m.settings.default_auto_start)
            + "\n\n↑/↓: 項目選択  Enter/Space/←/→: 変更して保存"@,
{
}

/// The labels of themes, levels and types.
pub proof fn labels(theme: Theme, level: LogLevel, kind: DirectiveKind)
    ensures
        theme == Theme::System ==> theme_label(theme) == "System"@,
        theme == Theme::Dark ==> theme_label(theme) == "Dark"@,
        theme == Theme::Light ==> theme_label(theme) == "Light"@,
        level == LogLevel::Error ==> level_label(level) == "Error"@,
        level == LogLevel::Warn ==> level_label(level) == "Warn"@,
        level == LogLevel::Info ==> level_label(level) == "Info"@,
        level == LogLevel::Debug ==> level_label(level) == "Debug"@,
        level == LogLevel::Trace ==> level_label(level) == "Trace"@,
        kind == DirectiveKind::Local ==> kind_column(kind) == "Local  "@,
        kind == DirectiveKind::Remote ==> kind_column(kind) == "Remote "@,
        kind == DirectiveKind::Dynamic ==> kind_column(kind) == "Dynamic"@,
{
}

/// The note on a candidate says whether it can be saved, and if not, what is in the way and whether
/// that is running.
pub proof fn notes_say_what_is_in_the_way(classification: ImportClassification)
    ensures
        classification is Supported ==> verdict_note(classification) == "保存可能"@,
        classification matches ImportClassification::DuplicateDirective { first_index }
            ==> verdict_note(classification) == "重複: 候補 "@ + text::decimal(
            (first_index + 1) as nat,
        ),
        classification matches ImportClassification::DuplicateRule { running, .. } ==> verdict_note(
            classification,
        ) == "重複: 保存済み"@ + (if running {
            "・実行中"@
        } else {
            ""@
        }),
        classification matches ImportClassification::Conflict { running, .. } ==> verdict_note(
            classification,
        ) == "競合"@ + (if running {
            "・実行中"@
        } else {
            ""@
        }),
        classification matches ImportClassification::Unsupported { reason } ==> {
            &&& reason == UnsupportedReason::UnixSocket ==> verdict_note(classification)
                == "未対応: "@ + "Unix socket"@
            &&& reason == UnsupportedReason::RemoteDynamic ==> verdict_note(classification)
                == "未対応: "@ + "Remote SOCKS"@
        },
        classification matches ImportClassification::Invalid { reason } ==> {
            &&& reason == InvalidReason::Syntax ==> verdict_note(classification) == "無効: "@
                + "構文"@
            &&& reason == InvalidReason::BindAddress ==> verdict_note(classification)
                == "無効: "@ + "bind"@
            &&& reason == InvalidReason::DestinationHost ==> verdict_note(classification)
                == "無効: "@ + "宛先"@
            &&& reason == InvalidReason::Port ==> verdict_note(classification) == "無効: "@
                + "port"@
            &&& reason == InvalidReason::NonUtf8Output ==> verdict_note(classification)
                == "無効: "@ + "非UTF-8"@
        },
{
}

/// On the panel `[x]` stands at what is selected, `[ ]` at what can be and `[-]` at what cannot.
pub proof fn selection_marks(selected: bool, supported: bool)
    ensures
        selected ==> selection_mark(selected, supported) == "[x]"@,
        !selected && supported ==> selection_mark(selected, supported) == "[ ]"@,
        !selected && !supported ==> selection_mark(selected, supported) == "[-]"@,
{
}

/// Every candidate has a line on the panel, with its number from 1 on, its mark, its type, its route
/// and the note on it.
pub proof fn panels_show_every_candidate(panel: ImportPanel, i: int)
    requires
        panel.preview is Some,
    ensures
        ({
            let candidates = panel.preview->0.candidates@;
            let lines = panel_lines(panel);
            &&& candidates.len() == 0 ==> lines == seq!["転送候補はありません"@]
            &&& 0 <= i < candidates.len() ==> lines.len() == candidates.len() && lines[i] == mark(
                i == panel.cursor,
            ) + selection_mark(
                panel.selected@.contains((i + 1) as usize),
                candidates[i].classification is Supported,
            ) + " "@ + text::decimal((i + 1) as nat) + ". "@ + (kind_column(candidates[i].kind)
                + " "@ + cli::endpoints_text(candidates[i].forwarding) + "  ["@ + verdict_note(
                candidates[i].classification,
            ) + "]"@)
        }),
{
}

/// The form shows each field with its own value and the mark at the one with the focus.
pub proof fn forms_show_their_fields(f: form::FormModel)
    ensures
        form_page(f).len() == 7,
        form_page(f)[0] == "ホスト: "@ + f.host,
        form_page(f)[1] == "種別: "@ + f.kind.shown() + " (F2で変更)"@,
        form_page(f)[2] == mark(f.field == 0) + " 名前: "@ + f.name,
        form_page(f)[3] == mark(f.field == 1) + " リモートポート: "@ + f.remote_port,
        form_page(f)[4] == mark(f.field == 2) + " ローカルポート: "@ + f.local_port,
        form_page(f)[5] == "auto_start: "@ + cli::truth(f.auto_start) + " (F3) / reconnect: "@
            + cli::truth(f.reconnect) + " (F4)"@,
{
}

/// The list of candidates is scrolled only as far as it must be.
pub proof fn panels_scroll_no_further_than_needed(cursor: int, visible: int)
    requires
        0 <= cursor < u16::MAX,
        0 < visible,
    ensures
        cursor < visible ==> scrolled_lines(cursor, visible) == 0,
        cursor >= visible ==> scrolled_lines(cursor, visible) + visible == cursor + 1,
{
}

/// The long reminder is shown where there is room for it, and else the short one. Only the dashboard
/// and the hosts have one, and Escape is mentioned exactly where it leads back.
pub proof fn reminders_fit_the_width(page: Page, leads_back: bool, width: u16)
    ensures
        page != Page::Dashboard && page != Page::Hosts ==> hint_of(page, leads_back, width)
            == Seq::<char>::empty(),
        page == Page::Dashboard ==> hint_of(page, leads_back, width) == (if mouse::display_width(
            "n: 新規  ↑/↓: 選択  Enter: 詳細  ?: ヘルプ"@,
        ) <= width {
            "n: 新規  ↑/↓: 選択  Enter: 詳細  ?: ヘルプ"@
        } else {
            "n: 新規  Enter: 詳細  ?: ヘルプ"@
        }),
        page == Page::Hosts && leads_back ==> hint_of(page, leads_back, width) == (
        if mouse::display_width("↑/↓: 選択  Enter: 新規  Esc: 戻る  ?: ヘルプ"@) <= width {
            "↑/↓: 選択  Enter: 新規  Esc: 戻る  ?: ヘルプ"@
        } else {
            "Enter: 新規  Esc: 戻る  ?: ヘルプ"@
        }),
        page == Page::Hosts && !leads_back ==> hint_of(page, leads_back, width) == (
        if mouse::display_width("↑/↓: 選択  Enter: 新規  Tab: 切替  ?: ヘルプ"@) <= width {
            "↑/↓: 選択  Enter: 新規  Tab: 切替  ?: ヘルプ"@
        } else {
            "Enter: 新規  Tab: 切替  ?: ヘルプ"@
        }),
{
}

/// What a row says is what it holds.
pub proof fn rows_say_what_they_hold(row: RuleRow)
    ensures
        row@.marker == row.marker@,
        row@.name == row.name@,
        row@.host == row.host@,
        row@.state == row.state@,
        row@.address == row.address@,
{
}

/// The help names every key with what it does.
pub proof fn the_help_names_the_keys()
    ensures
        help()
            == "j/k・↑/↓/ホイール 選択  行クリック 選択のみ  Enter 詳細/決定  Space 起動/停止\nn 新規  e 編集  c 複製  d 削除  r ホスト更新  i SSH転送import\nEsc nから開いたホスト一覧から戻る（フォーム・importでは閉じる）\nh HTTP  s HTTPS  Tab/上部クリック 画面切替  q 終了（転送は継続）"@,
{
}

} // verus!
