//! What the client makes of the answers to its actions.
use super::form::Probe;
use super::keys::Action;
use super::state::{rule_snapshots, App, ImportPanel};
use super::RuleView;
use crate::application::hosts::{HostCatalog, HostError, ProcessOutput};
use crate::application::import;
use crate::application::import::selected_rules;
use crate::config::conversion::stored_rules;
use crate::config::Settings;
use crate::domain::host;
use crate::domain::rule;
use crate::domain::validation;
use crate::text;
use crate::tui::form;
use crate::tui::keys;
use crate::tui::state;
use vstd::prelude::*;
use vstd::string::*;

verus! {

pub open spec fn with_message(m: state::AppModel, message: Seq<char>) -> state::AppModel {
    state::AppModel { message, ..m }
}

pub open spec fn with_form_error(m: state::AppModel, error: Seq<char>) -> state::AppModel {
    match m.form {
        Some(f) => keys::with_form(m, form::FormModel { error: Some(error), ..f }),
        None => m,
    }
}

/// The panel is back where a selection is made, and shows the error.
pub open spec fn with_panel_error(m: state::AppModel, error: Seq<char>) -> state::AppModel {
    match m.import {
        Some(p) => keys::with_panel(
            m,
            state::PanelModel { confirming: false, error: Some(error), ..p },
        ),
        None => m,
    }
}

// ---------------------------------------------------------------------------
// The form
// ---------------------------------------------------------------------------
/// Notes on the form what trying its local port has shown.
pub fn form_probed(app: &mut App, probe: Probe)
    requires
        state::sound(old(app)@),
    ensures
        final(app)@ == (match old(app)@.form {
            Some(f) => keys::with_form(old(app)@, form::probed(f, probe)),
            None => old(app)@,
        }),
        state::sound(final(app)@),
{
    match app.form.take() {
        Some(form) => {
            let mut form = form;
            form.apply_probe(probe);
            app.form = Some(form);
        },
        None => {},
    }
}

/// Submits the form, given what trying its port has shown.
pub fn submit_form(app: &mut App, probe: Probe) -> (r: Action)
    requires
        state::sound(old(app)@),
    ensures
        match old(app)@.form {
            Some(f) => {
                let (after, rule) = form::submitted(f, probe);
                &&& final(app)@ == keys::with_form(old(app)@, after)
                &&& r@ == (match rule {
                    Some(rule) => keys::ActionModel::AddRule { rule },
                    None => keys::ActionModel::Nothing,
                })
            },
            None => final(app)@ == old(app)@ && r@ is Nothing,
        },
        state::sound(final(app)@),
{
    match app.form.take() {
        Some(form) => {
            let mut form = form;
            let payload = form.payload(probe);
            app.form = Some(form);
            match payload {
                Some(rule) => Action::AddRule { rule },
                None => Action::Nothing,
            }
        },
        None => Action::Nothing,
    }
}

fn set_form_error(app: &mut App, error: String)
    requires
        state::sound(old(app)@),
    ensures
        final(app)@ == with_form_error(old(app)@, error@),
        state::sound(final(app)@),
{
    match app.form.take() {
        Some(form) => {
            let mut form = form;
            form.error = Some(error);
            app.form = Some(form);
        },
        None => {},
    }
}

/// The rule was saved under the ID that the daemon named, or that of the form; it is started.
pub fn rule_added(app: &mut App, answer: Result<Option<u128>, String>) -> (r: Action)
    requires
        state::sound(old(app)@),
    ensures
        match (old(app)@.form, answer) {
            (Some(f), Ok(named)) => final(app)@ == old(app)@ && r@
                == (keys::ActionModel::StartSaved {
                rule_id: match named {
                    Some(id) => id,
                    None => f.id,
                },
            }),
            (Some(f), Err(error)) => final(app)@ == with_form_error(old(app)@, error@)
                && r@ is Nothing,
            (None, _) => final(app)@ == old(app)@ && r@ is Nothing,
        },
        state::sound(final(app)@),
{
    let id: u128 = match &app.form {
        Some(form) => form.id,
        None => {
            return Action::Nothing;
        },
    };
    match answer {
        Ok(Some(named)) => Action::StartSaved { rule_id: named },
        Ok(None) => Action::StartSaved { rule_id: id },
        Err(error) => {
            set_form_error(app, error);
            Action::Nothing
        },
    }
}

pub fn saved_started(app: &mut App, answer: Result<(), String>) -> (r: Action)
    requires
        state::sound(old(app)@),
    ensures
        match answer {
            Ok(_) => final(app)@ == (state::AppModel {
                form: None,
                message: "転送を保存して起動しました"@,
                ..old(app)@
            }) && r@ is Refresh,
            Err(error) => final(app)@ == with_form_error(
                old(app)@,
                "保存済みですが起動できません: "@ + error@,
            ) && r@ is Nothing,
        },
        state::sound(final(app)@),
{
    match answer {
        Ok(_) => {
            app.message = "転送を保存して起動しました".to_owned();
            app.form = None;
            Action::Refresh
        },
        Err(error) => {
            set_form_error(
                app,
                text::joined("保存済みですが起動できません: ", error.as_str()),
            );
            Action::Nothing
        },
    }
}

// ---------------------------------------------------------------------------
// Rules, settings and hosts
// ---------------------------------------------------------------------------
pub fn rule_removed(app: &mut App, answer: Result<(), String>) -> (r: Action)
    requires
        state::sound(old(app)@),
    ensures
        final(app)@ == (state::AppModel {
            confirm_delete: None,
            message: match answer {
                Ok(_) => "転送を削除しました"@,
                Err(error) => error@,
            },
            ..old(app)@
        }),
        r@ == (if answer is Ok {
            keys::ActionModel::Refresh
        } else {
            keys::ActionModel::Nothing
        }),
        state::sound(final(app)@),
{
    app.confirm_delete = None;
    match answer {
        Ok(_) => {
            app.message = "転送を削除しました".to_owned();
            Action::Refresh
        },
        Err(error) => {
            app.message = error;
            Action::Nothing
        },
    }
}

/// Settings that were not saved are taken back.
pub fn settings_saved(app: &mut App, previous: Settings, answer: Result<Settings, String>)
    requires
        state::sound(old(app)@),
    ensures
        final(app)@ == (match answer {
            Ok(settings) => state::AppModel {
                settings,
                message: "設定を保存しました"@,
                ..old(app)@
            },
            Err(error) => state::AppModel { settings: previous, message: error@, ..old(app)@ },
        }),
        state::sound(final(app)@),
{
    match answer {
        Ok(settings) => {
            app.settings = settings;
            app.message = "設定を保存しました".to_owned();
        },
        Err(error) => {
            app.settings = previous;
            app.message = error;
        },
    }
}

/// After a rule was started or stopped.
pub fn rule_switched(app: &mut App, answer: Result<(), String>) -> (r: Action)
    requires
        state::sound(old(app)@),
    ensures
        match answer {
            Ok(_) => final(app)@ == old(app)@ && r@ is Refresh,
            Err(error) => final(app)@ == with_message(old(app)@, error@) && r@ is Nothing,
        },
        state::sound(final(app)@),
{
    match answer {
        Ok(_) => Action::Refresh,
        Err(error) => {
            app.message = error;
            Action::Nothing
        },
    }
}

pub fn hosts_refreshed(app: &mut App, answer: Result<Vec<String>, String>)
    requires
        state::sound(old(app)@),
    ensures
        final(app)@ == (match answer {
            Ok(found) => with_message(
                state::with_hosts(old(app)@, text::texts(found@)),
                "ホスト一覧を更新しました"@,
            ),
            Err(error) => with_message(old(app)@, error@),
        }),
        state::sound(final(app)@),
{
    match answer {
        Ok(found) => {
            app.replace_hosts(found);
            app.message = "ホスト一覧を更新しました".to_owned();
        },
        Err(error) => {
            app.message = error;
        },
    }
}

/// What is known after a refresh. Settings that could not be loaded stay as they are.
pub open spec fn refreshed_with(
    m: state::AppModel,
    rules: Result<Vec<RuleView>, String>,
    settings: Result<Settings, String>,
) -> state::AppModel {
    let ruled = match rules {
        Ok(rules) => state::with_rules(m, state::shown_rules(rules@)),
        Err(error) => with_message(m, error@),
    };
    match settings {
        Ok(settings) => state::AppModel { settings, ..ruled },
        Err(_) => ruled,
    }
}

pub fn refreshed(
    app: &mut App,
    rules: Result<Vec<RuleView>, String>,
    settings: Result<Settings, String>,
)
    requires
        state::sound(old(app)@),
    ensures
        final(app)@ == refreshed_with(old(app)@, rules, settings),
        state::sound(final(app)@),
{
    proof {
        if rules is Ok {
            state::selections_stay_in_range(
                app@,
                state::shown_rules((rules->Ok_0)@),
                app@.hosts,
                app.page,
                0,
            );
        }
    }
    match rules {
        Ok(rules) => {
            app.replace_rules(rules);
        },
        Err(error) => {
            app.message = error;
        },
    }
    match settings {
        Ok(settings) => {
            app.settings = settings;
        },
        Err(_) => {},
    }
}

pub fn browser_opened(app: &mut App, url: &str, answer: Result<(), String>)
    requires
        state::sound(old(app)@),
    ensures
        final(app)@ == with_message(
            old(app)@,
            match answer {
                Ok(_) => "ブラウザで "@ + url@ + " を開きました"@,
                Err(error) => "ブラウザを起動できません: "@ + error@,
            },
        ),
        state::sound(final(app)@),
{
    app.message = match answer {
        Ok(_) => text::joined3("ブラウザで ", url, " を開きました"),
        Err(error) => text::joined("ブラウザを起動できません: ", error.as_str()),
    };
}

// ---------------------------------------------------------------------------
// Importing
// ---------------------------------------------------------------------------
/// The panel on the forwardings of a host, given what came of the query.
pub open spec fn opened_panel(
    m: state::AppModel,
    host: Seq<char>,
    output: Result<ProcessOutput, HostError>,
) -> state::PanelModel {
    match keys::snapshot_refusal(m) {
        Some(refusal) => state::error_panel(host, validation::refusal_message(refusal)),
        None => match output {
            Err(error) => state::error_panel(host, error.shown()),
            Ok(output) => match host::alias_refusal(host) {
                Some(refusal) => state::error_panel(
                    host,
                    "SSH host alias is invalid: "@ + validation::refusal_message(refusal),
                ),
                None => if output.timed_out {
                    state::error_panel(host, HostError::QueryTimedOut.shown())
                } else if !output.success {
                    state::error_panel(host, HostError::QueryFailed.shown())
                } else if !vstd::utf8::valid_utf8(output.stdout@) {
                    state::error_panel(host, HostError::InvalidEffectiveConfiguration.shown())
                } else {
                    state::preview_panel(
                        state::PreviewModel {
                            alias: host,
                            candidates: import::preview_of(
                                import::Surroundings {
                                    alias: host,
                                    existing: state::stored_rules(m.rules),
                                    running: state::running_of(m.rules),
                                },
                                vstd::utf8::decode_utf8(output.stdout@),
                            ),
                        },
                    )
                },
            },
        },
    }
}

/// Opens the import panel on the answer to the query about `host`.
pub fn open_import(
    app: &mut App,
    catalog: &HostCatalog,
    host: String,
    output: Result<ProcessOutput, HostError>,
)
    requires
        state::sound(old(app)@),
    ensures
        final(app)@ == keys::with_panel(old(app)@, opened_panel(old(app)@, host@, output)),
        state::sound(final(app)@),
{
    let panel = match rule_snapshots(app) {
        Err(message) => ImportPanel::error(host, message),
        Ok((rules, running)) => match output {
            Err(error) => ImportPanel::error(host, error.to_string()),
            Ok(output) => match catalog.import_preview(
                host.as_str(),
                &output,
                rules.as_slice(),
                running.as_slice(),
            ) {
                Ok(preview) => ImportPanel::preview(preview),
                Err(error) => ImportPanel::error(host, error.to_string()),
            },
        },
    };
    app.import = Some(panel);
}

/// The drafts of what is selected on a panel.
pub open spec fn panel_drafts(
    m: state::AppModel,
    preview: state::PreviewModel,
    selected: Seq<usize>,
) -> Seq<import::Draft> {
    import::drafts_of(
        preview.candidates,
        selected,
        import::rule_names(state::stored_rules(m.rules)),
    )
}

fn set_panel_error(app: &mut App, error: String)
    requires
        state::sound(old(app)@),
    ensures
        final(app)@ == with_panel_error(old(app)@, error@),
        state::sound(final(app)@),
{
    match app.import.take() {
        Some(panel) => {
            let mut panel = panel;
            panel.confirming = false;
            panel.error = Some(error);
            app.import = Some(panel);
        },
        None => {},
    }
}

/// Makes rules of what is selected on the panel, with the policy of the settings that were loaded.
pub fn import_with(app: &mut App, answer: Result<Settings, String>) -> (r: Action)
    requires
        state::sound(old(app)@),
        old(app)@.import matches Some(panel) ==> old(app)@.rules.len() + keys::panel_len(panel)
            < usize::MAX,
    ensures
        ({
            let m = old(app)@;
            match m.import {
                Some(p) => match p.preview {
                    Some(preview) => match keys::snapshot_refusal(m) {
                        Some(refusal) => final(app)@ == with_message(
                            m,
                            validation::refusal_message(refusal),
                        ) && r@ is Nothing,
                        None => match answer {
                            Err(error) => final(app)@ == with_panel_error(
                                with_message(m, error@),
                                error@,
                            ) && r@ is Nothing,
                            Ok(settings) => {
                                let drafts = panel_drafts(m, preview, p.selected);
                                match r@ {
                                    keys::ActionModel::ImportRules { rules } => final(app)@ == m
                                        && import::drafted_rules(
                                        rules,
                                        drafts,
                                        preview.alias,
                                        settings.default_auto_start,
                                        settings.default_reconnect,
                                    ),
                                    keys::ActionModel::Nothing => final(app)@ == with_message(
                                        m,
                                        final(app)@.message,
                                    ) && import::complains(final(app)@.message, drafts, preview.alias),
                                    _ => false,
                                }
                            },
                        },
                    },
                    None => final(app)@ == m && r@ is Nothing,
                },
                None => final(app)@ == m && r@ is Nothing,
            }
        }),
        state::sound(final(app)@),
{
    let ghost m = app@;
    let existing = match rule_snapshots(app) {
        Ok((rules, _)) => Ok(rules),
        Err(message) => Err(message),
    };
    let made = match &app.import {
        Some(panel) => match &panel.preview {
            Some(preview) => match existing {
                Err(message) => Err((message, false)),
                Ok(existing) => match answer {
                    Err(error) => Err((error, true)),
                    Ok(settings) => {
                        assert(rule::models(existing@).len() == existing@.len());
                        assert(import::candidate_models(preview.candidates@).len()
                            == preview.candidates@.len());
                        match selected_rules(
                            preview,
                            &panel.selected,
                            existing.as_slice(),
                            settings.default_auto_start,
                            settings.default_reconnect,
                        ) {
                            Ok(rules) => {
                                Ok(stored_rules(rules.as_slice()))
                            },
                            Err(message) => Err((message, false)),
                        }
                    },
                },
            },
            None => {
                return Action::Nothing;
            },
        },
        None => {
            return Action::Nothing;
        },
    };
    match made {
        Ok(rules) => Action::ImportRules { rules },
        Err((message, on_panel)) => {
            if on_panel {
                app.message = message.clone();
                set_panel_error(app, message);
            } else {
                app.message = message;
            }
            Action::Nothing
        },
    }
}

/// After the selected rules were sent to be saved. Nothing is started.
pub fn imported(app: &mut App, answer: Result<(), String>) -> (r: Action)
    requires
        state::sound(old(app)@),
    ensures
        match answer {
            Ok(_) => final(app)@ == (state::AppModel {
                import: None,
                message: "選択した "@ + text::decimal(
                    match old(app)@.import {
                        Some(panel) => panel.selected.len(),
                        None => 0,
                    },
                ) + " 件を保存しました（未起動）"@,
                ..old(app)@
            }) && r@ is Refresh,
            Err(error) => final(app)@ == with_panel_error(old(app)@, error@) && r@ is Nothing,
        },
        state::sound(final(app)@),
{
    match answer {
        Ok(_) => {
            let count: usize = match &app.import {
                Some(panel) => panel.selected.len(),
                None => 0,
            };
            app.import = None;
            let mut message = "選択した ".to_owned();
            text::push_decimal(&mut message, count as u64);
            message.append(" 件を保存しました（未起動）");
            app.message = message;
            Action::Refresh
        },
        Err(error) => {
            set_panel_error(app, error);
            Action::Nothing
        },
    }
}

/// An error is shown where it belongs: in the form that is open, or on the panel, which then goes back
/// to the selection and keeps it. Without either nothing changes.
pub proof fn errors_are_shown_where_they_belong(m: state::AppModel, error: Seq<char>)
    ensures
        m.form matches Some(f) ==> with_form_error(m, error).form == Some(
            form::FormModel { error: Some(error), ..f },
        ),
        m.form is None ==> with_form_error(m, error) == m,
        with_form_error(m, error).rules == m.rules,
        m.import matches Some(p) ==> with_panel_error(m, error).import == Some(
            state::PanelModel { confirming: false, error: Some(error), ..p },
        ),
        m.import is None ==> with_panel_error(m, error) == m,
        with_panel_error(m, error).rules == m.rules,
        with_message(m, error).message == error,
        with_message(m, error).form == m.form,
        with_message(m, error).rules == m.rules,
{
}

/// A refresh takes over what could be loaded. Rules that could not be loaded stay, and the reason is
/// told; settings that could not be loaded stay.
pub proof fn refreshes_take_over_what_came(
    m: state::AppModel,
    rules: Result<Vec<RuleView>, String>,
    settings: Result<Settings, String>,
)
    ensures
        ({
            let n = refreshed_with(m, rules, settings);
            &&& rules matches Ok(list) ==> n.rules == state::shown_rules(list@) && n.message
                == m.message
            &&& rules matches Err(error) ==> n.rules == m.rules && n.message == error@
            &&& settings matches Ok(s) ==> n.settings == s
            &&& settings is Err ==> n.settings == m.settings
            &&& n.page == m.page && n.form == m.form && n.import == m.import
        }),
{
}

/// The panel on a host shows the candidates only if the query worked in time and printed text. Each
/// way in which it did not has its own error, and the first one counts.
pub proof fn panels_show_candidates_or_an_error(
    m: state::AppModel,
    host: Seq<char>,
    output: Result<ProcessOutput, HostError>,
)
    ensures
        ({
            let p = opened_panel(m, host, output);
            let worked = keys::snapshot_refusal(m) is None && host::alias_refusal(host) is None && (
            output matches Ok(o) && !o.timed_out && o.success && vstd::utf8::valid_utf8(o.stdout@));
            &&& p.host == host
            &&& p.preview is Some <==> worked
            &&& p.error is None <==> worked
            &&& p.selected.len() == 0 && !p.confirming
            &&& keys::snapshot_refusal(m) matches Some(refusal) ==> p.error == Some(
                validation::refusal_message(refusal),
            )
            &&& keys::snapshot_refusal(m) is None ==> (output matches Err(error) ==> p.error == Some(
                error.shown(),
            ))
            &&& keys::snapshot_refusal(m) is None && output is Ok ==> (
            host::alias_refusal(host) matches Some(refusal) ==> p.error == Some(
                "SSH host alias is invalid: "@ + validation::refusal_message(refusal),
            ))
            &&& worked ==> p.preview->0.alias == host && p.preview->0.candidates
                == import::preview_of(
                import::Surroundings {
                    alias: host,
                    existing: state::stored_rules(m.rules),
                    running: state::running_of(m.rules),
                },
                vstd::utf8::decode_utf8(output->Ok_0.stdout@),
            )
            &&& keys::snapshot_refusal(m) is None && host::alias_refusal(host) is None ==> (
            output matches Ok(o) ==> {
                &&& o.timed_out ==> p.error == Some(
                    "OpenSSH effective-configuration query timed out"@,
                )
                &&& !o.timed_out && !o.success ==> p.error == Some(
                    "OpenSSH could not resolve effective configuration"@,
                )
                &&& !o.timed_out && o.success && !vstd::utf8::valid_utf8(o.stdout@) ==> p.error
                    == Some("OpenSSH returned invalid effective configuration"@)
            })
        }),
{
}

} // verus!
