//! The admin pages: what their forms ask for, what is listed, and how events are shown.
//!
//! The functions here decide what a page shows; whoever serves the pages renders it and talks to
//! the database.
use crate::clock::{in_calendar, now, rfc3339_text, write_rfc3339};
use crate::config::AppConfigFile;
use crate::digest::{base64_bytes, base64_text, decode_base64};
use crate::error::ProxyResult;
use crate::form::{
    number_or, rule_of_form, runtime_from_form, settings_of_form, transforms_from_form, value_of,
    FormValues,
};
use crate::json::{pretty_json, rewrite_json};
use crate::number::{parse_decimal, parse_i64, parse_u64, signed_decimal, signed_text};
use crate::runtime_manager::RuntimeManagerState;
use crate::text::{
    chars_of, copy_text, lossy_text, opt_str, opt_text, read_lossy, same_text, trim, trimmed_text,
    upper, uppered,
};
use crate::transform::{
    TransformActionFile, TransformMatcherFile, TransformRuleFile, TransformTargetFile,
};
use vstd::prelude::*;

verus! {

// ---------------------------------------------------------------------------
// The editor
// ---------------------------------------------------------------------------

/// What a form of the editor asks for.
#[derive(Debug, Clone, Copy, PartialEq, Eq, Structural)]
pub enum EditorAction {
    AddTransform,
    MoveTransformDown(usize),
    MoveTransformUp(usize),
    RemoveTransform(usize),
    Reload,
    Save,
}

/// What a form of the editor asks for; what is not known stands for saving.
pub open spec fn action_of_form(values: Map<Seq<char>, Seq<char>>) -> EditorAction {
    let index = number_or(value_of(values, "editor_index"@), usize::MAX as int, 0) as usize;
    let action = value_of(values, "editor_action"@);
    if action == Some("add_transform"@) {
        EditorAction::AddTransform
    } else if action == Some("move_transform_up"@) {
        EditorAction::MoveTransformUp(index)
    } else if action == Some("move_transform_down"@) {
        EditorAction::MoveTransformDown(index)
    } else if action == Some("remove_transform"@) {
        EditorAction::RemoveTransform(index)
    } else if action == Some("reload"@) {
        EditorAction::Reload
    } else {
        EditorAction::Save
    }
}

/// What a form of the editor asks for.
pub fn editor_action(values: &FormValues) -> (action: EditorAction)
    ensures
        action == action_of_form(values@),
{
    let index = crate::form::usize_value(values, "editor_index", 0);
    match values.get("editor_action") {
        Some(action) => {
            if same_text(action.as_str(), "add_transform") {
                EditorAction::AddTransform
            } else if same_text(action.as_str(), "move_transform_up") {
                EditorAction::MoveTransformUp(index)
            } else if same_text(action.as_str(), "move_transform_down") {
                EditorAction::MoveTransformDown(index)
            } else if same_text(action.as_str(), "remove_transform") {
                EditorAction::RemoveTransform(index)
            } else if same_text(action.as_str(), "reload") {
                EditorAction::Reload
            } else {
                EditorAction::Save
            }
        },
        None => EditorAction::Save,
    }
}

/// Whether a rule is the one that the editor adds: for every response, on the body, with nothing
/// filled in.
pub open spec fn is_blank(rule: TransformRuleFile) -> bool {
    &&& rule.matcher is Everything
    &&& match rule.action {
        TransformActionFile::Replace { from, to } => from@.len() == 0 && to@.len() == 0,
    }
    &&& rule.target is Body
    &&& !rule.stop
}

/// The rule that the editor adds.
pub fn blank_transform() -> (rule: TransformRuleFile)
    ensures
        is_blank(rule),
{
    TransformRuleFile {
        matcher: TransformMatcherFile::Everything {  },
        action: TransformActionFile::Replace { from: String::new(), to: String::new() },
        target: TransformTargetFile::Body {  },
        stop: false,
    }
}

/// Rules with two that stand next to each other exchanged.
pub open spec fn exchanged(rules: Seq<TransformRuleFile>, i: int) -> Seq<TransformRuleFile> {
    rules.update(i, rules[i + 1]).update(i + 1, rules[i])
}

/// Whether rules are what an action of the editor makes of others. A rule that is not there, or has
/// nowhere to go, is left alone.
pub open spec fn is_edited(
    before: Seq<TransformRuleFile>,
    action: EditorAction,
    after: Seq<TransformRuleFile>,
) -> bool {
    match action {
        EditorAction::AddTransform => after.len() == before.len() + 1 && after.drop_last() == before
            && is_blank(after.last()),
        EditorAction::MoveTransformUp(index) => after == if 0 < index < before.len() {
            exchanged(before, index - 1)
        } else {
            before
        },
        EditorAction::MoveTransformDown(index) => after == if index + 1 < before.len() {
            exchanged(before, index as int)
        } else {
            before
        },
        EditorAction::RemoveTransform(index) => after == if index < before.len() {
            before.remove(index as int)
        } else {
            before
        },
        EditorAction::Reload => after == before,
        EditorAction::Save => after == before,
    }
}

/// Exchanges a rule with the one behind it.
fn exchange(draft: &mut Vec<TransformRuleFile>, i: usize)
    requires
        i + 1 < old(draft)@.len(),
    ensures
        final(draft)@ == exchanged(old(draft)@, i as int),
{
    let ghost before = draft@;
    assert(i + 1 < draft.len());
    let rule = draft.remove(i);
    draft.insert(i + 1, rule);
    assert(draft@ =~= exchanged(before, i as int));
}

/// Carries out an action of the editor on the rules.
pub fn apply_editor_action(draft: &mut Vec<TransformRuleFile>, action: EditorAction)
    ensures
        is_edited(old(draft)@, action, final(draft)@),
{
    match action {
        EditorAction::AddTransform => {
            let ghost before = draft@;
            draft.push(blank_transform());
            assert(draft@.drop_last() =~= before);
        },
        EditorAction::MoveTransformUp(index) => {
            if index > 0 && index < draft.len() {
                exchange(draft, index - 1);
            }
        },
        EditorAction::MoveTransformDown(index) => {
            if index < draft.len() && index + 1 < draft.len() {
                exchange(draft, index);
            }
        },
        EditorAction::RemoveTransform(index) => {
            if index < draft.len() {
                draft.remove(index);
            }
        },
        EditorAction::Reload => {},
        EditorAction::Save => {},
    }
}

/// Moving a rule down and then up again leaves the rules as they were, and so does moving it up and
/// then down.
pub proof fn moving_back_undoes_moving(
    rules: Seq<TransformRuleFile>,
    moved: Seq<TransformRuleFile>,
    back: Seq<TransformRuleFile>,
    index: usize,
    next: usize,
)
    requires
        next == index + 1,
        next < rules.len(),
        ({
            let down = EditorAction::MoveTransformDown(index);
            let up = EditorAction::MoveTransformUp(next);
            ||| is_edited(rules, down, moved) && is_edited(moved, up, back)
            ||| is_edited(rules, up, moved) && is_edited(moved, down, back)
        }),
    ensures
        back == rules,
{
    assert(exchanged(exchanged(rules, index as int), index as int) =~= rules);
}

/// Rules of which two were exchanged are the same rules.
proof fn lemma_exchange_keeps(rules: Seq<TransformRuleFile>, index: int)
    requires
        0 <= index,
        index + 1 < rules.len(),
    ensures
        exchanged(rules, index).to_multiset() == rules.to_multiset(),
{
    broadcast use vstd::multiset::group_multiset_axioms;

    let middle = rules.update(index, rules[index + 1]);
    rules.to_multiset_ensures();
    middle.to_multiset_ensures();
    assert(rules.to_multiset().contains(rules[index])) by {
        assert(rules.contains(rules[index]));
    }
    assert(rules.to_multiset().contains(rules[index + 1])) by {
        assert(rules.contains(rules[index + 1]));
    }
    vstd::seq_lib::to_multiset_update(rules, index, rules[index + 1]);
    vstd::seq_lib::to_multiset_update(middle, index + 1, rules[index]);
    assert(exchanged(rules, index).to_multiset() =~= rules.to_multiset());
}

/// Moving rules neither adds nor takes any.
pub proof fn moving_keeps_the_rules(
    rules: Seq<TransformRuleFile>,
    action: EditorAction,
    moved: Seq<TransformRuleFile>,
)
    requires
        action is MoveTransformUp || action is MoveTransformDown,
        is_edited(rules, action, moved),
    ensures
        moved.to_multiset() == rules.to_multiset(),
{
    match action {
        EditorAction::MoveTransformUp(index) => {
            if 0 < index < rules.len() {
                lemma_exchange_keeps(rules, index - 1);
            }
        },
        EditorAction::MoveTransformDown(index) => {
            if index + 1 < rules.len() {
                lemma_exchange_keeps(rules, index as int);
            }
        },
        _ => {},
    }
}

// ---------------------------------------------------------------------------
// Submitted forms
// ---------------------------------------------------------------------------

/// What a submitted form leads to: a reload, saving a draft, or showing it.
#[derive(Debug)]
pub enum SubmitPlan {
    Reload,
    Save(AppConfigFile),
    Show(AppConfigFile),
}

/// A message above a page.
#[derive(Debug, Clone)]
pub struct Notice {
    pub tone: String,
    pub message: String,
}

impl Notice {
    /// A message that all is well.
    pub fn info(message: &str) -> (notice: Notice)
        ensures
            notice.tone@ == "border-emerald-200 bg-emerald-50 text-emerald-900"@,
            notice.message@ == message@,
    {
        Notice {
            tone: "border-emerald-200 bg-emerald-50 text-emerald-900".to_owned(),
            message: message.to_owned(),
        }
    }

    /// A message that something failed.
    pub fn error(message: &str) -> (notice: Notice)
        ensures
            notice.tone@ == "border-rose-200 bg-rose-50 text-rose-900"@,
            notice.message@ == message@,
    {
        Notice {
            tone: "border-rose-200 bg-rose-50 text-rose-900".to_owned(),
            message: message.to_owned(),
        }
    }
}

/// What a page says above its form: a message, and what is wrong.
#[derive(Debug, Clone)]
pub struct Feedback {
    pub notice: Notice,
    pub errors: Vec<String>,
}

/// Decides what the form of the config page leads to. Only the runtime settings are its to change.
pub fn config_submit(values: &FormValues, saved: &AppConfigFile) -> (plan: SubmitPlan)
    ensures
        ({
            let action = action_of_form(values@);
            match plan {
                SubmitPlan::Reload => action == EditorAction::Reload,
                SubmitPlan::Save(draft) => action == EditorAction::Save && settings_of_form(
                    values@,
                    saved.runtime,
                    draft.runtime,
                ) && draft.transforms@ == saved.transforms@,
                SubmitPlan::Show(draft) => action != EditorAction::Reload && action
                    != EditorAction::Save && settings_of_form(
                    values@,
                    saved.runtime,
                    draft.runtime,
                ) && draft.transforms@ == saved.transforms@,
            }
        }),
{
    let action = editor_action(values);
    if action == EditorAction::Reload {
        return SubmitPlan::Reload;
    }
    let draft = AppConfigFile {
        runtime: runtime_from_form(values, &saved.runtime),
        transforms: copy_rules(&saved.transforms),
    };
    if action == EditorAction::Save {
        SubmitPlan::Save(draft)
    } else {
        SubmitPlan::Show(draft)
    }
}

/// A copy of rules.
fn copy_rules(rules: &Vec<TransformRuleFile>) -> (copy: Vec<TransformRuleFile>)
    ensures
        copy@ == rules@,
{
    let mut copy: Vec<TransformRuleFile> = Vec::new();
    let mut i: usize = 0;
    while i < rules.len()
        invariant
            i <= rules.len(),
            copy@ == rules@.take(i as int),
        decreases rules.len() - i,
    {
        copy.push(rules[i].copy());
        i += 1;
    }
    copy
}

/// Whether rules are those that a form describes, as an action of the editor leaves them.
pub open spec fn rules_of_form(
    values: Map<Seq<char>, Seq<char>>,
    saved: Seq<TransformRuleFile>,
    action: EditorAction,
    rules: Seq<TransformRuleFile>,
) -> bool {
    exists|read: Seq<TransformRuleFile>|
        {
            &&& read.len() == number_or(
                value_of(values, "transform_count"@),
                usize::MAX as int,
                saved.len() as int,
            )
            &&& forall|i: int|
                0 <= i < read.len() ==> rule_of_form(values, i as nat, #[trigger] read[i])
            &&& #[trigger] is_edited(read, action, rules)
        }
}

/// Decides what the form of the transforms page leads to. Only the transforms are its to change.
pub fn transforms_submit(values: &FormValues, saved: &AppConfigFile) -> (plan: SubmitPlan)
    ensures
        ({
            let action = action_of_form(values@);
            match plan {
                SubmitPlan::Reload => action == EditorAction::Reload,
                SubmitPlan::Save(draft) => action == EditorAction::Save
                    && draft.runtime.is_written_like(saved.runtime) && rules_of_form(values@, saved.transforms@, action, draft.transforms@),
                SubmitPlan::Show(draft) => action != EditorAction::Reload && action
                    != EditorAction::Save && draft.runtime.is_written_like(saved.runtime)
                    && rules_of_form(values@, saved.transforms@, action, draft.transforms@),
            }
        }),
{
    let action = editor_action(values);
    if action == EditorAction::Reload {
        return SubmitPlan::Reload;
    }
    let mut transforms = transforms_from_form(values, &saved.transforms);
    let ghost read = transforms@;
    apply_editor_action(&mut transforms, action);
    assert(is_edited(read, action, transforms@));
    let draft = AppConfigFile { runtime: saved.runtime.copy(), transforms };
    if action == EditorAction::Save {
        SubmitPlan::Save(draft)
    } else {
        SubmitPlan::Show(draft)
    }
}

/// What a page says after a reload.
pub fn reload_feedback(outcome: Result<(), String>) -> (feedback: Feedback)
    ensures
        match outcome {
            Ok(_) => feedback.notice.message@ == "Proxy reloaded from disk."@ && feedback.notice.tone@
                == "border-emerald-200 bg-emerald-50 text-emerald-900"@ && feedback.errors@.len()
                == 0,
            Err(text) => feedback.notice.message@ == "Reload failed."@ && feedback.notice.tone@
                == "border-rose-200 bg-rose-50 text-rose-900"@ && feedback.errors@ == seq![text],
        },
{
    match outcome {
        Ok(_) => Feedback {
            notice: Notice::info("Proxy reloaded from disk."),
            errors: Vec::new(),
        },
        Err(text) => {
            let mut errors: Vec<String> = Vec::new();
            errors.push(text);
            assert(errors@ =~= seq![text]);
            Feedback { notice: Notice::error("Reload failed."), errors }
        },
    }
}

/// What a page says after saving: whether a reload is pending, or why it was not saved.
pub fn save_feedback(outcome: Result<bool, String>) -> (feedback: Feedback)
    ensures
        match outcome {
            Ok(pending) => feedback.notice.message@ == (if pending {
                "Config saved. Reload is required to apply it."@
            } else {
                "Config saved. The running proxy already matches this file."@
            }) && feedback.notice.tone@ == "border-emerald-200 bg-emerald-50 text-emerald-900"@
                && feedback.errors@.len() == 0,
            Err(text) => feedback.notice.message@ == "Config did not save."@ && feedback.notice.tone@
                == "border-rose-200 bg-rose-50 text-rose-900"@ && feedback.errors@ == seq![text],
        },
{
    match outcome {
        Ok(pending) => Feedback {
            notice: if pending {
                Notice::info("Config saved. Reload is required to apply it.")
            } else {
                Notice::info("Config saved. The running proxy already matches this file.")
            },
            errors: Vec::new(),
        },
        Err(text) => {
            let mut errors: Vec<String> = Vec::new();
            errors.push(text);
            assert(errors@ =~= seq![text]);
            Feedback { notice: Notice::error("Config did not save."), errors }
        },
    }
}

/// What the sidebar says of the running proxy.
pub fn reload_status(snapshot: &RuntimeManagerState) -> (text: &'static str)
    ensures
        text@ == if snapshot.pending_reload {
            "Saved config differs from the running proxy."@
        } else {
            "Running proxy matches the saved config."@
        },
{
    if snapshot.pending_reload {
        "Saved config differs from the running proxy."
    } else {
        "Running proxy matches the saved config."
    }
}

// ---------------------------------------------------------------------------
// The list of events
// ---------------------------------------------------------------------------

/// What the list of events is asked for.
#[derive(Debug, Clone)]
pub struct EventListFilterQuery {
    pub method: Option<String>,
    pub path_substring: Option<String>,
    pub status_code: Option<i32>,
    pub proxy_result: Option<String>,
    pub since_hours: Option<i64>,
    pub page: Option<u64>,
    pub per_page: Option<u64>,
}

/// Which events are listed, and which page of them.
#[derive(Debug, Clone)]
pub struct EventListFilter {
    pub method: Option<String>,
    pub path_substring: Option<String>,
    pub status_code: Option<i32>,
    pub proxy_result: Option<String>,
    pub since_hours: Option<i64>,
    pub page: u64,
    pub per_page: u64,
}

/// The number that a blank field or a field with a number in it holds; any other is refused.
pub open spec fn optional_number(
    raw: Option<Seq<char>>,
    signed: bool,
    least: int,
    most: int,
) -> Result<Option<int>, ()> {
    match raw {
        None => Ok(None),
        Some(raw) => if trim(raw).len() == 0 {
            Ok(None)
        } else {
            match parse_decimal(trim(raw), signed, least, most) {
                Some(n) => Ok(Some(n)),
                None => Err(()),
            }
        },
    }
}

/// Reads an optional `i32` from a field.
pub fn optional_i32(raw: Option<&str>) -> (result: Result<Option<i32>, ()>)
    ensures
        match result {
            Ok(Some(n)) => optional_number(opt_str(raw), true, i32::MIN as int, i32::MAX as int)
                == Ok::<Option<int>, ()>(Some(n as int)),
            Ok(None) => optional_number(opt_str(raw), true, i32::MIN as int, i32::MAX as int)
                == Ok::<Option<int>, ()>(None),
            Err(_) => optional_number(opt_str(raw), true, i32::MIN as int, i32::MAX as int) is Err,
        },
{
    match raw {
        None => Ok(None),
        Some(raw) => {
            let text = trimmed_text(raw);
            if chars_of(text.as_str()).len() == 0 {
                return Ok(None);
            }
            match crate::number::parse_i32(text.as_str()) {
                Some(n) => Ok(Some(n)),
                None => Err(()),
            }
        },
    }
}

/// Reads an optional `i64` from a field.
pub fn optional_i64(raw: Option<&str>) -> (result: Result<Option<i64>, ()>)
    ensures
        match result {
            Ok(Some(n)) => optional_number(opt_str(raw), true, i64::MIN as int, i64::MAX as int)
                == Ok::<Option<int>, ()>(Some(n as int)),
            Ok(None) => optional_number(opt_str(raw), true, i64::MIN as int, i64::MAX as int)
                == Ok::<Option<int>, ()>(None),
            Err(_) => optional_number(opt_str(raw), true, i64::MIN as int, i64::MAX as int) is Err,
        },
{
    match raw {
        None => Ok(None),
        Some(raw) => {
            let text = trimmed_text(raw);
            if chars_of(text.as_str()).len() == 0 {
                return Ok(None);
            }
            match parse_i64(text.as_str()) {
                Some(n) => Ok(Some(n)),
                None => Err(()),
            }
        },
    }
}

/// Reads an optional `u64` from a field.
pub fn optional_u64(raw: Option<&str>) -> (result: Result<Option<u64>, ()>)
    ensures
        match result {
            Ok(Some(n)) => optional_number(opt_str(raw), false, 0, u64::MAX as int) == Ok::<
                Option<int>,
                (),
            >(Some(n as int)),
            Ok(None) => optional_number(opt_str(raw), false, 0, u64::MAX as int) == Ok::<
                Option<int>,
                (),
            >(None),
            Err(_) => optional_number(opt_str(raw), false, 0, u64::MAX as int) is Err,
        },
{
    match raw {
        None => Ok(None),
        Some(raw) => {
            let text = trimmed_text(raw);
            if chars_of(text.as_str()).len() == 0 {
                return Ok(None);
            }
            match parse_u64(text.as_str()) {
                Some(n) => Ok(Some(n)),
                None => Err(()),
            }
        },
    }
}

/// A text, where it is not empty.
pub open spec fn nonempty(text: Option<Seq<char>>) -> Option<Seq<char>> {
    match text {
        Some(text) if text.len() > 0 => Some(text),
        _ => None,
    }
}

/// A copy of a text, where it is not empty.
fn keep_nonempty(text: &Option<String>) -> (kept: Option<String>)
    ensures
        opt_text(kept) == nonempty(opt_text(*text)),
{
    match text {
        Some(text) => {
            if chars_of(text.as_str()).len() > 0 {
                Some(text.clone())
            } else {
                None
            }
        },
        None => None,
    }
}

/// The number of events on a page: fifty unless something else is asked for, and between one and
/// two hundred.
pub open spec fn page_size(asked: Option<u64>) -> u64 {
    match asked {
        None => 50,
        Some(n) => if n < 1 {
            1
        } else if n > 200 {
            200
        } else {
            n
        },
    }
}

impl EventListFilterQuery {
    /// Which events are to be listed.
    pub fn to_filter(&self) -> (filter: EventListFilter)
        ensures
            opt_text(filter.method) == nonempty(opt_text(self.method)),
            opt_text(filter.path_substring) == nonempty(opt_text(self.path_substring)),
            filter.status_code == self.status_code,
            opt_text(filter.proxy_result) == nonempty(opt_text(self.proxy_result)),
            filter.since_hours == self.since_hours,
            filter.page == match self.page {
                Some(page) => page,
                None => 0,
            },
            filter.per_page == page_size(self.per_page),
    {
        let page = match self.page {
            Some(page) => page,
            None => 0,
        };
        let per_page = match self.per_page {
            Some(n) => if n < 1 {
                1
            } else if n > 200 {
                200
            } else {
                n
            },
            None => 50,
        };
        EventListFilter {
            method: keep_nonempty(&self.method),
            path_substring: keep_nonempty(&self.path_substring),
            status_code: self.status_code,
            proxy_result: keep_nonempty(&self.proxy_result),
            since_hours: self.since_hours,
            page,
            per_page,
        }
    }
}

/// The question that is put to the database: events with this method, with this in their path,
/// with this status, with this result, from this time on; the latest first, one page of them.
#[derive(Debug, Clone)]
pub struct EventQuery {
    pub method: Option<String>,
    pub path_contains: Option<String>,
    pub status_code: Option<i32>,
    pub proxy_result: Option<String>,
    pub since: Option<String>,
    pub page: u64,
    pub per_page: u64,
}

/// A point in time some hours before another.
pub open spec fn hours_before(nanos: int, hours: int) -> int {
    nanos - hours * 3_600_000_000_000
}

/// The time from which on events are listed: nothing where all are, and an error where it cannot
/// be written.
pub open spec fn since_text(filter: EventListFilter, now: i128) -> Result<Option<Seq<char>>, ()> {
    match filter.since_hours {
        None => Ok(None),
        Some(hours) => match rfc3339_text(hours_before(now as int, hours as int) as i128) {
            Some(text) => Ok(Some(text)),
            None => Err(()),
        },
    }
}

/// Whether a question is the one that a filter stands for. Methods are asked for in upper case.
pub open spec fn is_query_of(
    query: EventQuery,
    filter: EventListFilter,
    since: Option<Seq<char>>,
) -> bool {
    &&& opt_text(query.method) == match filter.method {
        Some(method) => Some(upper(method@)),
        None => None,
    }
    &&& opt_text(query.path_contains) == opt_text(filter.path_substring)
    &&& query.status_code == filter.status_code
    &&& opt_text(query.proxy_result) == opt_text(filter.proxy_result)
    &&& opt_text(query.since) == since
    &&& query.page == filter.page
    &&& query.per_page == filter.per_page
}

/// The question that a filter stands for, given how the earliest time is written.
pub fn query_since(filter: &EventListFilter, since: Option<String>) -> (query: EventQuery)
    ensures
        is_query_of(query, *filter, opt_text(since)),
{
    EventQuery {
        method: match &filter.method {
            Some(method) => Some(uppered(method.as_str())),
            None => None,
        },
        path_contains: copy_text(&filter.path_substring),
        status_code: filter.status_code,
        proxy_result: copy_text(&filter.proxy_result),
        since,
        page: filter.page,
        per_page: filter.per_page,
    }
}

/// The question that a filter stands for at a time. It cannot be put where the earliest time cannot
/// be written.
pub fn list_events_at(filter: &EventListFilter, now: i128) -> (result: Result<EventQuery, ()>)
    requires
        in_calendar(now as int),
    ensures
        match result {
            Ok(query) => since_text(*filter, now) matches Ok(since) && is_query_of(
                query,
                *filter,
                since,
            ),
            Err(_) => since_text(*filter, now) is Err,
        },
{
    let since = match filter.since_hours {
        None => None,
        Some(hours) => {
            let at: i128 = now - (hours as i128) * 3_600_000_000_000;
            match write_rfc3339(at) {
                Some(text) => Some(text),
                None => {
                    return Err(());
                },
            }
        },
    };
    Ok(query_since(filter, since))
}

/// The question that a filter stands for now.
pub fn list_events(filter: &EventListFilter) -> (result: Result<EventQuery, ()>)
    ensures
        filter.since_hours is None ==> result is Ok,
        result matches Ok(query) ==> exists|now: i128|
            in_calendar(now as int) && (#[trigger] since_text(*filter, now) matches Ok(since)
                && is_query_of(query, *filter, since)),
        result is Err ==> exists|now: i128|
            in_calendar(now as int) && #[trigger] since_text(*filter, now) is Err,
{
    let at = now();
    let result = list_events_at(filter, at);
    assert(since_text(*filter, at) is Ok == result is Ok);
    result
}

// ---------------------------------------------------------------------------
// Events as they are shown
// ---------------------------------------------------------------------------

/// What a page takes from the database about an event.
#[derive(Debug, Clone)]
pub struct EventRow {
    pub event_id: String,
    pub request_start_ts: String,
    pub duration_ms: i64,
    pub method: String,
    pub path: String,
    pub status_code: Option<i32>,
    pub backend_host: String,
    pub proxy_result: String,
    pub frontend_tls_sni: Option<String>,
    pub request_headers_json: String,
    pub response_headers_json: Option<String>,
    pub request_cookies_json: Option<String>,
    pub response_set_cookie_json: Option<String>,
    pub request_body_preview_base64: Option<String>,
    pub response_body_preview_base64: Option<String>,
}

/// An event in the list.
#[derive(Debug, Clone)]
pub struct EventListItem {
    pub event_id: String,
    pub request_start_ts: String,
    pub method: String,
    pub path: String,
    pub status_code: String,
    pub duration_ms: i64,
    pub backend_host: String,
    pub proxy_result: String,
}

/// An event on a page of its own.
#[derive(Debug, Clone)]
pub struct EventDetail {
    pub request_start_ts: String,
    pub method: String,
    pub path: String,
    pub status_code: String,
    pub duration_ms: i64,
    pub backend_host: String,
    pub proxy_result: String,
    pub frontend_tls_sni: Option<String>,
    pub request_headers_json: String,
    pub response_headers_json: Option<String>,
    pub request_cookies_json: Option<String>,
    pub response_set_cookie_json: Option<String>,
    pub request_body_preview: String,
    pub response_body_preview: String,
}

/// A status as it is shown.
pub open spec fn status_shown(status: Option<i32>) -> Seq<char> {
    match status {
        Some(status) => signed_text(status as int),
        None => "n/a"@,
    }
}

/// A status as it is shown.
fn show_status(status: Option<i32>) -> (text: String)
    ensures
        text@ == status_shown(status),
{
    match status {
        Some(status) => signed_decimal(status as i64),
        None => "n/a".to_owned(),
    }
}

/// An event in the list.
pub fn list_item(row: &EventRow) -> (item: EventListItem)
    ensures
        item.event_id@ == row.event_id@,
        item.request_start_ts@ == row.request_start_ts@,
        item.method@ == row.method@,
        item.path@ == row.path@,
        item.status_code@ == status_shown(row.status_code),
        item.duration_ms == row.duration_ms,
        item.backend_host@ == row.backend_host@,
        item.proxy_result@ == row.proxy_result@,
{
    EventListItem {
        event_id: row.event_id.clone(),
        request_start_ts: row.request_start_ts.clone(),
        method: row.method.clone(),
        path: row.path.clone(),
        status_code: show_status(row.status_code),
        duration_ms: row.duration_ms,
        backend_host: row.backend_host.clone(),
        proxy_result: row.proxy_result.clone(),
    }
}

/// JSON as it is shown: over several lines, or as it is where it is not JSON.
pub open spec fn json_shown(value: Seq<char>) -> Seq<char> {
    match pretty_json(value) {
        Some(text) => text,
        None => value,
    }
}

/// JSON as it is shown, given how it is written over several lines, where it is JSON.
pub fn choose_json(value: &str, pretty: Option<String>) -> (text: String)
    ensures
        text@ == match pretty {
            Some(pretty) => pretty@,
            None => value@,
        },
{
    match pretty {
        Some(pretty) => pretty,
        None => value.to_owned(),
    }
}

/// JSON as it is shown.
pub fn prettify_json(value: &str) -> (text: String)
    ensures
        text@ == json_shown(value@),
{
    choose_json(value, rewrite_json(value))
}

/// An optional JSON text as it is shown.
fn prettify_optional(value: &Option<String>) -> (text: Option<String>)
    ensures
        opt_text(text) == match *value {
            Some(value) => Some(json_shown(value@)),
            None => None,
        },
{
    match value {
        Some(value) => Some(prettify_json(value.as_str())),
        None => None,
    }
}

/// The beginning of a body as it is shown: its bytes read as text, or as it is where it is not
/// Base64.
pub open spec fn preview_shown(value: Option<Seq<char>>) -> Seq<char> {
    match value {
        None => "n/a"@,
        Some(encoded) => match base64_bytes(encoded) {
            Some(bytes) => lossy_text(bytes),
            None => encoded,
        },
    }
}

/// The beginning of a body as it is shown, given what it was decoded to, where it is Base64.
pub fn show_decoded(encoded: &str, bytes: Option<Vec<u8>>) -> (text: String)
    ensures
        match bytes {
            Some(bytes) => text@ == lossy_text(bytes@) && (vstd::utf8::valid_utf8(bytes@) ==> text@
                == vstd::utf8::decode_utf8(bytes@)),
            None => text@ == encoded@,
        },
{
    match bytes {
        Some(bytes) => read_lossy(bytes.as_slice()),
        None => encoded.to_owned(),
    }
}

/// The beginning of a body as it is shown. What was kept of a text body is shown as that text.
pub fn decode_preview(value: &Option<String>) -> (text: String)
    ensures
        text@ == preview_shown(opt_text(*value)),
        forall|body: Seq<u8>|
            opt_text(*value) == Some(#[trigger] base64_text(body)) && vstd::utf8::valid_utf8(body)
                ==> text@ == vstd::utf8::decode_utf8(body),
{
    match value {
        Some(encoded) => {
            let bytes = decode_base64(encoded.as_str());
            show_decoded(encoded.as_str(), bytes)
        },
        None => "n/a".to_owned(),
    }
}

/// An event on a page of its own.
pub fn load_event_detail(row: &EventRow) -> (detail: EventDetail)
    ensures
        detail.request_start_ts@ == row.request_start_ts@,
        detail.method@ == row.method@,
        detail.path@ == row.path@,
        detail.status_code@ == status_shown(row.status_code),
        detail.duration_ms == row.duration_ms,
        detail.backend_host@ == row.backend_host@,
        detail.proxy_result@ == row.proxy_result@,
        opt_text(detail.frontend_tls_sni) == opt_text(row.frontend_tls_sni),
        detail.request_headers_json@ == json_shown(row.request_headers_json@),
        opt_text(detail.response_headers_json) == match row.response_headers_json {
            Some(value) => Some(json_shown(value@)),
            None => None,
        },
        opt_text(detail.request_cookies_json) == match row.request_cookies_json {
            Some(value) => Some(json_shown(value@)),
            None => None,
        },
        opt_text(detail.response_set_cookie_json) == match row.response_set_cookie_json {
            Some(value) => Some(json_shown(value@)),
            None => None,
        },
        detail.request_body_preview@ == preview_shown(opt_text(row.request_body_preview_base64)),
        detail.response_body_preview@ == preview_shown(opt_text(row.response_body_preview_base64)),
{
    EventDetail {
        request_start_ts: row.request_start_ts.clone(),
        method: row.method.clone(),
        path: row.path.clone(),
        status_code: show_status(row.status_code),
        duration_ms: row.duration_ms,
        backend_host: row.backend_host.clone(),
        proxy_result: row.proxy_result.clone(),
        frontend_tls_sni: copy_text(&row.frontend_tls_sni),
        request_headers_json: prettify_json(row.request_headers_json.as_str()),
        response_headers_json: prettify_optional(&row.response_headers_json),
        request_cookies_json: prettify_optional(&row.request_cookies_json),
        response_set_cookie_json: prettify_optional(&row.response_set_cookie_json),
        request_body_preview: decode_preview(&row.request_body_preview_base64),
        response_body_preview: decode_preview(&row.response_body_preview_base64),
    }
}

// ---------------------------------------------------------------------------
// Choices
// ---------------------------------------------------------------------------

/// The values and labels of a list of choices.
pub open spec fn choice_views(choices: Seq<(&'static str, &'static str)>) -> Seq<
    (Seq<char>, Seq<char>),
> {
    choices.map_values(|choice: (&'static str, &'static str)| (choice.0@, choice.1@))
}

/// The HTTP modes to choose from.
pub fn http_mode_options() -> (choices: Vec<(&'static str, &'static str)>)
    ensures
        choice_views(choices@) == seq![
            ("auto"@, "Auto"@),
            ("http1"@, "HTTP/1"@),
            ("http2"@, "HTTP/2"@),
        ],
{
    let choices = vec![("auto", "Auto"), ("http1", "HTTP/1"), ("http2", "HTTP/2")];
    assert(choice_views(choices@) =~= seq![
        ("auto"@, "Auto"@),
        ("http1"@, "HTTP/1"@),
        ("http2"@, "HTTP/2"@),
    ]);
    choices
}

/// The matchers to choose from.
pub fn matcher_options() -> (choices: Vec<(&'static str, &'static str)>)
    ensures
        choice_views(choices@) == seq![
            ("any"@, "Any response"@),
            ("url_glob"@, "URL glob"@),
            ("content_type_glob"@, "Content-Type glob"@),
        ],
{
    let choices = vec![
        ("any", "Any response"),
        ("url_glob", "URL glob"),
        ("content_type_glob", "Content-Type glob"),
    ];
    assert(choice_views(choices@) =~= seq![
        ("any"@, "Any response"@),
        ("url_glob"@, "URL glob"@),
        ("content_type_glob"@, "Content-Type glob"@),
    ]);
    choices
}

/// The targets to choose from.
pub fn target_options() -> (choices: Vec<(&'static str, &'static str)>)
    ensures
        choice_views(choices@) == seq![
            ("body"@, "Body"@),
            ("any"@, "Body + headers"@),
            ("all_headers"@, "All headers"@),
            ("header"@, "One header"@),
            ("cookies"@, "Set-Cookie"@),
        ],
{
    let choices = vec![
        ("body", "Body"),
        ("any", "Body + headers"),
        ("all_headers", "All headers"),
        ("header", "One header"),
        ("cookies", "Set-Cookie"),
    ];
    assert(choice_views(choices@) =~= seq![
        ("body"@, "Body"@),
        ("any"@, "Body + headers"@),
        ("all_headers"@, "All headers"@),
        ("header"@, "One header"@),
        ("cookies"@, "Set-Cookie"@),
    ]);
    choices
}

/// The results to choose from.
pub fn proxy_result_options() -> (choices: Vec<(&'static str, &'static str)>)
    ensures
        choice_views(choices@) == seq![
            (""@, "Any result"@),
            (ProxyResult::Inflight.tag(), "Inflight"@),
            (ProxyResult::Success.tag(), "Success"@),
            (ProxyResult::ClientRejected.tag(), "Client rejected"@),
            (ProxyResult::UpstreamError.tag(), "Upstream error"@),
            (ProxyResult::StreamError.tag(), "Stream error"@),
        ],
{
    let choices = vec![
        ("", "Any result"),
        (ProxyResult::Inflight.as_str(), "Inflight"),
        (ProxyResult::Success.as_str(), "Success"),
        (ProxyResult::ClientRejected.as_str(), "Client rejected"),
        (ProxyResult::UpstreamError.as_str(), "Upstream error"),
        (ProxyResult::StreamError.as_str(), "Stream error"),
    ];
    assert(choice_views(choices@) =~= seq![
        (""@, "Any result"@),
        (ProxyResult::Inflight.tag(), "Inflight"@),
        (ProxyResult::Success.tag(), "Success"@),
        (ProxyResult::ClientRejected.tag(), "Client rejected"@),
        (ProxyResult::UpstreamError.tag(), "Upstream error"@),
        (ProxyResult::StreamError.tag(), "Stream error"@),
    ]);
    choices
}

// ---------------------------------------------------------------------------
// Laws
// ---------------------------------------------------------------------------

/// A form asks for what its action names; with no action or one that is not known it asks for
/// saving. Which rule it is about is what its index says.
pub proof fn forms_ask_for_what_they_name(values: Map<Seq<char>, Seq<char>>)
    ensures
        ({
            let action = value_of(values, "editor_action"@);
            let index = number_or(value_of(values, "editor_index"@), usize::MAX as int, 0) as usize;
            let asked = action_of_form(values);
            &&& action == Some("add_transform"@) ==> asked == EditorAction::AddTransform
            &&& action == Some("move_transform_up"@) ==> asked == EditorAction::MoveTransformUp(
                index,
            )
            &&& action == Some("move_transform_down"@) ==> asked == EditorAction::MoveTransformDown(
                index,
            )
            &&& action == Some("remove_transform"@) ==> asked == EditorAction::RemoveTransform(
                index,
            )
            &&& action == Some("reload"@) ==> asked == EditorAction::Reload
            &&& action == Some("save"@) || action is None ==> asked == EditorAction::Save
            &&& asked == EditorAction::Reload ==> action == Some("reload"@)
            &&& asked == EditorAction::AddTransform ==> action == Some("add_transform"@)
            &&& asked is RemoveTransform ==> action == Some("remove_transform"@)
            &&& asked is MoveTransformUp ==> action == Some("move_transform_up"@)
            &&& asked is MoveTransformDown ==> action == Some("move_transform_down"@)
        }),
{
    reveal_strlit("add_transform");
    reveal_strlit("move_transform_up");
    reveal_strlit("move_transform_down");
    reveal_strlit("remove_transform");
    reveal_strlit("reload");
    reveal_strlit("save");
    assert("add_transform"@.len() == 13 && "move_transform_up"@.len() == 17
        && "move_transform_down"@.len() == 19 && "remove_transform"@.len() == 16
        && "reload"@.len() == 6 && "save"@.len() == 4);
}

/// Editing changes the one rule that it is about: adding puts a blank rule behind the others,
/// removing closes the gap, moving exchanges two neighbours; every other rule stays in its place.
pub proof fn editing_changes_one_rule(
    before: Seq<TransformRuleFile>,
    action: EditorAction,
    after: Seq<TransformRuleFile>,
    k: int,
)
    requires
        is_edited(before, action, after),
        0 <= k < before.len(),
    ensures
        action is AddTransform ==> after.len() == before.len() + 1 && after[k] == before[k]
            && after.last().matcher is Everything && after.last().target is Body
            && !after.last().stop && after.last().action->from@.len() == 0
            && after.last().action->to@.len() == 0,
        action matches EditorAction::RemoveTransform(i) ==> i < before.len() ==> after.len()
            == before.len() - 1 && (k < i ==> after[k] == before[k]) && (k > i ==> after[k - 1]
            == before[k]),
        action matches EditorAction::RemoveTransform(i) && i >= before.len() ==> after == before,
        action matches EditorAction::MoveTransformUp(i) ==> 0 < i < before.len() ==> after.len()
            == before.len() && after[i - 1] == before[i as int] && after[i as int] == before[i - 1]
            && (k != i && k != i - 1 ==> after[k] == before[k]),
        action matches EditorAction::MoveTransformUp(i) && (i == 0 || i >= before.len()) ==> after
            == before,
        action matches EditorAction::MoveTransformDown(i) ==> i + 1 < before.len() ==> after.len()
            == before.len() && after[i + 1] == before[i as int] && after[i as int] == before[i + 1]
            && (k != i && k != i + 1 ==> after[k] == before[k]),
        action matches EditorAction::MoveTransformDown(i) && i + 1 >= before.len() ==> after
            == before,
        action is Save || action is Reload ==> after == before,
{
    if action is AddTransform {
        assert(after[k] == after.drop_last()[k]);
    }
}

/// The transforms that a form leaves are those that it describes, as many as it says, with the
/// action of the editor applied.
pub proof fn forms_leave_the_rules_they_describe(
    values: Map<Seq<char>, Seq<char>>,
    saved: Seq<TransformRuleFile>,
    rules: Seq<TransformRuleFile>,
    i: int,
)
    requires
        rules_of_form(values, saved, EditorAction::Save, rules),
    ensures
        rules.len() == number_or(
            value_of(values, "transform_count"@),
            usize::MAX as int,
            saved.len() as int,
        ),
        0 <= i < rules.len() ==> rule_of_form(values, i as nat, rules[i]),
{
}

/// A page has fifty events unless another number is asked for, which holds from one to two hundred
/// and is brought into these bounds beyond.
pub proof fn pages_have_up_to_two_hundred_events(asked: u64)
    ensures
        page_size(None) == 50,
        1 <= asked <= 200 ==> page_size(Some(asked)) == asked,
        asked < 1 ==> page_size(Some(asked)) == 1,
        asked > 200 ==> page_size(Some(asked)) == 200,
{
}

/// The events of the last hours are those since that many hours ago.
pub proof fn recent_events_are_those_of_the_last_hours(
    filter: EventListFilter,
    now: i128,
    earlier: i128,
)
    ensures
        filter.since_hours is None ==> since_text(filter, now) == Ok::<Option<Seq<char>>, ()>(None),
        filter.since_hours matches Some(hours) && now - earlier == hours * 3600 * 1_000_000_000 ==> {
            &&& rfc3339_text(earlier) is None ==> since_text(filter, now) is Err
            &&& rfc3339_text(earlier) matches Some(text) ==> since_text(filter, now) == Ok::<
                Option<Seq<char>>,
                (),
            >(Some(text))
        },
{
    if let Some(hours) = filter.since_hours {
        if now - earlier == hours * 3600 * 1_000_000_000 {
            assert(hours_before(now as int, hours as int) == earlier);
        }
    }
}

/// The database is asked for what the filter says: methods in upper case, everything else as it is.
pub proof fn questions_say_what_the_filter_says(
    query: EventQuery,
    filter: EventListFilter,
    since: Option<Seq<char>>,
)
    requires
        is_query_of(query, filter, since),
    ensures
        filter.method is None <==> query.method is None,
        filter.method matches Some(method) ==> query.method->0@ == upper(method@),
        opt_text(query.path_contains) == opt_text(filter.path_substring),
        query.status_code == filter.status_code,
        opt_text(query.proxy_result) == opt_text(filter.proxy_result),
        opt_text(query.since) == since,
        query.page == filter.page,
        query.per_page == filter.per_page,
{
}

/// A blank field asks for nothing, a number with white space around it for that number, and
/// anything else is refused.
pub proof fn fields_hold_numbers_or_nothing(raw: Seq<char>, signed: bool, least: int, most: int)
    ensures
        optional_number(None, signed, least, most) == Ok::<Option<int>, ()>(None),
        trim(raw).len() == 0 ==> optional_number(Some(raw), signed, least, most) == Ok::<
            Option<int>,
            (),
        >(None),
        trim(raw).len() > 0 && parse_decimal(trim(raw), signed, least, most) is None
            ==> optional_number(Some(raw), signed, least, most) is Err,
        parse_decimal(trim(raw), signed, least, most) matches Some(n) ==> trim(raw).len() > 0
            ==> optional_number(Some(raw), signed, least, most) == Ok::<Option<int>, ()>(Some(n)),
{
}

/// Empty texts ask for nothing; others for themselves.
pub proof fn empty_texts_ask_for_nothing(text: Seq<char>)
    ensures
        nonempty(None) is None,
        text.len() == 0 ==> nonempty(Some(text)) is None,
        text.len() > 0 ==> nonempty(Some(text)) == Some(text),
{
}

/// Statuses are shown in decimal, and as `n/a` where there is none.
pub proof fn statuses_are_shown_in_decimal(status: i32)
    ensures
        status_shown(None) == "n/a"@,
        status_shown(Some(status)) == signed_text(status as int),
{
}

/// JSON is shown over several lines, and anything else as it is.
pub proof fn json_is_shown_over_several_lines(value: Seq<char>)
    ensures
        pretty_json(value) is None ==> json_shown(value) == value,
        pretty_json(value) matches Some(text) ==> json_shown(value) == text,
{
}

/// The beginning of a body is shown as the text that its bytes are; what is not Base64 as it is,
/// and where there is none `n/a`.
pub proof fn bodies_are_shown_as_text(encoded: Seq<char>)
    ensures
        preview_shown(None) == "n/a"@,
        base64_bytes(encoded) is None ==> preview_shown(Some(encoded)) == encoded,
        base64_bytes(encoded) matches Some(bytes) ==> preview_shown(Some(encoded)) == lossy_text(
            bytes,
        ),
{
}

} // verus!
