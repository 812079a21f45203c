use kidproxy::admin::{
    apply_editor_action, choose_json, config_submit, decode_preview, editor_action,
    http_mode_options, list_events, list_events_at, list_item, load_event_detail, matcher_options,
    optional_i32, optional_i64, optional_u64, prettify_json, proxy_result_options, query_since,
    reload_feedback, reload_status, save_feedback, show_decoded, target_options, transforms_submit,
    EditorAction, EventListFilter, EventListFilterQuery, EventRow, SubmitPlan,
};
use kidproxy::cli::HttpMode;
use kidproxy::config::{AppConfigFile, RuntimeSettingsFile};
use kidproxy::form::{
    action_values, comma_list, http_mode_from_form, http_mode_value, matcher_pattern_value,
    matcher_type_value, optional_path, owned_name, runtime_from_form,
    target_from_form, target_name_value, target_type_value, transforms_from_form, FormValues,
};
use kidproxy::runtime_manager::{
    show_mode, wait_for_listener_release, ReleaseStep, ReloadAction, ReloadEvent, ReloadStage,
    RuntimeManager, RuntimeSummary,
};
use kidproxy::transform::{
    TransformActionFile, TransformMatcherFile, TransformRuleFile, TransformTargetFile,
};

fn form(pairs: &[(&str, &str)]) -> FormValues {
    FormValues {
        pairs: pairs
            .iter()
            .map(|pair| (pair.0.to_owned(), pair.1.to_owned()))
            .collect(),
    }
}

fn rule(from: &str) -> TransformRuleFile {
    TransformRuleFile {
        matcher: TransformMatcherFile::Everything {},
        action: TransformActionFile::Replace {
            from: from.to_owned(),
            to: "proxy".to_owned(),
        },
        target: TransformTargetFile::Body {},
        stop: false,
    }
}

fn app(transforms: Vec<TransformRuleFile>) -> AppConfigFile {
    AppConfigFile {
        runtime: RuntimeSettingsFile::default(),
        transforms,
    }
}

fn summary(domain: &str) -> RuntimeSummary {
    RuntimeSummary {
        listen_addr: "127.0.0.1:8443".to_owned(),
        frontend_domain: domain.to_owned(),
        backend_url: "https://backend.example/".to_owned(),
        sqlite_path: "events.sqlite".to_owned(),
        transform_count: 1,
        http_mode: "auto".to_owned(),
        dropped_events: 0,
        write_failures: 0,
    }
}

fn froms(rules: &[TransformRuleFile]) -> Vec<&str> {
    rules
        .iter()
        .map(|rule| match &rule.action {
            TransformActionFile::Replace { from, .. } => from.as_str(),
        })
        .collect()
}

#[test]
fn the_same_path_written_otherwise_needs_no_reload() {
    let mut saved = app(vec![rule("backend")]);
    saved.runtime.tls_cert_path = "certs/a.pem".to_owned();
    let mut draft = saved.copy();
    let mut manager = RuntimeManager::start("kidproxy.json", saved, summary("example.test"));
    draft.runtime.tls_cert_path = "certs//a.pem".to_owned();
    manager.save_config(draft.copy(), Ok(())).unwrap();
    assert!(!manager.state().pending_reload);
    assert_eq!(manager.state().saved_config.runtime.tls_cert_path, "certs//a.pem");
    draft.runtime.tls_cert_path = "certs/b.pem".to_owned();
    manager.save_config(draft, Ok(())).unwrap();
    assert!(manager.state().pending_reload);
}

#[test]
fn config_page_saves_and_reloads() {
    let saved = app(vec![rule("backend")]);
    let mut manager = RuntimeManager::start("kidproxy.json", saved, summary("example.test"));
    assert!(!manager.state().pending_reload);

    let values = form(&[
        ("editor_action", "save"),
        ("frontend_domain", "admin-updated.local"),
    ]);
    let draft = match config_submit(&values, &manager.state().saved_config) {
        SubmitPlan::Save(draft) => draft,
        other => panic!("unexpected {other:?}"),
    };
    manager.save_config(draft, Ok(())).unwrap();
    let state = manager.state();
    assert_eq!(state.saved_config.runtime.frontend_domain, "admin-updated.local");
    assert_eq!(state.saved_config.transforms.len(), 1);
    assert!(state.pending_reload);
    let feedback = save_feedback(Ok(state.pending_reload));
    assert_eq!(
        feedback.notice.message,
        "Config saved. Reload is required to apply it."
    );

    let values = form(&[("editor_action", "reload")]);
    assert!(matches!(
        config_submit(&values, &manager.state().saved_config),
        SubmitPlan::Reload
    ));
    let loaded = manager.state().saved_config.copy();
    let mut reload = manager.begin_reload().unwrap();
    assert!(manager.active_database().is_err());
    let action = manager.reload_inner(&mut reload, ReloadEvent::Loaded(loaded));
    assert!(matches!(action, ReloadAction::StopPrevious));
    let action = manager.reload_inner(&mut reload, ReloadEvent::Released);
    assert!(matches!(action, ReloadAction::StartNew));
    let started = ReloadEvent::Started(summary("admin-updated.local"));
    let action = manager.reload_inner(&mut reload, started);
    assert!(matches!(action, ReloadAction::Succeed));
    let state = manager.state();
    assert!(!state.pending_reload);
    assert_eq!(state.active_runtime.frontend_domain, "admin-updated.local");
    assert_eq!(
        reload_status(state),
        "Running proxy matches the saved config."
    );
    assert!(manager.active_database().is_ok());
    assert!(manager.shutdown().is_ok());
    assert!(manager.shutdown().is_err());
    assert!(manager.begin_reload().is_err());
}

#[test]
fn transforms_page_saves() {
    let saved = app(Vec::new());
    let manager = RuntimeManager::start("kidproxy.json", saved, summary("example.test"));
    let values = form(&[
        ("editor_action", "save"),
        ("transform_count", "1"),
        ("0", "unused"),
        ("transform_0_present", "true"),
        ("transform_0_matcher_type", "any"),
        ("transform_0_matcher_pattern", ""),
        ("transform_0_action_from", "backend"),
        ("transform_0_action_to", "proxy"),
        ("transform_0_target_type", "body"),
        ("transform_0_target_name", ""),
        ("transform_0_stop", "true"),
    ]);
    match transforms_submit(&values, &manager.state().saved_config) {
        SubmitPlan::Save(draft) => {
            assert_eq!(draft.transforms.len(), 1);
            let mut wanted = rule("backend");
            wanted.stop = true;
            assert!(draft.transforms[0].same_rule(&wanted));
            assert!(draft.runtime.same_settings(&RuntimeSettingsFile::default()));
        }
        other => panic!("unexpected {other:?}"),
    }
}

#[test]
fn reloads_fall_back_to_what_ran_before() {
    let saved = app(vec![rule("backend")]);
    let mut manager = RuntimeManager::start("kidproxy.json", saved, summary("example.test"));
    let mut reload = manager.begin_reload().unwrap();
    manager.reload_inner(&mut reload, ReloadEvent::Loaded(app(Vec::new())));
    manager.reload_inner(&mut reload, ReloadEvent::Released);
    let failed = ReloadEvent::StartFailed("bad cert".to_owned());
    let action = manager.reload_inner(&mut reload, failed);
    assert!(matches!(action, ReloadAction::RestartPrevious));
    let action = manager.reload_inner(&mut reload, ReloadEvent::Restarted);
    assert!(matches!(action, ReloadAction::Fail(text) if text == "bad cert"));
    let state = manager.state();
    assert!(state.pending_reload);
    assert_eq!(state.last_reload_error.as_deref(), Some("bad cert"));
    assert!(manager.active_database().is_ok());
    assert_eq!(
        reload_status(state),
        "Saved config differs from the running proxy."
    );

    let mut reload = manager.begin_reload().unwrap();
    manager.reload_inner(&mut reload, ReloadEvent::Loaded(app(Vec::new())));
    manager.reload_inner(&mut reload, ReloadEvent::Released);
    manager.reload_inner(&mut reload, ReloadEvent::StartFailed("a".to_owned()));
    let action = manager.reload_inner(&mut reload, ReloadEvent::RestartFailed("b".to_owned()));
    let wanted = "reload failed: a; fallback restart failed: b";
    assert!(matches!(action, ReloadAction::Fail(text) if text == wanted));
    assert_eq!(manager.state().last_reload_error.as_deref(), Some(wanted));
    assert_eq!(reload.stage, ReloadStage::Over);
    assert!(manager.active_database().is_err());
}

#[test]
fn refused_configs_change_nothing() {
    let saved = app(vec![rule("backend")]);
    let mut manager = RuntimeManager::start("kidproxy.json", saved, summary("example.test"));
    let result = manager.save_config(app(Vec::new()), Err("no".to_owned()));
    assert_eq!(result, Err("no".to_owned()));
    assert_eq!(manager.state().saved_config.transforms.len(), 1);
    manager.save_config(app(vec![rule("backend")]), Ok(())).unwrap();
    assert!(!manager.state().pending_reload);
    assert_eq!(save_feedback(Ok(false)).errors.len(), 0);
    assert_eq!(save_feedback(Err("x".to_owned())).errors, vec!["x".to_owned()]);
    assert_eq!(reload_feedback(Ok(())).notice.message, "Proxy reloaded from disk.");
    assert_eq!(reload_feedback(Err("y".to_owned())).errors, vec!["y".to_owned()]);
}

#[test]
fn addresses_are_waited_for() {
    assert!(matches!(
        wait_for_listener_release("a:1", Ok(()), true),
        ReleaseStep::Released
    ));
    assert!(matches!(
        wait_for_listener_release("a:1", Err("in use".to_owned()), false),
        ReleaseStep::Retry
    ));
    let step = wait_for_listener_release("a:1", Err("in use".to_owned()), true);
    assert!(matches!(
        step,
        ReleaseStep::GiveUp(text) if text == "listener a:1 did not shut down cleanly: in use"
    ));
    assert_eq!(show_mode(HttpMode::Http2), "http2");
}

#[test]
fn editor_actions_move_rules() {
    let mut draft = vec![rule("a"), rule("b"), rule("c")];
    apply_editor_action(&mut draft, EditorAction::MoveTransformDown(0));
    assert_eq!(froms(&draft), vec!["b", "a", "c"]);
    apply_editor_action(&mut draft, EditorAction::MoveTransformUp(1));
    assert_eq!(froms(&draft), vec!["a", "b", "c"]);
    apply_editor_action(&mut draft, EditorAction::MoveTransformUp(0));
    apply_editor_action(&mut draft, EditorAction::MoveTransformDown(2));
    apply_editor_action(&mut draft, EditorAction::RemoveTransform(usize::MAX));
    apply_editor_action(&mut draft, EditorAction::MoveTransformDown(usize::MAX));
    assert_eq!(froms(&draft), vec!["a", "b", "c"]);
    apply_editor_action(&mut draft, EditorAction::RemoveTransform(1));
    apply_editor_action(&mut draft, EditorAction::AddTransform);
    assert_eq!(froms(&draft), vec!["a", "c", ""]);
    assert_eq!(
        editor_action(&form(&[("editor_action", "move_transform_up"), ("editor_index", "2")])),
        EditorAction::MoveTransformUp(2)
    );
    assert_eq!(
        editor_action(&form(&[("editor_action", "remove_transform"), ("editor_index", "x")])),
        EditorAction::RemoveTransform(0)
    );
    assert_eq!(editor_action(&form(&[])), EditorAction::Save);
}

#[test]
fn blank_numeric_filters_are_accepted() {
    assert_eq!(optional_i32(Some("")), Ok(None));
    assert_eq!(optional_i64(Some("  ")), Ok(None));
    assert_eq!(optional_u64(None), Ok(None));
    assert_eq!(optional_u64(Some(" 0 ")), Ok(Some(0)));
    assert_eq!(optional_i32(Some("-3")), Ok(Some(-3)));
    assert_eq!(optional_i32(Some("x")), Err(()));
    let query = EventListFilterQuery {
        method: Some("GET".to_owned()),
        path_substring: Some(String::new()),
        status_code: optional_i32(Some("")).unwrap(),
        proxy_result: Some(String::new()),
        since_hours: optional_i64(Some("")).unwrap(),
        page: optional_u64(Some("0")).unwrap(),
        per_page: None,
    };
    let filter = query.to_filter();
    assert_eq!(filter.method.as_deref(), Some("GET"));
    assert_eq!(filter.path_substring, None);
    assert_eq!(filter.proxy_result, None);
    assert_eq!(filter.per_page, 50);
    let query = EventListFilterQuery {
        per_page: Some(1_000),
        ..query
    };
    assert_eq!(query.to_filter().per_page, 200);
}

#[test]
fn filters_become_database_questions() {
    let filter = EventListFilter {
        method: Some("get".to_owned()),
        path_substring: Some("/he".to_owned()),
        status_code: Some(200),
        proxy_result: None,
        since_hours: Some(2),
        page: 1,
        per_page: 50,
    };
    let query = list_events_at(&filter, 7_200_000_000_000).unwrap();
    assert_eq!(query.method.as_deref(), Some("GET"));
    assert_eq!(query.since.as_deref(), Some("1970-01-01T00:00:00Z"));
    assert_eq!(query.path_contains.as_deref(), Some("/he"));
    assert!(list_events(&filter).unwrap().since.is_some());
    let far = EventListFilter {
        since_hours: Some(i64::MAX),
        ..filter.clone()
    };
    assert!(list_events_at(&far, 0).is_err());
    let all = EventListFilter {
        since_hours: None,
        ..filter
    };
    assert_eq!(list_events_at(&all, 0).unwrap().since, None);
    assert_eq!(query_since(&all, Some("t".to_owned())).since.as_deref(), Some("t"));
}

#[test]
fn events_are_shown() {
    let row = EventRow {
        event_id: "e".to_owned(),
        request_start_ts: "t".to_owned(),
        duration_ms: 5,
        method: "GET".to_owned(),
        path: "/hello".to_owned(),
        status_code: None,
        backend_host: "backend.test".to_owned(),
        proxy_result: "success".to_owned(),
        frontend_tls_sni: None,
        request_headers_json: "{\"a\":1}".to_owned(),
        response_headers_json: Some("not json".to_owned()),
        request_cookies_json: None,
        response_set_cookie_json: None,
        request_body_preview_base64: None,
        response_body_preview_base64: Some("c3RyZWFtLWJvZHk=".to_owned()),
    };
    assert_eq!(list_item(&row).status_code, "n/a");
    let detail = load_event_detail(&row);
    assert_eq!(detail.request_headers_json, "{\n  \"a\": 1\n}");
    assert_eq!(detail.response_headers_json.as_deref(), Some("not json"));
    assert_eq!(detail.request_body_preview, "n/a");
    assert_eq!(detail.response_body_preview, "stream-body");
    assert_eq!(decode_preview(&Some("!".to_owned())), "!");
    assert_eq!(show_decoded("x", Some(vec![0xff])), "\u{fffd}");
    assert_eq!(prettify_json("[]"), "[]");
    assert_eq!(choose_json("raw", None), "raw");
}

#[test]
fn forms_fill_in_the_settings() {
    let fallback = RuntimeSettingsFile::default();
    let values = form(&[
        ("flush_rows", "7"),
        ("http_mode", "http2"),
        ("header_denylist", "a, b,,"),
        ("ca_bundle_path", ""),
        ("body_max_bytes", "many"),
    ]);
    let settings = runtime_from_form(&values, &fallback);
    assert_eq!(settings.flush_rows, 7);
    assert_eq!(settings.http_mode, HttpMode::Http2);
    assert_eq!(settings.header_denylist, vec!["a".to_owned(), "b".to_owned()]);
    assert_eq!(settings.ca_bundle_path, None);
    assert_eq!(settings.body_max_bytes, fallback.body_max_bytes);
    assert_eq!(settings.listen_addr, fallback.listen_addr);
    assert_eq!(http_mode_from_form(&None, HttpMode::Http1), HttpMode::Http1);
    for mode in [HttpMode::Auto, HttpMode::Http1, HttpMode::Http2] {
        let shown = Some(http_mode_value(mode));
        assert_eq!(http_mode_from_form(&shown, HttpMode::Auto), mode);
    }
    assert_eq!(comma_list(&None, &vec!["x".to_owned()]), vec!["x".to_owned()]);
    assert_eq!(optional_path(&None), "");
    assert_eq!(owned_name(3, "stop"), "transform_3_stop");
}

#[test]
fn forms_name_targets_and_choices() {
    let values = form(&[
        ("transform_0_target_type", "header"),
        ("transform_0_target_name", "x-test"),
        ("transform_1_target_type", "cookies"),
    ]);
    assert!(matches!(
        target_from_form(&values, 0),
        TransformTargetFile::Header { name } if name == "x-test"
    ));
    assert!(matches!(target_from_form(&values, 1), TransformTargetFile::Cookies {}));
    let kept = transforms_from_form(&values, &vec![rule("a"), rule("b")]);
    assert_eq!(kept.len(), 2);
    assert_eq!(http_mode_options().len(), 3);
    assert_eq!(matcher_options()[0], ("any", "Any response"));
    assert_eq!(target_options().len(), 5);
    assert_eq!(proxy_result_options()[2], ("success", "Success"));
}

#[test]
fn rules_written_into_a_form_read_back() {
    let rules = vec![
        TransformRuleFile {
            matcher: TransformMatcherFile::ContentTypeGlob {
                pattern: "text/*".to_owned(),
            },
            action: TransformActionFile::Replace {
                from: "a".to_owned(),
                to: "b".to_owned(),
            },
            target: TransformTargetFile::Header {
                name: "x-test".to_owned(),
            },
            stop: true,
        },
        rule("backend"),
    ];
    let mut pairs = vec![("transform_count".to_owned(), "2".to_owned())];
    for (index, rule) in rules.iter().enumerate() {
        let (from, to) = action_values(&rule.action);
        pairs.push((owned_name(index, "matcher_type"), matcher_type_value(&rule.matcher)));
        pairs.push((
            owned_name(index, "matcher_pattern"),
            matcher_pattern_value(&rule.matcher),
        ));
        pairs.push((owned_name(index, "action_from"), from));
        pairs.push((owned_name(index, "action_to"), to));
        pairs.push((owned_name(index, "target_type"), target_type_value(&rule.target)));
        pairs.push((owned_name(index, "target_name"), target_name_value(&rule.target)));
        if rule.stop {
            pairs.push((owned_name(index, "stop"), "true".to_owned()));
        }
    }
    let read = transforms_from_form(&FormValues { pairs }, &Vec::new());
    assert_eq!(read.len(), 2);
    assert!(read[0].same_rule(&rules[0]));
    assert!(read[1].same_rule(&rules[1]));
}
