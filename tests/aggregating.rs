use jsphere_vv8_log::{
    AggregateErr, ApiCall, ApiType, CallLines, LogRecord, RecordAggregate, ScriptInjectionType,
    ScriptName,
};

fn feed(agg: &mut RecordAggregate, lines: &[&str]) -> Vec<Result<(), AggregateErr>> {
    let mut results = Vec::new();
    for (i, line) in lines.iter().enumerate() {
        let record = LogRecord::parse(line).unwrap();
        results.push(agg.add(i as u32, record));
    }
    results
}

fn call(api_type: ApiType, this: &str, attr: Option<&str>) -> ApiCall {
    ApiCall { api_type, this: this.into(), attr: attr.map(|a| a.into()) }
}

#[test]
fn three_records_end_to_end() {
    let mut agg = RecordAggregate::new();
    let results = feed(&mut agg, &[r#"$5:"":"function(){}""#, "!5", "c10:%foo:{1,Bar}"]);
    assert!(results.iter().all(|r| r.is_ok()));
    assert_eq!(agg.scripts.len(), 1);
    let script = &agg.scripts[&5];
    assert_eq!(script.line, 0);
    assert_eq!(script.name, ScriptName::Empty);
    assert_eq!(script.source, r#""function(){}""#);
    // An empty name marks an injected script.
    assert_eq!(script.injection_type, ScriptInjectionType::Injected);
    assert_eq!(script.api_calls.len(), 1);
    let (key, lines) = &script.api_calls[0];
    assert_eq!(key, &call(ApiType::Function, "Bar", Some("foo")));
    assert_eq!(lines.lines, vec![2]);
    assert_eq!(lines.i_may_interact, None);
    assert_eq!(script.n_filtered_call, 0);
    assert_eq!(agg.current_script_id, 5);
    assert!(!agg.interaction_injected);
}

#[test]
fn add_all_reports_rejected_lines() {
    let mut agg = RecordAggregate::new();
    let records: Vec<(u32, LogRecord)> = [r#"$5:"":"function(){}""#, "!7", "!5", "c10:%foo:{1,Bar}"]
        .iter()
        .enumerate()
        .map(|(i, l)| (i as u32, LogRecord::parse(l).unwrap()))
        .collect();
    let errs = agg.add_all(records);
    assert_eq!(errs, vec![(1, AggregateErr::UnknownExecutionContext)]);
    assert_eq!(agg.scripts[&5].api_calls[0].1.lines, vec![3]);
}

#[test]
fn duplicate_registration_is_rejected() {
    let mut agg = RecordAggregate::new();
    let results = feed(&mut agg, &[r#"$5:"https\://a.com/x.js":first"#, r#"$5:"":second"#]);
    assert_eq!(results[0], Ok(()));
    assert_eq!(results[1], Err(AggregateErr::DuplicateScriptId));
    assert_eq!(agg.scripts.len(), 1);
    let script = &agg.scripts[&5];
    assert_eq!(script.source, "first");
    assert_eq!(script.name, ScriptName::Url("https://a.com/x.js".into()));
    assert_eq!(script.injection_type, ScriptInjectionType::Not);
}

#[test]
fn unknown_execution_context_is_rejected() {
    let mut agg = RecordAggregate::new();
    let results = feed(&mut agg, &[r#"$5:"":src"#, "!5", "!9", "!?"]);
    assert_eq!(results[2], Err(AggregateErr::UnknownExecutionContext));
    assert_eq!(results[3], Ok(()));
    assert_eq!(agg.current_script_id, 5);
}

#[test]
fn interaction_latch_and_boundary() {
    let mut agg = RecordAggregate::new();
    let results = feed(
        &mut agg,
        &[
            r#"$1:"":window.x = 1; // Gremlins horde unleashed"#,
            r#"$2:"https\://x.com/a.js":src"#,
            "!2",
            "c1:%foo:{1,Bar}",
            "!1",
            "!2",
            "c1:%foo:{1,Bar}",
            "c1:%foo:{1,Bar}",
            "n5:%Image",
        ],
    );
    assert!(results.iter().all(|r| r.is_ok()));
    assert_eq!(agg.scripts[&1].injection_type, ScriptInjectionType::Interaction);
    assert!(agg.interaction_injected);
    let script = &agg.scripts[&2];
    let (_, lines) = &script.api_calls[0];
    assert_eq!(lines.lines, vec![3, 6, 7]);
    assert_eq!(lines.i_may_interact, Some(1));
    assert_eq!(lines.len(), 3);
    assert_eq!(lines.n_must_not_interact(), 1);
    assert_eq!(lines.n_may_interact(), 2);
    let (key, lines) = &script.api_calls[1];
    assert_eq!(key, &call(ApiType::Construction, "Image", None));
    assert_eq!(lines.i_may_interact, Some(0));
}

#[test]
fn marker_beyond_the_prefix_is_not_interaction() {
    let mut agg = RecordAggregate::new();
    let source = format!("{}Gremlins horde", "x".repeat(100));
    let line = format!(r#"$1:"":{source}"#);
    feed(&mut agg, &[line.as_str()]);
    assert_eq!(agg.scripts[&1].injection_type, ScriptInjectionType::Injected);
}

#[test]
fn eval_scripts_inherit_injection() {
    let mut agg = RecordAggregate::new();
    let results = feed(
        &mut agg,
        &[
            r#"$1:"":injected"#,
            r#"$2:"https\://x.com/a.js":page"#,
            "$3:1:child",
            "$4:2:child",
            "$5:99:child",
            "$6:#T:child",
        ],
    );
    assert_eq!(agg.scripts[&3].name, ScriptName::Eval { parent_script_id: 1 });
    assert_eq!(agg.scripts[&3].injection_type, ScriptInjectionType::Injected);
    assert_eq!(agg.scripts[&4].injection_type, ScriptInjectionType::Not);
    assert_eq!(results[4], Err(AggregateErr::UnknownParentScript));
    assert_eq!(results[5], Err(AggregateErr::UnexpectedScriptName));
    assert_eq!(agg.scripts.len(), 4);
}

#[test]
fn filtered_calls_are_counted() {
    let mut agg = RecordAggregate::new();
    let results = feed(
        &mut agg,
        &[
            r#"$1:"https\://x.com/a.js":src"#,
            "!1",
            "c1:foo:{1,Bar}",
            "c-1:%foo:{1,Bar}",
            "c1:%Function:#U",
            "c1:%parseInt:#U",
            "c1:%foo:{1,Ba}",
            "c1:%f:{1,Bar}",
            "c1:%foo:{1,Bar1234}",
            "c1:%foo:foo",
            "c1:%foo:<anonymous>",
            "n1:Foo",
            "g1:{1,Window}:{2,Object}",
            "g1:{1,Window}:3",
            "s1:{1,Window}:?:#T",
            "g1:{1,a\\:b,c\\:d}:\"x\"",
        ],
    );
    assert!(results.iter().all(|r| r.is_ok()));
    let script = &agg.scripts[&1];
    assert!(script.api_calls.is_empty());
    assert_eq!(script.n_filtered_call, 14);
}

#[test]
fn calls_are_recorded_by_kind() {
    let mut agg = RecordAggregate::new();
    let results = feed(
        &mut agg,
        &[
            r#"$1:"https\://x.com/a.js":src"#,
            "!1",
            "c1:%atob:%Window",
            "n1:%Image",
            r#"g1:{1,Window}:"cdp""#,
            r#"s1:{1,Window}:"cdp":{2,Object}"#,
            r#"g2:{1,Window}:"cdp""#,
            "c3:%abc123:{1,Ab.c D}",
        ],
    );
    assert!(results.iter().all(|r| r.is_ok()));
    let script = &agg.scripts[&1];
    let keys: Vec<&ApiCall> = script.api_calls.iter().map(|(k, _)| k).collect();
    assert_eq!(
        keys,
        vec![
            &call(ApiType::Function, "Window", Some("atob")),
            &call(ApiType::Construction, "Image", None),
            &call(ApiType::GetProperty, "Window", Some("cdp")),
            &call(ApiType::SetProperty, "Window", Some("cdp")),
            &call(ApiType::Function, "Ab.c D", Some("abc123")),
        ]
    );
    assert_eq!(script.api_calls[2].1.lines, vec![4, 6]);
    assert_eq!(script.n_filtered_call, 0);
}

#[test]
fn get_set_shape_errors() {
    let mut agg = RecordAggregate::new();
    let results = feed(
        &mut agg,
        &[
            r#"$1:"":src"#,
            "!1",
            r#"g1:#U:"cdp""#,
            "g1:{1,Window}:#T",
            r#"s1:{7}:"cdp":1"#,
        ],
    );
    assert_eq!(results[2], Err(AggregateErr::UnexpectedGetSetObject));
    assert_eq!(results[3], Err(AggregateErr::UnexpectedGetSetProperty));
    assert_eq!(results[4], Err(AggregateErr::UnexpectedGetSetObject));
    assert_eq!(agg.scripts[&1].n_filtered_call, 0);
}

#[test]
fn calls_without_a_context_are_rejected() {
    let mut agg = RecordAggregate::new();
    let results = feed(&mut agg, &["c1:%foo:{1,Bar}", "c1:foo:{1,Bar}", "n1:%Image", "~0x1", "@?"]);
    assert_eq!(results[0], Err(AggregateErr::UnknownExecutionContext));
    assert_eq!(results[1], Err(AggregateErr::UnknownExecutionContext));
    assert_eq!(results[2], Err(AggregateErr::UnknownExecutionContext));
    assert_eq!(results[3], Ok(()));
    assert_eq!(results[4], Ok(()));
    assert!(agg.scripts.is_empty());
}

#[test]
fn browser_api_names() {
    assert!(call(ApiType::Function, "Window", Some("atob")).likely_browser_api());
    assert!(call(ApiType::Construction, "Image", None).likely_browser_api());
    assert!(call(ApiType::Function, "abc123def", Some("x1")).likely_browser_api());
    assert!(!call(ApiType::Function, "abc1234", Some("xy")).likely_browser_api());
    assert!(!call(ApiType::Function, "1abc", Some("xy")).likely_browser_api());
    assert!(!call(ApiType::Function, "ab", Some("xy")).likely_browser_api());
    assert!(!call(ApiType::Function, "abc", Some("x")).likely_browser_api());
    assert!(!call(ApiType::Function, "abc", Some("x_y")).likely_browser_api());
    assert!(!call(ApiType::Function, "", None).likely_browser_api());
}

#[test]
fn call_lines_counts() {
    let lines = CallLines { lines: vec![1, 2, 3], i_may_interact: Some(1) };
    assert_eq!(lines.len(), 3);
    assert_eq!(lines.n_must_not_interact(), 1);
    assert_eq!(lines.n_may_interact(), 2);
    let lines = CallLines { lines: vec![1, 2], i_may_interact: None };
    assert_eq!(lines.n_must_not_interact(), 2);
    assert_eq!(lines.n_may_interact(), 0);
}

#[test]
fn same_as_compares_fields() {
    let a = call(ApiType::GetProperty, "Window", Some("cdp"));
    assert!(a.same_as(&call(ApiType::GetProperty, "Window", Some("cdp"))));
    assert!(!a.same_as(&call(ApiType::SetProperty, "Window", Some("cdp"))));
    assert!(!a.same_as(&call(ApiType::GetProperty, "Window", None)));
    assert!(!a.same_as(&call(ApiType::GetProperty, "Document", Some("cdp"))));
}
