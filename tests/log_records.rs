use jsphere_vv8_log::{JSValue, LogRecord, LogRecordErr, SplitRecordLine, ID_UNSURE};

#[test]
fn log_record_parsing() {
    let expected = LogRecord::IsolateContext {
        address: u64::from_str_radix("2a3800370000", 16).unwrap(),
    };
    let actual = LogRecord::parse("~0x2a3800370000").unwrap();
    assert_eq!(expected, actual);

    let expected = LogRecord::WindowOrigin {
        value: JSValue::Unsure,
    };
    let actual = LogRecord::parse("@?").unwrap();
    assert_eq!(expected, actual);

    let expected = LogRecord::ExecutionContext {
        script_id: ID_UNSURE,
    };
    let actual = LogRecord::parse("!?").unwrap();
    assert_eq!(expected, actual);

    let arguments = vec![JSValue::String(
        "eyJtZXRob2QiOiJQYWdlLmZyYW1lU3RvcHBlZExvYWRpbmciLCJwYXJhbXMiOnsiZnJhbWVJZCI6IjQxMTNDMTY3NDA0REYxOUQ3MUI5NjdDMEYwMTA2NjNGIn0sIn Nlc3Npb25JZCI6IjgwRTg0QUM5N0JDMjA1NTQ2RkQ2QUQ5MTQ2NzEyRkQxIn0=".into()
        )];
    let expected = LogRecord::FunctionCall {
        offset: 27,
        method: "atob".into(),
        is_user_fn: false,
        receiver: JSValue::Object {
            index: 729551,
            constructor: "Window".into(),
        },
        arguments,
    };
    let line = r#"c27:%atob:{729551,Window}:"eyJtZXRob2QiOiJQYWdlLmZyYW1lU3RvcHBlZExvYWRpbmciLCJwYXJhbXMiOnsiZnJhbWVJZCI6IjQxMTNDMTY3NDA0REYxOUQ3MUI5NjdDMEYwMTA2NjNGIn0sIn Nlc3Npb25JZCI6IjgwRTg0QUM5N0JDMjA1NTQ2RkQ2QUQ5MTQ2NzEyRkQxIn0=""#;
    let actual = LogRecord::parse(line).unwrap();
    assert_eq!(expected, actual);

    let expected = LogRecord::FunctionCall {
        offset: 143517,
        method: "getSubscription".into(),
        is_user_fn: false,
        receiver: JSValue::Object {
            index: 847586,
            constructor: "PushManager".into(),
        },
        arguments: vec![],
    };
    let actual = LogRecord::parse("c143517:%getSubscription:{847586,PushManager}").unwrap();
    assert_eq!(expected, actual);

    let expected = LogRecord::ConstructionCall {
        offset: 36193,
        method: "MutationObserver".into(),
        is_user_fn: false,
        arguments: vec![JSValue::Lambda],
    };
    let actual = LogRecord::parse("n36193:%MutationObserver:<anonymous>").unwrap();
    assert_eq!(expected, actual);

    let expected = LogRecord::ConstructionCall {
        offset: 23,
        method: "Image".into(),
        is_user_fn: false,
        arguments: vec![],
    };
    let actual = LogRecord::parse("n23:%Image").unwrap();
    assert_eq!(expected, actual);

    let expected = LogRecord::GetProperty {
        offset: 74,
        object: JSValue::Object {
            index: 729551,
            constructor: "Window".into(),
        },
        property: JSValue::String("cdp".into()),
    };
    let actual = LogRecord::parse(r#"g74:{729551,Window}:"cdp""#).unwrap();
    assert_eq!(expected, actual);

    let expected = LogRecord::SetProperty {
        offset: 185,
        object: JSValue::Object {
            index: 729551,
            constructor: "Window".into(),
        },
        property: JSValue::String("cdp".into()),
        value: JSValue::Object {
            index: 663864,
            constructor: "Object".into(),
        },
    };
    let actual = LogRecord::parse(r#"s185:{729551,Window}:"cdp":{663864,Object}"#).unwrap();
    assert_eq!(expected, actual);

    let expected = LogRecord::FunctionCall {
        offset: 326104,
        method: "createPolicy".into(),
        is_user_fn: false,
        receiver: JSValue::Object {
            index: 551471,
            constructor: "TrustedTypePolicyFactory".into(),
        },
        arguments: vec![
            JSValue::String("polymer_resin".into()),
            JSValue::ObjectLiteral {
                index: 71465,
                pairs: vec![
                    ("createHTML".into(), "createHTML".into()),
                    ("createScript".into(), "createScript".into()),
                    ("createScriptURL".into(), "createScriptURL".into()),
                ],
            },
        ],
    };
    let actual = LogRecord::parse(r#"c326104:%createPolicy:{551471,TrustedTypePolicyFactory}:"polymer_resin":{71465,createHTML\:createHTML,createScript\:createScript,createScriptURL\:createScriptURL}"#).unwrap();
    assert_eq!(expected, actual);
}

#[test]
fn string_escapes_are_read() {
    let record = LogRecord::parse(r#"@"a\:b""#).unwrap();
    assert_eq!(record, LogRecord::WindowOrigin { value: JSValue::String("a:b".into()) });
    let record = LogRecord::parse(r#"@"x\\y""#).unwrap();
    assert_eq!(record, LogRecord::WindowOrigin { value: JSValue::String(r"x\y".into()) });
    let record = LogRecord::parse(r#"@"\n\""#).unwrap();
    assert_eq!(record, LogRecord::WindowOrigin { value: JSValue::String(r#"\n\"#.into()) });
}

#[test]
fn values_decode_in_order() {
    assert_eq!(JSValue::from_token("#F"), JSValue::Boolean(false));
    assert_eq!(JSValue::from_token("#T"), JSValue::Boolean(true));
    assert_eq!(JSValue::from_token("#N"), JSValue::Null);
    assert_eq!(JSValue::from_token("#U"), JSValue::Undefined);
    assert_eq!(JSValue::from_token("#?"), JSValue::V8Specific);
    assert_eq!(JSValue::from_token("<anonymous>"), JSValue::Lambda);
    assert_eq!(JSValue::from_token("?"), JSValue::Unsure);
    assert_eq!(JSValue::from_token(r#""""#), JSValue::String("".into()));
    assert_eq!(JSValue::from_token(r"/a\:b/"), JSValue::RegEx("a:b".into()));
    assert_eq!(JSValue::from_token("-42"), JSValue::Int(-42));
    assert_eq!(JSValue::from_token("+7"), JSValue::Int(7));
    assert_eq!(JSValue::from_token("-9223372036854775808"), JSValue::Int(i64::MIN));
    assert_eq!(
        JSValue::from_token("9223372036854775808"),
        JSValue::Float("9223372036854775808".into())
    );
    assert_eq!(JSValue::from_token("1.5e-3"), JSValue::Float("1.5e-3".into()));
    assert_eq!(JSValue::from_token(".5"), JSValue::Float(".5".into()));
    assert_eq!(JSValue::from_token("-Infinity"), JSValue::Float("-Infinity".into()));
    assert_eq!(JSValue::from_token("NaN"), JSValue::Float("NaN".into()));
    assert_eq!(
        JSValue::from_token("%atob"),
        JSValue::Function { name: "atob".into(), is_user_fn: false }
    );
    assert_eq!(
        JSValue::from_token("foo"),
        JSValue::Function { name: "foo".into(), is_user_fn: true }
    );
    assert_eq!(
        JSValue::from_token("1e"),
        JSValue::Function { name: "1e".into(), is_user_fn: true }
    );
    assert_eq!(
        JSValue::from_token("."),
        JSValue::Function { name: ".".into(), is_user_fn: true }
    );
    assert_eq!(
        JSValue::from_token("\""),
        JSValue::Function { name: "\"".into(), is_user_fn: true }
    );
}

#[test]
fn objects_decode() {
    assert_eq!(JSValue::from_token("{12}"), JSValue::ObjectUnknown(12));
    assert_eq!(
        JSValue::from_token("{12,Foo}"),
        JSValue::Object { index: 12, constructor: "Foo".into() }
    );
    assert_eq!(JSValue::from_token("{x,Foo}"), JSValue::ObjectUnknown(-1));
    assert_eq!(JSValue::from_token("{}"), JSValue::ObjectUnknown(-1));
    assert_eq!(JSValue::from_token("{1,a,b}"), JSValue::ObjectUnknown(-1));
    assert_eq!(
        JSValue::from_token(r"{464471,parse\:%parse,stringify\:%stringify}"),
        JSValue::ObjectLiteral {
            index: 464471,
            pairs: vec![
                ("parse".into(), "%parse".into()),
                ("stringify".into(), "%stringify".into()),
            ],
        }
    );
    assert_eq!(
        JSValue::from_token(r"{3,a\,b}"),
        JSValue::Object { index: 3, constructor: r"a\,b".into() }
    );
}

#[test]
fn script_provenance_keeps_delimiters_in_source() {
    let record = LogRecord::parse(r#"$5:"":function(){return a?b\:c}"#).unwrap();
    assert_eq!(
        record,
        LogRecord::ScriptProvenance {
            id: 5,
            name: JSValue::String("".into()),
            source: "function(){return a?b:c}".into(),
        }
    );
    let record = LogRecord::parse(r#"$6:4:x:y"#).unwrap();
    assert_eq!(
        record,
        LogRecord::ScriptProvenance { id: 6, name: JSValue::Int(4), source: "x:y".into() }
    );
}

#[test]
fn execution_context_with_id() {
    assert_eq!(
        LogRecord::parse("!12").unwrap(),
        LogRecord::ExecutionContext { script_id: 12 }
    );
    assert_eq!(ID_UNSURE, i32::MIN);
}

#[test]
fn user_function_call_without_percent() {
    assert_eq!(
        LogRecord::parse("c-1:foo:#U:1:#T").unwrap(),
        LogRecord::FunctionCall {
            offset: -1,
            method: "foo".into(),
            is_user_fn: true,
            receiver: JSValue::Undefined,
            arguments: vec![JSValue::Int(1), JSValue::Boolean(true)],
        }
    );
}

#[test]
fn record_errors() {
    let cases: Vec<(&str, LogRecordErr)> = vec![
        ("~", LogRecordErr::NoIsolateAddress),
        ("~2a38", LogRecordErr::InvalidIsolateAddress),
        ("~0xzz", LogRecordErr::InvalidHexNumber),
        ("~0x10000000000000000", LogRecordErr::InvalidHexNumber),
        ("@", LogRecordErr::NoValue),
        ("$", LogRecordErr::NoScriptId),
        ("$x:\"\":src", LogRecordErr::InvalidScriptId),
        ("$5", LogRecordErr::NoScriptName),
        ("$5:", LogRecordErr::NoScriptName),
        ("!", LogRecordErr::NoExecutionContextScriptId),
        ("!??", LogRecordErr::InvalidExecutionContextScriptId),
        ("c", LogRecordErr::NoFunctionCallOffset),
        ("cx:%f:#U", LogRecordErr::InvalidFunctionCallOffset),
        ("c1", LogRecordErr::NoFunctionCallMethod),
        ("c1:%f", LogRecordErr::NoFunctionCallReceiver),
        ("c1:%f:", LogRecordErr::NoFunctionCallReceiver),
        ("n", LogRecordErr::NoConstructionCallOffset),
        ("n2147483648:%F", LogRecordErr::InvalidConstructionCallOffset),
        ("n1", LogRecordErr::NoConstructionCallMethod),
        ("g", LogRecordErr::NoGetPropertyOffset),
        ("g1.5:{1,A}:\"p\"", LogRecordErr::InvalidGetPropertyOffset),
        ("g1", LogRecordErr::NoGetPropertyObject),
        ("g1:{1,A}", LogRecordErr::NoGetPropertyProperty),
        ("s", LogRecordErr::NoSetPropertyOffset),
        ("s:{1,A}", LogRecordErr::InvalidSetPropertyOffset),
        ("s1", LogRecordErr::NoSetPropertyObject),
        ("s1:{1,A}", LogRecordErr::NoSetPropertyProperty),
        ("s1:{1,A}:\"p\"", LogRecordErr::NoSetPropertyValue),
        ("x1", LogRecordErr::UnknownLogRecordType),
        ("", LogRecordErr::UnknownLogRecordType),
    ];
    for (line, err) in cases {
        assert_eq!(LogRecord::parse(line), Err(err), "{line}");
    }
}

#[test]
fn error_messages_name_the_field() {
    assert_eq!(LogRecordErr::NoValue.message(), "`@` not followed by value");
    assert_eq!(LogRecordErr::UnknownLogRecordType.message(), "Unknown log record type");
}

#[test]
fn split_honours_escapes() {
    let mut parts = SplitRecordLine::new(r"a\:b:c\\:d");
    assert_eq!(parts.next().as_deref(), Some(r"a\:b"));
    assert_eq!(parts.next().as_deref(), Some(r"c\\"));
    assert_eq!(parts.next().as_deref(), Some("d"));
    assert_eq!(parts.next(), None);
    let mut parts = SplitRecordLine::new("a::b");
    assert_eq!(parts.next().as_deref(), Some("a"));
    assert_eq!(parts.next().as_deref(), Some(""));
    assert_eq!(parts.next().as_deref(), Some("b"));
    assert_eq!(parts.next(), None);
    let mut parts = SplitRecordLine::new("");
    assert_eq!(parts.next(), None);
    let mut parts = SplitRecordLine::new(r"end\");
    assert_eq!(parts.next().as_deref(), Some(r"end\"));
}

#[test]
fn drain_returns_the_rest_verbatim() {
    let line = r#"5:"":function(){a\:b; c:d}"#;
    let mut parts = SplitRecordLine::new(line);
    assert_eq!(parts.next().as_deref(), Some("5"));
    assert_eq!(parts.next().as_deref(), Some(r#""""#));
    let rest = parts.drain();
    assert_eq!(rest, r"function(){a\:b; c:d}");
    assert_eq!(format!("5:\"\":{rest}"), line);
    assert_eq!(parts.next(), None);
    assert_eq!(parts.drain(), "");
}

#[test]
fn numbers_follow_rust_parsing() {
    assert_eq!(
        LogRecord::parse("~0xABCdef").unwrap(),
        LogRecord::IsolateContext { address: 0xabcdef }
    );
    assert_eq!(
        LogRecord::parse("~0x+1F").unwrap(),
        LogRecord::IsolateContext { address: 31 }
    );
    assert_eq!(
        LogRecord::parse("~0xffffffffffffffff").unwrap(),
        LogRecord::IsolateContext { address: u64::MAX }
    );
    assert_eq!(LogRecord::parse("~0x-1"), Err(LogRecordErr::InvalidHexNumber));
    assert_eq!(LogRecord::parse("~0x"), Err(LogRecordErr::InvalidHexNumber));
    assert_eq!(
        LogRecord::parse("!+2147483647").unwrap(),
        LogRecord::ExecutionContext { script_id: i32::MAX }
    );
    assert_eq!(LogRecord::parse("!-"), Err(LogRecordErr::InvalidExecutionContextScriptId));
    assert_eq!(LogRecord::parse("! 1"), Err(LogRecordErr::InvalidExecutionContextScriptId));
}
