use cargo_test_scripts::{ConfigValue, Field, LoadError, TestSuite};

fn table(entries: Vec<(&str, ConfigValue)>) -> ConfigValue {
    ConfigValue::Table(entries.into_iter().map(|(k, v)| (k.to_string(), v)).collect())
}

fn s(v: &str) -> ConfigValue {
    ConfigValue::Str(v.to_string())
}

fn manifest(tests: ConfigValue) -> ConfigValue {
    table(vec![
        ("dependencies", table(vec![])),
        ("package", table(vec![
            ("name", s("demo")),
            ("metadata", table(vec![("other", ConfigValue::Integer(1)), ("test-script", tests)])),
        ])),
    ])
}

#[test]
fn loads_records_in_order() {
    let doc = manifest(ConfigValue::Array(vec![
        table(vec![
            ("name", s("ok")),
            ("script", ConfigValue::Array(vec![s("true"), s("echo hi")])),
            ("extra", ConfigValue::Other),
        ]),
        table(vec![
            ("name", s("slow")),
            ("timeout", ConfigValue::Integer(10)),
            ("script", ConfigValue::Array(vec![])),
        ]),
    ]));
    let suite = TestSuite::load(&doc).ok().unwrap();
    assert_eq!(suite.tests.len(), 2);
    assert_eq!(suite.tests[0].name, "ok");
    assert_eq!(suite.tests[0].timeout_ms, None);
    assert_eq!(suite.tests[0].script, vec!["true", "echo hi"]);
    assert_eq!(suite.tests[1].name, "slow");
    assert_eq!(suite.tests[1].timeout_ms, Some(10));
    assert!(suite.tests[1].script.is_empty());
}

#[test]
fn missing_keys_are_named() {
    let doc = table(vec![("workspace", table(vec![]))]);
    assert_eq!(TestSuite::load(&doc).err(), Some(LoadError::MissingField(Field::Package)));
    let doc = table(vec![("package", table(vec![("name", s("x"))]))]);
    assert_eq!(TestSuite::load(&doc).err(), Some(LoadError::MissingField(Field::Metadata)));
    let doc = table(vec![("package", table(vec![("metadata", table(vec![]))]))]);
    assert_eq!(TestSuite::load(&doc).err(), Some(LoadError::MissingField(Field::TestScript)));
    let doc = manifest(ConfigValue::Array(vec![table(vec![("name", s("n"))])]));
    assert_eq!(TestSuite::load(&doc).err(), Some(LoadError::MissingField(Field::Script)));
    let doc = manifest(ConfigValue::Array(vec![table(vec![("script", ConfigValue::Array(vec![]))])]));
    assert_eq!(TestSuite::load(&doc).err(), Some(LoadError::MissingField(Field::Name)));
    assert_eq!(Field::TestScript.key(), "test-script");
}

#[test]
fn malformed_records_are_refused() {
    let doc = manifest(s("not a list"));
    assert_eq!(TestSuite::load(&doc).err(), Some(LoadError::InvalidType(Field::TestScript)));
    let doc = manifest(ConfigValue::Array(vec![table(vec![
        ("name", s("n")),
        ("timeout", s("10")),
        ("script", ConfigValue::Array(vec![])),
    ])]));
    assert_eq!(TestSuite::load(&doc).err(), Some(LoadError::InvalidType(Field::Timeout)));
    let doc = manifest(ConfigValue::Array(vec![table(vec![
        ("name", s("n")),
        ("script", ConfigValue::Array(vec![s("ok"), ConfigValue::Integer(3)])),
    ])]));
    assert_eq!(TestSuite::load(&doc).err(), Some(LoadError::InvalidType(Field::Script)));
    let doc = manifest(ConfigValue::Array(vec![
        table(vec![("name", s("fine")), ("script", ConfigValue::Array(vec![]))]),
        table(vec![("name", ConfigValue::Integer(1)), ("script", ConfigValue::Array(vec![]))]),
    ]));
    assert_eq!(TestSuite::load(&doc).err(), Some(LoadError::InvalidType(Field::Name)));
    assert_eq!(TestSuite::load(&s("x")).err(), Some(LoadError::InvalidType(Field::Package)));
}
