use modresolve::{
    AutocompleteValid, JsxAttribute, JsxAttributeItem, JsxAttributeValue, JsxOpeningElement, Span,
    is_valid_autocomplete_value,
};

fn element(name: &str, autocomplete: Option<JsxAttributeItem>) -> JsxOpeningElement {
    JsxOpeningElement { name: name.to_string(), autocomplete }
}

fn literal_attr(value: &str) -> Option<JsxAttributeItem> {
    Some(JsxAttributeItem::Attribute(JsxAttribute {
        span: Span { start: 0, end: 0 },
        value: Some(JsxAttributeValue::StringLiteral(value.to_string())),
    }))
}

fn bare_attr() -> Option<JsxAttributeItem> {
    Some(JsxAttributeItem::Attribute(JsxAttribute { span: Span { start: 0, end: 0 }, value: None }))
}

fn expression_attr() -> Option<JsxAttributeItem> {
    Some(JsxAttributeItem::Attribute(JsxAttribute {
        span: Span { start: 0, end: 0 },
        value: Some(JsxAttributeValue::Other),
    }))
}

fn configured(config: &str) -> AutocompleteValid {
    let value: serde_json::Value = serde_json::from_str(config).unwrap();
    AutocompleteValid::from_configuration(value)
}

#[test]
fn autocomplete_valid_test() {
    let rule = AutocompleteValid::default();
    // With the jsx-a11y settings `{"components": {"Input": "input"}}` the
    // element type of an `Input` resolves to `input` before the rule runs;
    // without them it stays `Input`.
    let pass = vec![
        // <input type='text' />;
        element("input", None),
        // <input type='text' autocomplete='name' />;
        element("input", literal_attr("name")),
        // <input type='text' autocomplete='off' />;
        element("input", literal_attr("off")),
        // <input type='text' autocomplete='on' />;
        element("input", literal_attr("on")),
        // <input type='text' autocomplete />;
        element("input", bare_attr()),
        // <input type='text' autocomplete={autocompl} />;
        element("input", expression_attr()),
        // <input type='text' autocomplete={autocompl || 'name'} />;
        element("input", expression_attr()),
        // <input type='text' autocomplete={autocompl || 'foo'} />;
        element("input", expression_attr()),
        // <Foo autocomplete='bar'></Foo>;
        element("Foo", literal_attr("bar")),
        // <Input type='text' autocomplete='baz' /> without settings
        element("Input", literal_attr("baz")),
        // <input type='date' autocomplete='email' />;
        element("input", literal_attr("email")),
        // <input type='number' autocomplete='url' />;
        element("input", literal_attr("url")),
        // <input type='month' autocomplete='tel' />;
        element("input", literal_attr("tel")),
    ];
    for el in pass {
        assert!(rule.run(&el).is_none(), "expected no report for {}", el.name);
    }

    // <Input type='text' autocomplete='name' /> with the settings above.
    assert!(rule.run(&element("input", literal_attr("name"))).is_none());
    // <Foo type='month' autocomplete='tel'></Foo>; with inputComponents ["Foo"]
    let foo_rule = configured("[{\"inputComponents\": [\"Foo\"]}]");
    assert!(foo_rule.run(&element("Foo", literal_attr("tel"))).is_none());

    let fail = vec![
        // <input type='text' autocomplete='foo' />;
        ("input", "foo"),
        // <input type='text' autocomplete='name invalid' />;
        ("input", "name invalid"),
        // <input type='text' autocomplete='invalid name' />;
        ("input", "invalid name"),
        // <input type='text' autocomplete='home url' />;
        ("input", "home url"),
    ];
    for (name, value) in fail {
        let report = rule.run(&element(name, literal_attr(value))).unwrap();
        assert_eq!(report.autocomplete, value);
    }

    // <Bar autocomplete='baz'></Bar>; with inputComponents ["Bar"]
    let bar_rule = configured("[{\"inputComponents\": [\"Bar\"]}]");
    let report = bar_rule.run(&element("Bar", literal_attr("baz"))).unwrap();
    assert_eq!(report.autocomplete, "baz");
    // <Input type='text' autocomplete='baz' />; with the settings above.
    let report = rule.run(&element("input", literal_attr("baz"))).unwrap();
    assert_eq!(report.autocomplete, "baz");
}

#[test]
fn single_token_values() {
    assert!(is_valid_autocomplete_value("on"));
    assert!(is_valid_autocomplete_value("name"));
    assert!(is_valid_autocomplete_value("webauthn"));
    assert!(!is_valid_autocomplete_value("autofill"));
    assert!(!is_valid_autocomplete_value(""));
    assert!(!is_valid_autocomplete_value("   "));
}

#[test]
fn two_token_values() {
    assert!(is_valid_autocomplete_value("billing country"));
    assert!(is_valid_autocomplete_value("shipping postal-code"));
    assert!(is_valid_autocomplete_value("billing  street-address"));
    assert!(!is_valid_autocomplete_value("billing name"));
    assert!(!is_valid_autocomplete_value("home url"));
    assert!(!is_valid_autocomplete_value("billing shipping country"));
}

#[test]
fn whitespace_runs_collapse() {
    assert!(is_valid_autocomplete_value("  name  "));
    assert!(is_valid_autocomplete_value("\tshipping\u{00A0} country\n"));
}

#[test]
fn spread_attribute_is_ignored() {
    let rule = AutocompleteValid::default();
    assert!(rule.run(&element("input", Some(JsxAttributeItem::SpreadAttribute))).is_none());
}

#[test]
fn configured_components_replace_the_default_list_but_input_stays() {
    let rule = configured("[{\"inputComponents\": [\"Foo\", 7, \"Bar\"]}]");
    assert!(rule.run(&element("Foo", literal_attr("bogus"))).is_some());
    assert!(rule.run(&element("Bar", literal_attr("bogus"))).is_some());
    assert!(rule.run(&element("input", literal_attr("bogus"))).is_some());
    assert!(rule.run(&element("Baz", literal_attr("bogus"))).is_none());
}

#[test]
fn malformed_configuration_keeps_the_default() {
    let rule = configured("[{\"inputComponents\": \"Foo\"}]");
    assert!(rule.run(&element("input", literal_attr("bogus"))).is_some());
    assert!(rule.run(&element("Foo", literal_attr("bogus"))).is_none());
    let rule = configured("[]");
    assert!(rule.run(&element("input", literal_attr("bogus"))).is_some());
}
