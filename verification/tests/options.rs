use serde_json::Value;
use typed_commands::args::{Args, PromptEvent, Word};
use typed_commands::options::{
    choose_list, choose_value, field_value, get_option, set_option, toggle_option,
};
use typed_commands::plan::{Action, Op, Plan};

fn args(raw: &str) -> Args {
    let mut words = Vec::new();
    let mut rest = raw.trim_start();
    while !rest.is_empty() {
        let end = rest.find(' ').unwrap_or(rest.len());
        let text = &rest[..end];
        rest = rest[end..].trim_start();
        words.push(Word {
            text: text.to_string(),
            tail: rest.to_string(),
            path: text.split('/').map(|part| part.to_string()).collect(),
        });
    }
    Args { raw: raw.trim_start().to_string(), words, taken: 0 }
}

fn options() -> Value {
    let text = r#"{
        "mouse": true,
        "line-number": "absolute",
        "scrolloff": 5,
        "rulers": [1, 2.0],
        "search": {"smart-case": true, "wrap-around": false},
        "zero": [-0.0],
        "nothing": null
    }"#;
    text.parse().unwrap()
}

fn failed(plan: Plan, error: &str) -> bool {
    plan.steps.is_empty() && plan.error == Some(error.to_string())
}

fn status(plan: Plan) -> String {
    match plan.steps.last() {
        Some(Action::SetStatus(status)) if plan.error.is_none() => status.clone(),
        _ => panic!("no status: {plan:?}"),
    }
}

fn get(options: &Value, key: &str) -> Plan {
    get_option(options, args(key), PromptEvent::Validate)
}

fn set(options: &mut Value, raw: &str) -> Plan {
    set_option(options, args(raw), PromptEvent::Validate)
}

fn toggle(options: &mut Value, raw: &str) -> Plan {
    toggle_option(options, args(raw), PromptEvent::Validate)
}

#[test]
fn options_are_shown() {
    let options = options();
    assert_eq!(status(get(&options, "mouse")), "true");
    assert_eq!(status(get(&options, "Line-Number")), "\"absolute\"");
    assert_eq!(status(get(&options, "rulers")), "[1,2.0]");
    assert_eq!(status(get(&options, "rulers.1")), "2.0");
    assert_eq!(status(get(&options, "search")), "{\"smart-case\":true,\"wrap-around\":false}");
    assert_eq!(status(get(&options, "search.smart-case")), "true");
}

#[test]
fn unknown_options_are_named() {
    let mut options = options();
    assert!(failed(get(&options, "search.missing"), "Unknown key `search.missing`"));
    assert!(failed(get(&options, ""), "Bad arguments. Usage: `:get key`"));
    assert!(failed(get(&options, "a b"), "Bad arguments. Usage: `:get key`"));
    assert!(failed(set(&mut options, "missing 1"), "Unknown key `missing`"));
    assert!(failed(toggle(&mut options, "missing"), "Unknown key `missing`"));
}

#[test]
fn names_are_made_lower_case_by_unicode() {
    let options: Value = "{\"\u{e4}k\": 1}".parse().unwrap();
    assert_eq!(status(get(&options, "\u{c4}\u{212a}")), "1");
}

#[test]
fn options_are_set() {
    let mut options = options();
    let plan = set(&mut options, "search.smart-case false");
    assert_eq!(
        plan.steps,
        vec![
            Action::Do(Op::SendOptions),
            Action::SetStatus("'search.smart-case' is now set to false".to_string()),
        ]
    );
    assert_eq!(options.pointer("/search/smart-case"), Some(&Value::Bool(false)));
    assert_eq!(options.pointer("/search/wrap-around"), Some(&Value::Bool(false)));
    assert_eq!(options.pointer("/mouse"), Some(&Value::Bool(true)));
    assert_eq!(status(get(&options, "search.smart-case")), "false");
}

#[test]
fn texts_are_set_as_they_are() {
    let mut options = options();
    assert_eq!(
        status(set(&mut options, "line-number relative to me")),
        "'line-number' is now set to relative to me"
    );
    assert_eq!(status(get(&options, "line-number")), "\"relative to me\"");
}

#[test]
fn fields_that_are_no_json_are_refused() {
    let mut options = options();
    let before = options.clone();
    assert!(failed(
        set(&mut options, "scrolloff many"),
        "Could not parse field `many`: expected value at line 1 column 1"
    ));
    assert!(failed(
        set(&mut options, ""),
        "Bad arguments. Usage: `:set key field`, didn't provide `key`"
    ));
    assert!(failed(
        set(&mut options, "mouse"),
        "Bad arguments. Usage: `:set key field`, didn't provide `field`"
    ));
    assert_eq!(options, before);
}

#[test]
fn fields_stand_for_what_they_are_read_as() {
    let one = Value::from(1);
    assert_eq!(field_value("1", Ok(one.clone())), Ok(one));
    assert_eq!(
        field_value("x", Err("why".to_string())),
        Err("Could not parse field `x`: why".to_string())
    );
}

#[test]
fn nothing_is_set_before_confirmation() {
    let mut options = options();
    let before = options.clone();
    for event in [PromptEvent::Update, PromptEvent::Abort] {
        assert_eq!(set_option(&mut options, args("mouse false"), event), Plan::nothing());
        assert_eq!(toggle_option(&mut options, args("mouse"), event), Plan::nothing());
        assert_eq!(get_option(&options, args("mouse"), event), Plan::nothing());
    }
    assert_eq!(options, before);
}

#[test]
fn truth_values_are_toggled_back_and_forth() {
    let mut options = options();
    let before = options.clone();
    let plan = toggle(&mut options, "search.smart-case");
    assert_eq!(
        plan.steps,
        vec![
            Action::Do(Op::SendCheckedOptions),
            Action::SetStatus("'search.smart-case' is now set to false".to_string()),
        ]
    );
    assert_ne!(options, before);
    assert_eq!(
        status(toggle(&mut options, "search.smart-case")),
        "'search.smart-case' is now set to true"
    );
    assert_eq!(options, before);
    assert!(failed(
        toggle(&mut options, "mouse off"),
        "Bad arguments. For boolean configurations use: `:toggle key`"
    ));
    assert!(failed(
        toggle(&mut options, ""),
        "Bad arguments. Usage: `:toggle key [values]?`"
    ));
}

#[test]
fn texts_are_toggled_to_the_next_value() {
    let mut options = options();
    for value in ["relative", "absolute", "relative", "absolute"] {
        assert_eq!(
            status(toggle(&mut options, "line-number relative absolute")),
            format!("'line-number' is now set to \"{value}\"")
        );
    }
    // A value that is not listed is followed by the second one.
    assert_eq!(
        status(toggle(&mut options, "line-number u v w")),
        "'line-number' is now set to \"v\""
    );
    assert_eq!(
        status(toggle(&mut options, "line-number u v w")),
        "'line-number' is now set to \"w\""
    );
    assert_eq!(
        status(toggle(&mut options, "line-number u v w")),
        "'line-number' is now set to \"u\""
    );
    assert!(failed(
        toggle(&mut options, "line-number one"),
        "Bad arguments. For string configurations use: `:toggle key val1 val2 ...`"
    ));
}

#[test]
fn numbers_are_toggled_to_the_next_value() {
    let mut options = options();
    assert_eq!(status(toggle(&mut options, "scrolloff 5 10")), "'scrolloff' is now set to 10");
    assert_eq!(status(toggle(&mut options, "scrolloff 5 10")), "'scrolloff' is now set to 5");
    assert_eq!(status(toggle(&mut options, "scrolloff 7 2.50")), "'scrolloff' is now set to 2.5");
    assert!(failed(
        toggle(&mut options, "scrolloff 1"),
        "Bad arguments. For number configurations use: `:toggle key val1 val2 ...`"
    ));
    assert!(failed(
        toggle(&mut options, "scrolloff 1 x"),
        "invalid number at line 1 column 1"
    ));
    assert_eq!(status(get(&options, "scrolloff")), "2.5");
}

#[test]
fn values_are_chosen_among_the_arguments() {
    let mut given = args("key a b c");
    given.next();
    assert_eq!(choose_value(&given, "a"), "b");
    assert_eq!(choose_value(&given, "b"), "c");
    assert_eq!(choose_value(&given, "c"), "a");
    assert_eq!(choose_value(&given, "d"), "b");
}

#[test]
fn lists_are_toggled_back_and_forth() {
    let mut options = options();
    assert_eq!(status(toggle(&mut options, "rulers [1, 2.0] []")), "'rulers' is now set to []");
    assert_eq!(
        status(toggle(&mut options, "rulers [1, 2.0] []")),
        "'rulers' is now set to [1,2.0]"
    );
    assert_eq!(status(toggle(&mut options, "rulers [3][4]")), "'rulers' is now set to [3]");
    assert!(failed(toggle(&mut options, "rulers [3] 4"), "values must be lists"));
    assert!(failed(
        toggle(&mut options, "rulers [3]"),
        "Bad arguments. For list configurations use: `:toggle key [...] [...]`"
    ));
    assert!(failed(
        toggle(&mut options, "rulers x [3]"),
        "expected value at line 1 column 1"
    ));
    assert!(failed(
        toggle(&mut options, "rulers [3] x"),
        "expected value at line 1 column 5"
    ));
}

#[test]
fn both_zeros_are_the_same_in_lists() {
    let mut options = options();
    assert_eq!(status(get(&options, "zero")), "[-0.0]");
    assert_eq!(status(toggle(&mut options, "zero [0.0] [1]")), "'zero' is now set to [1]");
    let zero: Value = "[0.0]".parse().unwrap();
    let whole: Value = "[0]".parse().unwrap();
    let one: Value = "[1]".parse().unwrap();
    assert_eq!(
        choose_list(Some(Ok(zero.clone())), Some(Ok(one.clone())), &zero),
        Ok(one.clone())
    );
    assert_eq!(choose_list(Some(Ok(whole.clone())), Some(Ok(one)), &zero), Ok(whole));
}

#[test]
fn lists_are_chosen_by_what_was_read() {
    let list: Value = "[1]".parse().unwrap();
    let number = Value::from(1);
    let error = Err("bad".to_string());
    assert_eq!(choose_list(Some(error.clone()), None, &list), error);
    assert_eq!(choose_list(None, Some(error.clone()), &list), error);
    assert_eq!(
        choose_list(Some(Ok(list.clone())), Some(Ok(number)), &list),
        Err("values must be lists".to_string())
    );
    assert!(choose_list(Some(Ok(list.clone())), None, &list).is_err());
}

#[test]
fn other_values_are_not_toggled() {
    let mut options = options();
    assert!(failed(
        toggle(&mut options, "search"),
        "Configuration search does not support toggle yet"
    ));
    assert!(failed(
        toggle(&mut options, "nothing"),
        "Configuration nothing does not support toggle yet"
    ));
}

#[test]
fn names_with_escapes_lead_to_their_options() {
    let before: Value =
        r#"{"a~b": true, "a/b": true, "ab": true, "~1": true}"#.parse().unwrap();
    for (key, pointer) in [("a~b", "/a~0b"), ("a~0b", "/a~b"), ("a~1b", "/a~1b"), ("~01", "/~01")] {
        let mut options = before.clone();
        toggle(&mut options, key);
        assert_eq!(options.pointer(pointer), Some(&Value::Bool(false)), "{key}");
        let changed = options.as_object().unwrap().values().filter(|v| **v == false).count();
        assert_eq!(changed, 1, "{key}");
        toggle(&mut options, key);
        assert_eq!(options, before, "{key}");
    }
}
