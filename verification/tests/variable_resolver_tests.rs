//! Tests of variable scopes and expansion resolution.

use shex::variable_resolver::{
    resolve_expansion, ExpansionMode, ExpansionRequest, ResolutionResult, VariableContext,
};

#[test]
fn test_basic_variable_context() {
    let mut context = VariableContext::new();

    assert!(context.get("var").is_none());
    assert!(!context.contains("var"));

    context.set("var".to_string(), "value".to_string());

    assert_eq!(context.get("var"), Some(&"value".to_string()));
    assert!(context.contains("var"));
}

#[test]
fn test_nested_context() {
    let mut parent = VariableContext::new();
    parent.set("parent_var".to_string(), "parent_value".to_string());

    let mut child = VariableContext::with_parent(parent);
    child.set("child_var".to_string(), "child_value".to_string());

    assert_eq!(child.get("child_var"), Some(&"child_value".to_string()));
    assert_eq!(child.get("parent_var"), Some(&"parent_value".to_string()));
    assert!(child.contains("parent_var"));

    child.set("parent_var".to_string(), "overridden".to_string());
    assert_eq!(child.get("parent_var"), Some(&"overridden".to_string()));
}

#[test]
fn test_all_names() {
    let mut parent = VariableContext::new();
    parent.set("a".to_string(), "1".to_string());
    parent.set("b".to_string(), "2".to_string());

    let mut child = VariableContext::with_parent(parent);
    child.set("c".to_string(), "3".to_string());
    child.set("a".to_string(), "overridden".to_string());

    let names = child.all_names();
    assert_eq!(names, vec!["a", "b", "c"]);
}

#[test]
fn test_import_from() {
    let mut source = VariableContext::new();
    source.set("var1".to_string(), "value1".to_string());
    source.set("var2".to_string(), "value2".to_string());

    let mut target = VariableContext::new();
    target.import_from(&source);

    assert_eq!(target.get("var1"), Some(&"value1".to_string()));
    assert_eq!(target.get("var2"), Some(&"value2".to_string()));
}

#[test]
fn test_expansion_request_creation() {
    let simple = ExpansionRequest::simple("var".to_string());
    assert_eq!(simple.variable_name, "var");
    assert_eq!(simple.mode, ExpansionMode::Normal);
    assert!(simple.parameter.is_none());

    let with_default = ExpansionRequest::with_default("var".to_string(), "default".to_string());
    assert_eq!(with_default.mode, ExpansionMode::DefaultValue);
    assert_eq!(with_default.parameter, Some("default".to_string()));
}

#[test]
fn test_normal_expansion() {
    let mut context = VariableContext::new();
    context.set("var".to_string(), "value".to_string());

    let request = ExpansionRequest::simple("var".to_string());
    let result = resolve_expansion(&mut context, &request);

    match result {
        ResolutionResult::Resolved(value) => assert_eq!(value, "value"),
        _ => panic!("Expected resolved result"),
    }

    let unset_request = ExpansionRequest::simple("unset_var".to_string());
    let unset_result = resolve_expansion(&mut context, &unset_request);

    match unset_result {
        ResolutionResult::Unset => {}
        _ => panic!("Expected unset result"),
    }
}

#[test]
fn test_default_value_expansion() {
    let mut context = VariableContext::new();

    let request =
        ExpansionRequest::with_default("unset_var".to_string(), "default_value".to_string());
    let result = resolve_expansion(&mut context, &request);

    match result {
        ResolutionResult::Resolved(value) => assert_eq!(value, "default_value"),
        _ => panic!("Expected resolved result with default value"),
    }

    context.set("var".to_string(), "existing".to_string());
    let existing_request =
        ExpansionRequest::with_default("var".to_string(), "default".to_string());
    let existing_result = resolve_expansion(&mut context, &existing_request);

    match existing_result {
        ResolutionResult::Resolved(value) => assert_eq!(value, "existing"),
        _ => panic!("Expected existing value, not default"),
    }
}

#[test]
fn variable_resolver_test_assign_default_expansion() {
    let mut context = VariableContext::new();

    let mut request =
        ExpansionRequest::with_default("unset_var".to_string(), "default_value".to_string());
    request.mode = ExpansionMode::AssignDefault;

    let result = resolve_expansion(&mut context, &request);

    match result {
        ResolutionResult::Resolved(value) => assert_eq!(value, "default_value"),
        _ => panic!("Expected resolved result"),
    }

    assert_eq!(context.get("unset_var"), Some(&"default_value".to_string()));
}

#[test]
fn test_assign_default_idempotent() {
    let mut context = VariableContext::new();
    let request = ExpansionRequest {
        variable_name: "X".to_string(),
        mode: ExpansionMode::AssignDefault,
        parameter: Some("abc".to_string()),
        check_unset: true,
    };

    let first = resolve_expansion(&mut context, &request);
    match first {
        ResolutionResult::Resolved(value) => assert_eq!(value, "abc"),
        _ => panic!("Expected resolved result"),
    }
    assert_eq!(context.get("X"), Some(&"abc".to_string()));

    let second = resolve_expansion(&mut context, &request);
    match second {
        ResolutionResult::Resolved(value) => assert_eq!(value, "abc"),
        _ => panic!("Expected resolved result"),
    }
    assert_eq!(context.get("X"), Some(&"abc".to_string()));
    assert_eq!(context.all_names(), vec!["X"]);
}

#[test]
fn test_no_colon_ignores_null() {
    let mut context = VariableContext::new();
    context.set("v".to_string(), String::new());

    let bare = ExpansionRequest {
        variable_name: "v".to_string(),
        mode: ExpansionMode::DefaultValue,
        parameter: Some("d".to_string()),
        check_unset: false,
    };
    match resolve_expansion(&mut context, &bare) {
        ResolutionResult::Resolved(value) => assert_eq!(value, ""),
        _ => panic!("Expected resolved result"),
    }

    let colon = ExpansionRequest {
        variable_name: "v".to_string(),
        mode: ExpansionMode::DefaultValue,
        parameter: Some("d".to_string()),
        check_unset: true,
    };
    match resolve_expansion(&mut context, &colon) {
        ResolutionResult::Resolved(value) => assert_eq!(value, "d"),
        _ => panic!("Expected resolved result"),
    }
}

#[test]
fn test_error_if_unset_message() {
    let mut context = VariableContext::new();
    let request = ExpansionRequest {
        variable_name: "missing".to_string(),
        mode: ExpansionMode::ErrorIfUnset,
        parameter: None,
        check_unset: true,
    };
    match resolve_expansion(&mut context, &request) {
        ResolutionResult::Error(message) => {
            assert_eq!(message, "missing: parameter null or not set");
        }
        _ => panic!("Expected error result"),
    }
}

#[test]
fn test_alternative_value_on_set() {
    let mut context = VariableContext::new();
    context.set("v".to_string(), "x".to_string());

    let request = ExpansionRequest {
        variable_name: "v".to_string(),
        mode: ExpansionMode::AlternativeValue,
        parameter: Some("alt".to_string()),
        check_unset: true,
    };
    match resolve_expansion(&mut context, &request) {
        ResolutionResult::Resolved(value) => assert_eq!(value, "alt"),
        _ => panic!("Expected resolved result"),
    }

    let unset = ExpansionRequest {
        variable_name: "w".to_string(),
        mode: ExpansionMode::AlternativeValue,
        parameter: Some("alt".to_string()),
        check_unset: true,
    };
    match resolve_expansion(&mut context, &unset) {
        ResolutionResult::Resolved(value) => assert_eq!(value, ""),
        _ => panic!("Expected resolved result"),
    }
}

#[test]
fn test_current_variables_lists_locals_only() {
    let mut parent = VariableContext::new();
    parent.set("p".to_string(), "1".to_string());
    let mut child = VariableContext::with_parent(parent);
    child.set("c".to_string(), "2".to_string());

    let locals = child.current_variables();
    assert_eq!(locals, vec![("c".to_string(), "2".to_string())]);
}

#[test]
fn test_duplicate_is_independent() {
    let mut original = VariableContext::new();
    original.set("k".to_string(), "v".to_string());

    let mut copy = original.duplicate();
    copy.set("k".to_string(), "changed".to_string());

    assert_eq!(original.get("k"), Some(&"v".to_string()));
    assert_eq!(copy.get("k"), Some(&"changed".to_string()));
}
