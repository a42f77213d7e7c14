use script_eval::scripting::{
    eval, normalize_js, normalize_lua, render, Error, Language,
};
use std::sync::Arc;

fn lua_failure(script: &str) -> Error {
    let outcome: Result<String, Error> = eval(Language::Lua, script);
    outcome.unwrap_err()
}

#[test]
fn language_names() {
    assert_eq!(Language::Lua.name(), "Lua");
    assert_eq!(Language::JavaScript.name(), "JavaScript");
}

#[test]
fn render_puts_the_diagnostic_in_brackets() {
    assert_eq!(render(Language::Lua, "boom"), "Lua(boom)");
    assert_eq!(render(Language::JavaScript, "boom"), "JavaScript(boom)");
    assert_eq!(render(Language::Lua, ""), "Lua()");
    assert_eq!(render(Language::JavaScript, "a (nested) one"), "JavaScript(a (nested) one)");
}

#[test]
fn javascript_failure_renders_its_message() {
    let failure = Error::JavaScript(String::from("not supported"));
    assert_eq!(failure.to_string(), "JavaScript(not supported)");
    assert_eq!(failure.language(), Language::JavaScript);
}

#[test]
fn lua_failure_renders_the_interpreter_error() {
    let failure = Error::Lua(Arc::new(rlua::Error::RuntimeError(String::from("boom"))));
    assert_eq!(failure.to_string(), "Lua(runtime error: boom)");
    assert_eq!(failure.language(), Language::Lua);
    let conversion = Error::Lua(Arc::new(rlua::Error::FromLuaConversionError {
        from: "table",
        to: "String",
        message: Some(String::from("expected string or number")),
    }));
    assert_eq!(
        conversion.to_string(),
        "Lua(error converting Lua table to String (expected string or number))"
    );
}

#[test]
fn rendering_of_an_evaluation_failure_begins_with_the_backend_name() {
    let failure = lua_failure("return 1 +");
    let text = failure.to_string();
    assert!(text.starts_with("Lua("));
    assert!(text.starts_with(failure.language().name()));
    assert!(!text.starts_with(Language::JavaScript.name()));
    assert!(text.ends_with(')'));
    match &failure {
        Error::Lua(native) => assert_eq!(text, format!("Lua({})", native)),
        Error::JavaScript(_) => panic!("a Lua failure was tagged JavaScript"),
    }
}

#[test]
fn rendering_of_a_javascript_failure_begins_with_the_backend_name() {
    let failure = Error::from("not supported");
    let text = failure.to_string();
    assert!(text.starts_with("JavaScript("));
    assert!(text.starts_with(failure.language().name()));
    assert!(!text.starts_with(Language::Lua.name()));
    assert!(text.ends_with(')'));
}

#[test]
fn syntax_error_rendering_names_the_kind_of_error() {
    let text = lua_failure("return 1 +").to_string();
    assert!(text.starts_with("Lua(syntax error: "));
}

#[test]
fn wrapping_a_lua_error_happens_once() {
    let failure = Error::from(rlua::Error::RuntimeError(String::from("boom")));
    match failure {
        Error::Lua(native) => {
            assert_eq!(Arc::strong_count(&native), 1);
            assert!(matches!(&*native, rlua::Error::RuntimeError(message) if message == "boom"));
        }
        Error::JavaScript(_) => panic!("a Lua error was tagged JavaScript"),
    }
}

#[test]
fn wrapping_a_javascript_message_happens_once() {
    let failure = Error::from("not supported");
    match failure {
        Error::JavaScript(message) => assert_eq!(message, "not supported"),
        Error::Lua(_) => panic!("a JavaScript message was tagged Lua"),
    }
}

#[test]
fn clone_shares_the_interpreter_error() {
    let failure = lua_failure("error(\"boom\")");
    let copy = failure.clone();
    assert_eq!(copy.to_string(), failure.to_string());
    assert_eq!(copy.language(), failure.language());
    match (&failure, &copy) {
        (Error::Lua(first), Error::Lua(second)) => {
            assert!(Arc::ptr_eq(first, second));
            assert_eq!(Arc::strong_count(first), 2);
        }
        _ => panic!("a Lua failure or its copy was tagged JavaScript"),
    }
}

#[test]
fn clone_of_a_javascript_failure_keeps_the_message() {
    let failure = Error::JavaScript(String::from("not supported"));
    let copy = failure.clone();
    assert_eq!(copy.to_string(), "JavaScript(not supported)");
    assert_eq!(copy.language(), Language::JavaScript);
}

#[test]
fn a_failure_has_no_source() {
    assert!(lua_failure("return 1 +").source().is_none());
    assert!(Error::JavaScript(String::from("not supported")).source().is_none());
}

#[test]
fn normalize_lua_keeps_a_value_and_wraps_an_error() {
    let kept = normalize_lua(Ok(vec![String::from("one"), String::from("two")]));
    assert!(matches!(kept, Ok(values) if values == vec!["one", "two"]));
    let wrapped = normalize_lua::<String>(Err(rlua::Error::RuntimeError(String::from("boom"))));
    match wrapped {
        Err(failure) => {
            assert_eq!(failure.language(), Language::Lua);
            assert_eq!(failure.to_string(), "Lua(runtime error: boom)");
        }
        Ok(_) => panic!("an error became a success"),
    }
}

#[test]
fn normalize_js_keeps_a_value_and_wraps_a_message() {
    let kept = normalize_js(Ok(String::from("one")));
    assert!(matches!(kept, Ok(value) if value == "one"));
    let wrapped = normalize_js::<String>(Err("not supported"));
    match wrapped {
        Err(failure) => {
            assert_eq!(failure.language(), Language::JavaScript);
            assert_eq!(failure.to_string(), "JavaScript(not supported)");
        }
        Ok(_) => panic!("an error became a success"),
    }
}

#[test]
fn failure_debug_output_names_the_variant() {
    let text = format!("{:?}", Error::JavaScript(String::from("not supported")));
    assert_eq!(text, "JavaScript(\"not supported\")");
}
