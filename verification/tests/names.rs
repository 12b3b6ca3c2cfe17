use toolport_codemode::names::{
    is_code_mode_meta_tool, is_js_ident_start, js_string_literal, snake_to_camel,
    split_exposed_name,
};
use toolport_codemode::servers::build_servers_prelude;

#[test]
fn js_string_literal_escapes_quotes_and_newlines() {
    assert_eq!(js_string_literal("a'b\\c\nd"), "'a\\'b\\\\c\\nd'");
}

#[test]
fn snake_to_camel_basic() {
    assert_eq!(snake_to_camel("create_refund"), "createRefund");
    assert_eq!(snake_to_camel("alreadyCamel"), "alreadyCamel");
    assert_eq!(snake_to_camel("a_b_c"), "aBC");
}

#[test]
fn split_exposed_name_uses_first_separator() {
    assert_eq!(
        split_exposed_name("stripe__create_refund"),
        Some(("stripe", "create_refund"))
    );
    assert_eq!(
        split_exposed_name("s__tool__extra"),
        Some(("s", "tool__extra"))
    );
    assert_eq!(split_exposed_name("nosep"), None);
}

#[test]
fn a_split_name_joins_back() {
    for name in ["a__b", "__", "a___b", "x__y__z", "séance__töol"] {
        let (server, tool) = split_exposed_name(name).expect("a separator");
        assert_eq!(format!("{server}__{tool}"), name);
    }
    assert_eq!(split_exposed_name("a___b"), Some(("a", "_b")));
    assert_eq!(split_exposed_name("__"), Some(("", "")));
    assert_eq!(split_exposed_name(""), None);
    assert_eq!(split_exposed_name("a_b"), None);
}

#[test]
fn line_separators_and_carriage_returns_are_escaped() {
    assert_eq!(js_string_literal("\r\u{2028}\u{2029}"), "'\\r\\u2028\\u2029'");
    assert_eq!(js_string_literal(""), "''");
    assert_eq!(js_string_literal("\"é\t"), "'\"é\t'");
}

#[test]
fn camel_case_drops_underscores_and_raises_what_follows() {
    assert_eq!(snake_to_camel("_a"), "A");
    assert_eq!(snake_to_camel("a__b_"), "aB");
    assert_eq!(snake_to_camel("straße_ß"), "straßeSS");
    assert_eq!(snake_to_camel("___"), "");
}

#[test]
fn camel_case_is_its_own_camel_case() {
    for text in ["create_refund", "a__b_", "plain", "_9x_y", ""] {
        let camel = snake_to_camel(text);
        assert!(!camel.contains('_'));
        assert_eq!(camel == text, !text.contains('_'));
        assert_eq!(snake_to_camel(&camel), camel);
    }
}

#[test]
fn meta_tools_are_told_by_their_prefix() {
    assert!(is_code_mode_meta_tool("toolport_run_script"));
    assert!(is_code_mode_meta_tool("help_me"));
    assert!(!is_code_mode_meta_tool("stripe__toolport_x"));
    assert!(!is_code_mode_meta_tool("toolport"));
    assert!(!is_code_mode_meta_tool("help"));
}

#[test]
fn identifiers_are_ascii() {
    assert!(is_js_ident_start("createRefund"));
    assert!(is_js_ident_start("$x"));
    assert!(is_js_ident_start("_9"));
    assert!(!is_js_ident_start("9a"));
    assert!(!is_js_ident_start(""));
    assert!(!is_js_ident_start("a-b"));
    assert!(!is_js_ident_start("é"));
}

#[test]
fn an_empty_catalog_gives_an_empty_servers_object() {
    let text = build_servers_prelude(&[]);
    assert!(text.starts_with("(function () {\n  var servers = Object.create(null);\n"));
    assert!(text.contains("  var __toolport_catalog = [];\n"));
    assert!(text.ends_with("  toolport.listServers = function () { return Object.keys(servers); };\n})();\n"));
    assert!(!text.contains("ensure('"));
}

#[test]
fn each_tool_gets_a_stub_and_a_camel_case_alias() {
    let text = build_servers_prelude(&["s__do_it".to_string()]);
    let block = "  {\n    var s = ensure('s');\n    s['do_it'] = stub('s__do_it');\n    \
                 if (s['doIt'] === undefined) s['doIt'] = s['do_it'];\n  }\n";
    assert!(text.contains(block), "{text}");
    assert!(text.contains("  var __toolport_catalog = ['s__do_it'];\n"));
}

#[test]
fn an_alias_gives_way_to_a_tool_of_that_name_and_to_what_is_no_identifier() {
    let text = build_servers_prelude(&["s__a_b".to_string(), "s__aB".to_string()]);
    assert!(!text.contains("if (s["));
    let text = build_servers_prelude(&["s__a-b_c".to_string()]);
    assert!(!text.contains("if (s["));
}

#[test]
fn the_prelude_ignores_order_repeats_and_names_that_are_not_exposed() {
    let sorted = ["a__x", "a__y", "b__x"].map(String::from);
    let mixed = ["b__x", "nosep", "a__y", "__x", "a__x", "a__", "a__y"].map(String::from);
    assert_eq!(build_servers_prelude(&sorted), build_servers_prelude(&mixed));
    assert!(build_servers_prelude(&mixed)
        .contains("  var __toolport_catalog = ['a__x', 'a__y', 'b__x'];\n"));
}
