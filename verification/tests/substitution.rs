use expand_variables::book::{Book, BookItem, Chapter};
use expand_variables::engine::substitute_variables;
use expand_variables::plugin::Plugin;
use expand_variables::table::{Table, Value};

fn table_of(pairs: &[(&str, &str)]) -> Table {
    let mut t = Table::new();
    for (k, v) in pairs {
        t.insert((*k).to_string(), Value::Str((*v).to_string()));
    }
    t
}

#[test]
fn no_placeholder_is_identity() {
    let t = Table::new();
    assert_eq!(substitute_variables(&t, "hello world"), "hello world");
    assert_eq!(substitute_variables(&t, ""), "");
    assert_eq!(substitute_variables(&t, "lone } and { braces }}"), "lone } and { braces }}");
}

#[test]
fn known_variable_is_replaced() {
    let t = table_of(&[("who", "World")]);
    assert_eq!(substitute_variables(&t, "Hello ${{who}}!"), "Hello World!");
    assert_eq!(substitute_variables(&t, "${{who}}"), "World");
}

#[test]
fn unknown_variable_is_marked() {
    let t = Table::new();
    assert_eq!(
        substitute_variables(&t, "X ${{missing}} Y"),
        "X UNKNOWN VARIABLE 'missing' Y"
    );
}

#[test]
fn non_string_value_is_marked() {
    let mut t = Table::new();
    t.insert("n".to_string(), Value::Other);
    assert_eq!(substitute_variables(&t, "${{n}}"), "UNKNOWN VARIABLE 'n'");
}

#[test]
fn substituted_value_is_not_rescanned() {
    let t = table_of(&[("a", "${{b}}"), ("b", "B")]);
    let once = substitute_variables(&t, "x${{a}}y");
    assert_eq!(once, "x${{b}}y");
    let twice = substitute_variables(&t, &once);
    assert_eq!(twice, "xBy");
    assert_ne!(twice, once);
}

#[test]
fn second_pass_is_identity_without_delimiter_in_values() {
    let t = table_of(&[("b", "B")]);
    let once = substitute_variables(&t, "q${{b}}");
    assert_eq!(once, "qB");
    assert_eq!(substitute_variables(&t, &once), once);
}

#[test]
fn unterminated_placeholder_loses_delimiter_only() {
    let t = table_of(&[("name", "value")]);
    assert_eq!(substitute_variables(&t, "prefix ${{name"), "prefix name");
    assert_eq!(substitute_variables(&t, "${{"), "");
}

#[test]
fn tail_is_stripped_of_closing_delimiters() {
    let t = table_of(&[("a", "A")]);
    assert_eq!(substitute_variables(&t, "${{a}}x}}y"), "Axy");
}

#[test]
fn multiple_placeholders_in_one_text() {
    let t = table_of(&[("a", "A"), ("b", "B")]);
    assert_eq!(substitute_variables(&t, "${{a}}-${{b}}!"), "A-B!");
}

#[test]
fn empty_variable_name() {
    let t = Table::new();
    assert_eq!(substitute_variables(&t, "${{}}"), "UNKNOWN VARIABLE ''");
}

#[test]
fn empty_table_marks_every_placeholder() {
    let t = Table::new();
    assert_eq!(
        substitute_variables(&t, "${{a}} ${{b}}"),
        "UNKNOWN VARIABLE 'a' UNKNOWN VARIABLE 'b'"
    );
}

#[test]
fn later_insertion_shadows_earlier() {
    let mut t = Table::new();
    t.insert("a".to_string(), Value::Str("1".to_string()));
    t.insert("a".to_string(), Value::Str("2".to_string()));
    assert_eq!(substitute_variables(&t, "${{a}}"), "2");
}

#[test]
fn table_get_finds_bindings() {
    let mut t = Table::new();
    t.insert("a".to_string(), Value::Str("1".to_string()));
    t.insert("o".to_string(), Value::Other);
    assert!(matches!(t.get("a"), Some(Value::Str(s)) if s.as_str() == "1"));
    assert!(matches!(t.get("o"), Some(Value::Other)));
    assert!(t.get("missing").is_none());
}

#[test]
fn value_as_str_extracts_strings_only() {
    let s = Value::Str("text".to_string());
    let o = Value::Other;
    assert_eq!(s.as_str(), Some("text"));
    assert_eq!(o.as_str(), None);
}

#[test]
fn tree_walk_rewrites_root_then_sub_chapter() {
    let t = table_of(&[("who", "World")]);
    let book = Book {
        sections: vec![BookItem::Chapter(Chapter {
            content: "Hello ${{who}}".to_string(),
            sub_items: vec![
                BookItem::Chapter(Chapter {
                    content: "${{who}} again".to_string(),
                    sub_items: vec![],
                }),
                BookItem::Other,
            ],
        })],
    };
    let plugin = Plugin::new();
    let out = plugin.run(Some(&t), book);
    assert_eq!(out.sections.len(), 1);
    match &out.sections[0] {
        BookItem::Chapter(root) => {
            assert_eq!(root.content, "Hello World");
            assert_eq!(root.sub_items.len(), 2);
            match &root.sub_items[0] {
                BookItem::Chapter(sub) => {
                    assert_eq!(sub.content, "World again");
                    assert!(sub.sub_items.is_empty());
                }
                BookItem::Other => panic!("sub-chapter was not kept"),
            }
            assert!(matches!(root.sub_items[1], BookItem::Other));
        }
        BookItem::Other => panic!("root chapter was not kept"),
    }
}

#[test]
fn run_without_table_changes_nothing() {
    let book = Book {
        sections: vec![BookItem::Chapter(Chapter {
            content: "Hello ${{who}}".to_string(),
            sub_items: vec![],
        })],
    };
    let plugin = Plugin::new();
    let out = plugin.run(None, book);
    match &out.sections[0] {
        BookItem::Chapter(root) => assert_eq!(root.content, "Hello ${{who}}"),
        BookItem::Other => panic!("chapter was not kept"),
    }
}

#[test]
fn renderer_support_excludes_sentinel() {
    let plugin = Plugin::new();
    assert!(plugin.supports_renderer("html"));
    assert!(plugin.supports_renderer(""));
    assert!(!plugin.supports_renderer("not-supported"));
}

#[test]
fn plugin_name_is_stable() {
    let plugin = Plugin::new();
    assert_eq!(plugin.name(), "variable substitution preprocessor");
}
