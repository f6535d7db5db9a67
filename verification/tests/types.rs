use sdkgen::non_empty_string::NonEmptyString;
use sdkgen::text::{blank, join, split, strip_prefix, whitespace};
use sdkgen::types::{Member, Primitive, Type};

fn string() -> Type {
    Type::Primitive(Primitive::String)
}

fn record(name: &str, members: Vec<Member>) -> Type {
    Type::Record { name: name.to_string(), members }
}

fn member(name: &str, ty: Type) -> Member {
    Member { name: name.to_string(), description: None, ty, is_optional: false }
}

#[test]
fn name_is_there_for_unions_and_records_only() {
    assert_eq!(record("Pet", vec![]).name(), Some("Pet"));
    let union = Type::Union { name: "Kind".to_string(), cases: vec!["a".to_string()] };
    assert_eq!(union.name(), Some("Kind"));
    assert_eq!(string().name(), None);
    assert_eq!(Type::Array(Box::new(record("Pet", vec![]))).name(), None);
    let map = Type::Mapping { key: Box::new(string()), value: Box::new(record("Pet", vec![])) };
    assert_eq!(map.name(), None);
}

#[test]
fn set_name_renames_named_types_and_leaves_the_others() {
    let renamed = record("Unnamed", vec![member("a", string())]).set_name("Pet".to_string());
    assert_eq!(renamed, record("Pet", vec![member("a", string())]));
    let union = Type::Union { name: "Old".to_string(), cases: vec!["x".to_string()] };
    assert_eq!(
        union.set_name("New".to_string()),
        Type::Union { name: "New".to_string(), cases: vec!["x".to_string()] }
    );
    assert_eq!(string().set_name("Pet".to_string()), string());
    let array = Type::Array(Box::new(record("Inner", vec![])));
    assert_eq!(
        array.set_name("Pet".to_string()),
        Type::Array(Box::new(record("Inner", vec![])))
    );
}

#[test]
fn referenced_types_of_leaves_are_empty() {
    assert_eq!(string().referenced_types(), Vec::new());
    let union = Type::Union { name: "Kind".to_string(), cases: vec!["a".to_string(), "b".to_string()] };
    assert_eq!(union.referenced_types(), Vec::new());
    assert_eq!(record("Empty", vec![]).referenced_types(), Vec::new());
}

#[test]
fn referenced_types_come_in_pre_order() {
    let inner = record("Inner", vec![member("flag", Type::Primitive(Primitive::Boolean))]);
    let array = Type::Array(Box::new(inner.clone()));
    assert_eq!(
        array.referenced_types(),
        vec![inner.clone(), Type::Primitive(Primitive::Boolean)]
    );
    let map = Type::Mapping { key: Box::new(string()), value: Box::new(array.clone()) };
    assert_eq!(
        map.referenced_types(),
        vec![string(), array.clone(), inner.clone(), Type::Primitive(Primitive::Boolean)]
    );
    let outer = record(
        "Outer",
        vec![member("first", map.clone()), member("second", Type::Primitive(Primitive::Integer))],
    );
    assert_eq!(
        outer.referenced_types(),
        vec![
            map.clone(),
            string(),
            array.clone(),
            inner.clone(),
            Type::Primitive(Primitive::Boolean),
            Type::Primitive(Primitive::Integer),
        ]
    );
}

#[test]
fn clone_copies_every_level() {
    let ty = record(
        "Outer",
        vec![
            Member {
                name: "m".to_string(),
                description: Some("text".to_string()),
                ty: Type::Mapping {
                    key: Box::new(string()),
                    value: Box::new(Type::Union {
                        name: "U".to_string(),
                        cases: vec!["x".to_string(), "y".to_string()],
                    }),
                },
                is_optional: true,
            },
        ],
    );
    assert_eq!(ty.clone(), ty);
}

#[test]
fn non_empty_string_refuses_the_empty_string() {
    assert_eq!(NonEmptyString::try_from(String::new()), Err("String is empty."));
}

#[test]
fn non_empty_string_refuses_white_space() {
    assert_eq!(
        NonEmptyString::try_from(" \t\n\u{a0}\u{3000}".to_string()),
        Err("String consists only of whitespace characters.")
    );
}

#[test]
fn non_empty_string_keeps_its_text() {
    let text = NonEmptyString::try_from("  a description ".to_string()).unwrap();
    assert_eq!(text.as_str(), "  a description ");
    assert_eq!(text.to_string(), "  a description ");
    assert_eq!(text.clone(), text);
    assert_eq!(String::from(text), "  a description ");
}

#[test]
fn non_empty_string_takes_a_zero_width_space_for_text() {
    assert!(NonEmptyString::try_from("\u{200b}".to_string()).is_ok());
}

#[test]
fn white_space_is_what_trim_takes_away() {
    for code in 0u32..=0x10ffff {
        if let Some(c) = char::from_u32(code) {
            assert_eq!(whitespace(c), c.is_whitespace());
            assert_eq!(whitespace(c), c.to_string().trim().is_empty());
        }
    }
}

#[test]
fn blank_is_white_space_throughout() {
    assert!(blank(""));
    assert!(blank(" \t\r\n\u{2003}"));
    assert!(!blank(" a "));
    assert!(!blank("a"));
}

#[test]
fn split_keeps_empty_pieces() {
    assert_eq!(split("", '/'), vec!["".to_string()]);
    assert_eq!(split("/", '/'), vec!["".to_string(), "".to_string()]);
    assert_eq!(split("a/b", '/'), vec!["a".to_string(), "b".to_string()]);
    assert_eq!(
        split("/a//b/", '/'),
        vec!["".to_string(), "a".to_string(), "".to_string(), "b".to_string(), "".to_string()]
    );
    assert_eq!(split("héllo/wörld", '/'), vec!["héllo".to_string(), "wörld".to_string()]);
}

#[test]
fn join_undoes_split() {
    for text in ["", "/", "a", "/users/:id/posts/:postId", "a//b/"] {
        assert_eq!(join(&split(text, '/'), "/"), text);
    }
    assert_eq!(join(&Vec::new(), ", "), "");
    assert_eq!(join(&vec!["a".to_string()], ", "), "a");
    assert_eq!(join(&vec!["a".to_string(), "b".to_string(), "c".to_string()], ", "), "a, b, c");
}

#[test]
fn strip_prefix_takes_the_prefix_once() {
    assert_eq!(strip_prefix("abcabc", "abc"), Some("abc".to_string()));
    assert_eq!(strip_prefix("abc", "abc"), Some("".to_string()));
    assert_eq!(strip_prefix("abc", ""), Some("abc".to_string()));
    assert_eq!(strip_prefix("ab", "abc"), None);
    assert_eq!(strip_prefix("xbc", "abc"), None);
}
