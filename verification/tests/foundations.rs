use nanograph::json::{json_strings, rewrite_json, Json, Members};
use nanograph::names::{NameMap, NameSet};
use nanograph::path::{
    common_ancestor, path_components, path_extension, path_has_parent, path_is_absolute, path_join,
    path_parent, path_strip_prefix,
};
use nanograph::plan::bindings::{
    binding_data_type, binding_field_columns, binding_property_array, binding_struct_array,
    flat_binding_col, split_flat_binding_col, BindingColumn, PropertySource, VariableSource,
};
use nanograph::plan::cache::CompiledQueryCache;
use nanograph::sort::{stable_sort, str_le};
use nanograph::strings::{ascii_lowercase, split_lines, strip_prefix, trim};
use nanograph::text::{blank, decimal_u64, hex_padded, parse_int, IntError};
use nanograph::types::{parse_vector_dim, PropType, ScalarType};
use std::path::Path;

fn s(text: &str) -> String {
    text.to_string()
}

#[test]
fn numbers_are_rendered_and_read() {
    assert_eq!(decimal_u64(0), "0");
    assert_eq!(decimal_u64(u64::MAX), "18446744073709551615");
    assert_eq!(hex_padded(0xab, 8), "000000ab");
    assert_eq!(parse_int("+12", 0, 255), Ok(12));
    assert_eq!(parse_int("-12", -128, 127), Ok(-12));
    assert_eq!(parse_int("", 0, 255), Err(IntError::Empty));
    assert_eq!(parse_int("-1", 0, 255), Err(IntError::InvalidDigit));
    assert_eq!(parse_int("256", 0, 255), Err(IntError::TooLarge));
    assert_eq!(parse_int("-129", -128, 127), Err(IntError::TooSmall));
    for text in vec!["", "+", "-", "12", "+12", "-12", "1x", "99999999999"] {
        assert_eq!(
            parse_int(text, i32::MIN as i128, i32::MAX as i128).map_err(|e| s(e.message())),
            text.parse::<i32>().map(|n| n as i128).map_err(|e| e.to_string())
        );
    }
}

#[test]
fn texts_are_trimmed_and_split() {
    assert_eq!(trim(" \t a b \u{3000}\n"), "a b");
    assert!(blank(" \u{2003}"));
    assert_eq!(strip_prefix("hf:x", "hf:").as_deref(), Some("x"));
    assert_eq!(strip_prefix("hf", "hf:"), None);
    assert_eq!(ascii_lowercase("ABC\u{c9}"), "abc\u{c9}");
    for text in vec!["", "a", "a\n", "a\r\nb", "\n\n", "a\rb\n"] {
        let lines: Vec<String> = text.lines().map(str::to_string).collect();
        assert_eq!(split_lines(text), lines);
    }
}

#[test]
fn sorting_is_stable_and_ordered() {
    let sorted = stable_sort(vec![s("b"), s("a"), s("ab"), s("")]);
    assert_eq!(sorted, vec![s(""), s("a"), s("ab"), s("b")]);
    assert!(str_le("a", "a\u{0}"));
    assert!(!str_le("b", "a"));
    assert_eq!(stable_sort(sorted.clone()), sorted);
}

#[test]
fn names_map_to_their_last_value() {
    let mut m: NameMap<String> = NameMap::new();
    m.insert(s("a"), s("1"));
    m.insert(s("b"), s("2"));
    m.insert(s("a"), s("3"));
    assert_eq!(m.len(), 2);
    assert_eq!(m.get("a").map(String::as_str), Some("3"));
    assert!(m.get("c").is_none());
    let mut set = NameSet::new();
    set.insert(s("x"));
    set.insert(s("x"));
    assert!(set.contains("x"));
    assert!(!set.contains("y"));
}

#[test]
fn paths_are_taken_apart_as_std_does() {
    let paths = vec!["/a/b.c", "a/./b/", "/", "", "../x.tar.gz", ".env", "/a//b", "a/.."];
    for p in &paths {
        assert_eq!(path_is_absolute(p), Path::new(p).is_absolute());
        let components: Vec<String> = Path::new(p)
            .components()
            .map(|c| c.as_os_str().to_string_lossy().into_owned())
            .collect();
        assert_eq!(path_components(p), components);
        assert_eq!(path_has_parent(p), Path::new(p).parent().is_some());
        assert_eq!(
            path_parent(p),
            Path::new(p).parent().map(|q| q.to_string_lossy().into_owned())
        );
        assert_eq!(
            path_extension(p),
            Path::new(p).extension().map(|e| e.to_string_lossy().into_owned())
        );
        for q in &paths {
            assert_eq!(path_join(p, q), Path::new(p).join(q).to_string_lossy());
            assert_eq!(
                path_strip_prefix(p, q),
                Path::new(p)
                    .strip_prefix(q)
                    .ok()
                    .map(|r| r.to_string_lossy().into_owned())
            );
        }
    }
    assert_eq!(common_ancestor("/tmp/a/x", "/tmp/a/y").as_deref(), Some("/tmp/a"));
    assert_eq!(common_ancestor("a", "b"), None);
}

#[test]
fn json_texts_are_rewritten_compactly() {
    assert_eq!(rewrite_json("{ \"b\": 1, \"a\": [ 1.50 ] }").unwrap(), "{\"a\":[1.5],\"b\":1}");
    assert!(rewrite_json("{").unwrap_err().contains("EOF"));
}

#[test]
fn json_members_are_found_and_replaced() {
    let mut m = Members::new();
    m.push("a", Json::Null);
    m.set("b", Json::Bool(true));
    m.set("a", Json::Number(s("7")));
    let o = m.object();
    assert_eq!(o.at("a").as_u64(), Some(7));
    assert!(o.at("b").is_true());
    assert!(o.at("c").is_null());
    assert!(o.is_object());
    let list = json_strings(&vec![s("x")]);
    assert_eq!(list.as_array().map(|v| v.len()), Some(1));
    assert_eq!(list.as_array().unwrap()[0].as_str().map(String::as_str), Some("x"));
    assert_eq!(Json::Number(s("1.5")).as_u64(), None);
    assert_eq!(Json::Number(s("-1")).as_u64(), None);
    assert_eq!(o.copy().at("a").number_or_zero(), 7);
}

fn column(name: &str, fields: Option<Vec<&str>>) -> BindingColumn {
    BindingColumn {
        name: s(name),
        fields: fields.map(|v| v.iter().map(|f| s(f)).collect()),
    }
}

#[test]
fn flat_names_are_put_together_and_split() {
    assert_eq!(flat_binding_col("p", "name"), "p::name");
    assert_eq!(split_flat_binding_col("p::name"), Some((s("p"), s("name"))));
    assert_eq!(split_flat_binding_col("p::a::b"), Some((s("p"), s("a::b"))));
    assert_eq!(split_flat_binding_col("plain"), None);
}

#[test]
fn bindings_are_found_flat_or_as_structs() {
    let flat = vec![column("p::id", None), column("q::id", None), column("p::name", None)];
    assert_eq!(
        binding_field_columns(&flat, "p"),
        vec![(s("id"), 0), (s("name"), 2)]
    );
    assert!(matches!(
        binding_property_array(&flat, "p", "name").unwrap(),
        PropertySource::Column(2)
    ));
    assert!(matches!(
        binding_struct_array(&flat, "p").unwrap(),
        VariableSource::Columns(v) if v.len() == 2
    ));
    let nested = vec![column("p", Some(vec!["id", "name"])), column("x", None)];
    assert!(matches!(
        binding_property_array(&nested, "p", "name").unwrap(),
        PropertySource::StructField { column: 0, field: 1 }
    ));
    assert!(matches!(
        binding_data_type(&nested, "p").unwrap(),
        VariableSource::Column(0)
    ));
    assert!(binding_property_array(&nested, "p", "age")
        .unwrap_err()
        .to_string()
        .contains("struct p has no field age"));
    assert!(binding_property_array(&nested, "x", "age")
        .unwrap_err()
        .to_string()
        .contains("column x is not a struct"));
    assert!(binding_property_array(&nested, "y", "age")
        .unwrap_err()
        .to_string()
        .contains("column y::age not found"));
    assert!(binding_struct_array(&nested, "y")
        .unwrap_err()
        .to_string()
        .contains("variable y not found"));
}

#[test]
fn compiled_queries_are_kept() {
    let mut cache: CompiledQueryCache<u32> = CompiledQueryCache::new();
    let key = CompiledQueryCache::<u32>::fingerprint("match { $p: Person }");
    assert!(cache.get(key).is_none());
    cache.insert(key, 5);
    assert_eq!(cache.get(key), Some(&5));
    assert_eq!(cache.len(), 1);
    cache.clear();
    assert_eq!(cache.len(), 0);
    assert_ne!(
        CompiledQueryCache::<u32>::fingerprint("a"),
        CompiledQueryCache::<u32>::fingerprint("b")
    );
}

#[test]
fn scalar_types_have_names() {
    assert_eq!(ScalarType::from_str_name("String"), Some(ScalarType::String));
    assert_eq!(ScalarType::from_str_name("Vector(4)"), Some(ScalarType::Vector(4)));
    assert_eq!(ScalarType::from_str_name("Vector(0)"), None);
    assert_eq!(ScalarType::from_str_name("Blob"), None);
    assert_eq!(parse_vector_dim("Vector(2147483647)"), Some(2147483647));
    assert_eq!(parse_vector_dim("Vector(2147483648)"), None);
    let e = PropType::enum_type(vec![s("b"), s("a")], true);
    assert!(e.is_enum());
    assert_eq!(e.enum_values, Some(vec![s("a"), s("b")]));
}
