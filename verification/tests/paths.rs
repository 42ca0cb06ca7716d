use ritual::rust_type::RustPath;
use ritual::string_utils::{ends_with_digit, str_eq, to_snake_case, u64_to_dec_string};

fn path(text: &str) -> RustPath {
    RustPath::from_str_unchecked(text)
}

#[test]
fn from_parts_keeps_parts() {
    let p = RustPath::from_parts(vec![String::from("crate_a"), String::from("module_b")]);
    assert_eq!(p.parts, vec![String::from("crate_a"), String::from("module_b")]);
}

#[test]
fn from_str_splits_on_double_colon() {
    let p = path("aaa::bbb::ccc");
    assert_eq!(p.parts, vec![String::from("aaa"), String::from("bbb"), String::from("ccc")]);
}

#[test]
fn crate_name_of_long_path() {
    let p = path("qt_core::flags::Flags");
    assert_eq!(p.crate_name(), Some("qt_core"));
}

#[test]
fn crate_name_of_builtin_is_absent() {
    let p = path("i32");
    assert_eq!(p.crate_name(), None);
}

#[test]
fn last_returns_final_segment() {
    assert_eq!(path("a::b::c").last(), "c");
}

#[test]
fn join_appends_segment() {
    let p = path("a::b").join("c");
    assert_eq!(p, path("a::b::c"));
}

#[test]
fn full_name_inside_current_crate() {
    let p = path("my_crate::sub::item");
    assert_eq!(p.full_name(Some("my_crate")), String::from("crate::sub::item"));
}

#[test]
fn full_name_outside_current_crate() {
    let p = path("other::sub::item");
    assert_eq!(p.full_name(Some("my_crate")), String::from("::other::sub::item"));
}

#[test]
fn full_name_without_context_is_qualified() {
    let p = path("other::item");
    assert_eq!(p.full_name(None), String::from("::other::item"));
}

#[test]
fn full_name_of_builtin_is_bare() {
    assert_eq!(path("i32").full_name(Some("my_crate")), String::from("i32"));
}

#[test]
fn includes_is_strict_nesting() {
    let a = path("a::b");
    let inner = path("a::b::c::d");
    assert!(a.includes(&inner));
    assert!(!a.includes(&a));
    assert!(!inner.includes(&a));
    assert!(!path("a::x").includes(&inner));
}

#[test]
fn includes_directly_is_one_level() {
    let a = path("a::b");
    assert!(a.includes_directly(&path("a::b::c")));
    assert!(!a.includes_directly(&path("a::b::c::d")));
    assert!(path("a::b::c").is_child_of(&a));
}

#[test]
fn parent_drops_last_segment() {
    assert_eq!(path("a::b::c").parent(), Some(path("a::b")));
    assert_eq!(path("i32").parent(), None);
}

#[test]
fn snake_case_splits_camel_words() {
    assert_eq!(to_snake_case("QPointF"), String::from("q_point_f"));
    assert_eq!(to_snake_case("already_snake"), String::from("already_snake"));
    assert_eq!(to_snake_case(""), String::from(""));
}

#[test]
fn decimal_rendering_is_plain() {
    assert_eq!(u64_to_dec_string(0), String::from("0"));
    assert_eq!(u64_to_dec_string(7), String::from("7"));
    assert_eq!(u64_to_dec_string(1203), String::from("1203"));
}

#[test]
fn ends_with_digit_checks_last_char() {
    assert!(ends_with_digit("abc9"));
    assert!(!ends_with_digit("abc"));
    assert!(!ends_with_digit(""));
}

#[test]
fn single_colons_do_not_split() {
    let p = path("a:b");
    assert_eq!(p.parts, vec![String::from("a:b")]);
}

#[test]
fn snake_case_separates_every_capital() {
    assert_eq!(to_snake_case("ABC"), String::from("a_b_c"));
    assert_eq!(to_snake_case("Point3D"), String::from("point3_d"));
}

#[test]
fn str_eq_compares_contents() {
    assert!(str_eq("abc", "abc"));
    assert!(!str_eq("abc", "abd"));
    assert!(!str_eq("abc", "ab"));
}
