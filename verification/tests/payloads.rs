use ritual::cpp_data::{CppFfiFunction, CppFfiItem, CppItem, CppPath, QtSlotWrapper};

fn cpp_path(parts: &[&str]) -> CppPath {
    CppPath::from_parts(parts.iter().map(|s| String::from(*s)).collect())
}

#[test]
fn path_equality_is_by_content() {
    assert!(cpp_path(&["ns", "a"]).same_path(&cpp_path(&["ns", "a"])));
    assert!(!cpp_path(&["ns", "a"]).same_path(&cpp_path(&["ns", "b"])));
    assert!(!cpp_path(&["ns", "a"]).same_path(&cpp_path(&["ns"])));
}

#[test]
fn namespace_and_type_declarations_compare() {
    let a = CppItem::Namespace { path: cpp_path(&["ns"]) };
    let b = CppItem::Namespace { path: cpp_path(&["ns"]) };
    let c = CppItem::TypeDeclaration { path: cpp_path(&["ns"]) };
    assert!(a.is_same(&b));
    assert!(!a.is_same(&c));
}

#[test]
fn enum_values_compare_value_too() {
    let a = CppItem::EnumValue { path: cpp_path(&["E", "X"]), value: 1 };
    let b = CppItem::EnumValue { path: cpp_path(&["E", "X"]), value: 1 };
    let c = CppItem::EnumValue { path: cpp_path(&["E", "X"]), value: 2 };
    assert!(a.is_same(&b));
    assert!(!a.is_same(&c));
}

#[test]
fn functions_compare_argument_lists() {
    let a = CppItem::Function {
        path: cpp_path(&["ns", "f"]),
        arguments: vec![cpp_path(&["int"]), cpp_path(&["QPoint"])],
    };
    let b = CppItem::Function {
        path: cpp_path(&["ns", "f"]),
        arguments: vec![cpp_path(&["int"]), cpp_path(&["QPoint"])],
    };
    let c = CppItem::Function { path: cpp_path(&["ns", "f"]), arguments: vec![cpp_path(&["int"])] };
    assert!(a.is_same(&b));
    assert!(!a.is_same(&c));
}

#[test]
fn class_relations_compare_all_fields() {
    let a = CppItem::ClassBase {
        derived: cpp_path(&["D"]),
        base: cpp_path(&["B"]),
        base_index: 0,
    };
    let b = CppItem::ClassBase {
        derived: cpp_path(&["D"]),
        base: cpp_path(&["B"]),
        base_index: 1,
    };
    assert!(!a.is_same(&b));
    let f1 = CppItem::ClassField { path: cpp_path(&["D", "x"]), field_type: cpp_path(&["int"]) };
    let f2 = CppItem::ClassField { path: cpp_path(&["D", "x"]), field_type: cpp_path(&["uint"]) };
    assert!(!f1.is_same(&f2));
    let s1 = CppItem::SignalArguments {
        class_path: cpp_path(&["D"]),
        arguments: vec![cpp_path(&["int"])],
    };
    let s2 = CppItem::SignalArguments {
        class_path: cpp_path(&["D"]),
        arguments: vec![cpp_path(&["int"])],
    };
    assert!(s1.is_same(&s2));
}

#[test]
fn ffi_payloads_compare_by_source() {
    let f = CppFfiItem::Function(CppFfiFunction {
        path: cpp_path(&["ns", "f"]),
        arguments: vec![cpp_path(&["int"])],
    });
    let same = CppFfiItem::Function(CppFfiFunction {
        path: cpp_path(&["ns", "f"]),
        arguments: vec![cpp_path(&["int"])],
    });
    let slot = CppFfiItem::QtSlotWrapper(QtSlotWrapper {
        class_path: cpp_path(&["ns", "f"]),
        arguments: vec![cpp_path(&["int"])],
    });
    assert!(f.has_same_source(&same));
    assert!(!f.has_same_source(&slot));
    assert!(slot.has_same_source(&slot.clone()));
}
