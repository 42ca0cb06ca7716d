use ritual::cpp_checks::LibraryTarget;
use ritual::cpp_data::{CppFfiFunction, CppFfiItem, CppItem, CppPath};
use ritual::database::{Database, DatabaseError, RustDatabaseItem, RustItemKind};
use ritual::rust_type::RustPath;

fn cpp_path(parts: &[&str]) -> CppPath {
    CppPath::from_parts(parts.iter().map(|s| String::from(*s)).collect())
}

fn rust_path(text: &str) -> RustPath {
    RustPath::from_str_unchecked(text)
}

fn native_fn(parts: &[&str]) -> CppItem {
    CppItem::Function { path: cpp_path(parts), arguments: vec![cpp_path(&["int"])] }
}

fn ffi_fn(parts: &[&str]) -> CppFfiItem {
    CppFfiItem::Function(CppFfiFunction {
        path: cpp_path(parts),
        arguments: vec![cpp_path(&["int"])],
    })
}

fn env(target: &str, version: Option<&str>) -> LibraryTarget {
    LibraryTarget {
        target: String::from(target),
        cpp_library_version: version.map(String::from),
    }
}

fn surface(kind: RustItemKind, text: &str) -> RustDatabaseItem {
    RustDatabaseItem { kind, path: rust_path(text) }
}

#[test]
fn empty_store_is_fresh() {
    let db = Database::empty("pkg");
    assert_eq!(db.crate_name(), "pkg");
    assert_eq!(db.crate_version(), "0.0.0");
    assert!(db.is_modified());
    assert_eq!(db.cpp_items().len(), 0);
    assert_eq!(db.ffi_items().len(), 0);
    assert_eq!(db.rust_items().len(), 0);
    assert_eq!(db.environments().len(), 0);
}

#[test]
fn identifiers_grow_within_a_collection() {
    let mut db = Database::empty("pkg");
    let a = db.add_cpp_item(None, native_fn(&["ns", "a"])).unwrap();
    let b = db.add_cpp_item(None, native_fn(&["ns", "b"])).unwrap();
    assert!(a.0 < b.0);
    let ids = db.cpp_item_ids();
    assert_eq!(ids, vec![a, b]);
}

#[test]
fn identifiers_survive_clears() {
    let mut db = Database::empty("pkg");
    let a = db.add_cpp_item(None, native_fn(&["ns", "a"])).unwrap();
    db.clear();
    assert_eq!(db.cpp_items().len(), 0);
    let b = db.add_cpp_item(None, native_fn(&["ns", "a"])).unwrap();
    assert!(b.0 > a.0);
}

#[test]
fn identifiers_are_unique_across_both_collections() {
    let mut db = Database::empty("pkg");
    let a = db.add_cpp_item(None, native_fn(&["ns", "a"])).unwrap();
    assert!(db.add_ffi_item(ffi_fn(&["ns", "a"])));
    let b = db.add_cpp_item(None, native_fn(&["ns", "b"])).unwrap();
    let ffi_id = db.ffi_items()[0].id;
    assert!(a.0 < ffi_id.0);
    assert!(ffi_id.0 < b.0);
}

#[test]
fn duplicate_native_item_is_ignored() {
    let mut db = Database::empty("pkg");
    let first = db.add_cpp_item(None, native_fn(&["ns", "a"]));
    assert!(first.is_some());
    let second = db.add_cpp_item(None, native_fn(&["ns", "a"]));
    assert!(second.is_none());
    assert_eq!(db.cpp_items().len(), 1);
    let counters = db.report_counters();
    assert_eq!(counters.items_added, 1);
    assert_eq!(counters.items_ignored, 1);
    let drained = db.report_counters();
    assert_eq!(drained.items_added, 0);
    assert_eq!(drained.items_ignored, 0);
}

#[test]
fn duplicate_ffi_item_is_ignored() {
    let mut db = Database::empty("pkg");
    assert!(db.add_ffi_item(ffi_fn(&["ns", "f"])));
    assert!(!db.add_ffi_item(ffi_fn(&["ns", "f"])));
    assert_eq!(db.ffi_items().len(), 1);
    assert!(db.add_ffi_item(ffi_fn(&["ns", "g"])));
    assert_eq!(db.ffi_items().len(), 2);
}

#[test]
fn cpp_item_lookup_by_identifier() {
    let mut db = Database::empty("pkg");
    let a = db.add_cpp_item(None, native_fn(&["ns", "a"])).unwrap();
    let b = db.add_cpp_item(Some(0), native_fn(&["ns", "b"])).unwrap();
    let found = db.cpp_item(b).unwrap();
    assert_eq!(found.id, b);
    assert_eq!(found.source_ffi_item, Some(0));
    assert_eq!(db.cpp_item(a).unwrap().id, a);
    let missing = ritual::database::CppItemId::from_u32(999);
    assert_eq!(db.cpp_item(missing).err(), Some(DatabaseError::NotFound));
}

#[test]
fn root_surface_item_needs_matching_package() {
    let mut db = Database::empty("pkg");
    let ok = db.add_rust_item(surface(RustItemKind::CrateRoot, "pkg"));
    assert_eq!(ok, Ok(()));
    let mut other = Database::empty("pkg");
    let bad = other.add_rust_item(surface(RustItemKind::CrateRoot, "not_pkg"));
    assert_eq!(bad, Err(DatabaseError::PackageMismatch));
}

#[test]
fn surface_item_needs_reachable_ancestors() {
    let mut db = Database::empty("pkg");
    db.add_rust_item(surface(RustItemKind::CrateRoot, "pkg")).unwrap();
    db.add_rust_item(surface(RustItemKind::Module, "pkg::sub")).unwrap();
    let deep = db.add_rust_item(surface(RustItemKind::Function, "pkg::sub::item"));
    assert_eq!(deep, Ok(()));
    let unreachable = db.add_rust_item(surface(RustItemKind::Function, "pkg::other::item"));
    assert_eq!(unreachable, Err(DatabaseError::PathError));
    let wrong_pkg = db.add_rust_item(surface(RustItemKind::Module, "elsewhere::sub"));
    assert_eq!(wrong_pkg, Err(DatabaseError::PackageMismatch));
}

#[test]
fn duplicate_surface_item_is_ignored() {
    let mut db = Database::empty("pkg");
    db.add_rust_item(surface(RustItemKind::CrateRoot, "pkg")).unwrap();
    db.add_rust_item(surface(RustItemKind::Module, "pkg::sub")).unwrap();
    db.report_counters();
    assert_eq!(db.add_rust_item(surface(RustItemKind::Module, "pkg::sub")), Ok(()));
    assert_eq!(db.rust_items().len(), 2);
    let counters = db.report_counters();
    assert_eq!(counters.items_added, 0);
    assert_eq!(counters.items_ignored, 1);
}

#[test]
fn find_and_children_of_surface_items() {
    let mut db = Database::empty("pkg");
    db.add_rust_item(surface(RustItemKind::CrateRoot, "pkg")).unwrap();
    db.add_rust_item(surface(RustItemKind::Module, "pkg::sub")).unwrap();
    db.add_rust_item(surface(RustItemKind::Function, "pkg::sub::f")).unwrap();
    db.add_rust_item(surface(RustItemKind::Struct, "pkg::sub::s")).unwrap();
    assert!(db.find_rust_item(&rust_path("pkg::sub")).is_some());
    assert!(db.find_rust_item(&rust_path("pkg::nope")).is_none());
    let children = db.rust_children(&rust_path("pkg::sub"));
    assert_eq!(children.len(), 2);
    assert_eq!(db.rust_items()[children[0]].path, rust_path("pkg::sub::f"));
    assert_eq!(db.rust_items()[children[1]].path, rust_path("pkg::sub::s"));
}

#[test]
fn unique_path_is_returned_unchanged_when_free() {
    let mut db = Database::empty("pkg");
    db.add_rust_item(surface(RustItemKind::CrateRoot, "pkg")).unwrap();
    let free = db.make_unique_rust_path(&rust_path("pkg::item"));
    assert_eq!(free, rust_path("pkg::item"));
}

#[test]
fn unique_path_probes_numeric_suffixes() {
    let mut db = Database::empty("pkg");
    db.add_rust_item(surface(RustItemKind::CrateRoot, "pkg")).unwrap();
    db.add_rust_item(surface(RustItemKind::Module, "pkg::item")).unwrap();
    db.add_rust_item(surface(RustItemKind::Module, "pkg::item2")).unwrap();
    let fresh = db.make_unique_rust_path(&rust_path("pkg::item"));
    assert_eq!(fresh, rust_path("pkg::item3"));
}

#[test]
fn unique_path_separates_suffix_after_digit() {
    let mut db = Database::empty("pkg");
    db.add_rust_item(surface(RustItemKind::CrateRoot, "pkg")).unwrap();
    db.add_rust_item(surface(RustItemKind::Module, "pkg::item9")).unwrap();
    db.add_rust_item(surface(RustItemKind::Module, "pkg::item9_2")).unwrap();
    let fresh = db.make_unique_rust_path(&rust_path("pkg::item9"));
    assert_eq!(fresh, rust_path("pkg::item9_3"));
}

#[test]
fn unique_path_differs_each_round() {
    let mut db = Database::empty("pkg");
    db.add_rust_item(surface(RustItemKind::CrateRoot, "pkg")).unwrap();
    db.add_rust_item(surface(RustItemKind::Module, "pkg::m")).unwrap();
    let first = db.make_unique_rust_path(&rust_path("pkg::m"));
    db.add_rust_item(RustDatabaseItem { kind: RustItemKind::Module, path: first.clone() })
        .unwrap();
    let second = db.make_unique_rust_path(&rust_path("pkg::m"));
    assert_ne!(second, first);
    assert_ne!(second, rust_path("pkg::m"));
}

#[test]
fn environments_form_a_set() {
    let mut db = Database::empty("pkg");
    db.add_environment(env("linux", Some("5.9")));
    db.add_environment(env("linux", Some("5.9")));
    db.add_environment(env("windows", None));
    assert_eq!(db.environments().len(), 2);
}

#[test]
fn version_change_marks_modified() {
    let mut db = Database::empty("pkg");
    db.set_saved();
    db.set_crate_version(String::from("0.0.0"));
    assert!(!db.is_modified());
    db.set_crate_version(String::from("1.2.3"));
    assert!(db.is_modified());
    assert_eq!(db.crate_version(), "1.2.3");
}

#[test]
fn saved_flag_clears_and_returns() {
    let mut db = Database::empty("pkg");
    db.set_saved();
    assert!(!db.is_modified());
    db.add_cpp_item(None, native_fn(&["ns", "a"]));
    assert!(db.is_modified());
}

#[test]
fn clear_ffi_keeps_parser_sourced_items() {
    let mut db = Database::empty("pkg");
    db.add_cpp_item(None, native_fn(&["ns", "parsed"]));
    db.add_ffi_item(ffi_fn(&["ns", "wrapped"]));
    db.add_cpp_item(Some(0), native_fn(&["ns", "derived"]));
    assert_eq!(db.cpp_items().len(), 2);
    db.clear_ffi();
    assert_eq!(db.ffi_items().len(), 0);
    assert_eq!(db.cpp_items().len(), 1);
    assert_eq!(db.cpp_items()[0].source_ffi_item, None);
}

#[test]
fn clear_rust_info_empties_surface_items() {
    let mut db = Database::empty("pkg");
    db.add_rust_item(surface(RustItemKind::CrateRoot, "pkg")).unwrap();
    db.clear_rust_info();
    assert_eq!(db.rust_items().len(), 0);
}

#[test]
fn checker_results_attach_to_items() {
    let mut db = Database::empty("pkg");
    db.add_ffi_item(ffi_fn(&["ns", "f"]));
    let id = db.ffi_items()[0].id;
    assert!(db.record_check(id, env("linux", None), None).is_ok());
    assert!(
        db.record_check(id, env("win", None), Some(String::from("link error"))).is_ok()
    );
    assert!(db.ffi_item(id).unwrap().checks.any_passed());
    db.clear_cpp_checks();
    let item = db.ffi_item(id).unwrap();
    assert_eq!(item.checks.entries().len(), 0);
    assert!(!item.checks.any_passed());
    let missing = ritual::database::FfiItemId::from_u32(777);
    assert_eq!(db.record_check(missing, env("linux", None), None).err(),
        Some(DatabaseError::NotFound));
}

#[test]
fn processed_flag_is_settable() {
    let mut db = Database::empty("pkg");
    db.add_ffi_item(ffi_fn(&["ns", "f"]));
    let id = db.ffi_items()[0].id;
    assert!(!db.ffi_item(id).unwrap().is_rust_processed);
    assert_eq!(db.set_rust_processed(id), Ok(()));
    assert!(db.ffi_item(id).unwrap().is_rust_processed);
}

#[test]
fn ffi_item_paths_and_kinds() {
    let mut db = Database::empty("pkg");
    db.add_ffi_item(ffi_fn(&["ns", "f"]));
    let item = &db.ffi_items()[0];
    assert_eq!(*item.path(), cpp_path(&["ns", "f"]));
    assert!(!item.is_source_item());
}

#[test]
fn derivation_pipeline_round_trip() {
    let mut db = Database::empty("pkg");
    let native = db.add_cpp_item(None, native_fn(&["ns", "a"]));
    assert!(native.is_some());
    assert!(db.add_ffi_item(ffi_fn(&["ns", "a"])));
    let f1 = db.ffi_items()[0].id;
    assert!(db.record_check(f1, env("envX", None), None).is_ok());
    assert!(
        db.record_check(f1, env("envY", None), Some(String::from("link error"))).is_ok()
    );
    assert!(db.ffi_item(f1).unwrap().checks.any_passed());
    db.add_rust_item(surface(RustItemKind::CrateRoot, "pkg")).unwrap();
    db.add_rust_item(surface(RustItemKind::Module, "pkg::m")).unwrap();
    db.add_rust_item(surface(RustItemKind::Function, "pkg::m::a")).unwrap();
    db.report_counters();
    assert!(!db.add_ffi_item(ffi_fn(&["ns", "a"])));
    assert_eq!(db.ffi_items().len(), 1);
    let counters = db.report_counters();
    assert_eq!(counters.items_ignored, 1);
}

#[test]
fn data_round_trips_through_validation() {
    let mut db = Database::empty("pkg");
    db.add_cpp_item(None, native_fn(&["ns", "a"]));
    db.add_ffi_item(ffi_fn(&["ns", "b"]));
    let cpp_items = db.cpp_items().clone();
    let ffi_items = db.ffi_items().clone();
    let rust_items = db.rust_items().clone();
    let targets = db.environments().clone();
    let data = ritual::database::Data::try_new(
        String::from("pkg"),
        String::from("0.0.0"),
        cpp_items,
        ffi_items,
        rust_items,
        targets,
        3,
    );
    assert!(data.is_some());
    let reloaded = Database::new(data.unwrap());
    assert!(!reloaded.is_modified());
    assert_eq!(reloaded.cpp_items().len(), 1);
    assert_eq!(reloaded.ffi_items().len(), 1);
    let snapshot = reloaded.data();
    assert_eq!(snapshot.crate_name(), "pkg");
    assert_eq!(snapshot.crate_version(), "0.0.0");
    assert_eq!(snapshot.next_id(), 3);
    assert_eq!(snapshot.cpp_items().len(), 1);
    assert_eq!(snapshot.ffi_items().len(), 1);
    assert_eq!(snapshot.rust_items().len(), 0);
    assert_eq!(snapshot.targets().len(), 0);
}

#[test]
fn validation_rejects_disordered_identifiers() {
    let bad = ritual::database::Data::try_new(
        String::from("pkg"),
        String::from("0.0.0"),
        vec![
            ritual::database::CppDatabaseItem {
                id: ritual::database::CppItemId::from_u32(5),
                item: native_fn(&["ns", "a"]),
                source_ffi_item: None,
            },
            ritual::database::CppDatabaseItem {
                id: ritual::database::CppItemId::from_u32(5),
                item: native_fn(&["ns", "b"]),
                source_ffi_item: None,
            },
        ],
        vec![],
        vec![],
        vec![],
        10,
    );
    assert!(bad.is_none());
}
