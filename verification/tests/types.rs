use ritual::rust_type::{
    ConversionError, RustCommonType, RustFinalType, RustPath, RustPointerLikeTypeKind,
    RustToFfiTypeConversion, RustType,
};

fn path(text: &str) -> RustPath {
    RustPath::from_str_unchecked(text)
}

fn named(text: &str) -> RustType {
    RustType::Common(RustCommonType { path: path(text), generic_arguments: None })
}

fn named_with_args(text: &str, args: Vec<RustType>) -> RustType {
    RustType::Common(RustCommonType { path: path(text), generic_arguments: Some(args) })
}

fn pointer(is_const: bool, target: RustType) -> RustType {
    RustType::PointerLike {
        kind: RustPointerLikeTypeKind::Pointer,
        is_const,
        target: Box::new(target),
    }
}

fn borrow(target: RustType) -> RustType {
    RustType::PointerLike {
        kind: RustPointerLikeTypeKind::Reference { lifetime: None },
        is_const: true,
        target: Box::new(target),
    }
}

#[test]
fn kind_predicates() {
    assert!(RustPointerLikeTypeKind::Pointer.is_pointer());
    assert!(!RustPointerLikeTypeKind::Pointer.is_ref());
    let r = RustPointerLikeTypeKind::Reference { lifetime: None };
    assert!(r.is_ref());
    assert!(!r.is_pointer());
}

#[test]
fn caption_of_unit_and_fn() {
    let ctx = path("my_crate");
    assert_eq!(RustType::Unit.caption(&ctx), String::from("unit"));
    let f = RustType::FunctionPointer {
        return_type: Box::new(RustType::Unit),
        arguments: vec![named("i32")],
    };
    assert_eq!(f.caption(&ctx), String::from("fn"));
}

#[test]
fn caption_of_pointer_appends_markers() {
    let ctx = path("my_crate");
    let t = pointer(true, RustType::Unit);
    assert_eq!(t.caption(&ctx), String::from("unit_const_ptr"));
    let b = borrow(named("i32"));
    assert_eq!(b.caption(&ctx), String::from("i32_const_ref"));
}

#[test]
fn caption_strips_context_prefix() {
    let ctx = path("qt_core::ops");
    let t = named("qt_core::QPointF");
    assert_eq!(t.caption(&ctx), String::from("q_point_f"));
}

#[test]
fn caption_of_std_uses_last_segment() {
    let ctx = path("my_crate");
    let t = named("std::os::raw::c_int");
    assert_eq!(t.caption(&ctx), String::from("c_int"));
}

#[test]
fn caption_collapses_repeated_segments() {
    let ctx = path("other");
    let t = named("flags::Flags");
    assert_eq!(t.caption(&ctx), String::from("flags"));
}

#[test]
fn caption_falls_back_to_bare_last_segment() {
    let ctx = path("qt_core::QPointF");
    let t = named("qt_core::QPointF");
    assert_eq!(t.caption(&ctx), String::from("QPointF"));
}

#[test]
fn caption_appends_generic_arguments() {
    let ctx = path("qt_core");
    let t = named_with_args("qt_core::QFlags", vec![named("qt_core::AlignmentFlag")]);
    assert_eq!(t.caption(&ctx), String::from("q_flags_alignment_flag"));
}

#[test]
fn caption_is_deterministic() {
    let ctx = path("qt_core::ops");
    let t = named_with_args("qt_core::QFlags", vec![pointer(false, named("QPoint"))]);
    assert_eq!(t.caption(&ctx), t.caption(&ctx));
}

#[test]
fn unsafety_of_raw_pointer_at_any_depth() {
    assert!(pointer(false, RustType::Unit).is_unsafe_argument());
    let nested = named_with_args("qt_core::QFlags", vec![pointer(true, named("i32"))]);
    assert!(nested.is_unsafe_argument());
    let in_fn = RustType::FunctionPointer {
        return_type: Box::new(RustType::Unit),
        arguments: vec![named("i32"), pointer(false, named("u8"))],
    };
    assert!(in_fn.is_unsafe_argument());
    let borrow_over_ptr = borrow(pointer(false, named("i32")));
    assert!(borrow_over_ptr.is_unsafe_argument());
}

#[test]
fn safety_of_plain_types() {
    assert!(!RustType::Unit.is_unsafe_argument());
    assert!(!named("i32").is_unsafe_argument());
    assert!(!borrow(named("i32")).is_unsafe_argument());
    let safe_generic = named_with_args("qt_core::QFlags", vec![named("i32")]);
    assert!(!safe_generic.is_unsafe_argument());
}

#[test]
fn lifetime_accessors() {
    let t = RustType::PointerLike {
        kind: RustPointerLikeTypeKind::Reference { lifetime: None },
        is_const: false,
        target: Box::new(named("i32")),
    };
    assert_eq!(t.lifetime(), None);
    let with = t.with_lifetime(String::from("a"));
    assert_eq!(with.lifetime(), Some("a"));
    assert!(with.is_ref());
    let p = pointer(false, named("i32"));
    assert_eq!(p.with_lifetime(String::from("a")).lifetime(), None);
}

#[test]
fn const_accessors() {
    let mut t = pointer(true, named("i32"));
    assert_eq!(t.is_const(), Ok(true));
    assert_eq!(t.is_const_pointer_like(), Ok(true));
    assert_eq!(t.set_const(false), Ok(()));
    assert_eq!(t.is_const(), Ok(false));
    assert_eq!(named("i32").is_const(), Err(ConversionError::NotPointerLike));
    let mut u = RustType::Unit;
    assert_eq!(u.set_const(true), Err(ConversionError::NotPointerLike));
    assert_eq!(u, RustType::Unit);
}

#[test]
fn pointer_like_to_target_strips_one_level() {
    let t = pointer(false, named("i32"));
    assert_eq!(t.pointer_like_to_target(), Ok(named("i32")));
    assert_eq!(named("i32").pointer_like_to_target(), Err(ConversionError::NotPointerLike));
}

#[test]
fn as_common_views_named_types() {
    let t = named("qt_core::QPoint");
    assert!(t.as_common().is_ok());
    assert_eq!(RustType::Unit.as_common(), Err(ConversionError::NotCommon));
}

#[test]
fn ptr_to_ref_builds_borrow() {
    let t = pointer(false, named("i32"));
    let r = t.ptr_to_ref(true).unwrap();
    assert_eq!(
        r,
        RustType::PointerLike {
            kind: RustPointerLikeTypeKind::Reference { lifetime: None },
            is_const: true,
            target: Box::new(named("i32")),
        }
    );
    assert_eq!(borrow(named("i32")).ptr_to_ref(true), Err(ConversionError::NotPointer));
    assert_eq!(named("i32").ptr_to_ref(true), Err(ConversionError::NotPointerLike));
}

#[test]
fn final_type_ptr_to_ref_keeps_ffi_side() {
    let triple = RustFinalType {
        ffi_type: pointer(true, named("i32")),
        api_type: pointer(true, named("i32")),
        api_to_ffi_conversion: RustToFfiTypeConversion::Identity,
    };
    let converted = triple.ptr_to_ref(true).unwrap();
    assert_eq!(converted.ffi_type, pointer(true, named("i32")));
    assert_eq!(converted.api_type, borrow(named("i32")));
    assert_eq!(converted.api_to_ffi_conversion, RustToFfiTypeConversion::RefToPtr);
}

#[test]
fn final_type_ptr_to_value_strips_pointer() {
    let triple = RustFinalType {
        ffi_type: pointer(false, named("QPoint")),
        api_type: pointer(false, named("QPoint")),
        api_to_ffi_conversion: RustToFfiTypeConversion::Identity,
    };
    let converted = triple.ptr_to_value().unwrap();
    assert_eq!(converted.ffi_type, pointer(false, named("QPoint")));
    assert_eq!(converted.api_type, named("QPoint"));
    assert_eq!(converted.api_to_ffi_conversion, RustToFfiTypeConversion::ValueToPtr);
}

#[test]
fn conversion_is_not_reapplied() {
    let triple = RustFinalType {
        ffi_type: pointer(true, named("i32")),
        api_type: pointer(true, named("i32")),
        api_to_ffi_conversion: RustToFfiTypeConversion::Identity,
    };
    let converted = triple.ptr_to_ref(true).unwrap();
    assert!(converted.ptr_to_ref(true).is_err());
    assert!(converted.ptr_to_value().is_err());
    let tagged = RustFinalType {
        ffi_type: pointer(true, named("i32")),
        api_type: pointer(true, named("i32")),
        api_to_ffi_conversion: RustToFfiTypeConversion::PtrWrapperToPtr,
    };
    assert_eq!(tagged.ptr_to_ref(false), Err(ConversionError::AlreadyConverted));
    assert_eq!(tagged.ptr_to_value(), Err(ConversionError::AlreadyConverted));
}
