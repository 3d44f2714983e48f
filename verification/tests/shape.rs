use aymond::shape::{
    name_is, scalar_kind, DeclaredType, IntKind, PathSegment, ScalarKind, TypeShape,
};

fn text(shape: TypeShape) -> TypeShape {
    shape
}

#[test]
fn classifies_scalars() {
    assert_eq!(
        DeclaredType::simple("i16").classify(),
        TypeShape::Scalar(ScalarKind::Int(IntKind::I16))
    );
    assert_eq!(
        DeclaredType::simple("u128").classify(),
        TypeShape::Scalar(ScalarKind::Int(IntKind::U128))
    );
    assert_eq!(DeclaredType::simple("String").classify(), TypeShape::Scalar(ScalarKind::Text));
}

#[test]
fn classifies_every_integer_name() {
    let names = ["i8", "i16", "i32", "i64", "i128", "u8", "u16", "u32", "u64", "u128"];
    let kinds = [
        IntKind::I8,
        IntKind::I16,
        IntKind::I32,
        IntKind::I64,
        IntKind::I128,
        IntKind::U8,
        IntKind::U16,
        IntKind::U32,
        IntKind::U64,
        IntKind::U128,
    ];
    for (name, kind) in names.iter().zip(kinds.iter()) {
        assert_eq!(scalar_kind(&name.to_string()), Some(ScalarKind::Int(*kind)));
    }
    assert_eq!(scalar_kind(&"String".to_string()), Some(ScalarKind::Text));
    assert_eq!(scalar_kind(&"string".to_string()), None);
    assert_eq!(scalar_kind(&"f64".to_string()), None);
}

#[test]
fn classifies_wrappers_outermost_first() {
    let ty = DeclaredType::generic(
        "Option",
        DeclaredType::generic("Vec", DeclaredType::simple("String")),
    );
    assert_eq!(
        ty.classify(),
        TypeShape::Optional(Box::new(TypeShape::List(Box::new(text(TypeShape::Scalar(
            ScalarKind::Text
        ))))))
    );
}

#[test]
fn unknown_names_are_records() {
    assert_eq!(
        DeclaredType::simple("Production").classify(),
        TypeShape::Record("Production".to_string())
    );
    assert_eq!(
        DeclaredType::generic("HashMap", DeclaredType::simple("String")).classify(),
        TypeShape::Record("HashMap".to_string())
    );
}

#[test]
fn wrapper_without_argument_is_a_record() {
    assert_eq!(DeclaredType::simple("Vec").classify(), TypeShape::Record("Vec".to_string()));
    assert_eq!(DeclaredType::simple("Option").classify(), TypeShape::Record("Option".to_string()));
}

#[test]
fn type_without_path_is_a_nameless_record() {
    let ty = DeclaredType { segments: vec![] };
    assert_eq!(ty.classify(), TypeShape::Record(String::new()));
    assert_eq!(ty.type_paths(), Vec::<String>::new());
}

#[test]
fn last_segment_names_the_type() {
    let ty = DeclaredType {
        segments: vec![
            PathSegment { ident: "std".to_string(), arguments: vec![] },
            PathSegment { ident: "string".to_string(), arguments: vec![] },
            PathSegment { ident: "String".to_string(), arguments: vec![] },
        ],
    };
    assert_eq!(ty.classify(), TypeShape::Scalar(ScalarKind::Text));
    assert_eq!(ty.type_paths(), vec!["std", "string", "String"]);
}

#[test]
fn type_paths_lists_names_in_written_order() {
    let ty = DeclaredType::generic(
        "Option",
        DeclaredType::generic("Vec", DeclaredType::simple("String")),
    );
    assert_eq!(ty.type_paths(), vec!["Option", "Vec", "String"]);
    let map = DeclaredType {
        segments: vec![PathSegment {
            ident: "HashMap".to_string(),
            arguments: vec![DeclaredType::simple("String"), DeclaredType::simple("i32")],
        }],
    };
    assert_eq!(map.type_paths(), vec!["HashMap", "String", "i32"]);
}

#[test]
fn non_option_unwraps_one_option() {
    let inner = DeclaredType::simple("String");
    let ty = DeclaredType::generic("Option", DeclaredType::simple("String"));
    assert_eq!(ty.non_option(), &inner);
    assert_eq!(inner.non_option(), &inner);
    let bare = DeclaredType::simple("Option");
    assert_eq!(bare.non_option(), &bare);
}

#[test]
fn clone_copies_the_whole_type() {
    let ty = DeclaredType::generic(
        "Option",
        DeclaredType::generic("Vec", DeclaredType::simple("String")),
    );
    assert_eq!(ty.clone(), ty);
}

#[test]
fn integer_kinds_hold_their_ranges() {
    assert!(IntKind::I8.holds_signed(-128));
    assert!(IntKind::I8.holds_signed(127));
    assert!(!IntKind::I8.holds_signed(128));
    assert!(!IntKind::I8.holds_signed(-129));
    assert!(!IntKind::I8.holds_unsigned(1));
    assert!(IntKind::U8.holds_unsigned(255));
    assert!(!IntKind::U8.holds_unsigned(256));
    assert!(!IntKind::U8.holds_signed(1));
    assert!(IntKind::I64.holds_signed(i64::MIN as i128));
    assert!(!IntKind::I64.holds_signed(i64::MAX as i128 + 1));
    assert!(IntKind::U64.holds_unsigned(u64::MAX as u128));
    assert!(!IntKind::U64.holds_unsigned(u64::MAX as u128 + 1));
    assert!(IntKind::I128.holds_signed(i128::MIN));
    assert!(IntKind::U128.holds_unsigned(u128::MAX));
    assert!(IntKind::I16.is_signed());
    assert!(!IntKind::U16.is_signed());
    assert!(IntKind::I16.holds_signed(518));
    assert!(!IntKind::I16.holds_signed(40000));
    assert!(IntKind::I32.holds_signed(1964));
    assert!(!IntKind::I32.holds_signed(1 << 31));
    assert!(IntKind::U16.holds_unsigned(65535));
    assert!(!IntKind::U16.holds_unsigned(65536));
    assert!(IntKind::U32.holds_unsigned(u32::MAX as u128));
    assert!(!IntKind::U32.holds_unsigned(u32::MAX as u128 + 1));
}

#[test]
fn name_is_compares_whole_names() {
    assert!(name_is(&"Option".to_string(), "Option"));
    assert!(!name_is(&"Option".to_string(), "Optio"));
    assert!(!name_is(&"option".to_string(), "Option"));
}
