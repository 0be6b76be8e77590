use basicnext::layout::{
    align_to, class_instance_bytes, class_layout_fields, field_byte_offset, field_type,
    is_struct_type_exec, struct_copy_supported_exec, vector_field_offsets,
};
use basicnext::model::{
    BasicBlock, BlockId, FieldId, FieldLayout, FieldLayoutEntry, FieldRef, FieldSlot, Function,
    FunctionKind, Module, Terminator,
};
use basicnext::source::{Position, Span};
use basicnext::types::{IntegerType, PointerLength, Type, type_eq};

fn span() -> Span {
    let position = Position { source_id: 1, revision: 1, offset: 0, line: 1, column: 1 };
    Span { start: position, end: position }
}

fn entry(owner: &str, id: u32, slot: u32, ty: Type) -> FieldLayoutEntry {
    FieldLayoutEntry {
        id: FieldId::from_raw(id),
        slot: FieldSlot::from_raw(slot),
        ty,
        declaring_owner: owner.into(),
        weak: false,
        span: span(),
    }
}

fn point() -> Module {
    let mut module = Module::empty();
    module.field_names = vec!["first".into(), "second".into()];
    module.field_layouts = vec![(
        "Point".into(),
        FieldLayout {
            owner: "Point".into(),
            fields: vec![
                entry("Point", 0, 0, Type::Integer(IntegerType::Int32)),
                entry("Point", 1, 1, Type::Boolean),
            ],
            span: span(),
        },
    )];
    module
}

#[test]
fn class_layout_uses_validated_metadata_without_initializer_instructions() {
    let module = point();
    let fields = class_layout_fields(&module, "Point");
    assert_eq!(fields.len(), 2);
    assert_eq!(fields[0].reference.slot.value(), 0);
    assert!(type_eq(&fields[0].ty, &Type::Integer(IntegerType::Int32)));
    assert_eq!(fields[1].reference.slot.value(), 1);
    assert!(type_eq(&fields[1].ty, &Type::Boolean));
}

#[test]
fn qualified_layout_lookup_never_falls_back_to_a_last_segment() {
    let layout = |owner: &str, id: u32, ty: Type| FieldLayout {
        owner: owner.into(),
        fields: vec![entry(owner, id, 0, ty)],
        span: span(),
    };
    let mut module = Module::empty();
    module.field_names = vec!["left".into(), "right".into()];
    module.field_layouts = vec![
        ("#0.Point".into(), layout("#0.Point", 0, Type::Integer(IntegerType::Int32))),
        ("#1.Point".into(), layout("#1.Point", 1, Type::Boolean)),
    ];

    assert!(class_layout_fields(&module, "Point").is_empty());
    assert_eq!(class_layout_fields(&module, "#0.Point")[0].reference.id.value(), 0);
    assert_eq!(class_layout_fields(&module, "#1.Point")[0].reference.id.value(), 1);
    assert!(
        field_byte_offset(
            &module,
            &FieldRef { owner: "#0.Point".into(), id: FieldId::from_raw(1), slot: FieldSlot::from_raw(0) }
        )
        .is_none()
    );
}

#[test]
fn fields_are_aligned_after_the_object_header() {
    let module = point();
    let first = FieldRef { owner: "Point".into(), id: FieldId::from_raw(0), slot: FieldSlot::from_raw(0) };
    let second = FieldRef { owner: "Point".into(), id: FieldId::from_raw(1), slot: FieldSlot::from_raw(1) };
    assert_eq!(field_byte_offset(&module, &first), Some(16));
    assert_eq!(field_byte_offset(&module, &second), Some(20));
    assert_eq!(class_instance_bytes(&module, "Point"), 32);
    assert_eq!(class_instance_bytes(&module, "Missing"), 16);
    let ty = field_type(&module, "Point", "second").expect("declared");
    assert!(type_eq(&ty, &Type::Boolean));
    assert!(field_type(&module, "Point", "third").is_none());
}

#[test]
fn alignment_rounds_up_to_a_multiple() {
    assert_eq!(align_to(16, 8), 16);
    assert_eq!(align_to(17, 8), 24);
    assert_eq!(align_to(21, 4), 24);
    assert_eq!(align_to(u32::MAX - 1, 8), u32::MAX);
}

#[test]
fn records_with_vector_fields_are_not_copied_field_by_field() {
    let mut module = point();
    assert!(!is_struct_type_exec(&module, &Type::Named("Point".into())));
    assert!(struct_copy_supported_exec(&module, &Type::Named("Point".into())));
    module.functions.push(Function {
        name: "Point.$default".into(),
        kind: FunctionKind::Default,
        owner: Some("Point".into()),
        asynchronous: false,
        parameters: Vec::new(),
        weak_symbols: Vec::new(),
        return_type: Type::Named("VOID".into()),
        entry: BlockId(0),
        blocks: vec![BasicBlock { id: BlockId(0), instructions: Vec::new(), terminator: Terminator::Return { value: None } }],
        span: span(),
    });
    assert!(is_struct_type_exec(&module, &Type::Named("Point".into())));
    assert!(struct_copy_supported_exec(&module, &Type::Named("Point".into())));
    module.field_layouts[0].1.fields.push(entry(
        "Point",
        1,
        2,
        Type::Pointer { element: Box::new(Type::Boolean), length: PointerLength::Dynamic },
    ));
    assert!(!struct_copy_supported_exec(&module, &Type::Named("Point".into())));
    assert!(struct_copy_supported_exec(&module, &Type::Boolean));
}

#[test]
fn vector_fields_are_found_at_their_offsets() {
    let vector = || Type::Vector { element: Box::new(Type::Integer(IntegerType::Int32)), dimensions: vec![3] };
    let mut module = Module::empty();
    module.field_names = vec!["count".into(), "items".into(), "name".into(), "more".into()];
    module.field_layouts = vec![(
        "Bag".into(),
        FieldLayout {
            owner: "Bag".into(),
            fields: vec![
                entry("Bag", 0, 0, Type::Integer(IntegerType::Int32)),
                entry("Bag", 1, 1, vector()),
                entry("Bag", 2, 2, Type::String),
                entry("Bag", 3, 3, vector()),
            ],
            span: span(),
        },
    )];
    assert_eq!(vector_field_offsets(&module, "Bag"), vec![24, 48]);
    assert!(vector_field_offsets(&module, "Missing").is_empty());
    assert!(vector_field_offsets(&point(), "Point").is_empty());
}
