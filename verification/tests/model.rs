use basicnext::model::{
    BasicBlock, BlockId, FieldId, FieldLayout, FieldLayoutEntry, FieldRef, FieldSlot, Function,
    FunctionKind, Module, Terminator,
};
use basicnext::source::{Position, Span};
use basicnext::types::{ModuleId, Type};

fn span() -> Span {
    let position = Position { source_id: 1, revision: 1, offset: 0, line: 1, column: 1 };
    Span { start: position, end: position }
}

fn function(name: &str, kind: FunctionKind, owner: Option<&str>) -> Function {
    Function {
        name: name.into(),
        kind,
        owner: owner.map(str::to_string),
        asynchronous: false,
        parameters: Vec::new(),
        weak_symbols: Vec::new(),
        return_type: Type::Named("VOID".into()),
        entry: BlockId(0),
        blocks: vec![BasicBlock {
            id: BlockId(0),
            instructions: Vec::new(),
            terminator: Terminator::Return { value: None },
        }],
        span: span(),
    }
}

fn entry(id: u32, slot: u32, weak: bool) -> FieldLayoutEntry {
    FieldLayoutEntry {
        id: FieldId::from_raw(id),
        slot: FieldSlot::from_raw(slot),
        ty: Type::Named("Node".into()),
        declaring_owner: "Node".into(),
        weak,
        span: span(),
    }
}

fn node() -> Module {
    let mut module = Module::empty();
    module.field_names = vec!["next".into(), "parent".into()];
    module.field_layouts = vec![(
        "Node".into(),
        FieldLayout { owner: "Node".into(), fields: vec![entry(0, 0, false), entry(1, 1, true)], span: span() },
    )];
    module
}

#[test]
fn weak_fields_are_read_from_the_layout() {
    let module = node();
    let next = module.field_ref("Node", "next").expect("declared field");
    let parent = module.field_ref("Node", "parent").expect("declared field");
    assert!(!module.field_is_weak(&next));
    assert!(module.field_is_weak(&parent));
    assert!(module.field_ref("Node", "missing").is_none());
    let stale = FieldRef { owner: "Node".into(), id: FieldId::from_raw(0), slot: FieldSlot::from_raw(1) };
    assert!(!module.field_is_weak(&stale));
}

#[test]
fn map_keys_must_be_distinct() {
    let mut module = node();
    assert!(module.maps_are_well_formed());
    module.class_bases = vec![("A".into(), "B".into()), ("A".into(), "C".into())];
    assert!(!module.maps_are_well_formed());
}

#[test]
fn layouts_are_held_in_key_order() {
    let layout = |owner: &str| FieldLayout { owner: owner.into(), fields: Vec::new(), span: span() };
    let mut module = Module::empty();
    module.field_layouts = vec![("Apple".into(), layout("Apple")), ("Apples".into(), layout("Apples")), ("Pear".into(), layout("Pear"))];
    assert!(module.maps_are_well_formed());
    module.field_layouts.swap(0, 2);
    assert!(!module.maps_are_well_formed());
}

#[test]
fn functions_are_found_by_kind_not_by_name() {
    let mut module = Module::empty();
    module.functions = vec![
        function("Helper", FunctionKind::User, None),
        function("Start", FunctionKind::Entry, None),
        function("Box.DESTRUCTOR", FunctionKind::Destructor, Some("Box")),
    ];
    assert_eq!(module.entry().map(|f| f.name.as_str()), Some("Start"));
    assert_eq!(
        module.function_of_kind(FunctionKind::Destructor, "Box").map(|f| f.name.as_str()),
        Some("Box.DESTRUCTOR")
    );
    assert!(module.function_of_kind(FunctionKind::Destructor, "Bag").is_none());
    assert_eq!(module.kind_of("Helper"), Some(FunctionKind::User));
    assert_eq!(module.kind_of("Missing"), None);
}

#[test]
fn provider_modules_name_their_standard_library() {
    let mut module = Module::empty();
    module.bnmath_providers = vec![ModuleId(1)];
    module.bndata_providers = vec![ModuleId(2)];
    assert_eq!(module.standard_library_of(ModuleId(1)), Some("BNMath"));
    assert_eq!(module.standard_library_of(ModuleId(2)), Some("BNData"));
    assert_eq!(module.standard_library_of(ModuleId(3)), None);
}
