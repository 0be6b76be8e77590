use basicnext::model::{BasicBlock, BlockId, Function, FunctionKind, Module, Terminator};
use basicnext::source::{Position, Span};
use basicnext::symbols::{
    class_name, destructor_symbol, dispatch_trampoline_symbol, is_class_type_exec,
    llvm_function_symbol, string_global,
};
use basicnext::types::{ModuleId, Type};

fn span() -> Span {
    let position = Position { source_id: 1, revision: 1, offset: 0, line: 1, column: 1 };
    Span { start: position, end: position }
}

fn function(name: &str, kind: FunctionKind, owner: Option<&str>) -> Function {
    Function {
        name: name.into(),
        kind,
        owner: owner.map(str::to_string),
        asynchronous: false,
        parameters: Vec::new(),
        weak_symbols: Vec::new(),
        return_type: Type::Named("VOID".into()),
        entry: BlockId(0),
        blocks: vec![BasicBlock {
            id: BlockId(0),
            instructions: Vec::new(),
            terminator: Terminator::Return { value: None },
        }],
        span: span(),
    }
}

#[test]
fn entry_function_is_main() {
    assert_eq!(llvm_function_symbol("Start"), "main");
}

#[test]
fn other_functions_escape_unsafe_bytes_in_hex() {
    assert_eq!(llvm_function_symbol("Helper"), "bn_Helper");
    assert_eq!(llvm_function_symbol("Counter.Inc"), "bn_Counter_2eInc");
    assert_eq!(llvm_function_symbol("Counter.$fields"), "bn_Counter_2e_24fields");
    assert_eq!(llvm_function_symbol("@super:Animal.Speak"), "bn__40super_3aAnimal_2eSpeak");
    assert_eq!(llvm_function_symbol("snake_case9"), "bn_snake_case9");
    assert_eq!(llvm_function_symbol("é"), "bn__c3_a9");
    assert_eq!(llvm_function_symbol(""), "bn_");
}

#[test]
fn trampolines_wrap_the_function_symbol() {
    assert_eq!(dispatch_trampoline_symbol("Work"), "bn_dispatch_trampoline_bn_Work");
    assert_eq!(dispatch_trampoline_symbol("Start"), "bn_dispatch_trampoline_main");
}

#[test]
fn string_globals_are_scoped_by_function() {
    assert_eq!(string_global("Start", 3), "@.bn_str3");
    assert_eq!(string_global("Counter.Inc", 0), "@.bn_str_bn_Counter_2eInc_0");
}

#[test]
fn class_names_of_named_imported_and_nullable_types() {
    assert_eq!(class_name(&Type::Named("Box".into())).as_deref(), Some("Box"));
    assert_eq!(
        class_name(&Type::ImportedNamed { module: ModuleId(2), name: "Point".into() }).as_deref(),
        Some("#2.Point")
    );
    assert_eq!(
        class_name(&Type::Alternative(vec![Type::Named("Box".into()), Type::Null])).as_deref(),
        Some("Box")
    );
    assert_eq!(
        class_name(&Type::Alternative(vec![Type::Null, Type::Named("Box".into())])).as_deref(),
        Some("Box")
    );
    assert_eq!(class_name(&Type::Alternative(vec![Type::Named("A".into()), Type::Named("B".into())])), None);
    assert_eq!(class_name(&Type::String), None);
}

#[test]
fn destructors_exist_only_where_declared() {
    let mut m = Module::empty();
    m.functions = vec![
        function("Start", FunctionKind::Entry, None),
        function("Box.$fields", FunctionKind::FieldInit, Some("Box")),
        function("Box.DESTRUCTOR", FunctionKind::Destructor, Some("Box")),
        function("Bag.$fields", FunctionKind::FieldInit, Some("Bag")),
    ];
    let boxed = Type::Named("Box".into());
    let bag = Type::Named("Bag".into());
    assert_eq!(destructor_symbol(&m, &boxed).as_deref(), Some("bn_Box_2eDESTRUCTOR"));
    assert_eq!(destructor_symbol(&m, &bag), None);
    assert!(is_class_type_exec(&m, &boxed));
    assert!(is_class_type_exec(&m, &bag));
    assert!(!is_class_type_exec(&m, &Type::Named("Plain".into())));
}
