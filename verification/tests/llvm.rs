use basicnext::llvm::{
    is_int_pointer_exec, is_int_vector_exec, LlvmType, Target, binary_supported_exec, cast_supported_exec, llvm_type, policy_ceiling,
    printable_type_exec, render_llvm_integer, render_start_type, support_diagnostic,
    unary_supported_exec, validate_for,
};
use basicnext::model::{BasicBlock, BlockId, Function, FunctionKind, Module, SymbolId, Terminator};
use basicnext::source::{Position, Span};
use basicnext::types::{FloatType, IntegerType, ModuleId, PointerLength, Type};
use basicnext::validate::validate_module;

fn text(t: &Type) -> Option<String> {
    llvm_type(t).map(|l| l.text())
}

#[test]
fn llvm_type_uses_contract_integer_widths() {
    assert_eq!(text(&Type::Integer(IntegerType::Int32)).as_deref(), Some("i32"));
    assert_eq!(text(&Type::Integer(IntegerType::Byte)).as_deref(), Some("i8"));
    assert_eq!(text(&Type::Integer(IntegerType::UInt64)).as_deref(), Some("i64"));
}

#[test]
fn llvm_type_uses_contract_float_widths() {
    assert_eq!(text(&Type::Float(FloatType::Float32)).as_deref(), Some("float"));
    assert_eq!(text(&Type::Float(FloatType::Float64)).as_deref(), Some("double"));
}

#[test]
fn llvm_integer_rendering_preserves_signed_bit_patterns_without_cast_wrap() {
    assert_eq!(render_llvm_integer(255, "i8"), "-1");
    assert_eq!(render_llvm_integer(-129, "i8"), "127");
    assert_eq!(render_llvm_integer(65_536, "i16"), "0");
    assert_eq!(render_llvm_integer(-9_223_372_036_854_775_809, "i64"), "9223372036854775807");
}

#[test]
fn in_range_constants_render_as_themselves() {
    assert_eq!(render_llvm_integer(-128, "i8"), "-128");
    assert_eq!(render_llvm_integer(32_767, "i16"), "32767");
    assert_eq!(render_llvm_integer(-2_147_483_648, "i32"), "-2147483648");
    assert_eq!(render_llvm_integer(4_294_967_295, "i32"), "-1");
    assert_eq!(render_llvm_integer(12, "ptr"), "12");
}

fn named(n: &str) -> Type {
    Type::Named(n.into())
}

#[test]
fn named_and_alternative_types_map_to_their_representations() {
    assert_eq!(text(&named("DATE")).as_deref(), Some("i32"));
    assert_eq!(text(&named("Error")).as_deref(), Some("{ i1, ptr, i64 }"));
    assert_eq!(text(&named("HOST.Net.Addresses")).as_deref(), Some("{ i1, ptr }"));
    assert_eq!(text(&named("HOST.Net.Endpoint")).as_deref(), Some("{ ptr, i32 }"));
    assert_eq!(text(&named("POINTER")).as_deref(), Some("{ ptr, i32 }"));
    assert_eq!(text(&named("Box")).as_deref(), Some("ptr"));
    assert_eq!(text(&named("VOID")), None);
    assert_eq!(text(&Type::NotAvailable).as_deref(), Some("{ i1, double }"));
    let float_or_na = Type::Alternative(vec![Type::Float(FloatType::Float64), Type::NotAvailable]);
    assert_eq!(text(&float_or_na).as_deref(), Some("{ i1, double }"));
    let endpoint_or_error = Type::Alternative(vec![named("HOST.Net.Endpoint"), named("Error")]);
    assert_eq!(text(&endpoint_or_error).as_deref(), Some("{ i1, ptr, i32 }"));
    let int_or_error = Type::Alternative(vec![Type::Integer(IntegerType::Int64), named("Error")]);
    assert_eq!(text(&int_or_error).as_deref(), Some("{ i1, ptr, i64 }"));
    let three = Type::Alternative(vec![Type::Integer(IntegerType::Int32), Type::EndOfFile, named("Error")]);
    assert_eq!(text(&three).as_deref(), Some("{ i1, ptr, i64 }"));
    let plain = Type::Alternative(vec![Type::Boolean, Type::String]);
    assert_eq!(text(&plain), None);
    let queue = Type::ImportedTypeName { module: ModuleId(2), name: "Queue".into() };
    assert_eq!(text(&queue).as_deref(), Some("{ i1, ptr, i64 }"));
    let frame = Type::ImportedNamed { module: ModuleId(2), name: "DataFrame".into() };
    assert_eq!(text(&frame).as_deref(), Some("ptr"));
}

#[test]
fn vectors_and_pointers_are_fat_pointers_of_supported_elements() {
    let fixed = Type::Vector { element: Box::new(Type::Integer(IntegerType::Int32)), dimensions: vec![4] };
    assert_eq!(llvm_type(&fixed), Some(LlvmType::PtrI32));
    let open = Type::Vector { element: Box::new(Type::Integer(IntegerType::Int32)), dimensions: vec![u64::MAX] };
    assert_eq!(llvm_type(&open), None);
    let grid = Type::Vector { element: Box::new(Type::Boolean), dimensions: vec![2, 2] };
    assert_eq!(llvm_type(&grid), None);
    let pointer = Type::Pointer { element: Box::new(Type::String), length: PointerLength::Dynamic };
    assert_eq!(llvm_type(&pointer), Some(LlvmType::PtrI32));
    let void_pointer = Type::Pointer { element: Box::new(named("VOID")), length: PointerLength::One };
    assert_eq!(llvm_type(&void_pointer), None);
}

#[test]
fn operator_support_follows_the_llvm_types() {
    let i32t = Type::Integer(IntegerType::Int32);
    let f64t = Type::Float(FloatType::Float64);
    assert!(binary_supported_exec("Plus", &i32t, &i32t, &i32t));
    assert!(binary_supported_exec("Plus", &Type::String, &Type::String, &Type::String));
    assert!(!binary_supported_exec("Minus", &Type::String, &Type::String, &Type::String));
    assert!(binary_supported_exec("Divide", &i32t, &i32t, &f64t));
    assert!(!binary_supported_exec("Divide", &i32t, &i32t, &i32t));
    assert!(binary_supported_exec("Power", &f64t, &f64t, &f64t));
    assert!(!binary_supported_exec("SHL", &f64t, &f64t, &f64t));
    assert!(binary_supported_exec("AND", &Type::Boolean, &Type::Boolean, &Type::Boolean));
    assert!(binary_supported_exec("Less", &i32t, &Type::IntegerLiteral(1), &Type::Boolean));
    assert!(!binary_supported_exec("Less", &i32t, &f64t, &Type::Boolean));
    assert!(!binary_supported_exec("Concat", &i32t, &i32t, &i32t));
    assert!(unary_supported_exec("Minus", Some(&i32t), &i32t));
    assert!(unary_supported_exec("NOT", Some(&Type::Boolean), &Type::Boolean));
    assert!(!unary_supported_exec("NOT", Some(&f64t), &f64t));
    assert!(!unary_supported_exec("Minus", None, &i32t));
    assert!(cast_supported_exec(Some(&i32t), &f64t));
    assert!(cast_supported_exec(Some(&Type::String), &Type::Boolean));
    assert!(!cast_supported_exec(Some(&Type::Boolean), &i32t));
    assert!(!cast_supported_exec(None, &i32t));
    assert!(printable_type_exec(&Type::Alternative(vec![f64t, Type::NotAvailable])));
    assert!(!printable_type_exec(&Type::HostConsole));
}

#[test]
fn support_messages_split_into_code_and_detail() {
    let (code, detail) = support_diagnostic("TARGET_UNSUPPORTED_OP: cannot lower Power");
    assert_eq!((code.as_str(), detail.as_str()), ("TARGET_UNSUPPORTED_OP", "cannot lower Power"));
    let (code, detail) = support_diagnostic("TARGET_UNSUPPORTED_HOST: no network");
    assert_eq!((code.as_str(), detail.as_str()), ("TARGET_UNSUPPORTED_HOST", "no network"));
    let (code, detail) = support_diagnostic("something else");
    assert_eq!((code.as_str(), detail.as_str()), ("TARGET_UNSUPPORTED_LLVM", "something else"));
    let (code, detail) = support_diagnostic("TARGET_UNSUPPORTED_TYPE:missing space");
    assert_eq!((code.as_str(), detail.as_str()), ("TARGET_UNSUPPORTED_LLVM", "TARGET_UNSUPPORTED_TYPE:missing space"));
}

fn span() -> Span {
    let position = Position { source_id: 1, revision: 1, offset: 0, line: 1, column: 1 };
    Span { start: position, end: position }
}

fn start(ret: Type, params: usize) -> Module {
    let mut m = Module::empty();
    m.functions = vec![Function {
        name: "Start".into(),
        kind: FunctionKind::Entry,
        owner: None,
        asynchronous: false,
        parameters: (0..params).map(|i| SymbolId(i as u32)).collect(),
        weak_symbols: Vec::new(),
        return_type: ret,
        entry: BlockId(0),
        blocks: vec![BasicBlock { id: BlockId(0), instructions: Vec::new(), terminator: Terminator::Return { value: None } }],
        span: span(),
    }];
    m
}

#[test]
fn targets_require_a_start_function_of_supported_shape() {
    let ok = validate_module(start(named("VOID"), 0)).expect("valid");
    assert!(validate_for(&ok, Target::Native, &Ok(())).is_ok());
    let failed = validate_for(&ok, Target::Wasm32, &Err("TARGET_UNSUPPORTED_OP: no Power".into())).unwrap_err();
    assert_eq!((failed.code.as_str(), failed.message.as_str()), ("TARGET_UNSUPPORTED_OP", "no Power"));

    let empty = validate_module(Module::empty()).expect("valid");
    assert_eq!(validate_for(&empty, Target::Native, &Ok(())).unwrap_err().code, "TARGET_UNSUPPORTED_ENTRYPOINT");

    let mut boolean = start(Type::Boolean, 0);
    boolean.functions[0].blocks[0].terminator = Terminator::Return { value: None };
    boolean.functions[0].return_type = Type::Alternative(vec![Type::Boolean, named("VOID")]);
    let boolean = validate_module(boolean).expect("valid");
    let error = validate_for(&boolean, Target::Native, &Ok(())).unwrap_err();
    assert_eq!(error.code, "TARGET_UNSUPPORTED_ENTRYPOINT");
    assert!(error.message.contains("'unsupported type'"));

    let mut network = start(named("VOID"), 0);
    network.network_import = Some(span());
    let network = validate_module(network).expect("valid");
    assert!(validate_for(&network, Target::Native, &Ok(())).is_ok());
    assert_eq!(validate_for(&network, Target::Wasm32, &Ok(())).unwrap_err().code, "TARGET_UNSUPPORTED_HOST");
}

#[test]
fn start_types_and_policies_render() {
    assert_eq!(render_start_type(&Type::Float(FloatType::Float32)), "FLOAT");
    assert_eq!(render_start_type(&named("Box")), "named type");
    assert_eq!(render_start_type(&named("VOID")), "VOID");
    let mut m = Module::empty();
    assert_eq!(policy_ceiling(&m), 0);
    m.console_import = Some(span());
    m.network_import = Some(span());
    assert_eq!(policy_ceiling(&m), 2 | 8);
    m.bndispatch_providers = vec![ModuleId(1)];
    assert_eq!(policy_ceiling(&m), 2 | 8 | 16);
}

#[test]
fn integer_vectors_and_pointers_hold_int32_elements() {
    let vector = |element: Type| Type::Vector { element: Box::new(element), dimensions: vec![4] };
    let pointer = |element: Type| Type::Pointer { element: Box::new(element), length: PointerLength::Dynamic };
    assert!(is_int_vector_exec(&vector(Type::Integer(IntegerType::Int32))));
    assert!(!is_int_vector_exec(&vector(Type::Boolean)));
    assert!(is_int_pointer_exec(&pointer(Type::Integer(IntegerType::Int32))));
    assert!(!is_int_pointer_exec(&pointer(Type::String)));
    assert!(!is_int_vector_exec(&Type::Integer(IntegerType::Int32)));
}

#[test]
fn the_entry_point_is_chosen_by_kind_not_by_name() {
    let mut user = start(named("VOID"), 0);
    user.functions[0].kind = FunctionKind::User;
    let user = validate_module(user).expect("valid");
    assert_eq!(validate_for(&user, Target::Native, &Ok(())).unwrap_err().code, "TARGET_UNSUPPORTED_ENTRYPOINT");

    let mut renamed = start(named("VOID"), 0);
    renamed.functions[0].name = "Main".into();
    let renamed = validate_module(renamed).expect("valid");
    assert!(validate_for(&renamed, Target::Native, &Ok(())).is_ok());
}
