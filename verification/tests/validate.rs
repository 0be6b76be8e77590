use basicnext::model::{
    BasicBlock, BlockId, Constant, FieldId, FieldLayout, FieldLayoutEntry, FieldRef, FieldSlot,
    Function, FunctionKind, Instruction, Module, SymbolId, Terminator, ValueId,
};
use basicnext::source::{Diagnostic, Position, Span};
use basicnext::types::{IntegerType, Type};
use basicnext::validate::{validate, validate_module};

fn span() -> Span {
    let position = Position { source_id: 1, revision: 1, offset: 0, line: 1, column: 1 };
    Span { start: position, end: position }
}

fn function(name: &str, kind: FunctionKind, owner: Option<&str>, params: usize, ret: &str) -> Function {
    Function {
        name: name.into(),
        kind,
        owner: owner.map(str::to_string),
        asynchronous: false,
        parameters: (0..params).map(|i| SymbolId(u32::try_from(i).expect("small"))).collect(),
        weak_symbols: Vec::new(),
        return_type: Type::Named(ret.into()),
        entry: BlockId(0),
        blocks: vec![BasicBlock {
            id: BlockId(0),
            instructions: Vec::new(),
            terminator: Terminator::Return { value: None },
        }],
        span: span(),
    }
}

fn module(functions: Vec<Function>) -> Module {
    let mut m = Module::empty();
    m.functions = functions;
    m
}

fn detail(result: Result<(), Diagnostic>) -> String {
    let error = result.expect_err("must be invalid IR");
    assert_eq!(error.code, "INVALID_IR");
    error.message
}

fn int32() -> Type {
    Type::Integer(IntegerType::Int32)
}

fn entry(id: usize, ty: Type) -> FieldLayoutEntry {
    FieldLayoutEntry {
        id: FieldId::from_raw(u32::try_from(id).expect("small")),
        slot: FieldSlot::from_raw(0),
        ty,
        declaring_owner: "Point".into(),
        weak: false,
        span: span(),
    }
}

#[test]
fn field_layout_slots_must_be_dense_and_ordered() {
    let layout = FieldLayout {
        owner: "Point".into(),
        fields: vec![FieldLayoutEntry {
            id: FieldId::from_raw(0),
            slot: FieldSlot::from_raw(1),
            ty: Type::Named("INTEGER".into()),
            declaring_owner: "Point".into(),
            weak: false,
            span: span(),
        }],
        span: span(),
    };
    let mut module = module(Vec::new());
    module.field_names = vec!["x".into()];
    module.field_layouts = vec![("Point".into(), layout)];

    assert!(detail(validate(&module)).contains("slots must be dense"));
}

#[test]
fn field_layout_ids_must_exist_in_the_interned_name_table() {
    let layout = FieldLayout {
        owner: "Point".into(),
        fields: vec![FieldLayoutEntry {
            id: FieldId::from_raw(1),
            slot: FieldSlot::from_raw(0),
            ty: Type::Named("INTEGER".into()),
            declaring_owner: "Point".into(),
            weak: false,
            span: span(),
        }],
        span: span(),
    };
    let mut module = module(Vec::new());
    module.field_names = vec!["x".into()];
    module.field_layouts = vec![("Point".into(), layout)];

    assert!(detail(validate(&module)).contains("absent from the name table"));
}

#[test]
fn member_receiver_and_result_must_match_the_field_layout() {
    let layout = FieldLayout { owner: "Point".into(), fields: vec![entry(0, int32())], span: span() };
    let mut module = module(vec![function("Start", FunctionKind::Entry, None, 0, "VOID")]);
    module.field_names = vec!["x".into()];
    module.field_layouts = vec![("Point".into(), layout)];
    module.functions[0].blocks[0].instructions = vec![
        Instruction::Default {
            destination: ValueId(0),
            ty: Type::Named("Point".into()),
            dimensions: Vec::new(),
            dynamic_dimensions: Vec::new(),
            span: span(),
        },
        Instruction::Member {
            destination: ValueId(1),
            object: ValueId(0),
            field: Some(FieldRef {
                owner: "Point".into(),
                id: FieldId::from_raw(0),
                slot: FieldSlot::from_raw(0),
            }),
            name: "x".into(),
            owner: "Point".into(),
            ty: Type::String,
            span: span(),
        },
    ];

    assert!(detail(validate(&module)).contains("result type"));
    if let Instruction::Default { ty, .. } = &mut module.functions[0].blocks[0].instructions[0] {
        *ty = Type::Boolean;
    } else {
        unreachable!("default");
    }
    if let Instruction::Member { ty, .. } = &mut module.functions[0].blocks[0].instructions[1] {
        *ty = int32();
    } else {
        unreachable!("member");
    }
    assert!(detail(validate(&module)).contains("receiver"));
}

#[test]
fn derived_receiver_may_access_a_base_layout_field() {
    let field = || FieldLayoutEntry {
        id: FieldId::from_raw(0),
        slot: FieldSlot::from_raw(0),
        ty: Type::String,
        declaring_owner: "Animal".into(),
        weak: false,
        span: span(),
    };
    let base_layout = FieldLayout { owner: "Animal".into(), fields: vec![field()], span: span() };
    let derived_layout = FieldLayout { owner: "Dog".into(), fields: vec![field()], span: span() };
    let mut module = module(vec![
        function("Animal.$fields", FunctionKind::FieldInit, Some("Animal"), 1, "VOID"),
        function("Dog.$fields", FunctionKind::FieldInit, Some("Dog"), 1, "VOID"),
        function("Start", FunctionKind::Entry, None, 0, "VOID"),
    ]);
    module.field_names = vec!["name".into()];
    module.class_bases = vec![("Dog".into(), "Animal".into())];
    module.field_layouts = vec![("Animal".into(), base_layout), ("Dog".into(), derived_layout)];
    module.functions[2].blocks[0].instructions = vec![
        Instruction::Default {
            destination: ValueId(0),
            ty: Type::Named("Dog".into()),
            dimensions: Vec::new(),
            dynamic_dimensions: Vec::new(),
            span: span(),
        },
        Instruction::Member {
            destination: ValueId(1),
            object: ValueId(0),
            field: Some(FieldRef {
                owner: "Animal".into(),
                id: FieldId::from_raw(0),
                slot: FieldSlot::from_raw(0),
            }),
            name: "name".into(),
            owner: "Animal".into(),
            ty: Type::String,
            span: span(),
        },
    ];

    validate(&module).expect("derived receiver may access inherited base field");
}

#[test]
fn field_name_table_must_not_duplicate_spellings() {
    let mut module = module(Vec::new());
    module.field_names = vec!["x".into(), "x".into()];

    assert!(detail(validate(&module)).contains("field names must be unique"));
}

#[test]
fn derived_layout_must_preserve_the_base_prefix() {
    let base = FieldLayout {
        owner: "Parent".into(),
        fields: vec![FieldLayoutEntry {
            id: FieldId::from_raw(0),
            slot: FieldSlot::from_raw(0),
            ty: Type::Named("INTEGER".into()),
            declaring_owner: "Parent".into(),
            weak: false,
            span: span(),
        }],
        span: span(),
    };
    let child = FieldLayout {
        owner: "Child".into(),
        fields: vec![FieldLayoutEntry {
            id: FieldId::from_raw(1),
            slot: FieldSlot::from_raw(0),
            ty: Type::Named("INTEGER".into()),
            declaring_owner: "Child".into(),
            weak: false,
            span: span(),
        }],
        span: span(),
    };
    let mut module =
        module(vec![function("Parent.$fields", FunctionKind::FieldInit, Some("Parent"), 1, "VOID")]);
    module.functions.push(function("Child.$fields", FunctionKind::FieldInit, Some("Child"), 1, "VOID"));
    module.field_names = vec!["first".into(), "second".into()];
    module.class_bases = vec![("Child".into(), "Parent".into())];
    module.field_layouts = vec![("Child".into(), child), ("Parent".into(), base)];
    assert!(module.maps_are_well_formed());

    assert!(detail(validate(&module)).contains("base layout prefix"));
}

#[test]
fn field_path_stores_require_matching_resolved_fields() {
    let layout = FieldLayout { owner: "Point".into(), fields: vec![entry(0, int32())], span: span() };
    let mut module = module(vec![function("Start", FunctionKind::Entry, None, 0, "VOID")]);
    module.field_names = vec!["x".into()];
    module.field_layouts = vec![("Point".into(), layout)];
    module.functions[0].blocks[0].instructions = vec![
        Instruction::Constant {
            destination: ValueId(0),
            value: Constant::Integer("1".into()),
            ty: int32(),
            span: span(),
        },
        Instruction::SetField {
            symbol: SymbolId(0),
            root_owner: "Point".into(),
            path: vec!["x".into()],
            fields: None,
            value: ValueId(0),
            ty: int32(),
            span: span(),
        },
    ];

    assert!(detail(validate(&module)).contains("must carry resolved fields"));

    if let Instruction::SetField { fields, .. } = &mut module.functions[0].blocks[0].instructions[1] {
        *fields = Some(vec![FieldRef {
            owner: "Point".into(),
            id: FieldId::from_raw(0),
            slot: FieldSlot::from_raw(1),
        }]);
    } else {
        unreachable!("field store");
    }
    assert!(detail(validate(&module)).contains("does not match"));
}

#[test]
fn well_formed_kinds_validate() {
    let m = module(vec![
        function("Start", FunctionKind::Entry, None, 0, "VOID"),
        function("C.CONSTRUCTOR", FunctionKind::Constructor, Some("C"), 1, "VOID"),
        function("C.DESTRUCTOR", FunctionKind::Destructor, Some("C"), 1, "VOID"),
        function("C.$fields", FunctionKind::FieldInit, Some("C"), 1, "VOID"),
        function("C.$init", FunctionKind::Init, Some("C"), 0, "VOID"),
        function("P.$default", FunctionKind::Default, Some("P"), 0, "VOID"),
        function("C.Method", FunctionKind::User, Some("C"), 1, "VOID"),
        function("Free", FunctionKind::User, None, 0, "VOID"),
    ]);
    validate(&m).expect("well-formed kinds");
}

#[test]
fn two_entries_are_invalid() {
    let m = module(vec![
        function("Start", FunctionKind::Entry, None, 0, "VOID"),
        function("Start2", FunctionKind::Entry, None, 0, "VOID"),
    ]);
    assert!(detail(validate(&m)).contains("more than one entry"));
}

#[test]
fn entry_with_parameters_is_invalid() {
    let m = module(vec![function("Start", FunctionKind::Entry, None, 1, "VOID")]);
    assert!(detail(validate(&m)).contains("entry function must not take parameters"));
}

#[test]
fn synthesised_kinds_need_an_owner() {
    for kind in [
        FunctionKind::Constructor,
        FunctionKind::Destructor,
        FunctionKind::FieldInit,
        FunctionKind::Init,
    ] {
        let m = module(vec![function("X.f", kind, None, 1, "VOID")]);
        assert!(detail(validate(&m)).contains("need an owner class"), "{kind:?}");
    }
    let m = module(vec![function("P.$default", FunctionKind::Default, None, 0, "VOID")]);
    assert!(detail(validate(&m)).contains("needs an owner struct"));
}

#[test]
fn self_taking_kinds_need_a_parameter() {
    for kind in [FunctionKind::Constructor, FunctionKind::Destructor, FunctionKind::FieldInit] {
        let m = module(vec![function("C.f", kind, Some("C"), 0, "VOID")]);
        assert!(detail(validate(&m)).contains("take SELF first"), "{kind:?}");
    }
}

#[test]
fn destructor_must_return_void() {
    let m = module(vec![function("C.DESTRUCTOR", FunctionKind::Destructor, Some("C"), 1, "INTEGER")]);
    assert!(detail(validate(&m)).contains("destructor must return VOID"));
}

#[test]
fn default_constructor_takes_no_parameters() {
    let m = module(vec![function("P.$default", FunctionKind::Default, Some("P"), 1, "VOID")]);
    assert!(detail(validate(&m)).contains("must not take parameters"));
}

// ---------------------------------------------------------------------------
// Block structure, definite assignment, Phi and terminators

fn constant(destination: u32, value: i64) -> Instruction {
    Instruction::Constant {
        destination: ValueId(destination),
        value: Constant::Integer(value.to_string()),
        ty: int32(),
        span: span(),
    }
}

fn boolean(destination: u32) -> Instruction {
    Instruction::Constant {
        destination: ValueId(destination),
        value: Constant::Boolean(true),
        ty: Type::Boolean,
        span: span(),
    }
}

fn copy(destination: u32, source: u32) -> Instruction {
    Instruction::Copy { destination: ValueId(destination), source: ValueId(source), ty: int32(), span: span() }
}

fn block(id: u32, instructions: Vec<Instruction>, terminator: Terminator) -> BasicBlock {
    BasicBlock { id: BlockId(id), instructions, terminator }
}

fn start_with(blocks: Vec<BasicBlock>) -> Module {
    let mut f = function("Start", FunctionKind::Entry, None, 0, "VOID");
    f.blocks = blocks;
    module(vec![f])
}

/// A diamond: block 0 branches to 1 and 2, which both jump to 3.
fn diamond(left: Vec<Instruction>, right: Vec<Instruction>, join: Vec<Instruction>) -> Module {
    start_with(vec![
        block(
            0,
            vec![boolean(0)],
            Terminator::Branch { condition: ValueId(0), then_block: BlockId(1), else_block: BlockId(2) },
        ),
        block(1, left, Terminator::Jump { target: BlockId(3) }),
        block(2, right, Terminator::Jump { target: BlockId(3) }),
        block(3, join, Terminator::Return { value: None }),
    ])
}

#[test]
fn a_value_defined_on_one_branch_is_not_defined_at_the_join() {
    let m = diamond(vec![constant(1, 7)], vec![], vec![copy(2, 1)]);
    assert!(detail(validate(&m)).contains("not defined on every executable path"));
}

#[test]
fn a_value_defined_before_the_branch_is_defined_at_the_join() {
    let m = start_with(vec![
        block(
            0,
            vec![boolean(0), constant(1, 7)],
            Terminator::Branch { condition: ValueId(0), then_block: BlockId(1), else_block: BlockId(2) },
        ),
        block(1, vec![], Terminator::Jump { target: BlockId(3) }),
        block(2, vec![], Terminator::Jump { target: BlockId(3) }),
        block(3, vec![copy(2, 1)], Terminator::Return { value: None }),
    ]);
    validate(&m).expect("defined on every path");
}

#[test]
fn a_phi_joins_values_from_each_predecessor() {
    let phi = Instruction::Phi {
        destination: ValueId(3),
        incoming: vec![(BlockId(1), ValueId(1)), (BlockId(2), ValueId(2))],
        ty: int32(),
        span: span(),
    };
    let m = diamond(vec![constant(1, 7)], vec![constant(2, 8)], vec![phi, copy(4, 3)]);
    validate(&m).expect("phi over both predecessors");
}

#[test]
fn a_phi_must_name_every_executable_predecessor() {
    let phi = Instruction::Phi {
        destination: ValueId(3),
        incoming: vec![(BlockId(1), ValueId(1))],
        ty: int32(),
        span: span(),
    };
    let m = diamond(vec![constant(1, 7)], vec![constant(2, 8)], vec![phi]);
    assert!(detail(validate(&m)).contains("Phi"));
}

#[test]
fn a_phi_value_must_be_defined_out_of_its_predecessor() {
    let phi = Instruction::Phi {
        destination: ValueId(3),
        incoming: vec![(BlockId(1), ValueId(2)), (BlockId(2), ValueId(1))],
        ty: int32(),
        span: span(),
    };
    let m = diamond(vec![constant(1, 7)], vec![constant(2, 8)], vec![phi]);
    assert!(detail(validate(&m)).contains("Phi"));
}

#[test]
fn phis_precede_other_instructions() {
    let phi = Instruction::Phi {
        destination: ValueId(3),
        incoming: vec![(BlockId(1), ValueId(1)), (BlockId(2), ValueId(2))],
        ty: int32(),
        span: span(),
    };
    let m = diamond(vec![constant(1, 7)], vec![constant(2, 8)], vec![constant(5, 1), phi]);
    assert!(detail(validate(&m)).contains("Phi instructions must precede"));
}

#[test]
fn nothing_is_defined_on_entry_to_a_loop_header_at_the_entry() {
    // Block 0 is the entry and also a loop header: a value defined later in
    // the loop is not defined on the first arrival.
    let m = start_with(vec![
        block(
            0,
            vec![boolean(0), copy(2, 1)],
            Terminator::Branch { condition: ValueId(0), then_block: BlockId(1), else_block: BlockId(2) },
        ),
        block(1, vec![constant(1, 3)], Terminator::Jump { target: BlockId(0) }),
        block(2, vec![], Terminator::Return { value: None }),
    ]);
    assert!(detail(validate(&m)).contains("not defined on every executable path"));
}

#[test]
fn unreachable_blocks_are_not_held_to_definite_assignment() {
    let m = start_with(vec![
        block(0, vec![], Terminator::Return { value: None }),
        block(1, vec![copy(1, 99)], Terminator::Return { value: None }),
    ]);
    validate(&m).expect("block 1 is never executed");
}

#[test]
fn a_value_may_be_defined_only_once() {
    let m = start_with(vec![block(0, vec![constant(1, 1), constant(1, 2)], Terminator::Return { value: None })]);
    assert!(detail(validate(&m)).contains("more than one instruction"));
}

#[test]
fn block_ids_must_be_dense_and_successors_must_exist() {
    let m = start_with(vec![block(1, vec![], Terminator::Return { value: None })]);
    assert!(detail(validate(&m)).contains("dense and ordered"));
    let m = start_with(vec![block(0, vec![], Terminator::Jump { target: BlockId(4) })]);
    assert!(detail(validate(&m)).contains("does not exist"));
    let mut m = start_with(vec![block(0, vec![], Terminator::Return { value: None })]);
    m.functions[0].entry = BlockId(1);
    assert!(detail(validate(&m)).contains("entry block does not exist"));
}

#[test]
fn branch_conditions_must_be_boolean() {
    let m = start_with(vec![
        block(
            0,
            vec![constant(0, 1)],
            Terminator::Branch { condition: ValueId(0), then_block: BlockId(1), else_block: BlockId(1) },
        ),
        block(1, vec![], Terminator::Return { value: None }),
    ]);
    assert!(detail(validate(&m)).contains("BOOLEAN"));
}

#[test]
fn returns_must_match_the_return_type() {
    let mut m = start_with(vec![block(0, vec![constant(0, 1)], Terminator::Return { value: Some(ValueId(0)) })]);
    assert!(detail(validate(&m)).contains("VOID function cannot return a value"));
    m.functions[0].return_type = int32();
    validate(&m).expect("integer return");
    m.functions[0].blocks[0].terminator = Terminator::Return { value: None };
    assert!(detail(validate(&m)).contains("must return a value"));
    m.functions[0].return_type = Type::Alternative(vec![int32(), Type::Named("VOID".into())]);
    validate(&m).expect("an alternative with VOID may return nothing");
}

#[test]
fn stop_codes_must_be_integers() {
    let m = start_with(vec![block(0, vec![boolean(0)], Terminator::Stop { code: ValueId(0) })]);
    assert!(detail(validate(&m)).contains("stop code"));
    let m = start_with(vec![block(0, vec![constant(0, 3)], Terminator::Stop { code: ValueId(0) })]);
    validate(&m).expect("integer stop code");
}

#[test]
fn validated_modules_keep_the_module() {
    let m = module(vec![function("Start", FunctionKind::Entry, None, 0, "VOID")]);
    let validated = validate_module(m).expect("valid");
    assert_eq!(validated.as_module().functions.len(), 1);
    let inner = validated.into_module();
    assert_eq!(inner.functions[0].name, "Start");
    let bad = module(vec![function("Start", FunctionKind::Entry, None, 2, "VOID")]);
    assert_eq!(validate_module(bad).err().map(|d| d.code), Some("INVALID_IR".to_string()));
}

#[test]
fn duplicate_definitions_name_the_value_and_the_function() {
    let m = start_with(vec![block(0, vec![constant(1, 1), constant(1, 2)], Terminator::Return { value: None })]);
    assert_eq!(detail(validate(&m)), "value %1 is defined by more than one instruction in function Start");
}

#[test]
fn phi_messages_follow_the_order_of_the_checks() {
    // An entry naming a block that is not executable.
    let phi = Instruction::Phi {
        destination: ValueId(3),
        incoming: vec![(BlockId(1), ValueId(1)), (BlockId(9), ValueId(2))],
        ty: int32(),
        span: span(),
    };
    let m = diamond(vec![constant(1, 7)], vec![constant(2, 8)], vec![phi]);
    assert_eq!(detail(validate(&m)), "Phi in block 3 has invalid incoming predecessor 9 and value %2");
    // A predecessor left out.
    let phi = Instruction::Phi {
        destination: ValueId(3),
        incoming: vec![(BlockId(1), ValueId(1))],
        ty: int32(),
        span: span(),
    };
    let m = diamond(vec![constant(1, 7)], vec![constant(2, 8)], vec![phi]);
    assert_eq!(detail(validate(&m)), "Phi incoming edges must match the block predecessors exactly");
    // A value of another type.
    let phi = Instruction::Phi {
        destination: ValueId(3),
        incoming: vec![(BlockId(1), ValueId(1)), (BlockId(2), ValueId(2))],
        ty: Type::Boolean,
        span: span(),
    };
    let m = diamond(vec![constant(1, 7)], vec![constant(2, 8)], vec![phi]);
    assert_eq!(detail(validate(&m)), "Phi incoming values must match the Phi result type");
}

#[test]
fn operator_messages_name_the_operator() {
    let unary = Instruction::Unary {
        destination: ValueId(1),
        operator: "NOT".into(),
        operand: ValueId(0),
        ty: Type::Named("STRING".into()),
        span: span(),
    };
    let m = start_with(vec![block(0, vec![constant(0, 1), unary], Terminator::Return { value: None })]);
    assert_eq!(detail(validate(&m)), "unary operator NOT has incompatible operand/result types");
}

#[test]
fn call_and_vector_messages_tell_the_failures_apart() {
    let call = || Instruction::Call {
        destination: ValueId(1),
        callee: ValueId(0),
        arguments: Vec::new(),
        ty: int32(),
        span: span(),
    };
    let m = start_with(vec![block(0, vec![constant(0, 1), call()], Terminator::Return { value: None })]);
    assert_eq!(detail(validate(&m)), "call callee must have a function type");
    let m = start_with(vec![block(0, vec![call()], Terminator::Return { value: None })]);
    assert!(detail(validate(&m)).contains("not defined on every executable path"));
    let vector = Instruction::Vector { destination: ValueId(1), values: vec![ValueId(0)], ty: int32(), span: span() };
    let m = start_with(vec![block(0, vec![constant(0, 1), vector], Terminator::Return { value: None })]);
    assert_eq!(detail(validate(&m)), "vector instruction must produce a vector type");
}
