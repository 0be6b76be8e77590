use std::collections::HashMap;

use basicnext::casts::{
    emit_i128_fit_trunc, emit_same_type_copy, emit_to_boolean, i128_bounds, is_unsigned_exec,
    lower_cast,
};
use basicnext::codegen::{
    block_is_cyclic, checked_intrinsic_declaration, checked_intrinsic_name,
    emit_boolean_dispatch_result, emit_delete, emit_fat_pointer_store, emit_float_dispatch_result,
    emit_integer_dispatch_result, emit_member, emit_optional_float_default,
    emit_store_object_class, emit_string_dispatch_result, emit_string_or_eof_is,
    emit_vector_length, extend_to_i32_index, extract_optional_float, float_compare_opcode,
    for_condition_supported, function_return_llvm, integer_compare_opcode, is_bndata_dataframe_type,
    is_test_name,
    llvm_vector_dimension_supported, lower_bnlog_status, parameter_semantic_type,
    reachable_block_ids,
};
use basicnext::emission::{EmissionState, EmittedControlFlow, take_continuation};
use basicnext::llvm::LlvmType;
use basicnext::model::{
    BasicBlock, BlockId, FieldId, FieldLayout, FieldLayoutEntry, FieldSlot, Function, FunctionKind,
    Instruction, Module, SymbolId, Terminator, ValueId,
};
use basicnext::source::{Position, Span};
use basicnext::types::{FloatType, IntegerType, ModuleId, Type};

fn lines(ls: &[&str]) -> String {
    ls.iter().map(|l| format!("{l}\n")).collect()
}

fn span() -> Span {
    let position = Position { source_id: 1, revision: 1, offset: 0, line: 1, column: 1 };
    Span { start: position, end: position }
}

fn block(id: u32, terminator: Terminator) -> BasicBlock {
    BasicBlock { id: BlockId(id), instructions: Vec::new(), terminator }
}

fn jump(target: u32) -> Terminator {
    Terminator::Jump { target: BlockId(target) }
}

fn function(blocks: Vec<BasicBlock>) -> Function {
    Function {
        name: "Start".into(),
        kind: FunctionKind::Entry,
        owner: None,
        asynchronous: false,
        parameters: Vec::new(),
        weak_symbols: Vec::new(),
        return_type: Type::Named("VOID".into()),
        entry: BlockId(0),
        blocks,
        span: span(),
    }
}

#[test]
fn integer_dispatch_result_checks_kind_two_and_status_zero() {
    let mut text = String::new();
    emit_integer_dispatch_result(&mut text, ValueId(7), "call i32 @f()");
    let expected = lines(&[
        "  %dispatchrc7 = call i32 @f()",
        "  %dispatchkind7 = load i32, ptr %dispatchresult7",
        "  %dispatchok7 = icmp eq i32 %dispatchkind7, 2",
        "  %dispatchrcok7 = icmp eq i32 %dispatchrc7, 0",
        "  %dispatchgood7 = and i1 %dispatchok7, %dispatchrcok7",
        "  %dispatchpayload7 = getelementptr i8, ptr %dispatchresult7, i64 8",
        "  %dispatchvalue7 = load i64, ptr %dispatchpayload7",
        "  %dispatcherrorflag7 = xor i1 %dispatchgood7, true",
        "  %dispatchagg07 = insertvalue { i1, ptr, i64 } undef, i1 %dispatcherrorflag7, 0",
        "  %dispatchagg17 = insertvalue { i1, ptr, i64 } %dispatchagg07, ptr null, 1",
        "  %v7 = insertvalue { i1, ptr, i64 } %dispatchagg17, i64 %dispatchvalue7, 2",
    ]);
    assert_eq!(text, expected);
}

#[test]
fn float_dispatch_result_carries_the_bits_of_a_double() {
    let mut text = String::from("; before\n");
    emit_float_dispatch_result(&mut text, ValueId(3), "call i32 @g()");
    assert!(text.starts_with("; before\n  %dispatchrc3 = call i32 @g()\n"));
    assert!(text.contains("  %dispatchok3 = icmp eq i32 %dispatchkind3, 3\n"));
    assert!(text.contains("  %dispatchvalue3 = load double, ptr %dispatchpayload3\n"));
    assert!(text.contains("  %dispatchbits3 = bitcast double %dispatchvalue3 to i64\n"));
    assert!(text.ends_with("  %v3 = insertvalue { i1, ptr, i64 } %dispatchagg13, i64 %dispatchbits3, 2\n"));
    assert_eq!(text.lines().count(), 13);
}

#[test]
fn string_dispatch_result_stores_the_pointer_in_the_second_field() {
    let mut text = String::new();
    emit_string_dispatch_result(&mut text, ValueId(4), "call i32 @h()");
    assert!(text.contains("  %dispatchok4 = icmp eq i32 %dispatchkind4, 4\n"));
    assert!(text.contains("  %dispatchvalue4 = load ptr, ptr %dispatchpayload4\n"));
    assert!(!text.contains("%dispatchagg14"));
    assert!(text.ends_with("  %v4 = insertvalue { i1, ptr, i64 } %dispatchagg04, ptr %dispatchvalue4, 1\n"));
    assert_eq!(text.lines().count(), 10);
}

#[test]
fn boolean_dispatch_result_checks_kind_one() {
    let mut text = String::new();
    emit_boolean_dispatch_result(&mut text, ValueId(0), "call i32 @b()");
    assert!(text.contains("  %dispatchok0 = icmp eq i32 %dispatchkind0, 1\n"));
    assert!(text.ends_with("  %v0 = insertvalue { i1, ptr, i64 } %dispatchagg10, i64 %dispatchvalue0, 2\n"));
}

#[test]
fn integer_bounds_are_the_type_ranges() {
    let cases = [
        (IntegerType::Byte, "0", "255"),
        (IntegerType::Int8, "-128", "127"),
        (IntegerType::Int16, "-32768", "32767"),
        (IntegerType::Int32, "-2147483648", "2147483647"),
        (IntegerType::Int64, "-9223372036854775808", "9223372036854775807"),
        (IntegerType::UInt16, "0", "65535"),
        (IntegerType::UInt32, "0", "4294967295"),
        (IntegerType::UInt64, "0", "18446744073709551615"),
    ];
    for (kind, lo, hi) in cases {
        let (min, max) = i128_bounds(&Type::Integer(kind));
        assert_eq!(min, lo);
        assert_eq!(max, hi);
    }
}

#[test]
fn unsigned_types_are_the_unsigned_integer_kinds() {
    assert!(is_unsigned_exec(&Type::Integer(IntegerType::Byte)));
    assert!(is_unsigned_exec(&Type::Integer(IntegerType::UInt64)));
    assert!(!is_unsigned_exec(&Type::Integer(IntegerType::Int8)));
    assert!(!is_unsigned_exec(&Type::IntegerLiteral(5)));
    assert!(!is_unsigned_exec(&Type::Float(FloatType::Float64)));
}

#[test]
fn comparisons_follow_signedness() {
    let int32 = Type::Integer(IntegerType::Int32);
    let uint32 = Type::Integer(IntegerType::UInt32);
    assert_eq!(integer_compare_opcode("Less", &int32), "icmp slt");
    assert_eq!(integer_compare_opcode("Less", &uint32), "icmp ult");
    assert_eq!(integer_compare_opcode("LessEqual", &uint32), "icmp ule");
    assert_eq!(integer_compare_opcode("Greater", &int32), "icmp sgt");
    assert_eq!(integer_compare_opcode("GreaterEqual", &uint32), "icmp uge");
    assert_eq!(integer_compare_opcode("Equal", &uint32), "icmp eq");
    assert_eq!(integer_compare_opcode("Assign", &int32), "icmp eq");
    assert_eq!(integer_compare_opcode("NotEqual", &int32), "icmp ne");
    assert_eq!(float_compare_opcode("Less"), "fcmp olt");
    assert_eq!(float_compare_opcode("GreaterEqual"), "fcmp oge");
    assert_eq!(float_compare_opcode("Assign"), "fcmp oeq");
    assert_eq!(float_compare_opcode("NotEqual"), "fcmp one");
}

#[test]
fn checked_intrinsics_name_sign_operation_and_width() {
    let int32 = Type::Integer(IntegerType::Int32);
    let byte = Type::Integer(IntegerType::Byte);
    assert_eq!(checked_intrinsic_name(&int32, "Plus").as_deref(), Some("llvm.sadd.with.overflow.i32"));
    assert_eq!(checked_intrinsic_name(&byte, "Minus").as_deref(), Some("llvm.usub.with.overflow.i8"));
    assert_eq!(
        checked_intrinsic_name(&Type::Integer(IntegerType::UInt64), "Star").as_deref(),
        Some("llvm.umul.with.overflow.i64")
    );
    assert_eq!(
        checked_intrinsic_name(&Type::IntegerLiteral(3), "Multiply").as_deref(),
        Some("llvm.smul.with.overflow.i64")
    );
    assert_eq!(checked_intrinsic_name(&int32, "Divide"), None);
    assert_eq!(checked_intrinsic_name(&Type::Float(FloatType::Float64), "Plus"), None);
    assert_eq!(checked_intrinsic_name(&Type::Boolean, "Plus"), None);
    assert_eq!(
        checked_intrinsic_declaration(&Type::Integer(IntegerType::Int16), "Plus").as_deref(),
        Some("{ i16, i1 } @llvm.sadd.with.overflow.i16(i16, i16)")
    );
    assert_eq!(
        checked_intrinsic_declaration(&byte, "Star").as_deref(),
        Some("{ i8, i1 } @llvm.umul.with.overflow.i8(i8, i8)")
    );
    assert_eq!(checked_intrinsic_declaration(&Type::String, "Plus"), None);
}

#[test]
fn void_functions_return_void() {
    assert_eq!(function_return_llvm(&Type::Named("VOID".into())).as_deref(), Some("void"));
    assert_eq!(function_return_llvm(&Type::Integer(IntegerType::Int32)).as_deref(), Some("i32"));
    assert_eq!(function_return_llvm(&Type::String).as_deref(), Some("ptr"));
    assert_eq!(function_return_llvm(&Type::Unknown), None);
}

#[test]
fn loops_are_cyclic_and_straight_lines_are_not() {
    let straight = function(vec![
        block(0, jump(1)),
        block(1, Terminator::Return { value: None }),
    ]);
    assert!(!block_is_cyclic(&straight, BlockId(0)));
    assert!(!block_is_cyclic(&straight, BlockId(1)));
    assert!(!block_is_cyclic(&straight, BlockId(9)));

    let looping = function(vec![
        block(0, jump(1)),
        block(
            1,
            Terminator::Branch { condition: ValueId(0), then_block: BlockId(2), else_block: BlockId(3) },
        ),
        block(2, jump(1)),
        block(3, Terminator::Return { value: None }),
    ]);
    assert!(!block_is_cyclic(&looping, BlockId(0)));
    assert!(block_is_cyclic(&looping, BlockId(1)));
    assert!(block_is_cyclic(&looping, BlockId(2)));
    assert!(!block_is_cyclic(&looping, BlockId(3)));

    let self_loop = function(vec![block(0, jump(0))]);
    assert!(block_is_cyclic(&self_loop, BlockId(0)));
}

#[test]
fn vector_dimensions_fit_in_i32_lengths() {
    assert!(llvm_vector_dimension_supported(0));
    assert!(llvm_vector_dimension_supported(4_294_967_295));
    assert!(!llvm_vector_dimension_supported(4_294_967_296));
}

#[test]
fn for_conditions_need_three_machine_integers() {
    let mut values = HashMap::new();
    values.insert(1u32, Type::Integer(IntegerType::Int32));
    values.insert(2u32, Type::IntegerLiteral(10));
    values.insert(3u32, Type::Integer(IntegerType::Byte));
    values.insert(4u32, Type::Float(FloatType::Float64));
    let ids = |xs: &[u32]| xs.iter().map(|x| ValueId(*x)).collect::<Vec<_>>();
    assert!(for_condition_supported(&ids(&[1, 2, 3]), &values));
    assert!(!for_condition_supported(&ids(&[1, 2]), &values));
    assert!(!for_condition_supported(&ids(&[1, 2, 4]), &values));
    assert!(!for_condition_supported(&ids(&[1, 2, 9]), &values));
}

#[test]
fn continuations_are_numbered_per_function() {
    let mut state = EmissionState::new();
    assert_eq!(take_continuation(BlockId(4), &mut state), "b4.cont0");
    assert_eq!(take_continuation(BlockId(2), &mut state), "b2.cont1");
    assert_eq!(state.continuation_count, 2);
}

#[test]
fn fit_truncation_checks_both_bounds_and_traps() {
    let mut state = EmissionState::new();
    state.continuation_count = 5;
    let mut text = String::new();
    emit_i128_fit_trunc(&mut text, BlockId(1), 9, "i8", &Type::Integer(IntegerType::Int8), &mut state);
    let expected = lines(&[
        "  %castlo9 = icmp slt i128 %castw9, -128",
        "  %casthi9 = icmp sgt i128 %castw9, 127",
        "  %castov9 = or i1 %castlo9, %casthi9",
        "  br i1 %castov9, label %trap_numeric_overflow, label %b1.cont5",
        "b1.cont5:",
        "  %v9 = trunc i128 %castw9 to i8",
    ]);
    assert_eq!(text, expected);
    assert!(state.needs_numeric_overflow_trap);
    assert_eq!(state.continuation_count, 6);
}

#[test]
fn indexed_stores_trap_out_of_bounds() {
    let mut state = EmissionState::new();
    let mut text = String::new();
    emit_fat_pointer_store(
        &mut text,
        BlockId(0),
        3,
        "%setfat3",
        "%i",
        "%x",
        "i32",
        "b0.cont0".into(),
        &mut state,
    );
    let expected = lines(&[
        "  %setptr3 = extractvalue { ptr, i32 } %setfat3, 0",
        "  %setlen3 = extractvalue { ptr, i32 } %setfat3, 1",
        "  %setneg3 = icmp slt i32 %i, 0",
        "  %setoob3 = icmp uge i32 %i, %setlen3",
        "  %setbad3 = or i1 %setneg3, %setoob3",
        "  br i1 %setbad3, label %trap_numeric_overflow, label %b0.cont0",
        "b0.cont0:",
        "  %setslot3 = getelementptr i32, ptr %setptr3, i32 %i",
        "  store i32 %x, ptr %setslot3",
    ]);
    assert_eq!(text, expected);
    assert!(state.needs_numeric_overflow_trap);
}

#[test]
fn indices_are_converted_to_i32() {
    let mut text = String::new();
    assert_eq!(extend_to_i32_index(&mut text, ValueId(1), &Type::Integer(IntegerType::Int32)), "%v1");
    assert_eq!(text, "");
    assert_eq!(extend_to_i32_index(&mut text, ValueId(2), &Type::Integer(IntegerType::Int64)), "%stridx2");
    assert_eq!(text, "  %stridx2 = trunc i64 %v2 to i32\n");
    let mut text = String::new();
    assert_eq!(extend_to_i32_index(&mut text, ValueId(3), &Type::Integer(IntegerType::Byte)), "%stridx3");
    assert_eq!(text, "  %stridx3 = zext i8 %v3 to i32\n");
    let mut text = String::new();
    extend_to_i32_index(&mut text, ValueId(4), &Type::Integer(IntegerType::Int16));
    assert_eq!(text, "  %stridx4 = sext i16 %v4 to i32\n");
}

#[test]
fn log_status_is_an_error_union() {
    let mut text = String::new();
    lower_bnlog_status(&mut text, ValueId(5), "call i32 @bn_log()");
    let expected = lines(&[
        "  %logrc5 = call i32 @bn_log()",
        "  %logerr5 = icmp ne i32 %logrc5, 0",
        "  %logmsg5 = select i1 %logerr5, ptr @.bn_log_error, ptr null",
        "  %logcode5 = sext i32 %logrc5 to i64",
        "  %logagg0_5 = insertvalue { i1, ptr, i64 } undef, i1 %logerr5, 0",
        "  %logagg1_5 = insertvalue { i1, ptr, i64 } %logagg0_5, ptr %logmsg5, 1",
        "  %v5 = insertvalue { i1, ptr, i64 } %logagg1_5, i64 %logcode5, 2",
    ]);
    assert_eq!(text, expected);
}

#[test]
fn small_emitters() {
    let mut text = String::new();
    emit_vector_length(&mut text, ValueId(2), ValueId(1));
    assert_eq!(text, "  %v2 = extractvalue { ptr, i32 } %v1, 1\n");
    let mut text = String::new();
    emit_optional_float_default(&mut text, ValueId(6));
    assert_eq!(
        text,
        "  %na6 = insertvalue { i1, double } undef, i1 false, 0\n  %v6 = insertvalue { i1, double } %na6, double 0.0, 1\n"
    );
    let mut text = String::new();
    extract_optional_float(&mut text, ValueId(8), ValueId(7));
    assert_eq!(text, "  %v8 = extractvalue { i1, double } %v7, 1\n");
}

#[test]
fn type_tests_name_what_they_test() {
    assert_eq!(is_test_name(&Type::TypeName("EOF".into())), "EOF");
    assert_eq!(is_test_name(&Type::Named("Error".into())), "Error");
    assert_eq!(is_test_name(&Type::NotAvailable), "NA");
    assert_eq!(is_test_name(&Type::Null), "NULL");
    assert_eq!(is_test_name(&Type::Boolean), "");
}

#[test]
fn input_strings_test_against_the_eof_sentinel() {
    let mut text = String::new();
    assert!(emit_string_or_eof_is(&mut text, ValueId(2), ValueId(1), &Type::String, "EOF"));
    assert_eq!(text, "  %v2 = icmp eq ptr %v1, @.bn_eof\n");
    let mut text = String::new();
    assert!(emit_string_or_eof_is(&mut text, ValueId(3), ValueId(1), &Type::String, "STRING"));
    assert_eq!(text, "  %v3 = icmp ne ptr %v1, @.bn_eof\n");
    let mut text = String::new();
    assert!(!emit_string_or_eof_is(&mut text, ValueId(3), ValueId(1), &Type::String, "INTEGER"));
    assert!(!emit_string_or_eof_is(&mut text, ValueId(3), ValueId(1), &Type::Boolean, "EOF"));
    assert_eq!(text, "");
}

#[test]
fn phi_nodes_name_the_last_emitted_block_of_each_predecessor() {
    let mut flow = EmittedControlFlow::new();
    let mut text = String::new();
    flow.label(&mut text, "b0".into());
    text.push_str("  br label %b1\n");
    flow.finish_block(BlockId(0));
    flow.label(&mut text, "b1".into());
    let offset = text.len();
    flow.defer_phi(offset, ValueId(4), "i32", &[(BlockId(0), ValueId(1)), (BlockId(2), ValueId(3))]);
    text.push_str("  br label %b2\n");
    flow.finish_block(BlockId(1));
    flow.label(&mut text, "b2".into());
    flow.label(&mut text, "b2.cont0".into());
    text.push_str("  br label %b1\n");
    flow.finish_block(BlockId(2));
    flow.resolve(&mut text).expect("every Phi has an emitted predecessor");
    let expected = "b0:\n  br label %b1\nb1:\n  %v4 = phi i32 [ %v1, %b0 ], [ %v3, %b2.cont0 ]\n  br label %b2\nb2:\nb2.cont0:\n  br label %b1\n";
    assert_eq!(text, expected);
}

#[test]
fn phi_nodes_keep_their_recorded_positions() {
    let mut flow = EmittedControlFlow::new();
    let mut text = String::from("AB");
    flow.label(&mut text, "x".into());
    flow.finish_block(BlockId(0));
    flow.defer_phi(1, ValueId(1), "i8", &[(BlockId(0), ValueId(5))]);
    flow.defer_phi(2, ValueId(2), "i8", &[(BlockId(0), ValueId(6)), (BlockId(7), ValueId(7))]);
    flow.resolve(&mut text).expect("resolves");
    assert_eq!(text, "A  %v1 = phi i8 [ %v5, %x ]\nB  %v2 = phi i8 [ %v6, %x ]\nx:\n");
}

#[test]
fn phi_offsets_are_byte_offsets() {
    let mut flow = EmittedControlFlow::new();
    let mut text = String::from("; \u{e9}\n");
    let offset = text.len();
    text.push_str("tail\n");
    flow.label(&mut text, "x".into());
    flow.finish_block(BlockId(0));
    flow.defer_phi(offset, ValueId(1), "i8", &[(BlockId(0), ValueId(5))]);
    flow.resolve(&mut text).expect("resolves");
    assert_eq!(text, "; \u{e9}\n  %v1 = phi i8 [ %v5, %x ]\ntail\nx:\n");
}

#[test]
fn phi_without_emitted_predecessor_is_an_error() {
    let mut flow = EmittedControlFlow::new();
    let mut text = String::new();
    flow.defer_phi(0, ValueId(9), "i1", &[(BlockId(3), ValueId(1))]);
    let error = flow.resolve(&mut text).expect_err("no predecessor was emitted");
    assert_eq!(error, "Phi %v9 has no reachable emitted predecessor");
    assert_eq!(text, "");
}

#[test]
fn integer_casts_widen_check_and_truncate() {
    let mut state = EmissionState::new();
    let mut text = String::new();
    lower_cast(
        &mut text,
        BlockId(2),
        ValueId(5),
        ValueId(4),
        &Type::Integer(IntegerType::UInt32),
        &Type::Integer(IntegerType::Byte),
        &mut state,
    );
    let expected = lines(&[
        "  %castw5 = zext i32 %v4 to i128",
        "  %castlo5 = icmp slt i128 %castw5, 0",
        "  %casthi5 = icmp sgt i128 %castw5, 255",
        "  %castov5 = or i1 %castlo5, %casthi5",
        "  br i1 %castov5, label %trap_numeric_overflow, label %b2.cont0",
        "b2.cont0:",
        "  %v5 = trunc i128 %castw5 to i8",
    ]);
    assert_eq!(text, expected);
    assert_eq!(state.continuation_count, 1);
    assert!(state.needs_numeric_overflow_trap);
}

#[test]
fn float_to_integer_casts_reject_nan_and_infinities() {
    let mut state = EmissionState::new();
    let mut text = String::new();
    lower_cast(
        &mut text,
        BlockId(0),
        ValueId(2),
        ValueId(1),
        &Type::Float(FloatType::Float64),
        &Type::Integer(IntegerType::Int32),
        &mut state,
    );
    let expected = lines(&[
        "  %castnan2 = fcmp uno double %v1, 0.0",
        "  %castpinf2 = fcmp oeq double %v1, 0x7FF0000000000000",
        "  %castninf2 = fcmp oeq double %v1, 0xFFF0000000000000",
        "  %castinf2 = or i1 %castpinf2, %castninf2",
        "  %castbad2 = or i1 %castnan2, %castinf2",
        "  br i1 %castbad2, label %trap_numeric_overflow, label %b0.cont0",
        "b0.cont0:",
        "  %castw2 = fptosi double %v1 to i128",
        "  %castlo2 = icmp slt i128 %castw2, -2147483648",
        "  %casthi2 = icmp sgt i128 %castw2, 2147483647",
        "  %castov2 = or i1 %castlo2, %casthi2",
        "  br i1 %castov2, label %trap_numeric_overflow, label %b0.cont1",
        "b0.cont1:",
        "  %v2 = trunc i128 %castw2 to i32",
    ]);
    assert_eq!(text, expected);
    assert_eq!(state.continuation_count, 2);
}

#[test]
fn casts_without_range_checks() {
    let cases: Vec<(Type, Type, &str)> = vec![
        (Type::Integer(IntegerType::UInt16), Type::Float(FloatType::Float64), "  %v3 = uitofp i16 %v1 to double\n"),
        (Type::IntegerLiteral(7), Type::Float(FloatType::Float32), "  %v3 = sitofp i64 %v1 to float\n"),
        (Type::Float(FloatType::Float32), Type::Float(FloatType::Float64), "  %v3 = fpext float %v1 to double\n"),
        (Type::FloatLiteral, Type::Float(FloatType::Float32), "  %v3 = fptrunc double %v1 to float\n"),
        (Type::Float(FloatType::Float32), Type::Float(FloatType::Float32), "  %v3 = fadd float 0.0, %v1\n"),
        (Type::String, Type::String, "  %v3 = getelementptr i8, ptr %v1, i64 0\n"),
        (Type::Boolean, Type::Boolean, "  %v3 = or i1 false, %v1\n"),
        (Type::Integer(IntegerType::Int16), Type::Boolean, "  %v3 = icmp ne i16 %v1, 0\n"),
        (Type::Float(FloatType::Float64), Type::Boolean, "  %v3 = fcmp une double %v1, 0.0\n"),
        (Type::String, Type::Boolean, "  %boolch3 = load i8, ptr %v1\n  %v3 = icmp ne i8 %boolch3, 0\n"),
    ];
    for (source, target, expected) in cases {
        let mut state = EmissionState::new();
        let mut text = String::new();
        lower_cast(&mut text, BlockId(0), ValueId(3), ValueId(1), &source, &target, &mut state);
        assert_eq!(text, expected);
        assert_eq!(state.continuation_count, 0);
        assert!(!state.needs_numeric_overflow_trap);
    }
}

#[test]
fn same_type_copies_keep_the_value() {
    let mut text = String::new();
    emit_same_type_copy(&mut text, ValueId(2), ValueId(1), &Type::Integer(IntegerType::Int64));
    assert_eq!(text, "  %v2 = add i64 0, %v1\n");
    let mut text = String::new();
    emit_same_type_copy(&mut text, ValueId(2), ValueId(1), &Type::Float(FloatType::Float64));
    assert_eq!(text, "  %v2 = fadd double 0.0, %v1\n");
}

#[test]
fn truth_of_values() {
    let mut text = String::new();
    emit_to_boolean(&mut text, ValueId(9), ValueId(8), LlvmType::I8);
    assert_eq!(text, "  %v9 = icmp ne i8 %v8, 0\n");
    let mut text = String::new();
    emit_to_boolean(&mut text, ValueId(9), ValueId(8), LlvmType::Float);
    assert_eq!(text, "  %v9 = fcmp une float %v8, 0.0\n");
}

fn bag() -> Module {
    let entry = |id: u32, ty: Type| FieldLayoutEntry {
        id: FieldId::from_raw(id),
        slot: FieldSlot::from_raw(id),
        ty,
        declaring_owner: "Bag".into(),
        weak: false,
        span: span(),
    };
    let vector = || Type::Vector { element: Box::new(Type::Integer(IntegerType::Int32)), dimensions: vec![3] };
    let mut module = Module::empty();
    module.field_names = vec!["count".into(), "items".into(), "name".into(), "more".into()];
    module.field_layouts = vec![(
        "Bag".into(),
        FieldLayout {
            owner: "Bag".into(),
            fields: vec![
                entry(0, Type::Integer(IntegerType::Int32)),
                entry(1, vector()),
                entry(2, Type::String),
                entry(3, vector()),
            ],
            span: span(),
        },
    )];
    module
}

#[test]
fn deleting_an_object_frees_its_vector_fields_first() {
    let module = bag();
    let mut text = String::new();
    emit_delete(&mut text, &module, ValueId(3), &Type::Named("Bag".into()));
    let expected = lines(&[
        "  %delfieldptr3_0 = getelementptr i8, ptr %v3, i32 24",
        "  %delfield3_0 = load { ptr, i32 }, ptr %delfieldptr3_0",
        "  %delfielddata3_0 = extractvalue { ptr, i32 } %delfield3_0, 0",
        "  call void @free(ptr %delfielddata3_0)",
        "  %delfieldptr3_1 = getelementptr i8, ptr %v3, i32 48",
        "  %delfield3_1 = load { ptr, i32 }, ptr %delfieldptr3_1",
        "  %delfielddata3_1 = extractvalue { ptr, i32 } %delfield3_1, 0",
        "  call void @free(ptr %delfielddata3_1)",
        "  call void @free(ptr %v3)",
    ]);
    assert_eq!(text, expected);
}

#[test]
fn deleting_a_vector_frees_its_buffer() {
    let module = bag();
    let mut text = String::new();
    let vector = Type::Vector { element: Box::new(Type::Boolean), dimensions: vec![2] };
    emit_delete(&mut text, &module, ValueId(1), &vector);
    assert_eq!(text, "  %delptr1 = extractvalue { ptr, i32 } %v1, 0\n  call void @free(ptr %delptr1)\n");
    let mut text = String::new();
    emit_delete(&mut text, &module, ValueId(1), &Type::Named("Plain".into()));
    assert_eq!(text, "  call void @free(ptr %v1)\n");
}

#[test]
fn members_load_at_their_offset() {
    let mut text = String::new();
    emit_member(&mut text, ValueId(7), ValueId(2), 24, &Type::Integer(IntegerType::Int64));
    assert_eq!(text, "  %mbrptr7 = getelementptr i8, ptr %v2, i32 24\n  %v7 = load i64, ptr %mbrptr7\n");
    let mut text = String::new();
    emit_store_object_class(&mut text, ValueId(2), "@.bn_cls_Box");
    assert_eq!(text, "  store ptr @.bn_cls_Box, ptr %v2\n");
}

#[test]
fn unreachable_blocks_are_skipped() {
    let f = function(vec![
        block(0, jump(2)),
        block(1, jump(0)),
        block(2, Terminator::Return { value: None }),
    ]);
    let ids = reachable_block_ids(&f);
    assert!(ids.contains(&0));
    assert!(!ids.contains(&1));
    assert!(ids.contains(&2));
    assert_eq!(ids.len(), 2);
}

#[test]
fn parameters_are_typed_by_their_first_use() {
    let load = |symbol: u32, ty: Type| Instruction::Load {
        destination: ValueId(symbol + 10),
        symbol: SymbolId(symbol),
        ty,
        span: span(),
    };
    let store = |symbol: u32, ty: Type| Instruction::Store { symbol: SymbolId(symbol), value: ValueId(0), ty, span: span() };
    let mut f = function(vec![block(0, jump(1)), block(1, Terminator::Return { value: None })]);
    f.blocks[0].instructions = vec![load(1, Type::String)];
    f.blocks[1].instructions = vec![store(2, Type::Boolean), load(1, Type::Integer(IntegerType::Int32))];
    assert!(matches!(parameter_semantic_type(&f, SymbolId(1)), Some(Type::String)));
    assert!(matches!(parameter_semantic_type(&f, SymbolId(2)), Some(Type::Boolean)));
    assert!(parameter_semantic_type(&f, SymbolId(3)).is_none());
}

#[test]
fn dataframes_come_from_bndata_providers() {
    let mut module = Module::empty();
    module.bndata_providers = vec![ModuleId(2)];
    let frame = |id: u32, name: &str| Type::ImportedNamed { module: ModuleId(id), name: name.into() };
    assert!(is_bndata_dataframe_type(&module, &frame(2, "DataFrame")));
    assert!(!is_bndata_dataframe_type(&module, &frame(3, "DataFrame")));
    assert!(!is_bndata_dataframe_type(&module, &frame(2, "Series")));
    assert!(!is_bndata_dataframe_type(&module, &Type::Named("DataFrame".into())));
}
