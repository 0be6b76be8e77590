use basicnext::emission::EmissionState;
use basicnext::model::ValueId;
use basicnext::print::{
    lower_print_int32_vector, lower_print_language_error_union, lower_print_optional_integer,
};
use basicnext::types::{FloatType, IntegerType, Type};

fn lines(ls: &[&str]) -> String {
    ls.iter().map(|l| format!("{l}\n")).collect()
}

#[test]
fn error_unions_print_the_error_or_the_value() {
    let mut state = EmissionState::new();
    state.print_count = 4;
    let mut text = String::new();
    lower_print_language_error_union(&mut text, ValueId(9), true, false, None, &mut state);
    let expected = lines(&[
        "  %unionerror4 = extractvalue { i1, ptr, i64 } %v9, 0",
        "  %unionmessage4 = extractvalue { i1, ptr, i64 } %v9, 1",
        "  %unionpayload4 = extractvalue { i1, ptr, i64 } %v9, 2",
        "  br i1 %unionerror4, label %unionerr4, label %unionvalue4",
        "unionerr4:",
        "  %unionerrprint4 = call i32 (ptr, ...) @printf(ptr @.bn_fmt_error, i64 %unionpayload4, ptr %unionmessage4)",
        "  br label %unionjoin4",
        "unionvalue4:",
        "  %unionintprint4 = call i32 (ptr, ...) @printf(ptr @.bn_fmt_int, i64 %unionpayload4)",
        "  br label %unionjoin4",
        "unionjoin4:",
    ]);
    assert_eq!(text, expected);
    assert_eq!(state.print_count, 5);
}

#[test]
fn scalar_unions_check_for_na_first() {
    let mut state = EmissionState::new();
    let mut text = String::new();
    let float = Type::Float(FloatType::Float64);
    lower_print_language_error_union(&mut text, ValueId(1), false, false, Some(&float), &mut state);
    assert!(text.contains("unionvalue0:\n  %unionnaptr0 = getelementptr [3 x i8], ptr @.bn_na, i64 0, i64 0\n"));
    assert!(text.contains("  br i1 %unionisna0, label %unionna0, label %unionpresent0\nunionna0:\n"));
    assert!(text.contains(
        "unionpresent0:\n  %unionfloat0 = bitcast i64 %unionpayload0 to double\n  call void @bn_rt_print_float(double %unionfloat0)\n"
    ));
    assert!(text.ends_with("  br label %unionjoin0\nunionjoin0:\n"));

    let mut text = String::new();
    lower_print_language_error_union(&mut text, ValueId(1), false, false, Some(&Type::Boolean), &mut state);
    assert!(text.contains("  %unionboolstr1 = select i1 %unionbool1, ptr @.bn_true, ptr @.bn_false\n"));

    let mut text = String::new();
    let int = Type::Integer(IntegerType::Int32);
    lower_print_language_error_union(&mut text, ValueId(1), false, false, Some(&int), &mut state);
    assert!(text.contains("unionpresent2:\n  %unionintprint2 = call i32 (ptr, ...) @printf(ptr @.bn_fmt_int, i64 %unionpayload2)\n"));
    assert_eq!(state.print_count, 3);
}

#[test]
fn void_and_string_unions() {
    let mut state = EmissionState::new();
    let mut text = String::new();
    lower_print_language_error_union(&mut text, ValueId(2), false, true, None, &mut state);
    assert!(text.contains("  %unionnullprint0 = call i32 (ptr, ...) @printf(ptr @.bn_fmt_str, ptr @.bn_null)\n"));
    let mut text = String::new();
    lower_print_language_error_union(&mut text, ValueId(2), false, false, None, &mut state);
    assert!(text.contains("  %unionstrprint1 = call i32 (ptr, ...) @printf(ptr @.bn_fmt_str, ptr %unionmessage1)\n"));
}

#[test]
fn optional_integers_print_null_or_the_number() {
    let mut state = EmissionState::new();
    let mut text = String::new();
    lower_print_optional_integer(&mut text, ValueId(3), &mut state);
    let expected = lines(&[
        "  %optisnull0 = extractvalue { i1, i32 } %v3, 0",
        "  %optintval0 = extractvalue { i1, i32 } %v3, 1",
        "  br i1 %optisnull0, label %optnull0, label %optint0",
        "optnull0:",
        "  %optnullprint0 = call i32 (ptr, ...) @printf(ptr @.bn_fmt_str, ptr @.bn_null)",
        "  br label %optintjoin0",
        "optint0:",
        "  %optintwide0 = sext i32 %optintval0 to i64",
        "  %optintprint0 = call i32 (ptr, ...) @printf(ptr @.bn_fmt_int, i64 %optintwide0)",
        "  br label %optintjoin0",
        "optintjoin0:",
    ]);
    assert_eq!(text, expected);
    assert_eq!(state.print_count, 1);
}

#[test]
fn integer_vectors_print_in_brackets() {
    let mut state = EmissionState::new();
    state.print_count = 2;
    let mut text = String::new();
    lower_print_int32_vector(&mut text, ValueId(6), 2, &mut state);
    let expected = lines(&[
        "  %vecopen2 = call i32 @putchar(i32 91)",
        "  %vecprintdata2 = extractvalue { ptr, i32 } %v6, 0",
        "  %vecitemptr3 = getelementptr i32, ptr %vecprintdata2, i64 0",
        "  %vecitem3 = load i32, ptr %vecitemptr3",
        "  %vecitem64_3 = sext i32 %vecitem3 to i64",
        "  %vecprint3 = call i32 (ptr, ...) @printf(ptr @.bn_fmt_int, i64 %vecitem64_3)",
        "  %veccomma4 = call i32 @putchar(i32 44)",
        "  %vecspace4 = call i32 @putchar(i32 32)",
        "  %vecitemptr4 = getelementptr i32, ptr %vecprintdata2, i64 1",
        "  %vecitem4 = load i32, ptr %vecitemptr4",
        "  %vecitem64_4 = sext i32 %vecitem4 to i64",
        "  %vecprint4 = call i32 (ptr, ...) @printf(ptr @.bn_fmt_int, i64 %vecitem64_4)",
        "  %vecclose5 = call i32 @putchar(i32 93)",
    ]);
    assert_eq!(text, expected);
    assert_eq!(state.print_count, 6);

    let mut text = String::new();
    lower_print_int32_vector(&mut text, ValueId(1), 0, &mut state);
    assert_eq!(
        text,
        "  %vecopen6 = call i32 @putchar(i32 91)\n  %vecprintdata6 = extractvalue { ptr, i32 } %v1, 0\n  %vecclose7 = call i32 @putchar(i32 93)\n"
    );
}
