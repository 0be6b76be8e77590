//! Emission of the `BNData` DataFrame calls that hand a runtime function
//! DataFrame handles and return a `{ i1, ptr, i64 }` result: a failed call
//! carries the DataFrame error message, a successful one the new handle.
use vstd::prelude::*;
use crate::emission::{line, pieces, push_line};
use crate::model::ValueId;
use crate::text::{decimal, decimal_string};

verus! {

/// The `{ i1, ptr, i64 }` result of a DataFrame call whose temporaries are
/// named with prefix `p`: on a non-zero status the DataFrame error message
/// and payload 1, otherwise no message and the new handle.
pub open spec fn dataframe_result_text(p: Seq<char>, d: Seq<char>) -> Seq<char> {
    line(seq!["  %"@, p, "msg"@, d, " = select i1 %"@, p, "err"@, d, ", ptr @.bn_dataframe_error, ptr null"@])
    + line(seq!["  %"@, p, "payload"@, d, " = select i1 %"@, p, "err"@, d, ", i64 1, i64 %"@, p, "value"@, d])
    + line(seq!["  %"@, p, "agg0"@, d, " = insertvalue { i1, ptr, i64 } undef, i1 %"@, p, "err"@, d, ", 0"@])
    + line(seq!["  %"@, p, "agg1"@, d, " = insertvalue { i1, ptr, i64 } %"@, p, "agg0"@, d, ", ptr %"@, p, "msg"@, d, ", 1"@])
    + line(seq!["  %v"@, d, " = insertvalue { i1, ptr, i64 } %"@, p, "agg1"@, d, ", i64 %"@, p, "payload"@, d, ", 2"@])
}

fn emit_dataframe_result(text: &mut String, p: &str, d: &str)
    ensures
        final(text)@ == old(text)@ + dataframe_result_text(p@, d@),
{
    let ghost start = text@;
    let parts = ["  %", p, "msg", d, " = select i1 %", p, "err", d, ", ptr @.bn_dataframe_error, ptr null"];
    push_line(text, &parts);
    assert(pieces(parts@) =~= seq!["  %"@, p@, "msg"@, d@, " = select i1 %"@, p@, "err"@, d@, ", ptr @.bn_dataframe_error, ptr null"@]);
    let parts = ["  %", p, "payload", d, " = select i1 %", p, "err", d, ", i64 1, i64 %", p, "value", d];
    push_line(text, &parts);
    assert(pieces(parts@) =~= seq!["  %"@, p@, "payload"@, d@, " = select i1 %"@, p@, "err"@, d@, ", i64 1, i64 %"@, p@, "value"@, d@]);
    let parts = ["  %", p, "agg0", d, " = insertvalue { i1, ptr, i64 } undef, i1 %", p, "err", d, ", 0"];
    push_line(text, &parts);
    assert(pieces(parts@) =~= seq!["  %"@, p@, "agg0"@, d@, " = insertvalue { i1, ptr, i64 } undef, i1 %"@, p@, "err"@, d@, ", 0"@]);
    let parts = ["  %", p, "agg1", d, " = insertvalue { i1, ptr, i64 } %", p, "agg0", d, ", ptr %", p, "msg", d, ", 1"];
    push_line(text, &parts);
    assert(pieces(parts@) =~= seq!["  %"@, p@, "agg1"@, d@, " = insertvalue { i1, ptr, i64 } %"@, p@, "agg0"@, d@, ", ptr %"@, p@, "msg"@, d@, ", 1"@]);
    let parts = ["  %v", d, " = insertvalue { i1, ptr, i64 } %", p, "agg1", d, ", i64 %", p, "payload", d, ", 2"];
    push_line(text, &parts);
    assert(pieces(parts@) =~= seq!["  %v"@, d@, " = insertvalue { i1, ptr, i64 } %"@, p@, "agg1"@, d@, ", i64 %"@, p@, "payload"@, d@, ", 2"@]);
    assert(text@ =~= start + dataframe_result_text(p@, d@));
}

/// The call that sets the label of a DataFrame column; the result is `VOID OR Error`, into `%v<d>`.
pub open spec fn bndata_set_label_text(d: Seq<char>, a0: Seq<char>, a1: Seq<char>, a2: Seq<char>) -> Seq<char> {
    line(seq!["  %dflabelhandle"@, d, " = ptrtoint ptr %v"@, a0, " to i64"@])
    + line(seq!["  %dflabelrc"@, d, " = call i32 @bn_rt_dataframe_set_label(i64 %dflabelhandle"@, d, ", ptr %v"@, a1, ", ptr %v"@, a2, ")"@])
    + line(seq!["  %dflabelerr"@, d, " = icmp ne i32 %dflabelrc"@, d, ", 0"@])
    + line(seq!["  %dflabelmsg"@, d, " = select i1 %dflabelerr"@, d, ", ptr @.bn_dataframe_error, ptr null"@])
    + line(seq!["  %dflabelagg0"@, d, " = insertvalue { i1, ptr, i64 } undef, i1 %dflabelerr"@, d, ", 0"@])
    + line(seq!["  %dflabelagg1"@, d, " = insertvalue { i1, ptr, i64 } %dflabelagg0"@, d, ", ptr %dflabelmsg"@, d, ", 1"@])
    + line(seq!["  %v"@, d, " = insertvalue { i1, ptr, i64 } %dflabelagg1"@, d, ", i64 0, 2"@])
}

/// Emits the call that sets the label of a DataFrame column; the result is `VOID OR Error`.
pub fn lower_bndata_set_label(text: &mut String, destination: ValueId, arguments: &[ValueId])
    requires
        arguments@.len() >= 3,
    ensures
        final(text)@ == old(text)@ + bndata_set_label_text(decimal(destination.0 as nat), decimal(arguments@[0].0 as nat), decimal(arguments@[1].0 as nat), decimal(arguments@[2].0 as nat)),
{
    let ds = decimal_string(destination.0 as u128);
    let d = ds.as_str();
    let a0s = decimal_string(arguments[0].0 as u128);
    let a0 = a0s.as_str();
    let a1s = decimal_string(arguments[1].0 as u128);
    let a1 = a1s.as_str();
    let a2s = decimal_string(arguments[2].0 as u128);
    let a2 = a2s.as_str();
    let ghost start = text@;
    let parts = ["  %dflabelhandle", d, " = ptrtoint ptr %v", a0, " to i64"];
    push_line(text, &parts);
    assert(pieces(parts@) =~= seq!["  %dflabelhandle"@, d@, " = ptrtoint ptr %v"@, a0@, " to i64"@]);
    let parts = ["  %dflabelrc", d, " = call i32 @bn_rt_dataframe_set_label(i64 %dflabelhandle", d, ", ptr %v", a1, ", ptr %v", a2, ")"];
    push_line(text, &parts);
    assert(pieces(parts@) =~= seq!["  %dflabelrc"@, d@, " = call i32 @bn_rt_dataframe_set_label(i64 %dflabelhandle"@, d@, ", ptr %v"@, a1@, ", ptr %v"@, a2@, ")"@]);
    let parts = ["  %dflabelerr", d, " = icmp ne i32 %dflabelrc", d, ", 0"];
    push_line(text, &parts);
    assert(pieces(parts@) =~= seq!["  %dflabelerr"@, d@, " = icmp ne i32 %dflabelrc"@, d@, ", 0"@]);
    let parts = ["  %dflabelmsg", d, " = select i1 %dflabelerr", d, ", ptr @.bn_dataframe_error, ptr null"];
    push_line(text, &parts);
    assert(pieces(parts@) =~= seq!["  %dflabelmsg"@, d@, " = select i1 %dflabelerr"@, d@, ", ptr @.bn_dataframe_error, ptr null"@]);
    let parts = ["  %dflabelagg0", d, " = insertvalue { i1, ptr, i64 } undef, i1 %dflabelerr", d, ", 0"];
    push_line(text, &parts);
    assert(pieces(parts@) =~= seq!["  %dflabelagg0"@, d@, " = insertvalue { i1, ptr, i64 } undef, i1 %dflabelerr"@, d@, ", 0"@]);
    let parts = ["  %dflabelagg1", d, " = insertvalue { i1, ptr, i64 } %dflabelagg0", d, ", ptr %dflabelmsg", d, ", 1"];
    push_line(text, &parts);
    assert(pieces(parts@) =~= seq!["  %dflabelagg1"@, d@, " = insertvalue { i1, ptr, i64 } %dflabelagg0"@, d@, ", ptr %dflabelmsg"@, d@, ", 1"@]);
    let parts = ["  %v", d, " = insertvalue { i1, ptr, i64 } %dflabelagg1", d, ", i64 0, 2"];
    push_line(text, &parts);
    assert(pieces(parts@) =~= seq!["  %v"@, d@, " = insertvalue { i1, ptr, i64 } %dflabelagg1"@, d@, ", i64 0, 2"@]);
    assert(text@ =~= start + bndata_set_label_text(d@, a0@, a1@, a2@));
}

/// The call that selects rows and columns of a DataFrame into a new one, into `%v<d>`.
pub open spec fn bndata_select_text(d: Seq<char>, a0: Seq<char>, a1: Seq<char>, a2: Seq<char>) -> Seq<char> {
    line(seq!["  %dfselhandle"@, d, " = ptrtoint ptr %v"@, a0, " to i64"@])
    + line(seq!["  %dfselrows"@, d, " = extractvalue { ptr, i32 } %v"@, a1, ", 0"@])
    + line(seq!["  %dfselrowlen"@, d, " = extractvalue { ptr, i32 } %v"@, a1, ", 1"@])
    + line(seq!["  %dfselcols"@, d, " = extractvalue { ptr, i32 } %v"@, a2, ", 0"@])
    + line(seq!["  %dfselcollen"@, d, " = extractvalue { ptr, i32 } %v"@, a2, ", 1"@])
    + line(seq!["  %dfselout"@, d, " = alloca i64"@])
    + line(seq!["  %dfselrc"@, d, " = call i32 @bn_rt_dataframe_select(i64 %dfselhandle"@, d, ", ptr %dfselrows"@, d, ", i32 %dfselrowlen"@, d, ", ptr %dfselcols"@, d, ", i32 %dfselcollen"@, d, ", ptr %dfselout"@, d, ")"@])
    + line(seq!["  %dfselerr"@, d, " = icmp ne i32 %dfselrc"@, d, ", 0"@])
    + line(seq!["  %dfselvalue"@, d, " = load i64, ptr %dfselout"@, d])
    + dataframe_result_text("dfsel"@, d)
}

/// Emits the call that selects rows and columns of a DataFrame into a new one.
#[verifier::rlimit(40)]
pub fn lower_bndata_select(text: &mut String, destination: ValueId, arguments: &[ValueId])
    requires
        arguments@.len() >= 3,
    ensures
        final(text)@ == old(text)@ + bndata_select_text(decimal(destination.0 as nat), decimal(arguments@[0].0 as nat), decimal(arguments@[1].0 as nat), decimal(arguments@[2].0 as nat)),
{
    let ds = decimal_string(destination.0 as u128);
    let d = ds.as_str();
    let a0s = decimal_string(arguments[0].0 as u128);
    let a0 = a0s.as_str();
    let a1s = decimal_string(arguments[1].0 as u128);
    let a1 = a1s.as_str();
    let a2s = decimal_string(arguments[2].0 as u128);
    let a2 = a2s.as_str();
    let ghost start = text@;
    let parts = ["  %dfselhandle", d, " = ptrtoint ptr %v", a0, " to i64"];
    push_line(text, &parts);
    assert(pieces(parts@) =~= seq!["  %dfselhandle"@, d@, " = ptrtoint ptr %v"@, a0@, " to i64"@]);
    let parts = ["  %dfselrows", d, " = extractvalue { ptr, i32 } %v", a1, ", 0"];
    push_line(text, &parts);
    assert(pieces(parts@) =~= seq!["  %dfselrows"@, d@, " = extractvalue { ptr, i32 } %v"@, a1@, ", 0"@]);
    let parts = ["  %dfselrowlen", d, " = extractvalue { ptr, i32 } %v", a1, ", 1"];
    push_line(text, &parts);
    assert(pieces(parts@) =~= seq!["  %dfselrowlen"@, d@, " = extractvalue { ptr, i32 } %v"@, a1@, ", 1"@]);
    let parts = ["  %dfselcols", d, " = extractvalue { ptr, i32 } %v", a2, ", 0"];
    push_line(text, &parts);
    assert(pieces(parts@) =~= seq!["  %dfselcols"@, d@, " = extractvalue { ptr, i32 } %v"@, a2@, ", 0"@]);
    let parts = ["  %dfselcollen", d, " = extractvalue { ptr, i32 } %v", a2, ", 1"];
    push_line(text, &parts);
    assert(pieces(parts@) =~= seq!["  %dfselcollen"@, d@, " = extractvalue { ptr, i32 } %v"@, a2@, ", 1"@]);
    let parts = ["  %dfselout", d, " = alloca i64"];
    push_line(text, &parts);
    assert(pieces(parts@) =~= seq!["  %dfselout"@, d@, " = alloca i64"@]);
    let parts = ["  %dfselrc", d, " = call i32 @bn_rt_dataframe_select(i64 %dfselhandle", d, ", ptr %dfselrows", d, ", i32 %dfselrowlen", d, ", ptr %dfselcols", d, ", i32 %dfselcollen", d, ", ptr %dfselout", d, ")"];
    push_line(text, &parts);
    assert(pieces(parts@) =~= seq!["  %dfselrc"@, d@, " = call i32 @bn_rt_dataframe_select(i64 %dfselhandle"@, d@, ", ptr %dfselrows"@, d@, ", i32 %dfselrowlen"@, d@, ", ptr %dfselcols"@, d@, ", i32 %dfselcollen"@, d@, ", ptr %dfselout"@, d@, ")"@]);
    let parts = ["  %dfselerr", d, " = icmp ne i32 %dfselrc", d, ", 0"];
    push_line(text, &parts);
    assert(pieces(parts@) =~= seq!["  %dfselerr"@, d@, " = icmp ne i32 %dfselrc"@, d@, ", 0"@]);
    let parts = ["  %dfselvalue", d, " = load i64, ptr %dfselout", d];
    push_line(text, &parts);
    assert(pieces(parts@) =~= seq!["  %dfselvalue"@, d@, " = load i64, ptr %dfselout"@, d@]);
    emit_dataframe_result(text, "dfsel", d);
    assert(text@ =~= start + bndata_select_text(d@, a0@, a1@, a2@));
}

/// The call that applies the runtime transform `symbol` to a DataFrame, into `%v<d>`.
pub open spec fn bndata_transform_text(d: Seq<char>, a0: Seq<char>, symbol: Seq<char>) -> Seq<char> {
    line(seq!["  %dftrhandle"@, d, " = ptrtoint ptr %v"@, a0, " to i64"@])
    + line(seq!["  %dftrout"@, d, " = alloca i64"@])
    + line(seq!["  %dftrrc"@, d, " = call i32 @"@, symbol, "(i64 %dftrhandle"@, d, ", ptr %dftrout"@, d, ")"@])
    + line(seq!["  %dftrerr"@, d, " = icmp ne i32 %dftrrc"@, d, ", 0"@])
    + line(seq!["  %dftrvalue"@, d, " = load i64, ptr %dftrout"@, d])
    + dataframe_result_text("dftr"@, d)
}

/// Emits the call that applies the runtime transform `symbol` to a DataFrame.
pub fn lower_bndata_transform(text: &mut String, destination: ValueId, arguments: &[ValueId], symbol: &str)
    requires
        arguments@.len() >= 1,
    ensures
        final(text)@ == old(text)@ + bndata_transform_text(decimal(destination.0 as nat), decimal(arguments@[0].0 as nat), symbol@),
{
    let ds = decimal_string(destination.0 as u128);
    let d = ds.as_str();
    let a0s = decimal_string(arguments[0].0 as u128);
    let a0 = a0s.as_str();
    let ghost start = text@;
    let parts = ["  %dftrhandle", d, " = ptrtoint ptr %v", a0, " to i64"];
    push_line(text, &parts);
    assert(pieces(parts@) =~= seq!["  %dftrhandle"@, d@, " = ptrtoint ptr %v"@, a0@, " to i64"@]);
    let parts = ["  %dftrout", d, " = alloca i64"];
    push_line(text, &parts);
    assert(pieces(parts@) =~= seq!["  %dftrout"@, d@, " = alloca i64"@]);
    let parts = ["  %dftrrc", d, " = call i32 @", symbol, "(i64 %dftrhandle", d, ", ptr %dftrout", d, ")"];
    push_line(text, &parts);
    assert(pieces(parts@) =~= seq!["  %dftrrc"@, d@, " = call i32 @"@, symbol@, "(i64 %dftrhandle"@, d@, ", ptr %dftrout"@, d@, ")"@]);
    let parts = ["  %dftrerr", d, " = icmp ne i32 %dftrrc", d, ", 0"];
    push_line(text, &parts);
    assert(pieces(parts@) =~= seq!["  %dftrerr"@, d@, " = icmp ne i32 %dftrrc"@, d@, ", 0"@]);
    let parts = ["  %dftrvalue", d, " = load i64, ptr %dftrout", d];
    push_line(text, &parts);
    assert(pieces(parts@) =~= seq!["  %dftrvalue"@, d@, " = load i64, ptr %dftrout"@, d@]);
    emit_dataframe_result(text, "dftr", d);
    assert(text@ =~= start + bndata_transform_text(d@, a0@, symbol@));
}

/// The call that applies the runtime transform `symbol` to two DataFrames, into `%v<d>`.
pub open spec fn bndata_binary_transform_text(d: Seq<char>, a0: Seq<char>, a1: Seq<char>, symbol: Seq<char>) -> Seq<char> {
    line(seq!["  %dfbinleft"@, d, " = ptrtoint ptr %v"@, a0, " to i64"@])
    + line(seq!["  %dfbinright"@, d, " = ptrtoint ptr %v"@, a1, " to i64"@])
    + line(seq!["  %dfbinout"@, d, " = alloca i64"@])
    + line(seq!["  %dfbinrc"@, d, " = call i32 @"@, symbol, "(i64 %dfbinleft"@, d, ", i64 %dfbinright"@, d, ", ptr %dfbinout"@, d, ")"@])
    + line(seq!["  %dfbinerr"@, d, " = icmp ne i32 %dfbinrc"@, d, ", 0"@])
    + line(seq!["  %dfbinvalue"@, d, " = load i64, ptr %dfbinout"@, d])
    + dataframe_result_text("dfbin"@, d)
}

/// Emits the call that applies the runtime transform `symbol` to two DataFrames.
pub fn lower_bndata_binary_transform(text: &mut String, destination: ValueId, arguments: &[ValueId], symbol: &str)
    requires
        arguments@.len() >= 2,
    ensures
        final(text)@ == old(text)@ + bndata_binary_transform_text(decimal(destination.0 as nat), decimal(arguments@[0].0 as nat), decimal(arguments@[1].0 as nat), symbol@),
{
    let ds = decimal_string(destination.0 as u128);
    let d = ds.as_str();
    let a0s = decimal_string(arguments[0].0 as u128);
    let a0 = a0s.as_str();
    let a1s = decimal_string(arguments[1].0 as u128);
    let a1 = a1s.as_str();
    let ghost start = text@;
    let parts = ["  %dfbinleft", d, " = ptrtoint ptr %v", a0, " to i64"];
    push_line(text, &parts);
    assert(pieces(parts@) =~= seq!["  %dfbinleft"@, d@, " = ptrtoint ptr %v"@, a0@, " to i64"@]);
    let parts = ["  %dfbinright", d, " = ptrtoint ptr %v", a1, " to i64"];
    push_line(text, &parts);
    assert(pieces(parts@) =~= seq!["  %dfbinright"@, d@, " = ptrtoint ptr %v"@, a1@, " to i64"@]);
    let parts = ["  %dfbinout", d, " = alloca i64"];
    push_line(text, &parts);
    assert(pieces(parts@) =~= seq!["  %dfbinout"@, d@, " = alloca i64"@]);
    let parts = ["  %dfbinrc", d, " = call i32 @", symbol, "(i64 %dfbinleft", d, ", i64 %dfbinright", d, ", ptr %dfbinout", d, ")"];
    push_line(text, &parts);
    assert(pieces(parts@) =~= seq!["  %dfbinrc"@, d@, " = call i32 @"@, symbol@, "(i64 %dfbinleft"@, d@, ", i64 %dfbinright"@, d@, ", ptr %dfbinout"@, d@, ")"@]);
    let parts = ["  %dfbinerr", d, " = icmp ne i32 %dfbinrc", d, ", 0"];
    push_line(text, &parts);
    assert(pieces(parts@) =~= seq!["  %dfbinerr"@, d@, " = icmp ne i32 %dfbinrc"@, d@, ", 0"@]);
    let parts = ["  %dfbinvalue", d, " = load i64, ptr %dfbinout", d];
    push_line(text, &parts);
    assert(pieces(parts@) =~= seq!["  %dfbinvalue"@, d@, " = load i64, ptr %dfbinout"@, d@]);
    emit_dataframe_result(text, "dfbin", d);
    assert(text@ =~= start + bndata_binary_transform_text(d@, a0@, a1@, symbol@));
}

/// The call that joins two DataFrames on the key columns named by the third and fourth arguments, with join kind `kind`, into `%v<d>`.
pub open spec fn bndata_join_text(d: Seq<char>, a0: Seq<char>, a1: Seq<char>, a2: Seq<char>, a3: Seq<char>, kind: Seq<char>) -> Seq<char> {
    line(seq!["  %dfjoinleft"@, d, " = ptrtoint ptr %v"@, a0, " to i64"@])
    + line(seq!["  %dfjoinright"@, d, " = ptrtoint ptr %v"@, a1, " to i64"@])
    + line(seq!["  %dfjoinout"@, d, " = alloca i64"@])
    + line(seq!["  %dfjoinrc"@, d, " = call i32 @bn_rt_dataframe_join(i64 %dfjoinleft"@, d, ", i64 %dfjoinright"@, d, ", ptr %v"@, a2, ", ptr %v"@, a3, ", i32 "@, kind, ", ptr %dfjoinout"@, d, ")"@])
    + line(seq!["  %dfjoinerr"@, d, " = icmp ne i32 %dfjoinrc"@, d, ", 0"@])
    + line(seq!["  %dfjoinvalue"@, d, " = load i64, ptr %dfjoinout"@, d])
    + dataframe_result_text("dfjoin"@, d)
}

/// Emits the call that joins two DataFrames on the key columns named by the third and fourth arguments, with join kind `kind`.
pub fn lower_bndata_join(text: &mut String, destination: ValueId, arguments: &[ValueId], kind: u32)
    requires
        arguments@.len() >= 4,
    ensures
        final(text)@ == old(text)@ + bndata_join_text(decimal(destination.0 as nat), decimal(arguments@[0].0 as nat), decimal(arguments@[1].0 as nat), decimal(arguments@[2].0 as nat), decimal(arguments@[3].0 as nat), decimal(kind as nat)),
{
    let ds = decimal_string(destination.0 as u128);
    let d = ds.as_str();
    let a0s = decimal_string(arguments[0].0 as u128);
    let a0 = a0s.as_str();
    let a1s = decimal_string(arguments[1].0 as u128);
    let a1 = a1s.as_str();
    let a2s = decimal_string(arguments[2].0 as u128);
    let a2 = a2s.as_str();
    let a3s = decimal_string(arguments[3].0 as u128);
    let a3 = a3s.as_str();
    let ks = decimal_string(kind as u128);
    let k = ks.as_str();
    let ghost start = text@;
    let parts = ["  %dfjoinleft", d, " = ptrtoint ptr %v", a0, " to i64"];
    push_line(text, &parts);
    assert(pieces(parts@) =~= seq!["  %dfjoinleft"@, d@, " = ptrtoint ptr %v"@, a0@, " to i64"@]);
    let parts = ["  %dfjoinright", d, " = ptrtoint ptr %v", a1, " to i64"];
    push_line(text, &parts);
    assert(pieces(parts@) =~= seq!["  %dfjoinright"@, d@, " = ptrtoint ptr %v"@, a1@, " to i64"@]);
    let parts = ["  %dfjoinout", d, " = alloca i64"];
    push_line(text, &parts);
    assert(pieces(parts@) =~= seq!["  %dfjoinout"@, d@, " = alloca i64"@]);
    let parts = ["  %dfjoinrc", d, " = call i32 @bn_rt_dataframe_join(i64 %dfjoinleft", d, ", i64 %dfjoinright", d, ", ptr %v", a2, ", ptr %v", a3, ", i32 ", k, ", ptr %dfjoinout", d, ")"];
    push_line(text, &parts);
    assert(pieces(parts@) =~= seq!["  %dfjoinrc"@, d@, " = call i32 @bn_rt_dataframe_join(i64 %dfjoinleft"@, d@, ", i64 %dfjoinright"@, d@, ", ptr %v"@, a2@, ", ptr %v"@, a3@, ", i32 "@, k@, ", ptr %dfjoinout"@, d@, ")"@]);
    let parts = ["  %dfjoinerr", d, " = icmp ne i32 %dfjoinrc", d, ", 0"];
    push_line(text, &parts);
    assert(pieces(parts@) =~= seq!["  %dfjoinerr"@, d@, " = icmp ne i32 %dfjoinrc"@, d@, ", 0"@]);
    let parts = ["  %dfjoinvalue", d, " = load i64, ptr %dfjoinout", d];
    push_line(text, &parts);
    assert(pieces(parts@) =~= seq!["  %dfjoinvalue"@, d@, " = load i64, ptr %dfjoinout"@, d@]);
    emit_dataframe_result(text, "dfjoin", d);
    assert(text@ =~= start + bndata_join_text(d@, a0@, a1@, a2@, a3@, k@));
}

} // verus!
