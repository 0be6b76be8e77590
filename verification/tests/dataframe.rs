use basicnext::dataframe::{
    lower_bndata_binary_transform, lower_bndata_join, lower_bndata_select, lower_bndata_set_label,
    lower_bndata_transform,
};
use basicnext::model::ValueId;

fn lines(ls: &[&str]) -> String {
    ls.iter().map(|l| format!("{l}\n")).collect()
}

fn ids(xs: &[u32]) -> Vec<ValueId> {
    xs.iter().map(|x| ValueId(*x)).collect()
}

#[test]
fn set_label_returns_void_or_error() {
    let mut text = String::new();
    lower_bndata_set_label(&mut text, ValueId(9), &ids(&[1, 2, 3]));
    let expected = lines(&[
        "  %dflabelhandle9 = ptrtoint ptr %v1 to i64",
        "  %dflabelrc9 = call i32 @bn_rt_dataframe_set_label(i64 %dflabelhandle9, ptr %v2, ptr %v3)",
        "  %dflabelerr9 = icmp ne i32 %dflabelrc9, 0",
        "  %dflabelmsg9 = select i1 %dflabelerr9, ptr @.bn_dataframe_error, ptr null",
        "  %dflabelagg09 = insertvalue { i1, ptr, i64 } undef, i1 %dflabelerr9, 0",
        "  %dflabelagg19 = insertvalue { i1, ptr, i64 } %dflabelagg09, ptr %dflabelmsg9, 1",
        "  %v9 = insertvalue { i1, ptr, i64 } %dflabelagg19, i64 0, 2",
    ]);
    assert_eq!(text, expected);
}

#[test]
fn transform_passes_the_handle_and_returns_the_new_one() {
    let mut text = String::new();
    lower_bndata_transform(&mut text, ValueId(4), &ids(&[2]), "bn_rt_dataframe_sort");
    let expected = lines(&[
        "  %dftrhandle4 = ptrtoint ptr %v2 to i64",
        "  %dftrout4 = alloca i64",
        "  %dftrrc4 = call i32 @bn_rt_dataframe_sort(i64 %dftrhandle4, ptr %dftrout4)",
        "  %dftrerr4 = icmp ne i32 %dftrrc4, 0",
        "  %dftrvalue4 = load i64, ptr %dftrout4",
        "  %dftrmsg4 = select i1 %dftrerr4, ptr @.bn_dataframe_error, ptr null",
        "  %dftrpayload4 = select i1 %dftrerr4, i64 1, i64 %dftrvalue4",
        "  %dftragg04 = insertvalue { i1, ptr, i64 } undef, i1 %dftrerr4, 0",
        "  %dftragg14 = insertvalue { i1, ptr, i64 } %dftragg04, ptr %dftrmsg4, 1",
        "  %v4 = insertvalue { i1, ptr, i64 } %dftragg14, i64 %dftrpayload4, 2",
    ]);
    assert_eq!(text, expected);
}

#[test]
fn select_passes_row_and_column_vectors() {
    let mut text = String::new();
    lower_bndata_select(&mut text, ValueId(7), &ids(&[1, 2, 3]));
    assert!(text.starts_with("  %dfselhandle7 = ptrtoint ptr %v1 to i64\n  %dfselrows7 = extractvalue { ptr, i32 } %v2, 0\n"));
    assert!(text.contains("  %dfselcollen7 = extractvalue { ptr, i32 } %v3, 1\n"));
    assert!(text.contains(
        "  %dfselrc7 = call i32 @bn_rt_dataframe_select(i64 %dfselhandle7, ptr %dfselrows7, i32 %dfselrowlen7, ptr %dfselcols7, i32 %dfselcollen7, ptr %dfselout7)\n"
    ));
    assert!(text.ends_with("  %v7 = insertvalue { i1, ptr, i64 } %dfselagg17, i64 %dfselpayload7, 2\n"));
    assert_eq!(text.lines().count(), 14);
}

#[test]
fn binary_transforms_and_joins_take_two_frames() {
    let mut text = String::new();
    lower_bndata_binary_transform(&mut text, ValueId(5), &ids(&[1, 2]), "bn_rt_dataframe_concat");
    assert!(text.contains(
        "  %dfbinrc5 = call i32 @bn_rt_dataframe_concat(i64 %dfbinleft5, i64 %dfbinright5, ptr %dfbinout5)\n"
    ));
    let mut text = String::new();
    lower_bndata_join(&mut text, ValueId(6), &ids(&[1, 2, 3, 4]), 2);
    assert!(text.contains(
        "  %dfjoinrc6 = call i32 @bn_rt_dataframe_join(i64 %dfjoinleft6, i64 %dfjoinright6, ptr %v3, ptr %v4, i32 2, ptr %dfjoinout6)\n"
    ));
    assert!(text.ends_with("  %v6 = insertvalue { i1, ptr, i64 } %dfjoinagg16, i64 %dfjoinpayload6, 2\n"));
}
