use basicnext::model::{BlockId, Function, FunctionKind, Module};
use basicnext::names::{EmittedNameKind, classify, is_intrinsic, is_lifecycle_stub};
use basicnext::source::{Position, Span};
use basicnext::types::Type;

#[test]
fn documented_shapes_classify() {
    assert_eq!(classify("Start"), Some(EmittedNameKind::Entry));
    assert_eq!(classify("Counter.CONSTRUCTOR"), Some(EmittedNameKind::Constructor));
    assert_eq!(classify("Counter.DESTRUCTOR"), Some(EmittedNameKind::Destructor));
    assert_eq!(classify("Counter.$fields"), Some(EmittedNameKind::FieldInit));
    assert_eq!(classify("Counter.$init"), Some(EmittedNameKind::Init));
    assert_eq!(classify("Point.$default"), Some(EmittedNameKind::Default));
    assert_eq!(classify("Counter.Inc"), Some(EmittedNameKind::User));
    assert_eq!(classify("Helper"), Some(EmittedNameKind::User));
    assert_eq!(classify("#3.Greeting.Value"), Some(EmittedNameKind::User));
    assert_eq!(classify("#3.Box.$default"), Some(EmittedNameKind::Default));
    assert_eq!(classify("@super:Animal.Speak"), Some(EmittedNameKind::User));
    assert_eq!(classify("@super:Animal.DESTRUCTOR"), Some(EmittedNameKind::Destructor));
}

#[test]
fn intrinsics_are_callees_not_functions() {
    assert!(is_intrinsic("$for_condition"));
    assert!(!is_intrinsic("$for_step"));
    assert_eq!(classify("$for_condition"), None, "intrinsics never appear as functions");
}

#[test]
fn undocumented_shapes_are_rejected() {
    for bogus in [
        "",
        ".",
        "Counter.",
        ".Inc",
        "Counter.$bogus",
        "Counter.$fields.extra",
        "#x.Name",
        "#.Name",
        "3Name",
        "Counter.Inc.Twice",
        "$bogus_intrinsic",
    ] {
        assert_eq!(classify(bogus), None, "{bogus:?} must not classify");
    }
}

#[test]
fn marker_names_never_classify() {
    assert_eq!(classify("$fields"), None);
    assert_eq!(classify("$x.Member"), None);
    assert_eq!(classify("@super:$for_condition"), None);
}

#[test]
fn super_marker_is_transparent() {
    for name in ["Start", "Counter.Inc", "#3.Box.$default", "Counter.$bogus", "Helper"] {
        let marked = format!("@super:{name}");
        assert_eq!(classify(&marked), classify(name), "{name}");
    }
}

#[test]
fn every_synthesised_suffix_names_its_kind() {
    let cases = [
        ("CONSTRUCTOR", EmittedNameKind::Constructor),
        ("DESTRUCTOR", EmittedNameKind::Destructor),
        ("$fields", EmittedNameKind::FieldInit),
        ("$init", EmittedNameKind::Init),
        ("$default", EmittedNameKind::Default),
    ];
    for (suffix, kind) in cases {
        assert_eq!(classify(&format!("Owner_1.{suffix}")), Some(kind));
        assert_eq!(classify(&format!("_x.{suffix}")), Some(kind));
    }
}

#[test]
fn web_lifecycle_stubs_are_constructors_and_field_initialisers() {
    let stub = |name: &str, kind: FunctionKind| Function {
        name: name.into(),
        kind,
        owner: Some("Client".into()),
        asynchronous: false,
        parameters: Vec::new(),
        weak_symbols: Vec::new(),
        return_type: Type::Named("VOID".into()),
        entry: BlockId(0),
        blocks: Vec::new(),
        span: {
            let position = Position { source_id: 1, revision: 1, offset: 0, line: 1, column: 1 };
            Span { start: position, end: position }
        },
    };
    let mut module = Module::empty();
    assert!(is_lifecycle_stub(&module, "BNWeb.Client.CONSTRUCTOR"));
    assert!(is_lifecycle_stub(&module, "BNWeb.Client.$fields"));
    assert!(!is_lifecycle_stub(&module, "BNWeb.Client.Request"));
    assert!(!is_lifecycle_stub(&module, "BNWeb.Client.DESTRUCTOR"));
    module.functions = vec![stub("Client.Request", FunctionKind::Constructor)];
    assert!(is_lifecycle_stub(&module, "BNWeb.Client.Request"));
    module.functions = vec![stub("Client.CONSTRUCTOR", FunctionKind::User)];
    assert!(!is_lifecycle_stub(&module, "BNWeb.Client.CONSTRUCTOR"));
}
