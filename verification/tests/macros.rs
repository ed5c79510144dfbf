//! How functions become tools.

use harness::tool_macro::{
    doc_comment, expand, parse_attr, Argument, Attribute, Function, Parameter, ToolMacroError,
    ToolPlan, TypeShape,
};

fn path(names: &[&str]) -> TypeShape {
    TypeShape::Path(names.iter().map(|n| n.to_string()).collect())
}

fn context() -> TypeShape {
    TypeShape::ReferenceToPath(vec!["harness".into(), "ToolContext".into()])
}

fn named(ident: &str, ty: TypeShape) -> Parameter {
    Parameter::Named { ident: ident.into(), ty }
}

fn function(name: &str, docs: &[&str], parameters: Vec<Parameter>) -> Function {
    Function {
        is_async: true,
        name: name.into(),
        attributes: docs.iter().map(|d| Attribute::Doc(d.to_string())).collect(),
        parameters,
    }
}

fn required(plan: &ToolPlan) -> Vec<&str> {
    plan.fields.iter().filter(|f| !f.optional).map(|f| f.ident.as_str()).collect()
}

#[test]
fn tool_macro_generates_schema_and_metadata() {
    let echo = function("echo", &[" Echo the given text back."], vec![named("text", path(&["String"]))]);
    let plan = expand(&echo, parse_attr(None).unwrap()).unwrap();
    assert_eq!(plan.fields[0].ident, "text");
    assert!(required(&plan).iter().any(|v| *v == "text"));
    assert_eq!(plan.name, "echo");
    assert_eq!(plan.description, "Echo the given text back.");
    assert!(!plan.needs_approval);

    // Option<T> parameters are not required.
    let destroy = function(
        "destroy",
        &[" A destructive operation that must be approved by a human."],
        vec![named("target", path(&["Option"]))],
    );
    let plan = expand(&destroy, parse_attr(Some("approval")).unwrap()).unwrap();
    assert!(!required(&plan).iter().any(|v| *v == "target"));
    assert!(plan.needs_approval);
    assert_eq!(plan.input_struct, "__destroyInput");
}

#[test]
fn the_context_is_injected_and_not_shown() {
    let read = function(
        "r#try",
        &[" Read a file. ", "", " And more."],
        vec![
            named("path", path(&["std", "string", "String"])),
            named("ctx", context()),
            named("limit", path(&["std", "option", "Option"])),
            named("by_value", path(&["ToolContext"])),
            named("other", TypeShape::Other),
            named("optional_ref", TypeShape::ReferenceToPath(vec!["Option".into()])),
        ],
    );
    let plan = expand(&read, false).unwrap();
    assert_eq!(plan.description, "Read a file.\n\nAnd more.");
    assert_eq!(plan.input_struct, "__tryInput");
    assert_eq!(plan.name, "r#try");
    let fields: Vec<(usize, &str, bool)> =
        plan.fields.iter().map(|f| (f.index, f.ident.as_str(), f.optional)).collect();
    assert_eq!(
        fields,
        vec![
            (0, "path", false),
            (2, "limit", true),
            (3, "by_value", false),
            (4, "other", false),
            (5, "optional_ref", false)
        ]
    );
    assert_eq!(plan.arguments.len(), 6);
    assert!(matches!(&plan.arguments[0], Argument::Input(i) if i == "path"));
    assert!(matches!(&plan.arguments[1], Argument::Context));
}

#[test]
fn what_cannot_be_a_tool_is_refused() {
    let mut f = function("f", &[], vec![]);
    f.is_async = false;
    assert_eq!(expand(&f, false).unwrap_err(), ToolMacroError::NotAsync);
    let f = function("f", &[], vec![named("a", TypeShape::Other), Parameter::Receiver]);
    assert_eq!(expand(&f, false).unwrap_err(), ToolMacroError::Receiver { index: 1 });
    let f = function("f", &[], vec![Parameter::Pattern, Parameter::Receiver]);
    assert_eq!(expand(&f, false).unwrap_err(), ToolMacroError::Pattern { index: 0 });
    assert_eq!(parse_attr(Some("loud")).unwrap_err(), ToolMacroError::UnknownOption);
    assert_eq!(
        ToolMacroError::UnknownOption.words(),
        "unknown #[tool(...)] option; supported: `approval`"
    );
    assert_eq!(ToolMacroError::NotAsync.words(), "#[tool] functions must be async");
    assert_eq!(ToolMacroError::Receiver { index: 0 }.words(), "#[tool] does not support `self`");
    assert_eq!(
        ToolMacroError::Pattern { index: 0 }.words(),
        "#[tool] parameters must be plain identifiers"
    );
}

#[test]
fn other_attributes_are_no_documentation() {
    let attributes = vec![
        Attribute::Other,
        Attribute::Doc("one".into()),
        Attribute::Other,
        Attribute::Doc(" two".into()),
    ];
    assert_eq!(doc_comment(&attributes), "one\ntwo");
    assert_eq!(doc_comment(&vec![]), "");
}
