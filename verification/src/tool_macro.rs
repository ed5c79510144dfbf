//! `#[tool]`: how a function becomes a tool.
//!
//! The attribute replaces an async function with a unit struct of the same name
//! that is a tool. Its doc comment is the description, and its parameters make
//! up the input schema. A parameter of type `&ToolContext` (any position) is
//! injected by the runtime rather than exposed in the schema. `Option<T>`
//! parameters are optional in the schema and may be omitted by the model.

use vstd::prelude::*;

use crate::duplicate::lemma_pushed;
use crate::text::{characters, concat3, from_characters, join, joined, same, trim, trimmed};

verus! {

/// A type, as far as it matters here.
#[derive(Debug)]
pub enum TypeShape {
    /// A reference to a path, by the names in the path.
    ReferenceToPath(Vec<String>),
    /// A path, by the names in it.
    Path(Vec<String>),
    /// Any other type.
    Other,
}

/// What a type's shape says.
#[verifier::ext_equal]
pub enum TypeShapeView {
    ReferenceToPath(Seq<Seq<char>>),
    Path(Seq<Seq<char>>),
    Other,
}

impl View for TypeShape {
    type V = TypeShapeView;

    open spec fn view(&self) -> TypeShapeView {
        match *self {
            TypeShape::ReferenceToPath(names) => TypeShapeView::ReferenceToPath(names.deep_view()),
            TypeShape::Path(names) => TypeShapeView::Path(names.deep_view()),
            TypeShape::Other => TypeShapeView::Other,
        }
    }
}

/// Whether a path ends in this name.
pub open spec fn ends_in(names: Seq<Seq<char>>, name: Seq<char>) -> bool {
    names.len() > 0 && names.last() == name
}

/// Whether a type is the injected context.
pub open spec fn takes_context(ty: TypeShapeView) -> bool {
    ty matches TypeShapeView::ReferenceToPath(names) && ends_in(names, "ToolContext"@)
}

/// Whether a type is optional.
pub open spec fn optional(ty: TypeShapeView) -> bool {
    ty matches TypeShapeView::Path(names) && ends_in(names, "Option"@)
}

fn last_is(names: &Vec<String>, name: &str) -> (r: bool)
    ensures
        r == ends_in(names.deep_view(), name@),
{
    names.len() > 0 && same(names[names.len() - 1].as_str(), name)
}

/// Whether a type is the injected context.
pub fn is_tool_context(ty: &TypeShape) -> (r: bool)
    ensures
        r == takes_context(ty@),
{
    match ty {
        TypeShape::ReferenceToPath(names) => last_is(names, "ToolContext"),
        _ => false,
    }
}

/// Whether a type is optional.
pub fn is_option(ty: &TypeShape) -> (r: bool)
    ensures
        r == optional(ty@),
{
    match ty {
        TypeShape::Path(names) => last_is(names, "Option"),
        _ => false,
    }
}

/// A parameter of a function.
#[derive(Debug)]
pub enum Parameter {
    /// `self`, in any form.
    Receiver,
    /// A pattern that is no plain identifier.
    Pattern,
    Named { ident: String, ty: TypeShape },
}

/// What a parameter says.
#[verifier::ext_equal]
pub enum ParameterView {
    Receiver,
    Pattern,
    Named { ident: Seq<char>, ty: TypeShapeView },
}

impl View for Parameter {
    type V = ParameterView;

    open spec fn view(&self) -> ParameterView {
        match *self {
            Parameter::Receiver => ParameterView::Receiver,
            Parameter::Pattern => ParameterView::Pattern,
            Parameter::Named { ident, ty } => ParameterView::Named { ident: ident@, ty: ty@ },
        }
    }
}

impl DeepView for Parameter {
    type V = ParameterView;

    open spec fn deep_view(&self) -> ParameterView {
        self@
    }
}

/// An attribute of a function, as far as it matters here: the text of a doc
/// comment, or anything else.
#[derive(Debug)]
pub enum Attribute {
    Doc(String),
    Other,
}

/// What an attribute says.
#[verifier::ext_equal]
pub enum AttributeView {
    Doc(Seq<char>),
    Other,
}

impl View for Attribute {
    type V = AttributeView;

    open spec fn view(&self) -> AttributeView {
        match *self {
            Attribute::Doc(text) => AttributeView::Doc(text@),
            Attribute::Other => AttributeView::Other,
        }
    }
}

impl DeepView for Attribute {
    type V = AttributeView;

    open spec fn deep_view(&self) -> AttributeView {
        self@
    }
}

/// The lines of the doc comments, each without white space at its ends.
pub open spec fn doc_lines(attributes: Seq<AttributeView>) -> Seq<Seq<char>>
    decreases attributes.len(),
{
    if attributes.len() == 0 {
        Seq::empty()
    } else {
        match attributes.last() {
            AttributeView::Doc(text) => doc_lines(attributes.drop_last()).push(trimmed(text)),
            AttributeView::Other => doc_lines(attributes.drop_last()),
        }
    }
}

/// The doc comment as one text.
pub fn doc_comment(attributes: &Vec<Attribute>) -> (r: String)
    ensures
        r@ == joined(doc_lines(attributes.deep_view()), "\n"@),
{
    let mut lines: Vec<String> = Vec::new();
    let ghost all = attributes.deep_view();
    let mut i: usize = 0;
    assert(lines.deep_view() == doc_lines(all.take(0)));
    while i < attributes.len()
        invariant
            i <= attributes@.len(),
            all == attributes.deep_view(),
            lines.deep_view() == doc_lines(all.take(i as int)),
        decreases attributes@.len() - i,
    {
        assert(all.take(i + 1).drop_last() == all.take(i as int));
        if let Attribute::Doc(text) = &attributes[i] {
            let line = trim(text.as_str());
            let ghost before = lines;
            lines.push(line);
            proof {
                lemma_pushed(before, lines, line);
            }
        }
        i = i + 1;
    }
    assert(all.take(i as int) == all);
    join(&lines, "\n")
}

/// Why a function cannot be a tool; a parameter is given by its place.
#[derive(Debug, Clone, Copy, PartialEq, Eq, Structural)]
pub enum ToolMacroError {
    UnknownOption,
    NotAsync,
    Receiver { index: usize },
    Pattern { index: usize },
}

impl ToolMacroError {
    /// The error in words.
    pub open spec fn text(self) -> Seq<char> {
        match self {
            ToolMacroError::UnknownOption => "unknown #[tool(...)] option; supported: `approval`"@,
            ToolMacroError::NotAsync => "#[tool] functions must be async"@,
            ToolMacroError::Receiver { .. } => "#[tool] does not support `self`"@,
            ToolMacroError::Pattern { .. } => "#[tool] parameters must be plain identifiers"@,
        }
    }

    /// The error in words.
    pub fn words(&self) -> (r: String)
        ensures
            r@ == self.text(),
    {
        match self {
            ToolMacroError::UnknownOption => "unknown #[tool(...)] option; supported: `approval`".to_owned(),
            ToolMacroError::NotAsync => "#[tool] functions must be async".to_owned(),
            ToolMacroError::Receiver { .. } => "#[tool] does not support `self`".to_owned(),
            ToolMacroError::Pattern { .. } => "#[tool] parameters must be plain identifiers".to_owned(),
        }
    }
}

/// Whether the tool needs approval, by the option of the attribute.
pub open spec fn attr_read(option: Option<Seq<char>>) -> Result<bool, ToolMacroError> {
    match option {
        None => Ok(false),
        Some(option) => if option == "approval"@ {
            Ok(true)
        } else {
            Err(ToolMacroError::UnknownOption)
        },
    }
}

/// Whether the tool needs approval: the one option there is says so.
pub fn parse_attr(option: Option<&str>) -> (r: Result<bool, ToolMacroError>)
    ensures
        r == (match option {
            None => Ok::<bool, ToolMacroError>(false),
            Some(option) => if option@ == "approval"@ {
                Ok::<bool, ToolMacroError>(true)
            } else {
                Err::<bool, ToolMacroError>(ToolMacroError::UnknownOption)
            },
        }),
        r == attr_read(option.deep_view()),
{
    match option {
        None => Ok(false),
        Some(option) => if same(option, "approval") {
            Ok(true)
        } else {
            Err(ToolMacroError::UnknownOption)
        },
    }
}

/// A function that is to become a tool.
#[derive(Debug)]
pub struct Function {
    pub is_async: bool,
    pub name: String,
    pub attributes: Vec<Attribute>,
    pub parameters: Vec<Parameter>,
}

/// What such a function says.
#[verifier::ext_equal]
pub struct FunctionView {
    pub is_async: bool,
    pub name: Seq<char>,
    pub attributes: Seq<AttributeView>,
    pub parameters: Seq<ParameterView>,
}

impl View for Function {
    type V = FunctionView;

    open spec fn view(&self) -> FunctionView {
        FunctionView {
            is_async: self.is_async,
            name: self.name@,
            attributes: self.attributes.deep_view(),
            parameters: self.parameters.deep_view(),
        }
    }
}

/// A field of the input struct: the place of its parameter, its name, and
/// whether it may be left out.
#[derive(Debug)]
pub struct Field {
    pub index: usize,
    pub ident: String,
    pub optional: bool,
}

/// What a field says.
#[verifier::ext_equal]
pub struct FieldView {
    pub index: int,
    pub ident: Seq<char>,
    pub optional: bool,
}

impl View for Field {
    type V = FieldView;

    open spec fn view(&self) -> FieldView {
        FieldView { index: self.index as int, ident: self.ident@, optional: self.optional }
    }
}

impl DeepView for Field {
    type V = FieldView;

    open spec fn deep_view(&self) -> FieldView {
        self@
    }
}

/// An argument that the function is called with.
#[derive(Debug)]
pub enum Argument {
    Context,
    Input(String),
}

/// What an argument says.
#[verifier::ext_equal]
pub enum ArgumentView {
    Context,
    Input(Seq<char>),
}

impl View for Argument {
    type V = ArgumentView;

    open spec fn view(&self) -> ArgumentView {
        match *self {
            Argument::Context => ArgumentView::Context,
            Argument::Input(ident) => ArgumentView::Input(ident@),
        }
    }
}

impl DeepView for Argument {
    type V = ArgumentView;

    open spec fn deep_view(&self) -> ArgumentView {
        self@
    }
}

/// The tool that a function becomes.
#[derive(Debug)]
pub struct ToolPlan {
    pub name: String,
    pub description: String,
    pub input_struct: String,
    pub fields: Vec<Field>,
    pub arguments: Vec<Argument>,
    pub needs_approval: bool,
}

/// What such a tool says.
#[verifier::ext_equal]
pub struct ToolPlanView {
    pub name: Seq<char>,
    pub description: Seq<char>,
    pub input_struct: Seq<char>,
    pub fields: Seq<FieldView>,
    pub arguments: Seq<ArgumentView>,
    pub needs_approval: bool,
}

impl View for ToolPlan {
    type V = ToolPlanView;

    open spec fn view(&self) -> ToolPlanView {
        ToolPlanView {
            name: self.name@,
            description: self.description@,
            input_struct: self.input_struct@,
            fields: self.fields.deep_view(),
            arguments: self.arguments.deep_view(),
            needs_approval: self.needs_approval,
        }
    }
}

/// What is wrong with a parameter.
pub open spec fn fault(parameter: ParameterView, index: int) -> Option<ToolMacroError> {
    match parameter {
        ParameterView::Receiver => Some(ToolMacroError::Receiver { index: index as usize }),
        ParameterView::Pattern => Some(ToolMacroError::Pattern { index: index as usize }),
        ParameterView::Named { .. } => None,
    }
}

/// What is wrong with the first parameter, from `from` on, that cannot be taken.
pub open spec fn first_fault(parameters: Seq<ParameterView>, from: int) -> Option<ToolMacroError>
    decreases parameters.len() - from,
{
    if from >= parameters.len() {
        None
    } else {
        match fault(parameters[from], from) {
            Some(error) => Some(error),
            None => first_fault(parameters, from + 1),
        }
    }
}

/// The fields of the input struct: one for each parameter but the context, in
/// their order.
pub open spec fn fields_of(parameters: Seq<ParameterView>) -> Seq<FieldView>
    decreases parameters.len(),
{
    if parameters.len() == 0 {
        Seq::empty()
    } else {
        let before = fields_of(parameters.drop_last());
        match parameters.last() {
            ParameterView::Named { ident, ty } => if takes_context(ty) {
                before
            } else {
                before.push(
                    FieldView { index: parameters.len() - 1, ident, optional: optional(ty) },
                )
            },
            _ => before,
        }
    }
}

/// The argument for a parameter.
pub open spec fn argument_of(parameter: ParameterView) -> ArgumentView {
    match parameter {
        ParameterView::Named { ident, ty } => if takes_context(ty) {
            ArgumentView::Context
        } else {
            ArgumentView::Input(ident)
        },
        _ => ArgumentView::Context,
    }
}

/// A name without the mark of a raw identifier.
pub open spec fn bare(name: Seq<char>) -> Seq<char> {
    if name.len() >= 2 && name[0] == 'r' && name[1] == '#' {
        name.skip(2)
    } else {
        name
    }
}

fn strip(name: &str) -> (r: String)
    ensures
        r@ == bare(name@),
{
    let chars = characters(name);
    let n: usize = chars.len();
    if n >= 2 && chars[0] == 'r' && chars[1] == '#' {
        assert(name@.subrange(2, n as int) == name@.skip(2));
        from_characters(&chars, 2, n)
    } else {
        name.to_owned()
    }
}

/// The tool that a function becomes, or why it cannot be one.
pub open spec fn expanded(function: FunctionView, needs_approval: bool) -> Result<
    ToolPlanView,
    ToolMacroError,
> {
    if !function.is_async {
        Err(ToolMacroError::NotAsync)
    } else {
        match first_fault(function.parameters, 0) {
            Some(error) => Err(error),
            None => Ok(
                ToolPlanView {
                    name: function.name,
                    description: joined(doc_lines(function.attributes), "\n"@),
                    input_struct: "__"@ + bare(function.name) + "Input"@,
                    fields: fields_of(function.parameters),
                    arguments: function.parameters.map_values(|p: ParameterView| argument_of(p)),
                    needs_approval,
                },
            ),
        }
    }
}

/// The tool that a function becomes, or why it cannot be one.
pub fn expand(function: &Function, needs_approval: bool) -> (r: Result<ToolPlan, ToolMacroError>)
    ensures
        match r {
            Ok(plan) => expanded(function@, needs_approval) == Ok::<ToolPlanView, ToolMacroError>(
                plan@,
            ),
            Err(error) => expanded(function@, needs_approval) == Err::<
                ToolPlanView,
                ToolMacroError,
            >(error),
        },
{
    if !function.is_async {
        return Err(ToolMacroError::NotAsync);
    }
    let mut fields: Vec<Field> = Vec::new();
    let mut arguments: Vec<Argument> = Vec::new();
    let ghost all = function@.parameters;
    let ghost args = all.map_values(|p: ParameterView| argument_of(p));
    let mut i: usize = 0;
    assert(fields.deep_view() == fields_of(all.take(0)));
    while i < function.parameters.len()
        invariant
            i <= function.parameters@.len(),
            function.is_async,
            all == function.parameters.deep_view(),
            args == all.map_values(|p: ParameterView| argument_of(p)),
            first_fault(all, 0) == first_fault(all, i as int),
            fields.deep_view() == fields_of(all.take(i as int)),
            arguments.deep_view() == args.take(i as int),
        decreases function.parameters@.len() - i,
    {
        assert(all.take(i + 1).drop_last() == all.take(i as int));
        assert(all.take(i + 1).last() == all[i as int]);
        match &function.parameters[i] {
            Parameter::Receiver => {
                return Err(ToolMacroError::Receiver { index: i });
            },
            Parameter::Pattern => {
                return Err(ToolMacroError::Pattern { index: i });
            },
            Parameter::Named { ident, ty } => {
                let argument = if is_tool_context(ty) {
                    Argument::Context
                } else {
                    let field = Field { index: i, ident: ident.clone(), optional: is_option(ty) };
                    let ghost before = fields;
                    fields.push(field);
                    proof {
                        lemma_pushed(before, fields, field);
                    }
                    Argument::Input(ident.clone())
                };
                let ghost before = arguments;
                arguments.push(argument);
                proof {
                    lemma_pushed(before, arguments, argument);
                }
            },
        }
        i = i + 1;
        assert(arguments.deep_view() == args.take(i as int));
    }
    assert(all.take(i as int) == all);
    assert(args.take(i as int) == args);
    Ok(
        ToolPlan {
            name: function.name.clone(),
            description: doc_comment(&function.attributes),
            input_struct: concat3("__", strip(function.name.as_str()).as_str(), "Input"),
            fields,
            arguments,
            needs_approval,
        },
    )
}

/// Whether a parameter is in the schema.
pub open spec fn in_schema(parameter: ParameterView) -> bool {
    parameter matches ParameterView::Named { ty, .. } && !takes_context(ty)
}

/// The schema shows each parameter but the context, as its own type has it: a
/// field is optional just where the type is.
pub proof fn law_fields_are_the_visible_parameters(parameters: Seq<ParameterView>, i: int)
    requires
        0 <= i < parameters.len(),
    ensures
        in_schema(parameters[i]) <==> exists|k: int|
            0 <= k < fields_of(parameters).len() && (#[trigger] fields_of(parameters)[k]).index
                == i,
        parameters[i] matches ParameterView::Named { ident, ty } ==> forall|k: int|
            0 <= k < fields_of(parameters).len() && (#[trigger] fields_of(parameters)[k]).index == i
                ==> fields_of(parameters)[k] == (FieldView {
                index: i,
                ident,
                optional: optional(ty),
            }),
    decreases parameters.len(),
{
    let n = parameters.len() - 1;
    let before = fields_of(parameters.drop_last());
    let after = fields_of(parameters);
    lemma_indices(parameters.drop_last());
    if i < n {
        law_fields_are_the_visible_parameters(parameters.drop_last(), i);
        assert(parameters.drop_last()[i] == parameters[i]);
        if in_schema(parameters[i]) {
            let k = choose|k: int| 0 <= k < before.len() && (#[trigger] before[k]).index == i;
            assert(after[k] == before[k]);
        }
        assert forall|k: int| 0 <= k < after.len() && (#[trigger] after[k]).index == i implies k
            < before.len() && after[k] == before[k] by {}
    } else if in_schema(parameters[i]) {
        assert(after[after.len() - 1].index == i);
        assert forall|k: int| 0 <= k < after.len() && (#[trigger] after[k]).index == i implies k
            == after.len() - 1 by {
            if k < before.len() {
                assert(after[k] == before[k]);
            }
        }
    } else {
        assert(after == before);
    }
}

proof fn lemma_indices(parameters: Seq<ParameterView>)
    ensures
        forall|k: int|
            0 <= k < fields_of(parameters).len() ==> 0 <= (#[trigger] fields_of(
                parameters,
            )[k]).index < parameters.len(),
    decreases parameters.len(),
{
    if parameters.len() > 0 {
        lemma_indices(parameters.drop_last());
        let before = fields_of(parameters.drop_last());
        let after = fields_of(parameters);
        assert forall|k: int| 0 <= k < after.len() implies 0 <= (#[trigger] after[k]).index
            < parameters.len() by {
            if k < before.len() {
                assert(after[k] == before[k]);
            }
        }
    }
}

/// Whether a parameter is the injected context: a reference to a path that ends
/// in its name.
pub open spec fn is_context(parameter: ParameterView) -> bool {
    parameter matches ParameterView::Named { ty: TypeShapeView::ReferenceToPath(names), .. }
        && names.len() > 0 && names.last() == "ToolContext"@
}

/// Whether a parameter may be left out: its type is a path that ends in the name
/// of the option type.
pub open spec fn is_omissible(parameter: ParameterView) -> bool {
    parameter matches ParameterView::Named { ty: TypeShapeView::Path(names), .. } && names.len()
        > 0 && names.last() == "Option"@
}

proof fn lemma_first_fault(parameters: Seq<ParameterView>, from: int)
    requires
        0 <= from,
    ensures
        match first_fault(parameters, from) {
            None => forall|i: int|
                from <= i < parameters.len() ==> #[trigger] parameters[i] is Named,
            Some(error) => exists|i: int|
                {
                    &&& from <= i < parameters.len()
                    &&& match #[trigger] parameters[i] {
                        ParameterView::Receiver => error == (ToolMacroError::Receiver {
                            index: i as usize,
                        }),
                        ParameterView::Pattern => error == (ToolMacroError::Pattern {
                            index: i as usize,
                        }),
                        ParameterView::Named { .. } => false,
                    }
                    &&& forall|k: int| from <= k < i ==> #[trigger] parameters[k] is Named
                },
        },
    decreases parameters.len() - from,
{
    if from < parameters.len() {
        match parameters[from] {
            ParameterView::Named { .. } => {
                lemma_first_fault(parameters, from + 1);
            },
            _ => {
                assert(parameters[from] !is Named);
            },
        }
    }
}

/// A function becomes a tool just where it is async and every parameter is a
/// plain identifier; else the first reason is told.
pub proof fn law_what_can_be_a_tool(function: FunctionView, needs_approval: bool)
    ensures
        expanded(function, needs_approval) is Ok <==> function.is_async && forall|i: int|
            0 <= i < function.parameters.len() ==> #[trigger] function.parameters[i] is Named,
        !function.is_async ==> expanded(function, needs_approval) == Err::<
            ToolPlanView,
            ToolMacroError,
        >(ToolMacroError::NotAsync),
        function.is_async ==> (expanded(function, needs_approval) matches Err(error)
            ==> exists|i: int|
            {
                &&& 0 <= i < function.parameters.len()
                &&& match #[trigger] function.parameters[i] {
                    ParameterView::Receiver => error == (ToolMacroError::Receiver {
                        index: i as usize,
                    }),
                    ParameterView::Pattern => error == (ToolMacroError::Pattern {
                        index: i as usize,
                    }),
                    ParameterView::Named { .. } => false,
                }
                &&& forall|k: int| 0 <= k < i ==> #[trigger] function.parameters[k] is Named
            }),
{
    lemma_first_fault(function.parameters, 0);
}

/// A tool waits for approval just where the attribute says so, and has the
/// function's own name, whatever the parameters and the comments are.
pub proof fn law_tools_wait_where_the_attribute_says_so(function: FunctionView, flag: bool)
    ensures
        expanded(function, flag) matches Ok(plan) ==> {
            &&& plan.needs_approval == flag
            &&& plan.name == function.name
        },
        expanded(function, true) is Ok <==> expanded(function, false) is Ok,
        expanded(function, true) matches Ok(gated) ==> (expanded(function, false) matches Ok(free)
            && gated == (ToolPlanView { needs_approval: true, ..free })),
{
}

/// The function is called with one argument for each parameter, in their order:
/// the context where it asks for it, and else the input of its own name.
pub proof fn law_arguments_are_the_parameters(function: FunctionView, flag: bool, i: int)
    requires
        expanded(function, flag) is Ok,
        0 <= i < function.parameters.len(),
    ensures
        ({
            let plan = expanded(function, flag)->Ok_0;
            &&& plan.arguments.len() == function.parameters.len()
            &&& is_context(function.parameters[i]) ==> plan.arguments[i] == ArgumentView::Context
            &&& !is_context(function.parameters[i]) ==> (function.parameters[i] matches
                ParameterView::Named { ident, .. } && plan.arguments[i] == ArgumentView::Input(
                ident,
            ))
        }),
{
    lemma_first_fault(function.parameters, 0);
    assert(function.parameters[i] is Named);
}

proof fn lemma_fields_ascend(parameters: Seq<ParameterView>)
    ensures
        forall|a: int, b: int|
            0 <= a < b < fields_of(parameters).len() ==> (#[trigger] fields_of(parameters)[a]).index
                < (#[trigger] fields_of(parameters)[b]).index,
    decreases parameters.len(),
{
    if parameters.len() > 0 {
        lemma_fields_ascend(parameters.drop_last());
        lemma_indices(parameters.drop_last());
        let before = fields_of(parameters.drop_last());
        let after = fields_of(parameters);
        assert forall|a: int, b: int| 0 <= a < b < after.len() implies (#[trigger] after[a]).index
            < (#[trigger] after[b]).index by {
            assert(after[a] == before[a]);
            if b < before.len() {
                assert(after[b] == before[b]);
            }
        }
    }
}

/// The schema of a tool has one field for each parameter but the context, in the
/// order of the parameters and under their names, and a field may be left out
/// just where its type is optional.
pub proof fn law_schema_shows_the_parameters(function: FunctionView, flag: bool, i: int)
    requires
        expanded(function, flag) is Ok,
        0 <= i < function.parameters.len(),
    ensures
        ({
            let fields = (expanded(function, flag)->Ok_0).fields;
            let parameter = function.parameters[i];
            &&& !is_context(parameter) <==> exists|k: int|
                0 <= k < fields.len() && (#[trigger] fields[k]).index == i
            &&& forall|k: int|
                0 <= k < fields.len() && (#[trigger] fields[k]).index == i ==> {
                    &&& (parameter matches ParameterView::Named { ident, .. } && fields[k].ident
                        == ident)
                    &&& fields[k].optional <==> is_omissible(parameter)
                }
            &&& forall|k: int|
                0 <= k < fields.len() ==> 0 <= (#[trigger] fields[k]).index
                    < function.parameters.len()
            &&& forall|a: int, b: int|
                0 <= a < b < fields.len() ==> (#[trigger] fields[a]).index < (
                #[trigger] fields[b]).index
        }),
{
    lemma_first_fault(function.parameters, 0);
    assert(function.parameters[i] is Named);
    law_fields_are_the_visible_parameters(function.parameters, i);
    lemma_fields_ascend(function.parameters);
    lemma_indices(function.parameters);
    let fields = fields_of(function.parameters);
    let parameter = function.parameters[i];
    assert((expanded(function, flag)->Ok_0).fields == fields);
    assert(in_schema(parameter) <==> !is_context(parameter));
    assert(!is_context(parameter) <==> exists|k: int|
        0 <= k < fields.len() && (#[trigger] fields[k]).index == i);
    assert forall|k: int| 0 <= k < fields.len() implies 0 <= (#[trigger] fields[k]).index
        < function.parameters.len() by {}
    assert forall|a: int, b: int| 0 <= a < b < fields.len() implies (#[trigger] fields[a]).index < (
    #[trigger] fields[b]).index by {}
    assert forall|k: int| 0 <= k < fields.len() && (#[trigger] fields[k]).index == i implies (
    parameter matches ParameterView::Named { ident, .. } && fields[k].ident == ident) && (
    fields[k].optional <==> is_omissible(parameter)) by {
        assert(fields[k].optional == optional(parameter->ty));
    }
}

/// The description is the doc comment: its lines in their order, each trimmed,
/// one under another. Other attributes add nothing.
pub proof fn law_description_is_the_doc_comment(function: FunctionView, flag: bool)
    ensures
        expanded(function, flag) matches Ok(plan) ==> plan.description == joined(
            doc_lines(function.attributes),
            "\n"@,
        ),
{
}

/// The lines of two runs of attributes follow each other.
pub proof fn law_doc_lines_follow_each_other(a: Seq<AttributeView>, b: Seq<AttributeView>)
    ensures
        doc_lines(a + b) == doc_lines(a) + doc_lines(b),
    decreases b.len(),
{
    if b.len() == 0 {
        assert(a + b == a);
    } else {
        assert((a + b).drop_last() == a + b.drop_last());
        law_doc_lines_follow_each_other(a, b.drop_last());
        assert(doc_lines(a + b) == doc_lines(a) + doc_lines(b));
    }
}

/// A doc attribute is one line, without white space at its ends, and any other is
/// none.
pub proof fn law_doc_attributes_are_the_lines(attribute: AttributeView)
    ensures
        doc_lines(seq![attribute]) == (match attribute {
            AttributeView::Doc(text) => seq![trimmed(text)],
            AttributeView::Other => Seq::empty(),
        }),
{
    reveal_with_fuel(doc_lines, 2);
    assert(seq![attribute].drop_last() == Seq::<AttributeView>::empty());
}

/// The input struct has a name of its own, made of the function's name without
/// the mark of a raw identifier.
pub proof fn law_input_struct_is_named_after_the_function(function: FunctionView, flag: bool)
    ensures
        expanded(function, flag) matches Ok(plan) ==> plan.input_struct == "__"@ + (if "r#"@.is_prefix_of(
            function.name,
        ) {
            function.name.skip(2)
        } else {
            function.name
        }) + "Input"@,
{
    reveal_strlit("r#");
    assert("r#"@.len() == 2 && "r#"@[0] == 'r' && "r#"@[1] == '#');
    let name = function.name;
    if name.len() >= 2 && name[0] == 'r' && name[1] == '#' {
        assert("r#"@ == name.take(2));
    } else if "r#"@.is_prefix_of(name) {
        assert(name.take(2)[0] == 'r' && name.take(2)[1] == '#');
    }
}

/// From the attribute to the tool: a tool waits for approval just where the
/// option says so, runs freely where there is none, and no other option is taken.
pub proof fn law_attribute_decides_on_approval(option: Option<Seq<char>>, function: FunctionView)
    ensures
        option == Some("approval"@) <==> attr_read(option) == Ok::<bool, ToolMacroError>(true),
        option is None <==> attr_read(option) == Ok::<bool, ToolMacroError>(false),
        option matches Some(word) ==> (word != "approval"@ ==> attr_read(option) == Err::<
            bool,
            ToolMacroError,
        >(ToolMacroError::UnknownOption)),
        attr_read(option) matches Ok(flag) ==> (expanded(function, flag) matches Ok(plan)
            ==> plan.needs_approval == (option == Some("approval"@))),
{
}

/// The words of a fault say what is wrong.
pub proof fn law_faults_say_what_is_wrong(index: usize)
    ensures
        ToolMacroError::UnknownOption.text() == "unknown #[tool(...)] option; supported: `approval`"@,
        ToolMacroError::NotAsync.text() == "#[tool] functions must be async"@,
        (ToolMacroError::Receiver { index }).text() == "#[tool] does not support `self`"@,
        (ToolMacroError::Pattern { index }).text()
            == "#[tool] parameters must be plain identifiers"@,
{
}

}
