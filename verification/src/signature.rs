//! The signature of a function that becomes a durable flow.
use vstd::prelude::*;
use crate::naming;
use crate::naming::pascal_case;
use crate::text;
use crate::text::same_text;

verus! {

/// A type written as a path: the name of its last segment and the texts of the
/// type arguments behind it.
#[derive(Debug)]
pub struct TypePath {
    pub last_segment: String,
    pub type_arguments: Vec<String>,
}

/// The type of a parameter: a reference to a type, which may be a path, or
/// another form.
#[derive(Debug)]
pub enum ParameterType {
    Reference { mutable: bool, target: Option<TypePath> },
    Other,
}

/// A parameter: a receiver, or a pattern with a type. The pattern has a name
/// where it is a plain identifier.
#[derive(Debug)]
pub enum FlowParameter {
    Receiver,
    Typed { name: Option<String>, ty: ParameterType },
}

/// What is read of a function. The output is a path where there is one.
#[derive(Debug)]
pub struct FlowSignature {
    pub name: String,
    pub is_async: bool,
    pub is_generic: bool,
    pub parameters: Vec<FlowParameter>,
    pub output: Option<TypePath>,
}

/// What a flow is made of: the name of its input, the fields of its input, the
/// types of its context and its output.
#[derive(Debug, PartialEq, Eq)]
pub struct FlowShape {
    pub struct_name: String,
    pub fields: Vec<String>,
    pub context: String,
    pub output: String,
}

/// The first type argument of a path with the given last segment.
pub open spec fn argument_of(path: TypePath, segment: Seq<char>) -> Option<Seq<char>> {
    if path.last_segment@ == segment && path.type_arguments@.len() > 0 {
        Some(path.type_arguments@[0]@)
    } else {
        None
    }
}

fn first_argument(path: &TypePath, segment: &str) -> (argument: Option<String>)
    ensures
        text::opt_text(argument) == argument_of(*path, segment@),
{
    if same_text(path.last_segment.as_str(), segment) && path.type_arguments.len() > 0 {
        Some(path.type_arguments[0].clone())
    } else {
        None
    }
}

/// The type of the context in the type of the first parameter.
pub open spec fn context_of(ty: ParameterType) -> Option<Seq<char>> {
    match ty {
        ParameterType::Reference { mutable, target: Some(path) } => if mutable {
            argument_of(path, "WfCtx"@)
        } else {
            None
        },
        _ => None,
    }
}

/// The type of the context in the type of the first parameter.
pub fn wfctx_context_type(ty: &ParameterType) -> (context: Option<String>)
    ensures
        text::opt_text(context) == context_of(*ty),
{
    match ty {
        ParameterType::Reference { mutable, target } => match target {
            Some(path) => if *mutable {
                first_argument(path, "WfCtx")
            } else {
                None
            },
            None => None,
        },
        ParameterType::Other => None,
    }
}

/// The type of the output in the returned type.
pub open spec fn output_of(output: Option<TypePath>) -> Option<Seq<char>> {
    match output {
        Some(path) => argument_of(path, "Result"@),
        None => None,
    }
}

/// The type of the output in the returned type.
pub fn result_output_type(output: &Option<TypePath>) -> (success: Option<String>)
    ensures
        text::opt_text(success) == output_of(*output),
{
    match output {
        Some(path) => first_argument(path, "Result"),
        None => None,
    }
}

/// The type of the context of a flow.
pub open spec fn flow_context(parameters: Seq<FlowParameter>) -> Option<Seq<char>> {
    if parameters.len() == 0 {
        None
    } else {
        match parameters[0] {
            FlowParameter::Receiver => None,
            FlowParameter::Typed { name: _, ty } => context_of(ty),
        }
    }
}

/// Why a parameter behind the first is refused.
pub open spec fn field_problem(parameter: FlowParameter) -> Option<Seq<char>> {
    match parameter {
        FlowParameter::Receiver => Some("unsupported flow parameter"@),
        FlowParameter::Typed { name: Some(_), ty: _ } => None,
        FlowParameter::Typed { name: None, ty: _ } => Some(
            "flow parameters must be plain identifiers"@,
        ),
    }
}

/// Why the first refused of some parameters is refused.
pub open spec fn fields_problem(parameters: Seq<FlowParameter>) -> Option<Seq<char>>
    decreases parameters.len(),
{
    if parameters.len() == 0 {
        None
    } else {
        match fields_problem(parameters.drop_last()) {
            Some(message) => Some(message),
            None => field_problem(parameters.last()),
        }
    }
}

proof fn lemma_fields_problem(parameters: Seq<FlowParameter>, k: int)
    requires
        0 <= k <= parameters.len(),
        fields_problem(parameters.take(k)) is Some,
    ensures
        fields_problem(parameters) == fields_problem(parameters.take(k)),
    decreases parameters.len(),
{
    if k == parameters.len() {
        assert(parameters.take(k) =~= parameters);
    } else {
        assert(parameters.drop_last().take(k) =~= parameters.take(k));
        lemma_fields_problem(parameters.drop_last(), k);
    }
}

/// Whether a field has the name of a parameter.
pub open spec fn names_parameter(field: String, parameter: FlowParameter) -> bool {
    parameter matches FlowParameter::Typed { name: Some(name), ty: _ } && name@ == field@
}

/// Why a function cannot become a flow.
pub open spec fn signature_problem(signature: FlowSignature) -> Option<Seq<char>> {
    if !signature.is_async {
        Some("a durable flow must be an `async fn`"@)
    } else if signature.is_generic {
        Some("a durable flow cannot have generic parameters"@)
    } else if flow_context(signature.parameters@) is None {
        Some("a durable flow's first parameter must be `ctx: &mut WfCtx<'_, Context>`"@)
    } else {
        match fields_problem(signature.parameters@.skip(1)) {
            Some(message) => Some(message),
            None => if output_of(signature.output) is None {
                Some("a durable flow must return `Result<Output, WfError>`"@)
            } else {
                None
            },
        }
    }
}

/// Reads what a flow is made of from the signature of its function.
pub fn read_signature(signature: &FlowSignature) -> (result: Result<FlowShape, String>)
    ensures
        match result {
            Ok(shape) => {
                &&& signature_problem(*signature) is None
                &&& shape.struct_name@ == naming::pascal_from(signature.name@, true)
                &&& shape.fields@.len() == signature.parameters@.len() - 1
                &&& forall|i: int|
                    0 <= i < shape.fields@.len() ==> names_parameter(
                        #[trigger] shape.fields@[i],
                        signature.parameters@[i + 1],
                    )
                &&& flow_context(signature.parameters@) == Some(shape.context@)
                &&& output_of(signature.output) == Some(shape.output@)
            },
            Err(message) => signature_problem(*signature) == Some(message@),
        },
{
    if !signature.is_async {
        return Err("a durable flow must be an `async fn`".to_owned());
    }
    if signature.is_generic {
        return Err("a durable flow cannot have generic parameters".to_owned());
    }
    let mut context: Option<String> = None;
    if signature.parameters.len() > 0 {
        match &signature.parameters[0] {
            FlowParameter::Receiver => {},
            FlowParameter::Typed { name: _, ty } => {
                context = wfctx_context_type(ty);
            },
        }
    }
    let context = match context {
        Some(context) => context,
        None => {
            return Err(
                "a durable flow's first parameter must be `ctx: &mut WfCtx<'_, Context>`".to_owned(),
            );
        },
    };
    let ghost rest = signature.parameters@.skip(1);
    let mut fields: Vec<String> = Vec::new();
    let mut i: usize = 1;
    assert(rest.take(0) =~= Seq::<FlowParameter>::empty());
    while i < signature.parameters.len()
        invariant
            1 <= i <= signature.parameters@.len(),
            rest == signature.parameters@.skip(1),
            fields@.len() == i - 1,
            fields_problem(rest.take(i - 1)) is None,
            signature.is_async,
            !signature.is_generic,
            flow_context(signature.parameters@) is Some,
            forall|j: int|
                0 <= j < i - 1 ==> names_parameter(
                    #[trigger] fields@[j],
                    signature.parameters@[j + 1],
                ),
        decreases signature.parameters@.len() - i,
    {
        proof {
            assert(rest.take(i as int).drop_last() =~= rest.take(i - 1));
            assert(rest.take(i as int).last() == signature.parameters@[i as int]);
            if field_problem(signature.parameters@[i as int]) is Some {
                lemma_fields_problem(rest, i as int);
            }
        }
        match &signature.parameters[i] {
            FlowParameter::Receiver => return Err("unsupported flow parameter".to_owned()),
            FlowParameter::Typed { name, ty: _ } => match name {
                Some(name) => {
                    fields.push(name.clone());
                },
                None => return Err("flow parameters must be plain identifiers".to_owned()),
            },
        }
        i = i + 1;
    }
    assert(rest.take(i - 1) =~= rest);
    match result_output_type(&signature.output) {
        Some(output) => Ok(
            FlowShape {
                struct_name: pascal_case(signature.name.as_str()),
                fields,
                context,
                output,
            },
        ),
        None => Err("a durable flow must return `Result<Output, WfError>`".to_owned()),
    }
}

/// A function becomes a flow exactly where it is async and not generic, takes a mutable
/// context first, names every other parameter, and returns a result.
pub proof fn law_flow_signature_is_refused_only_for_a_reason(signature: FlowSignature)
    ensures
        signature_problem(signature) is None <==> {
            &&& signature.is_async
            &&& !signature.is_generic
            &&& takes_context(signature.parameters@)
            &&& forall|i: int|
                1 <= i < signature.parameters@.len() ==> is_named(#[trigger] signature.parameters@[i])
            &&& signature.output matches Some(path) && path.last_segment@ == "Result"@
                && path.type_arguments@.len() > 0
        },
{
    let parameters = signature.parameters@;
    if parameters.len() > 0 {
        let rest = parameters.skip(1);
        lemma_named_fields(rest);
        assert forall|i: int| 1 <= i < parameters.len() implies #[trigger] parameters[i] == rest[i
            - 1] by {}
        if forall|i: int| 1 <= i < parameters.len() ==> is_named(#[trigger] parameters[i]) {
            assert forall|k: int| 0 <= k < rest.len() implies is_named(#[trigger] rest[k]) by {
                assert(rest[k] == parameters[k + 1]);
            }
        }
        if forall|k: int| 0 <= k < rest.len() ==> is_named(#[trigger] rest[k]) {
            assert forall|i: int| 1 <= i < parameters.len() implies is_named(
                #[trigger] parameters[i],
            ) by {
                assert(is_named(rest[i - 1]));
            }
        }
    }
}

/// Whether the first parameter is a mutable reference to a context.
pub open spec fn takes_context(parameters: Seq<FlowParameter>) -> bool {
    &&& parameters.len() > 0
    &&& parameters[0] matches FlowParameter::Typed {
        ty: ParameterType::Reference { mutable: true, target: Some(path) },
        ..
    } && path.last_segment@ == "WfCtx"@ && path.type_arguments@.len() > 0
}

/// Whether a parameter has a plain name.
pub open spec fn is_named(parameter: FlowParameter) -> bool {
    parameter matches FlowParameter::Typed { name: Some(_), .. }
}

proof fn lemma_named_fields(parameters: Seq<FlowParameter>)
    ensures
        fields_problem(parameters) is None <==> forall|i: int|
            0 <= i < parameters.len() ==> is_named(#[trigger] parameters[i]),
    decreases parameters.len(),
{
    if parameters.len() > 0 {
        let shorter = parameters.drop_last();
        lemma_named_fields(shorter);
        assert forall|i: int| 0 <= i < shorter.len() implies #[trigger] parameters[i] == shorter[i] by {}
        assert(parameters.last() == parameters[parameters.len() - 1]);
        if fields_problem(shorter) is Some {
            let i = choose|i: int| 0 <= i < shorter.len() && !is_named(#[trigger] shorter[i]);
            assert(!is_named(parameters[i]));
        }
    }
}

/// The types of the context and of the output are the first type arguments of the first
/// parameter and of the result.
pub proof fn law_types_are_the_first_arguments(path: TypePath, segment: Seq<char>)
    ensures
        argument_of(path, segment) is Some <==> path.last_segment@ == segment
            && path.type_arguments@.len() > 0,
        argument_of(path, segment) matches Some(argument) ==> argument == path.type_arguments@[0]@,
        context_of(ParameterType::Reference { mutable: true, target: Some(path) }) == argument_of(
            path,
            "WfCtx"@,
        ),
        output_of(Some(path)) == argument_of(path, "Result"@),
{
}

} // verus!
