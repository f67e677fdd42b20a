use vstd::prelude::*;
use crate::model::{ArgumentBinding, HandlerError, Param, Pattern, TypeShape};
use crate::text::same_text;

verus! {

/// The name that marks a parameter as the dispatch context.
pub open spec fn ctx_name() -> Seq<char> {
    seq!['c', 't', 'x']
}

/// Whether a declared type is exactly the single-segment path naming `msg`.
pub open spec fn is_message_type(ty: TypeShape, msg: Seq<char>) -> bool {
    match ty {
        TypeShape::Path { global, segments } => !global && segments@.len() == 1
            && segments@[0].ident@ == msg && !segments@[0].has_args,
        TypeShape::Other => false,
    }
}

/// Whether a parameter is part of the argument list (every one but the receiver).
pub open spec fn is_argument(p: Param) -> bool {
    !(p is Receiver)
}

/// The parameters that the generated call passes, in declaration order.
pub open spec fn argument_params(params: Seq<Param>) -> Seq<Param>
    decreases params.len(),
{
    if params.len() == 0 {
        params
    } else if is_argument(params.last()) {
        argument_params(params.drop_last()).push(params.last())
    } else {
        argument_params(params.drop_last())
    }
}

/// The binding of a plain identifier parameter.
pub open spec fn binding_for(name: String, ty: TypeShape, msg: Seq<char>) -> ArgumentBinding {
    if name@ == ctx_name() {
        ArgumentBinding::Context
    } else if is_message_type(ty, msg) {
        ArgumentBinding::Message
    } else {
        ArgumentBinding::Field(name)
    }
}

/// What one parameter contributes: nothing for the receiver, a binding, or an error.
pub open spec fn param_binding(p: Param, msg: Seq<char>, method: String) -> Result<
    Option<ArgumentBinding>,
    HandlerError,
> {
    match p {
        Param::Receiver => Ok(None),
        Param::Ignored => Err(HandlerError::IgnoredParameter(method)),
        Param::Captured { pat, ty } => match pat {
            Pattern::Ident(name) => Ok(Some(binding_for(name, ty, msg))),
            Pattern::Other => Err(HandlerError::UnsupportedParameterPattern),
        },
    }
}

/// The bindings of a parameter list, or the error of its first unsupported parameter.
pub open spec fn map_arguments_spec(params: Seq<Param>, msg: Seq<char>, method: String) -> Result<
    Seq<ArgumentBinding>,
    HandlerError,
>
    decreases params.len(),
{
    if params.len() == 0 {
        Ok(Seq::empty())
    } else {
        match map_arguments_spec(params.drop_last(), msg, method) {
            Err(e) => Err(e),
            Ok(bs) => match param_binding(params.last(), msg, method) {
                Err(e) => Err(e),
                Ok(None) => Ok(bs),
                Ok(Some(b)) => Ok(bs.push(b)),
            },
        }
    }
}

/// The binding of a parameter that the argument list holds.
pub open spec fn argument_binding(p: Param, msg: Seq<char>, method: String) -> ArgumentBinding {
    match param_binding(p, msg, method) {
        Ok(Some(b)) => b,
        _ => ArgumentBinding::Context,
    }
}

/// A result whose bindings are seen as a sequence.
pub open spec fn bindings_view(r: Result<Vec<ArgumentBinding>, HandlerError>) -> Result<
    Seq<ArgumentBinding>,
    HandlerError,
> {
    match r {
        Ok(v) => Ok(v@),
        Err(e) => Err(e),
    }
}

proof fn lemma_error_extends(params: Seq<Param>, k: int, msg: Seq<char>, method: String)
    requires
        0 <= k <= params.len(),
        map_arguments_spec(params.take(k), msg, method) is Err,
    ensures
        map_arguments_spec(params, msg, method) == map_arguments_spec(params.take(k), msg, method),
    decreases params.len() - k,
{
    if k < params.len() {
        assert(params.take(k + 1).drop_last() == params.take(k));
        lemma_error_extends(params, k + 1, msg, method);
    } else {
        assert(params.take(k) == params);
    }
}

/// Whether a declared type is the message type.
fn is_message_type_exec(ty: &TypeShape, msg: &String) -> (r: bool)
    ensures
        r == is_message_type(*ty, msg@),
{
    match ty {
        TypeShape::Path { global, segments } => {
            if *global || segments.len() != 1 || segments[0].has_args {
                false
            } else {
                same_text(segments[0].ident.as_str(), msg.as_str())
            }
        },
        TypeShape::Other => false,
    }
}

/// Maps one parameter to its binding.
fn map_param(p: &Param, msg: &String, method: &String) -> (r: Result<
    Option<ArgumentBinding>,
    HandlerError,
>)
    ensures
        r == param_binding(*p, msg@, *method),
{
    match p {
        Param::Receiver => Ok(None),
        Param::Ignored => Err(HandlerError::IgnoredParameter(method.clone())),
        Param::Captured { pat, ty } => match pat {
            Pattern::Ident(name) => {
                proof {
                    reveal_strlit("ctx");
                    assert("ctx"@ =~= ctx_name());
                }
                if same_text(name.as_str(), "ctx") {
                    Ok(Some(ArgumentBinding::Context))
                } else if is_message_type_exec(ty, msg) {
                    Ok(Some(ArgumentBinding::Message))
                } else {
                    Ok(Some(ArgumentBinding::Field(name.clone())))
                }
            },
            Pattern::Other => Err(HandlerError::UnsupportedParameterPattern),
        },
    }
}

/// Maps a method's parameters onto the incoming message of type `msg`.
///
/// The receiver is skipped; a parameter named `ctx` passes the dispatch
/// context, one declared with the message type passes the whole message, and
/// any other passes the message's field of the parameter's name. A compound
/// pattern or an elided binding is refused.
pub fn map_arguments(params: &Vec<Param>, msg: &String, method: &String) -> (r: Result<
    Vec<ArgumentBinding>,
    HandlerError,
>)
    ensures
        bindings_view(r) == map_arguments_spec(params@, msg@, *method),
{
    let mut out: Vec<ArgumentBinding> = Vec::new();
    let mut i: usize = 0;
    while i < params.len()
        invariant
            i <= params.len(),
            map_arguments_spec(params@.take(i as int), msg@, *method) == Ok::<
                Seq<ArgumentBinding>,
                HandlerError,
            >(out@),
        decreases params.len() - i,
    {
        let step = map_param(&params[i], msg, method);
        assert(params@.take(i + 1).drop_last() == params@.take(i as int));
        assert(params@.take(i + 1).last() == params@[i as int]);
        match step {
            Err(e) => {
                proof {
                    lemma_error_extends(params@, i + 1, msg@, *method);
                }
                return Err(e);
            },
            Ok(Some(b)) => {
                out.push(b);
            },
            Ok(None) => {},
        }
        i = i + 1;
    }
    assert(params@.take(params@.len() as int) == params@);
    Ok(out)
}

} // verus!
