use vstd::prelude::*;
use vstd::string::StringExecFns;
use crate::classifier::{classify_spec, parse_attributes};
use crate::emitter::{gen_handler, handler_impls};
use crate::mapper::{map_arguments, map_arguments_spec};
use crate::model::{Annotation, AnnotatedMethod, HandlerError, HandlerType, ImplBlock, Item};
use crate::scope::{scope_ident, scope_ident_spec};

verus! {

/// The text views of a list of strings.
pub open spec fn texts(v: Seq<String>) -> Seq<Seq<char>> {
    v.map_values(|s: String| s@)
}

/// What one method contributes: its generated implementations, its name
/// where it is a handler, and the annotations it keeps; or the first error.
pub open spec fn method_output(cls: Seq<char>, m: AnnotatedMethod) -> Result<
    (Seq<Seq<char>>, Option<Seq<char>>, Seq<Annotation>),
    HandlerError,
> {
    match classify_spec(m.annotations@) {
        Err(e) => Err(e),
        Ok((None, rest)) => Ok((Seq::empty(), None, rest)),
        Ok((Some(d), rest)) => match map_arguments_spec(m.params@, d.message(), m.name) {
            Err(e) => Err(e),
            Ok(bs) => Ok((handler_impls(cls, m.name@, d, bs), Some(m.name@), rest)),
        },
    }
}

/// The implementations generated for the methods, in declaration order, and
/// the names of the handler methods; or the first error.
pub open spec fn block_output(cls: Seq<char>, ms: Seq<AnnotatedMethod>) -> Result<
    (Seq<Seq<char>>, Seq<Seq<char>>),
    HandlerError,
>
    decreases ms.len(),
{
    if ms.len() == 0 {
        Ok((Seq::empty(), Seq::empty()))
    } else {
        match block_output(cls, ms.drop_last()) {
            Err(e) => Err(e),
            Ok((impls, names)) => match method_output(cls, ms.last()) {
                Err(e) => Err(e),
                Ok((more, None, _)) => Ok((impls + more, names)),
                Ok((more, Some(n), _)) => Ok((impls + more, names.push(n))),
            },
        }
    }
}

/// The implementations, one after the other.
pub open spec fn concat_texts(impls: Seq<Seq<char>>) -> Seq<char>
    decreases impls.len(),
{
    if impls.len() == 0 {
        Seq::empty()
    } else {
        concat_texts(impls.drop_last()) + impls.last()
    }
}

/// The opening of the generated scope with the imports its code uses.
pub open spec fn unit_head_text(scope: Seq<char>) -> Seq<char> {
    "#[allow(non_upper_case_globals, unused_attributes, unused_qualifications, unused_variables, unused_imports)]\n"@
        + "const "@ + scope + ": () = {\n"@ + "extern crate actix;\n"@ + "use actix::{Actor, Context, FramedContext};\n"@
}

/// The lifecycle implementation that binds the context type to the target type.
pub open spec fn lifecycle_text(cls: Seq<char>, ctx: Seq<char>) -> Seq<char> {
    "impl Actor for "@ + cls + " {\n"@ + "    type Context = "@ + ctx + ";\n"@ + "}\n"@
}

/// The whole generated unit.
pub open spec fn unit_text(
    scope: Seq<char>,
    cls: Seq<char>,
    ctx: Option<Seq<char>>,
    impls: Seq<Seq<char>>,
) -> Seq<char> {
    unit_head_text(scope) + match ctx {
        Some(c) => lifecycle_text(cls, c),
        None => Seq::empty(),
    } + concat_texts(impls) + "};\n"@
}

/// The text generated for a block by invocation number `invocation`, or the
/// first error.
pub open spec fn generated_spec(b: ImplBlock, ctx: Option<Seq<char>>, invocation: u64) -> Result<
    Seq<char>,
    HandlerError,
> {
    match block_output(b.self_ty@, b.methods@) {
        Err(e) => Err(e),
        Ok((impls, names)) => Ok(
            unit_text(
                scope_ident_spec(b.self_ty@, b.self_shape, names, invocation),
                b.self_ty@,
                ctx,
                impls,
            ),
        ),
    }
}

/// Whether `m` is `old` with its annotations replaced by those it keeps.
pub open spec fn rewritten(cls: Seq<char>, old: AnnotatedMethod, m: AnnotatedMethod) -> bool {
    &&& m.name == old.name
    &&& m.params == old.params
    &&& method_output(cls, old) is Ok
    &&& m.annotations@ == method_output(cls, old)->Ok_0.2
}

/// Whether block `b` is `old` with each method's directive consumed.
pub open spec fn block_rewritten(old: ImplBlock, b: ImplBlock) -> bool {
    &&& b.self_ty == old.self_ty
    &&& b.self_shape == old.self_shape
    &&& b.methods@.len() == old.methods@.len()
    &&& forall|j: int|
        0 <= j < old.methods@.len() ==> rewritten(
            old.self_ty@,
            #[trigger] old.methods@[j],
            b.methods@[j],
        )
}

/// A text result seen as characters.
pub open spec fn text_view(r: Result<String, HandlerError>) -> Result<Seq<char>, HandlerError> {
    match r {
        Ok(s) => Ok(s@),
        Err(e) => Err(e),
    }
}

/// The context type seen as characters.
pub open spec fn ctx_view(ctx: Option<String>) -> Option<Seq<char>> {
    match ctx {
        Some(c) => Some(c@),
        None => None,
    }
}

proof fn lemma_error_extends(cls: Seq<char>, ms: Seq<AnnotatedMethod>, k: int)
    requires
        0 <= k <= ms.len(),
        block_output(cls, ms.take(k)) is Err,
    ensures
        block_output(cls, ms) == block_output(cls, ms.take(k)),
    decreases ms.len() - k,
{
    if k < ms.len() {
        assert(ms.take(k + 1).drop_last() == ms.take(k));
        lemma_error_extends(cls, ms, k + 1);
    } else {
        assert(ms.take(k) == ms);
    }
}

/// The message type a directive names.
fn message_of(h: &HandlerType) -> (r: &String)
    ensures
        r@ == h@.message(),
{
    match h {
        HandlerType::Simple(m) => m,
        HandlerType::Handler(m) => m,
        HandlerType::Stream(m, _) => m,
    }
}

/// Writes the implementations one after the other.
fn write_impls(out: &mut String, impls: &Vec<String>)
    ensures
        final(out)@ == old(out)@ + concat_texts(texts(impls@)),
{
    let mut i: usize = 0;
    while i < impls.len()
        invariant
            i <= impls@.len(),
            out@ == old(out)@ + concat_texts(texts(impls@).take(i as int)),
        decreases impls@.len() - i,
    {
        out.append(impls[i].as_str());
        assert(texts(impls@).take(i + 1).drop_last() == texts(impls@).take(i as int));
        assert(out@ =~= old(out)@ + concat_texts(texts(impls@).take(i + 1)));
        i = i + 1;
    }
    assert(texts(impls@).take(impls@.len() as int) == texts(impls@));
}

/// Writes the generated unit.
fn render_unit(scope: &String, cls: &String, ctx: &Option<String>, impls: &Vec<String>) -> (r: String)
    ensures
        r@ == unit_text(scope@, cls@, ctx_view(*ctx), texts(impls@)),
{
    let mut out = String::new();
    out.append(
        "#[allow(non_upper_case_globals, unused_attributes, unused_qualifications, unused_variables, unused_imports)]\n",
    );
    out.append("const ");
    out.append(scope.as_str());
    out.append(": () = {\n");
    out.append("extern crate actix;\n");
    out.append("use actix::{Actor, Context, FramedContext};\n");
    assert(out@ =~= unit_head_text(scope@));
    let ghost head = out@;
    match ctx {
        Some(c) => {
            out.append("impl Actor for ");
            out.append(cls.as_str());
            out.append(" {\n");
            out.append("    type Context = ");
            out.append(c.as_str());
            out.append(";\n");
            out.append("}\n");
            assert(out@ =~= head + lifecycle_text(cls@, c@));
        },
        None => {},
    }
    write_impls(&mut out, impls);
    out.append("};\n");
    assert(out@ =~= unit_text(scope@, cls@, ctx_view(*ctx), texts(impls@)));
    out
}

/// Processes one method: consumes its directive, if any, and appends the
/// implementations it yields and its name as a handler.
fn process_method(
    cls: &String,
    m: &mut AnnotatedMethod,
    impls: &mut Vec<String>,
    names: &mut Vec<String>,
) -> (r: Result<(), HandlerError>)
    ensures
        r is Ok <==> method_output(cls@, *old(m)) is Ok,
        r is Err ==> r->Err_0 == method_output(cls@, *old(m))->Err_0,
        r is Ok ==> {
            let (more, name, _) = method_output(cls@, *old(m))->Ok_0;
            &&& rewritten(cls@, *old(m), *final(m))
            &&& texts(final(impls)@) == texts(old(impls)@) + more
            &&& texts(final(names)@) == match name {
                Some(n) => texts(old(names)@).push(n),
                None => texts(old(names)@),
            }
        },
{
    let mut anns: Vec<Annotation> = Vec::new();
    std::mem::swap(&mut m.annotations, &mut anns);
    let (directive, rest) = match parse_attributes(anns) {
        Ok(x) => x,
        Err(e) => return Err(e),
    };
    m.annotations = rest;
    match directive {
        None => {
            assert(texts(impls@) =~= texts(old(impls)@) + Seq::<Seq<char>>::empty());
            Ok(())
        },
        Some(h) => {
            let bs = match map_arguments(&m.params, message_of(&h), &m.name) {
                Ok(bs) => bs,
                Err(e) => return Err(e),
            };
            let mut more = gen_handler(cls, &m.name, &h, &bs);
            let ghost more_view = texts(more@);
            assert(more_view =~= handler_impls(cls@, m.name@, h@, bs@));
            impls.append(&mut more);
            assert(texts(impls@) =~= texts(old(impls)@) + more_view);
            names.push(m.name.clone());
            assert(texts(names@) =~= texts(old(names)@).push(m.name@));
            Ok(())
        },
    }
}

/// Generates the handler implementations of an implementation block.
///
/// Every method that carries a directive yields its implementations, in
/// declaration order, and loses the directive; the other methods are left as
/// they are and yield nothing. The implementations, preceded by the lifecycle
/// implementation where a context type is given, are wrapped in a scope whose
/// identifier is derived from the invocation's number, the type and its
/// handler names. The first error met fails the whole block.
pub fn impl_handler(block: &mut ImplBlock, ctx: Option<String>, invocation: u64) -> (r: Result<
    String,
    HandlerError,
>)
    ensures
        text_view(r) == generated_spec(*old(block), ctx_view(ctx), invocation),
        r is Ok ==> block_rewritten(*old(block), *final(block)),
{
    let ghost before = block.methods@;
    let ghost cls = block.self_ty@;
    let mut impls: Vec<String> = Vec::new();
    let mut names: Vec<String> = Vec::new();
    let n = block.methods.len();
    let mut i: usize = 0;
    assert(texts(impls@) =~= Seq::<Seq<char>>::empty());
    assert(texts(names@) =~= Seq::<Seq<char>>::empty());
    assert(before.take(0) =~= Seq::<AnnotatedMethod>::empty());
    while i < n
        invariant
            n == before.len(),
            cls == block.self_ty@,
            block.self_ty == old(block).self_ty,
            block.self_shape == old(block).self_shape,
            before == old(block).methods@,
            block.methods@.len() == n,
            i <= n,
            forall|j: int| i <= j < n ==> block.methods@[j] == before[j],
            forall|j: int| 0 <= j < i ==> rewritten(cls, #[trigger] before[j], block.methods@[j]),
            block_output(cls, before.take(i as int)) == Ok::<
                (Seq<Seq<char>>, Seq<Seq<char>>),
                HandlerError,
            >((texts(impls@), texts(names@))),
        decreases n - i,
    {
        assert(before.take(i + 1).drop_last() == before.take(i as int));
        assert(before.take(i + 1).last() == before[i as int]);
        let res = process_method(&block.self_ty, &mut block.methods[i], &mut impls, &mut names);
        if let Err(e) = res {
            proof {
                lemma_error_extends(cls, before, i + 1);
            }
            return Err(e);
        }
        i = i + 1;
    }
    assert(before.take(n as int) == before);
    let scope = scope_ident(&block.self_ty, &block.self_shape, &names, invocation);
    Ok(render_unit(&scope, &block.self_ty, &ctx, &impls))
}

/// Generates the handler implementations for the declaration `item`.
///
/// Only a plain implementation block is accepted: any other declaration,
/// a trait implementation among them, is refused before any method is read.
/// Each invocation within a compilation unit is given its own number.
pub fn build_handler(item: &mut Item, ctx: Option<String>, invocation: u64) -> (r: Result<
    String,
    HandlerError,
>)
    ensures
        match *old(item) {
            Item::Impl { trait_impl: false, block } => {
                &&& text_view(r) == generated_spec(block, ctx_view(ctx), invocation)
                &&& r is Ok ==> match *final(item) {
                    Item::Impl { trait_impl: false, block: b } => block_rewritten(block, b),
                    _ => false,
                }
            },
            _ => r == Err::<String, HandlerError>(HandlerError::InvalidTarget) && *final(item)
                == *old(item),
        },
{
    match item {
        Item::Impl { trait_impl: false, block } => impl_handler(block, ctx, invocation),
        _ => Err(HandlerError::InvalidTarget),
    }
}

} // verus!
