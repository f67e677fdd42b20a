use vstd::prelude::*;
use crate::classifier::{classify_spec, Directive};
use crate::emitter::{
    args_text,
    call_text,
    handler_head_text,
    handler_impl_text,
    handler_impls,
    outcome_body,
    simple_body,
    stream_marker_text,
};
use crate::mapper::{
    argument_binding,
    argument_params,
    ctx_name,
    is_message_type,
    map_arguments_spec,
    param_binding,
};
use crate::model::{AnnotatedMethod, ArgumentBinding, HandlerError, Param, Pattern};
use crate::processor::{block_output, method_output};

verus! {

/// The directive a method's annotations carry, if they are well formed.
pub open spec fn method_directive(m: AnnotatedMethod) -> Option<Directive> {
    match classify_spec(m.annotations@) {
        Ok((d, _)) => d,
        Err(_) => None,
    }
}

/// The number of methods that carry a directive.
pub open spec fn handler_count(ms: Seq<AnnotatedMethod>) -> nat
    decreases ms.len(),
{
    if ms.len() == 0 {
        0
    } else {
        handler_count(ms.drop_last()) + if method_directive(ms.last()) is Some {
            1nat
        } else {
            0nat
        }
    }
}

/// The number of methods that carry a stream directive.
pub open spec fn stream_count(ms: Seq<AnnotatedMethod>) -> nat
    decreases ms.len(),
{
    if ms.len() == 0 {
        0
    } else {
        stream_count(ms.drop_last()) + if method_directive(ms.last()) matches Some(
            Directive::Stream(_, _),
        ) {
            1nat
        } else {
            0nat
        }
    }
}

/// A directive yields one implementation, but a stream directive two.
pub proof fn lemma_impl_count(cls: Seq<char>, name: Seq<char>, d: Directive, bs: Seq<ArgumentBinding>)
    ensures
        handler_impls(cls, name, d, bs).len() == if d is Stream {
            2int
        } else {
            1int
        },
{
}

/// The opening of a message-handler implementation.
pub open spec fn handler_prefix() -> Seq<char> {
    "impl actix::Handler<"@
}

/// The opening of a streaming marker implementation.
pub open spec fn marker_prefix() -> Seq<char> {
    "impl actix::StreamHandler<"@
}

/// Whether text `t` opens with `prefix`.
pub open spec fn opens_with(t: Seq<char>, prefix: Seq<char>) -> bool {
    prefix.len() <= t.len() && t.take(prefix.len() as int) == prefix
}

/// The number of texts that open with `prefix`.
pub open spec fn count_opening(impls: Seq<Seq<char>>, prefix: Seq<char>) -> nat
    decreases impls.len(),
{
    if impls.len() == 0 {
        0
    } else {
        count_opening(impls.drop_last(), prefix) + if opens_with(impls.last(), prefix) {
            1nat
        } else {
            0nat
        }
    }
}

proof fn lemma_count_concat(a: Seq<Seq<char>>, b: Seq<Seq<char>>, prefix: Seq<char>)
    ensures
        count_opening(a + b, prefix) == count_opening(a, prefix) + count_opening(b, prefix),
    decreases b.len(),
{
    if b.len() == 0 {
        assert(a + b =~= a);
    } else {
        assert((a + b).drop_last() =~= a + b.drop_last());
        assert((a + b).last() == b.last());
        lemma_count_concat(a, b.drop_last(), prefix);
    }
}

proof fn lemma_single_count(t: Seq<char>, prefix: Seq<char>)
    ensures
        count_opening(seq![t], prefix) == if opens_with(t, prefix) {
            1nat
        } else {
            0nat
        },
{
    let one = seq![t];
    assert(one.drop_last() =~= Seq::<Seq<char>>::empty());
    assert(one.last() == t);
    assert(count_opening(one.drop_last(), prefix) == 0);
}

proof fn lemma_handler_openings(trait_args: Seq<char>, cls: Seq<char>, msg: Seq<char>, body: Seq<char>)
    ensures
        opens_with(handler_impl_text(trait_args, cls, msg, body), handler_prefix()),
        !opens_with(handler_impl_text(trait_args, cls, msg, body), marker_prefix()),
{
    reveal_strlit("impl actix::Handler<");
    reveal_strlit("impl actix::StreamHandler<");
    let t = handler_impl_text(trait_args, cls, msg, body);
    let h = handler_prefix();
    assert(t =~= h + (t.subrange(h.len() as int, t.len() as int)));
    assert(t.take(h.len() as int) =~= h);
    assert(t[12] == 'H');
    assert(marker_prefix()[12] == 'S');
    if opens_with(t, marker_prefix()) {
        assert(t.take(marker_prefix().len() as int)[12] == t[12]);
    }
}

proof fn lemma_marker_openings(cls: Seq<char>, msg: Seq<char>, err: Seq<char>)
    ensures
        opens_with(stream_marker_text(cls, msg, err), marker_prefix()),
        !opens_with(stream_marker_text(cls, msg, err), handler_prefix()),
{
    reveal_strlit("impl actix::Handler<");
    reveal_strlit("impl actix::StreamHandler<");
    let t = stream_marker_text(cls, msg, err);
    let m = marker_prefix();
    assert(t =~= m + (t.subrange(m.len() as int, t.len() as int)));
    assert(t.take(m.len() as int) =~= m);
    assert(t[12] == 'S');
    assert(handler_prefix()[12] == 'H');
    if opens_with(t, handler_prefix()) {
        assert(t.take(handler_prefix().len() as int)[12] == t[12]);
    }
}

/// A directive yields one message-handler implementation, and a stream
/// directive one streaming marker besides.
pub proof fn lemma_impl_kinds(cls: Seq<char>, name: Seq<char>, d: Directive, bs: Seq<ArgumentBinding>)
    ensures
        count_opening(handler_impls(cls, name, d, bs), handler_prefix()) == 1,
        count_opening(handler_impls(cls, name, d, bs), marker_prefix()) == if d is Stream {
            1nat
        } else {
            0nat
        },
{
    let call = call_text(name, args_text(bs));
    match d {
        Directive::Simple(m) => {
            lemma_handler_openings(m, cls, m, simple_body(call));
            lemma_single_count(handler_impls(cls, name, d, bs)[0], handler_prefix());
            lemma_single_count(handler_impls(cls, name, d, bs)[0], marker_prefix());
            assert(handler_impls(cls, name, d, bs) =~= seq![handler_impls(cls, name, d, bs)[0]]);
        },
        Directive::Handler(m) => {
            lemma_handler_openings(m, cls, m, outcome_body(call));
            lemma_single_count(handler_impls(cls, name, d, bs)[0], handler_prefix());
            lemma_single_count(handler_impls(cls, name, d, bs)[0], marker_prefix());
            assert(handler_impls(cls, name, d, bs) =~= seq![handler_impls(cls, name, d, bs)[0]]);
        },
        Directive::Stream(m, e) => {
            let is = handler_impls(cls, name, d, bs);
            lemma_marker_openings(cls, m, e);
            lemma_handler_openings(m + ", "@ + e, cls, m, outcome_body(call));
            lemma_single_count(is[0], handler_prefix());
            lemma_single_count(is[0], marker_prefix());
            lemma_single_count(is[1], handler_prefix());
            lemma_single_count(is[1], marker_prefix());
            assert(is =~= seq![is[0]] + seq![is[1]]);
            lemma_count_concat(seq![is[0]], seq![is[1]], handler_prefix());
            lemma_count_concat(seq![is[0]], seq![is[1]], marker_prefix());
        },
    }
}

/// For a block whose processing succeeds, `k` methods with a directive, `s`
/// of them stream directives, yield `k + s` implementations: `k`
/// message-handler implementations and `s` streaming markers; and `k`
/// handler names. A method without a directive yields nothing.
pub proof fn lemma_block_counts(cls: Seq<char>, ms: Seq<AnnotatedMethod>)
    requires
        block_output(cls, ms) is Ok,
    ensures
        block_output(cls, ms)->Ok_0.0.len() == handler_count(ms) + stream_count(ms),
        count_opening(block_output(cls, ms)->Ok_0.0, handler_prefix()) == handler_count(ms),
        count_opening(block_output(cls, ms)->Ok_0.0, marker_prefix()) == stream_count(ms),
        block_output(cls, ms)->Ok_0.1.len() == handler_count(ms),
        forall|j: int|
            0 <= j < ms.len() && method_directive(#[trigger] ms[j]) is None ==> method_output(
                cls,
                ms[j],
            )->Ok_0.0.len() == 0,
    decreases ms.len(),
{
    if ms.len() > 0 {
        let init = ms.drop_last();
        assert(block_output(cls, init) is Ok);
        lemma_block_counts(cls, init);
        let m = ms.last();
        assert(method_output(cls, m) is Ok);
        let prev = block_output(cls, init)->Ok_0.0;
        let more = method_output(cls, m)->Ok_0.0;
        lemma_count_concat(prev, more, handler_prefix());
        lemma_count_concat(prev, more, marker_prefix());
        match classify_spec(m.annotations@) {
            Ok((Some(d), _)) => {
                let bs = map_arguments_spec(m.params@, d.message(), m.name)->Ok_0;
                lemma_impl_count(cls, m.name@, d, bs);
                lemma_impl_kinds(cls, m.name@, d, bs);
            },
            _ => {
                assert(more =~= Seq::<Seq<char>>::empty());
            },
        }
        assert forall|j: int|
            0 <= j < ms.len() && method_directive(#[trigger] ms[j]) is None implies method_output(
                cls,
                ms[j],
            )->Ok_0.0.len() == 0 by {
            if j < ms.len() - 1 {
                assert(ms[j] == init[j]);
            }
        }
    }
}

/// The handler half of a stream directive has the body of an outcome
/// directive for the same message: only the trait arguments differ, the
/// stream's naming the error type after the message type.
pub proof fn lemma_stream_matches_outcome(
    cls: Seq<char>,
    name: Seq<char>,
    msg: Seq<char>,
    err: Seq<char>,
    bs: Seq<ArgumentBinding>,
)
    ensures
        ({
            let body = outcome_body(call_text(name, args_text(bs)));
            &&& handler_impls(cls, name, Directive::Handler(msg), bs)[0] == handler_impl_text(
                msg,
                cls,
                msg,
                body,
            )
            &&& handler_impls(cls, name, Directive::Stream(msg, err), bs)[1] == handler_impl_text(
                msg + ", "@ + err,
                cls,
                msg,
                body,
            )
        }),
{
}

/// The bindings of a parameter list follow its parameters in declaration
/// order, the receiver left out: one binding per remaining parameter.
pub proof fn lemma_bindings_follow_params(params: Seq<Param>, msg: Seq<char>, method: String)
    requires
        map_arguments_spec(params, msg, method) is Ok,
    ensures
        map_arguments_spec(params, msg, method)->Ok_0.len() == argument_params(params).len(),
        forall|j: int|
            0 <= j < argument_params(params).len() ==> map_arguments_spec(params, msg, method)->Ok_0[j]
                == argument_binding(#[trigger] argument_params(params)[j], msg, method),
    decreases params.len(),
{
    if params.len() > 0 {
        let init = params.drop_last();
        lemma_bindings_follow_params(init, msg, method);
        let bs = map_arguments_spec(params, msg, method)->Ok_0;
        let prev = map_arguments_spec(init, msg, method)->Ok_0;
        let p = params.last();
        match param_binding(p, msg, method) {
            Ok(Some(b)) => {
                assert(!(p is Receiver));
                assert(argument_params(params) == argument_params(init).push(p));
                assert forall|j: int| 0 <= j < argument_params(params).len() implies bs[j]
                    == argument_binding(#[trigger] argument_params(params)[j], msg, method) by {
                    if j < prev.len() {
                        assert(argument_params(params)[j] == argument_params(init)[j]);
                    }
                }
            },
            _ => {
                assert(p is Receiver);
            },
        }
    }
}

/// The number of receiver parameters.
pub open spec fn receiver_count(params: Seq<Param>) -> nat
    decreases params.len(),
{
    if params.len() == 0 {
        0
    } else {
        receiver_count(params.drop_last()) + if params.last() is Receiver {
            1nat
        } else {
            0nat
        }
    }
}

/// The argument list holds every parameter but the receivers: for a method
/// with one receiver, one fewer than its parameters.
pub proof fn lemma_argument_count(params: Seq<Param>)
    ensures
        argument_params(params).len() + receiver_count(params) == params.len(),
    decreases params.len(),
{
    if params.len() > 0 {
        lemma_argument_count(params.drop_last());
    }
}

/// A parameter named `ctx` is bound to the dispatch context, wherever it stands.
pub proof fn lemma_ctx_binding(params: Seq<Param>, msg: Seq<char>, method: String, j: int)
    requires
        map_arguments_spec(params, msg, method) is Ok,
        0 <= j < argument_params(params).len(),
        argument_params(params)[j] matches Param::Captured { pat: Pattern::Ident(name), .. }
            && name@ == ctx_name(),
    ensures
        map_arguments_spec(params, msg, method)->Ok_0[j] == ArgumentBinding::Context,
{
    lemma_bindings_follow_params(params, msg, method);
}

/// A parameter declared with the message type, and not named `ctx`, is bound
/// to the whole message.
pub proof fn lemma_message_binding(params: Seq<Param>, msg: Seq<char>, method: String, j: int)
    requires
        map_arguments_spec(params, msg, method) is Ok,
        0 <= j < argument_params(params).len(),
        argument_params(params)[j] matches Param::Captured { pat: Pattern::Ident(name), ty }
            && name@ != ctx_name() && is_message_type(ty, msg),
    ensures
        map_arguments_spec(params, msg, method)->Ok_0[j] == ArgumentBinding::Message,
{
    lemma_bindings_follow_params(params, msg, method);
}

/// Without elided parameters, the only error of the mapping is a compound pattern.
proof fn lemma_only_pattern_errors(params: Seq<Param>, msg: Seq<char>, method: String)
    requires
        forall|i: int| 0 <= i < params.len() ==> !(#[trigger] params[i] is Ignored),
    ensures
        map_arguments_spec(params, msg, method) is Err ==> map_arguments_spec(params, msg, method)
            == Err::<Seq<ArgumentBinding>, HandlerError>(HandlerError::UnsupportedParameterPattern),
    decreases params.len(),
{
    if params.len() > 0 {
        let init = params.drop_last();
        assert forall|i: int| 0 <= i < init.len() implies !(#[trigger] init[i] is Ignored) by {
            assert(init[i] == params[i]);
        }
        lemma_only_pattern_errors(init, msg, method);
        assert(!(params[params.len() - 1] is Ignored));
    }
}

/// A parameter with a compound pattern, where no parameter is elided, makes
/// the mapping fail with the pattern error.
pub proof fn lemma_compound_pattern_refused(params: Seq<Param>, msg: Seq<char>, method: String, j: int)
    requires
        0 <= j < params.len(),
        params[j] matches Param::Captured { pat: Pattern::Other, .. },
        forall|i: int| 0 <= i < params.len() ==> !(#[trigger] params[i] is Ignored),
    ensures
        map_arguments_spec(params, msg, method) == Err::<Seq<ArgumentBinding>, HandlerError>(
            HandlerError::UnsupportedParameterPattern,
        ),
    decreases params.len(),
{
    lemma_only_pattern_errors(params, msg, method);
    let init = params.drop_last();
    if j < params.len() - 1 {
        assert forall|i: int| 0 <= i < init.len() implies !(#[trigger] init[i] is Ignored) by {
            assert(init[i] == params[i]);
        }
        assert(init[j] == params[j]);
        lemma_compound_pattern_refused(init, msg, method, j);
    }
}

/// A method whose processing fails makes the whole block fail: nothing is
/// generated for the other methods.
pub proof fn lemma_method_error_fails_block(cls: Seq<char>, ms: Seq<AnnotatedMethod>, j: int)
    requires
        0 <= j < ms.len(),
        method_output(cls, ms[j]) is Err,
    ensures
        block_output(cls, ms) is Err,
    decreases ms.len(),
{
    if j < ms.len() - 1 {
        assert(ms.drop_last()[j] == ms[j]);
        lemma_method_error_fails_block(cls, ms.drop_last(), j);
    }
}

/// A handler method with a compound parameter pattern, and no elided
/// parameter, makes the whole block fail.
pub proof fn lemma_compound_pattern_fails_block(cls: Seq<char>, ms: Seq<AnnotatedMethod>, j: int, k: int)
    requires
        0 <= j < ms.len(),
        method_directive(ms[j]) is Some,
        0 <= k < ms[j].params@.len(),
        ms[j].params@[k] matches Param::Captured { pat: Pattern::Other, .. },
        forall|i: int| 0 <= i < ms[j].params@.len() ==> !(#[trigger] ms[j].params@[i] is Ignored),
    ensures
        block_output(cls, ms) is Err,
{
    let m = ms[j];
    let d = method_directive(m)->0;
    lemma_compound_pattern_refused(m.params@, d.message(), m.name, k);
    lemma_method_error_fails_block(cls, ms, j);
}

} // verus!
