use vstd::prelude::*;
use vstd::string::StringExecFns;
use crate::classifier::Directive;
use crate::model::{ArgumentBinding, HandlerType};

verus! {

/// The expression that supplies one argument of the call.
pub open spec fn binding_text(b: ArgumentBinding) -> Seq<char> {
    match b {
        ArgumentBinding::Context => "ctx"@,
        ArgumentBinding::Message => "msg"@,
        ArgumentBinding::Field(name) => "msg."@ + name@,
    }
}

/// The argument list of the call, separated by commas.
pub open spec fn args_text(bs: Seq<ArgumentBinding>) -> Seq<char>
    decreases bs.len(),
{
    if bs.len() == 0 {
        Seq::empty()
    } else if bs.len() == 1 {
        binding_text(bs[0])
    } else {
        args_text(bs.drop_last()) + ", "@ + binding_text(bs.last())
    }
}

/// The call of the method on the actor with the given arguments.
pub open spec fn call_text(name: Seq<char>, args: Seq<char>) -> Seq<char> {
    "self."@ + name + "("@ + args + ")"@
}

/// The body of a call-through handler: the return value is the reply.
pub open spec fn simple_body(call: Seq<char>) -> Seq<char> {
    "        Self::reply("@ + call + ")\n"@
}

/// The body of an outcome handler: success is replied, failure is replied as an error.
pub open spec fn outcome_body(call: Seq<char>) -> Seq<char> {
    "        match "@ + call + " {\n"@ + "            Ok(item) => Self::reply(item),\n"@
        + "            Err(err) => Self::reply_error(err),\n"@ + "        }\n"@
}

/// The opening of a message-handler implementation, up to the dispatch body.
pub open spec fn handler_head_text(trait_args: Seq<char>, cls: Seq<char>, msg: Seq<char>) -> Seq<
    char,
> {
    "impl actix::Handler<"@ + trait_args + "> for "@ + cls + " {\n"@
        + "    fn handle(&mut self, msg: "@ + msg + ", ctx: &mut Self::Context) -> actix::Response<Self, "@
        + msg + "> {\n"@
}

/// An implementation of the message-handler trait with the given trait
/// arguments, message type and dispatch body.
pub open spec fn handler_impl_text(
    trait_args: Seq<char>,
    cls: Seq<char>,
    msg: Seq<char>,
    body: Seq<char>,
) -> Seq<char> {
    handler_head_text(trait_args, cls, msg) + body + "    }\n}\n"@
}

/// The marker implementation of the streaming-input trait.
pub open spec fn stream_marker_text(cls: Seq<char>, msg: Seq<char>, err: Seq<char>) -> Seq<char> {
    "impl actix::StreamHandler<"@ + msg + ", "@ + err + "> for "@ + cls + " {}\n"@
}

/// The implementations generated for one handler method, in order.
pub open spec fn handler_impls(
    cls: Seq<char>,
    name: Seq<char>,
    d: Directive,
    bs: Seq<ArgumentBinding>,
) -> Seq<Seq<char>> {
    let call = call_text(name, args_text(bs));
    match d {
        Directive::Simple(m) => seq![handler_impl_text(m, cls, m, simple_body(call))],
        Directive::Handler(m) => seq![handler_impl_text(m, cls, m, outcome_body(call))],
        Directive::Stream(m, e) => seq![
            stream_marker_text(cls, m, e),
            handler_impl_text(m + ", "@ + e, cls, m, outcome_body(call)),
        ],
    }
}

/// Writes the argument list of the call.
fn write_args(out: &mut String, bs: &Vec<ArgumentBinding>)
    ensures
        final(out)@ == old(out)@ + args_text(bs@),
{
    let mut i: usize = 0;
    while i < bs.len()
        invariant
            i <= bs@.len(),
            out@ == old(out)@ + args_text(bs@.take(i as int)),
        decreases bs@.len() - i,
    {
        let ghost before = out@;
        if i > 0 {
            out.append(", ");
        }
        match &bs[i] {
            ArgumentBinding::Context => out.append("ctx"),
            ArgumentBinding::Message => out.append("msg"),
            ArgumentBinding::Field(name) => {
                out.append("msg.");
                out.append(name.as_str());
            },
        }
        proof {
            let t = bs@.take(i + 1);
            assert(t.drop_last() == bs@.take(i as int));
            assert(t.last() == bs@[i as int]);
            if i == 0 {
                assert(args_text(bs@.take(0)) == Seq::<char>::empty());
                assert(t.len() == 1);
                assert(out@ =~= old(out)@ + args_text(t));
            } else {
                assert(out@ =~= old(out)@ + args_text(t));
            }
        }
        i = i + 1;
    }
    assert(bs@.take(bs@.len() as int) == bs@);
}

/// Writes the opening of a message-handler implementation.
fn write_handler_head(out: &mut String, trait_args: &str, cls: &str, msg: &str)
    ensures
        final(out)@ == old(out)@ + handler_head_text(trait_args@, cls@, msg@),
{
    out.append("impl actix::Handler<");
    out.append(trait_args);
    out.append("> for ");
    out.append(cls);
    out.append(" {\n");
    out.append("    fn handle(&mut self, msg: ");
    out.append(msg);
    out.append(", ctx: &mut Self::Context) -> actix::Response<Self, ");
    out.append(msg);
    out.append("> {\n");
    assert(out@ =~= old(out)@ + handler_head_text(trait_args@, cls@, msg@));
}

/// Writes the call of method `name` with the arguments `bs`.
fn write_call(out: &mut String, name: &str, bs: &Vec<ArgumentBinding>)
    ensures
        final(out)@ == old(out)@ + call_text(name@, args_text(bs@)),
{
    out.append("self.");
    out.append(name);
    out.append("(");
    write_args(out, bs);
    out.append(")");
    assert(out@ =~= old(out)@ + call_text(name@, args_text(bs@)));
}

/// Writes the dispatch body, in the outcome form or the call-through form.
fn write_body(out: &mut String, name: &str, bs: &Vec<ArgumentBinding>, outcome: bool)
    ensures
        final(out)@ == old(out)@ + if outcome {
            outcome_body(call_text(name@, args_text(bs@)))
        } else {
            simple_body(call_text(name@, args_text(bs@)))
        },
{
    if outcome {
        out.append("        match ");
        write_call(out, name, bs);
        out.append(" {\n");
        out.append("            Ok(item) => Self::reply(item),\n");
        out.append("            Err(err) => Self::reply_error(err),\n");
        out.append("        }\n");
        assert(out@ =~= old(out)@ + outcome_body(call_text(name@, args_text(bs@))));
    } else {
        out.append("        Self::reply(");
        write_call(out, name, bs);
        out.append(")\n");
        assert(out@ =~= old(out)@ + simple_body(call_text(name@, args_text(bs@))));
    }
}

/// Writes an implementation of the message-handler trait, the dispatch
/// body being either the call-through or the outcome form.
fn write_handler_impl(
    out: &mut String,
    trait_args: &str,
    cls: &str,
    msg: &str,
    name: &str,
    bs: &Vec<ArgumentBinding>,
    outcome: bool,
)
    ensures
        final(out)@ == old(out)@ + handler_impl_text(
            trait_args@,
            cls@,
            msg@,
            if outcome {
                outcome_body(call_text(name@, args_text(bs@)))
            } else {
                simple_body(call_text(name@, args_text(bs@)))
            },
        ),
{
    write_handler_head(out, trait_args, cls, msg);
    write_body(out, name, bs, outcome);
    out.append("    }\n}\n");
    assert(out@ =~= old(out)@ + handler_impl_text(
        trait_args@,
        cls@,
        msg@,
        if outcome {
            outcome_body(call_text(name@, args_text(bs@)))
        } else {
            simple_body(call_text(name@, args_text(bs@)))
        },
    ));
}

/// Emits the trait implementations that bind method `name` of type `cls`
/// as a handler of kind `directive`, the call taking the arguments `bs`.
///
/// A simple or outcome directive gives one message-handler implementation; a
/// stream directive gives the streaming marker followed by a message-handler
/// implementation of the outcome form.
pub fn gen_handler(cls: &String, name: &String, directive: &HandlerType, bs: &Vec<ArgumentBinding>) -> (r: Vec<String>)
    ensures
        r@.len() == handler_impls(cls@, name@, directive@, bs@).len(),
        forall|j: int| 0 <= j < r@.len() ==> #[trigger] r@[j]@ == handler_impls(cls@, name@, directive@, bs@)[j],
{
    let mut r: Vec<String> = Vec::new();
    match directive {
        HandlerType::Simple(m) => {
            let mut s = String::new();
            write_handler_impl(&mut s, m.as_str(), cls.as_str(), m.as_str(), name.as_str(), bs, false);
            r.push(s);
        },
        HandlerType::Handler(m) => {
            let mut s = String::new();
            write_handler_impl(&mut s, m.as_str(), cls.as_str(), m.as_str(), name.as_str(), bs, true);
            r.push(s);
        },
        HandlerType::Stream(m, e) => {
            let mut marker = String::new();
            marker.append("impl actix::StreamHandler<");
            marker.append(m.as_str());
            marker.append(", ");
            marker.append(e.as_str());
            marker.append("> for ");
            marker.append(cls.as_str());
            marker.append(" {}\n");
            assert(marker@ =~= stream_marker_text(cls@, m@, e@));
            r.push(marker);
            let mut trait_args = String::new();
            trait_args.append(m.as_str());
            trait_args.append(", ");
            trait_args.append(e.as_str());
            let mut s = String::new();
            write_handler_impl(&mut s, trait_args.as_str(), cls.as_str(), m.as_str(), name.as_str(), bs, true);
            assert(trait_args@ =~= m@ + ", "@ + e@);
            r.push(s);
        },
    }
    assert(r@.len() == handler_impls(cls@, name@, directive@, bs@).len());
    r
}

} // verus!
