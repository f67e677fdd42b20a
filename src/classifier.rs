use vstd::prelude::*;
use crate::model::{Annotation, DirectiveArg, HandlerError, HandlerType};
use crate::text::same_text;

verus! {

/// A handler directive with its type names as character sequences.
pub enum Directive {
    Simple(Seq<char>),
    Handler(Seq<char>),
    Stream(Seq<char>, Seq<char>),
}

impl View for HandlerType {
    type V = Directive;

    open spec fn view(&self) -> Directive {
        match self {
            HandlerType::Simple(m) => Directive::Simple(m@),
            HandlerType::Handler(m) => Directive::Handler(m@),
            HandlerType::Stream(m, e) => Directive::Stream(m@, e@),
        }
    }
}

impl Directive {
    /// The message type the directive names.
    pub open spec fn message(self) -> Seq<char> {
        match self {
            Directive::Simple(m) => m,
            Directive::Handler(m) => m,
            Directive::Stream(m, _) => m,
        }
    }
}

pub open spec fn simple_name() -> Seq<char> {
    seq!['s', 'i', 'm', 'p', 'l', 'e']
}

pub open spec fn handler_name() -> Seq<char> {
    seq!['h', 'a', 'n', 'd', 'l', 'e', 'r']
}

pub open spec fn stream_name() -> Seq<char> {
    seq!['s', 't', 'r', 'e', 'a', 'm']
}

/// Whether a literal's text is a quoted, non-empty string.
pub open spec fn is_quoted(t: Seq<char>) -> bool {
    t.len() >= 3 && t[0] == '"' && t[t.len() - 1] == '"'
}

/// The type name an argument stands for: a bare identifier as written, a
/// quoted literal with its quotes stripped.
pub open spec fn arg_type_name(a: DirectiveArg) -> Option<Seq<char>> {
    match a {
        DirectiveArg::Ident(s) => Some(s@),
        DirectiveArg::Literal(t) => if is_quoted(t@) {
            Some(t@.subrange(1, t@.len() - 1))
        } else {
            None
        },
        DirectiveArg::Unsupported => None,
    }
}

/// The type name of the `i`-th argument, or the syntax error of directive `name`.
pub open spec fn nth_type_name(args: Seq<DirectiveArg>, i: int, name: String) -> Result<
    Seq<char>,
    HandlerError,
> {
    match arg_type_name(args[i]) {
        Some(t) => Ok(t),
        None => Err(HandlerError::DirectiveSyntax(name)),
    }
}

/// The directive an annotation carries: `None` when it is no directive,
/// otherwise the directive or the error in its arguments.
pub open spec fn annotation_directive(a: Annotation) -> Option<Result<Directive, HandlerError>> {
    match a {
        Annotation::Other(_) => None,
        Annotation::List { name, args } => {
            let err = Err(HandlerError::DirectiveSyntax(name));
            if name@ == simple_name() || name@ == handler_name() {
                if args@.len() != 1 {
                    Some(err)
                } else {
                    match nth_type_name(args@, 0, name) {
                        Err(e) => Some(Err(e)),
                        Ok(m) => Some(
                            Ok(
                                if name@ == simple_name() {
                                    Directive::Simple(m)
                                } else {
                                    Directive::Handler(m)
                                },
                            ),
                        ),
                    }
                }
            } else if name@ == stream_name() {
                if args@.len() != 2 {
                    Some(err)
                } else {
                    match nth_type_name(args@, 0, name) {
                        Err(e) => Some(Err(e)),
                        Ok(m) => match nth_type_name(args@, 1, name) {
                            Err(e) => Some(Err(e)),
                            Ok(x) => Some(Ok(Directive::Stream(m, x))),
                        },
                    }
                }
            } else {
                None
            }
        },
    }
}

/// Splits an annotation list into the directive it carries (the last one
/// when there are several) and the annotations that are no directive, in
/// their order; or the first error in a directive's arguments.
pub open spec fn classify_spec(attrs: Seq<Annotation>) -> Result<
    (Option<Directive>, Seq<Annotation>),
    HandlerError,
>
    decreases attrs.len(),
{
    if attrs.len() == 0 {
        Ok((None, Seq::empty()))
    } else {
        match classify_spec(attrs.drop_last()) {
            Err(e) => Err(e),
            Ok((d, rest)) => match annotation_directive(attrs.last()) {
                None => Ok((d, rest.push(attrs.last()))),
                Some(Err(e)) => Err(e),
                Some(Ok(h)) => Ok((Some(h), rest)),
            },
        }
    }
}

/// A classification result seen through the views of its parts.
pub open spec fn classified_view(
    r: Result<(Option<HandlerType>, Vec<Annotation>), HandlerError>,
) -> Result<(Option<Directive>, Seq<Annotation>), HandlerError> {
    match r {
        Ok((d, rest)) => Ok(
            (
                match d {
                    Some(h) => Some(h@),
                    None => None,
                },
                rest@,
            ),
        ),
        Err(e) => Err(e),
    }
}

proof fn lemma_error_extends(attrs: Seq<Annotation>, k: int)
    requires
        0 <= k <= attrs.len(),
        classify_spec(attrs.take(k)) is Err,
    ensures
        classify_spec(attrs) == classify_spec(attrs.take(k)),
    decreases attrs.len() - k,
{
    if k < attrs.len() {
        assert(attrs.take(k + 1).drop_last() == attrs.take(k));
        lemma_error_extends(attrs, k + 1);
    } else {
        assert(attrs.take(k) == attrs);
    }
}

/// The type name an argument stands for.
fn arg_type_name_exec(a: &DirectiveArg) -> (r: Option<String>)
    ensures
        r is Some == arg_type_name(*a) is Some,
        r is Some ==> r->0@ == arg_type_name(*a)->0,
{
    match a {
        DirectiveArg::Ident(s) => Some(s.clone()),
        DirectiveArg::Literal(t) => {
            let n = t.as_str().unicode_len();
            if n < 3 || t.as_str().get_char(0) != '"' || t.as_str().get_char(n - 1) != '"' {
                None
            } else {
                Some(t.as_str().substring_char(1, n - 1).to_owned())
            }
        },
        DirectiveArg::Unsupported => None,
    }
}

/// The type name of the `i`-th argument of directive `name`.
fn nth_type_name_exec(args: &Vec<DirectiveArg>, i: usize, name: &String) -> (r: Result<
    String,
    HandlerError,
>)
    requires
        i < args@.len(),
    ensures
        r is Ok == nth_type_name(args@, i as int, *name) is Ok,
        r is Ok ==> r->Ok_0@ == nth_type_name(args@, i as int, *name)->Ok_0,
        r is Err ==> r->Err_0 == nth_type_name(args@, i as int, *name)->Err_0,
{
    match arg_type_name_exec(&args[i]) {
        Some(t) => Ok(t),
        None => Err(HandlerError::DirectiveSyntax(name.clone())),
    }
}

/// Reads the directive an annotation carries.
fn directive_of(a: &Annotation) -> (r: Option<Result<HandlerType, HandlerError>>)
    ensures
        match (r, annotation_directive(*a)) {
            (None, None) => true,
            (Some(Ok(h)), Some(Ok(d))) => h@ == d,
            (Some(Err(e)), Some(Err(f))) => e == f,
            _ => false,
        },
{
    match a {
        Annotation::Other(_) => None,
        Annotation::List { name, args } => {
            proof {
                reveal_strlit("simple");
                reveal_strlit("handler");
                reveal_strlit("stream");
                assert("simple"@ =~= simple_name());
                assert("handler"@ =~= handler_name());
                assert("stream"@ =~= stream_name());
            }
            let is_simple = same_text(name.as_str(), "simple");
            let is_handler = same_text(name.as_str(), "handler");
            if is_simple || is_handler {
                if args.len() != 1 {
                    return Some(Err(HandlerError::DirectiveSyntax(name.clone())));
                }
                match nth_type_name_exec(args, 0, name) {
                    Err(e) => Some(Err(e)),
                    Ok(m) => if is_simple {
                        Some(Ok(HandlerType::Simple(m)))
                    } else {
                        Some(Ok(HandlerType::Handler(m)))
                    },
                }
            } else if same_text(name.as_str(), "stream") {
                if args.len() != 2 {
                    return Some(Err(HandlerError::DirectiveSyntax(name.clone())));
                }
                match nth_type_name_exec(args, 0, name) {
                    Err(e) => Some(Err(e)),
                    Ok(m) => match nth_type_name_exec(args, 1, name) {
                        Err(e) => Some(Err(e)),
                        Ok(x) => Some(Ok(HandlerType::Stream(m, x))),
                    },
                }
            } else {
                None
            }
        },
    }
}

/// Splits a method's annotations into the handler directive they carry and
/// the annotations that are no directive, which keep their order.
///
/// Where several directives are present the last one is kept. A directive
/// with the wrong number of arguments, or an argument that is neither an
/// identifier nor a literal, is refused with the directive's name.
pub fn parse_attributes(attrs: Vec<Annotation>) -> (r: Result<
    (Option<HandlerType>, Vec<Annotation>),
    HandlerError,
>)
    ensures
        classified_view(r) == classify_spec(attrs@),
{
    let ghost all = attrs@;
    let mut pending = attrs;
    let mut result: Option<HandlerType> = None;
    let mut kept: Vec<Annotation> = Vec::new();
    let mut i: usize = 0;
    let n = pending.len();
    while i < n
        invariant
            n == all.len(),
            all == attrs@,
            i <= n,
            pending@ == all.subrange(i as int, n as int),
            classify_spec(all.take(i as int)) == Ok::<
                (Option<Directive>, Seq<Annotation>),
                HandlerError,
            >(
                (
                    match result {
                        Some(h) => Some(h@),
                        None => None,
                    },
                    kept@,
                ),
            ),
        decreases n - i,
    {
        let a = pending.remove(0);
        assert(a == all[i as int]);
        assert(all.take(i + 1).drop_last() == all.take(i as int));
        assert(all.take(i + 1).last() == all[i as int]);
        match directive_of(&a) {
            None => {
                kept.push(a);
            },
            Some(Err(e)) => {
                proof {
                    assert(classify_spec(all.take(i + 1)) == Err::<
                        (Option<Directive>, Seq<Annotation>),
                        HandlerError,
                    >(e));
                    lemma_error_extends(all, i + 1);
                }
                return Err(e);
            },
            Some(Ok(h)) => {
                result = Some(h);
            },
        }
        i = i + 1;
    }
    assert(all.take(n as int) == all);
    Ok((result, kept))
}

} // verus!
