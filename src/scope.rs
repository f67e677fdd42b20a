use vstd::prelude::*;
use vstd::string::StringExecFns;
use crate::model::TypeShape;

verus! {

pub const FNV_OFFSET: u32 = 2166136261;

pub const FNV_PRIME: u32 = 16777619;

/// One step of the FNV-1a hash over a character.
pub open spec fn fnv_step(h: u32, c: char) -> u32 {
    (h ^ (c as u32)).wrapping_mul(FNV_PRIME)
}

/// The FNV-1a hash state after the characters of `s`, starting from `h`.
pub open spec fn fnv_fold(h: u32, s: Seq<char>) -> u32
    decreases s.len(),
{
    if s.len() == 0 {
        h
    } else {
        fnv_step(fnv_fold(h, s.drop_last()), s.last())
    }
}

/// The hash state after each name, every name preceded by a `;`.
pub open spec fn names_fold(h: u32, names: Seq<Seq<char>>) -> u32
    decreases names.len(),
{
    if names.len() == 0 {
        h
    } else {
        fnv_fold(fnv_step(names_fold(h, names.drop_last()), ';'), names.last())
    }
}

/// The hash of a target type and the names of its handler methods.
pub open spec fn scope_hash(cls: Seq<char>, names: Seq<Seq<char>>) -> u32 {
    names_fold(fnv_fold(FNV_OFFSET, cls), names)
}

pub open spec fn digits() -> Seq<char> {
    "0123456789"@
}

/// The decimal digits of `n`.
pub open spec fn decimal(n: nat) -> Seq<char>
    decreases n,
{
    if n < 10 {
        digits().subrange(n as int, n + 1int)
    } else {
        decimal(n / 10) + digits().subrange((n % 10) as int, (n % 10) + 1int)
    }
}

/// The name the scope is given after the target type: the last segment of
/// its path, or `handlers` where it has none.
pub open spec fn scope_base(shape: TypeShape) -> Seq<char> {
    match shape {
        TypeShape::Path { segments, .. } => if segments@.len() > 0 {
            segments@.last().ident@
        } else {
            "handlers"@
        },
        TypeShape::Other => "handlers"@,
    }
}

/// The identifier of the generated scope: the invocation's number, the hash
/// of the type and its handlers, and the type's name.
pub open spec fn scope_ident_spec(
    cls: Seq<char>,
    shape: TypeShape,
    names: Seq<Seq<char>>,
    invocation: u64,
) -> Seq<char> {
    "_impl_handlers_"@ + decimal(invocation as nat) + "_"@ + decimal(scope_hash(cls, names) as nat)
        + "_"@ + scope_base(shape)
}

proof fn lemma_digit_codes()
    ensures
        forall|d: int| 0 <= d < 10 ==> #[trigger] digits()[d] as u32 == 48 + d,
{
    reveal_strlit("0123456789");
    assert(digits() =~= seq!['0', '1', '2', '3', '4', '5', '6', '7', '8', '9']);
}

/// The decimal digits of a number are at least one, and all digits.
pub proof fn lemma_decimal_digits(n: nat)
    ensures
        decimal(n).len() >= 1,
        n >= 10 ==> decimal(n).len() >= 2,
        forall|i: int| 0 <= i < decimal(n).len() ==> 48 <= #[trigger] decimal(n)[i] as u32 <= 57,
    decreases n,
{
    lemma_digit_codes();
    reveal_strlit("0123456789");
    if n >= 10 {
        lemma_decimal_digits(n / 10);
        let d = (n % 10) as int;
        assert(digits()[d] as u32 == 48 + d);
        let s = decimal(n);
        let p = decimal(n / 10);
        assert forall|i: int| 0 <= i < s.len() implies 48 <= #[trigger] s[i] as u32 <= 57 by {
            if i < p.len() {
                assert(s[i] == p[i]);
            } else {
                assert(s[i] == digits()[d]);
            }
        }
    } else {
        assert(decimal(n)[0] == digits()[n as int]);
    }
}

/// Two numbers with the same decimal digits are equal.
pub proof fn lemma_decimal_injective(a: nat, b: nat)
    requires
        decimal(a) == decimal(b),
    ensures
        a == b,
    decreases a,
{
    lemma_digit_codes();
    reveal_strlit("0123456789");
    lemma_decimal_digits(a);
    lemma_decimal_digits(b);
    if a < 10 && b < 10 {
        assert(decimal(a)[0] == digits()[a as int]);
        assert(decimal(b)[0] == digits()[b as int]);
    } else if a >= 10 && b >= 10 {
        let sa = decimal(a);
        let sb = decimal(b);
        assert(sa.last() == digits()[(a % 10) as int]);
        assert(sb.last() == digits()[(b % 10) as int]);
        assert(decimal(a / 10) == sa.drop_last());
        assert(decimal(b / 10) == sb.drop_last());
        lemma_decimal_injective(a / 10, b / 10);
    } else {
        lemma_decimal_digits(a / 10);
        lemma_decimal_digits(b / 10);
    }
}

/// Scopes of invocations with different numbers have different identifiers,
/// whatever types and handlers they are for.
pub proof fn lemma_scope_ident_distinct(
    cls1: Seq<char>,
    shape1: TypeShape,
    names1: Seq<Seq<char>>,
    a: u64,
    cls2: Seq<char>,
    shape2: TypeShape,
    names2: Seq<Seq<char>>,
    b: u64,
)
    requires
        a != b,
    ensures
        scope_ident_spec(cls1, shape1, names1, a) != scope_ident_spec(cls2, shape2, names2, b),
{
    let s1 = scope_ident_spec(cls1, shape1, names1, a);
    let s2 = scope_ident_spec(cls2, shape2, names2, b);
    let p = "_impl_handlers_"@;
    let da = decimal(a as nat);
    let db = decimal(b as nat);
    let lp = p.len() as int;
    let la = da.len() as int;
    let lb = db.len() as int;
    reveal_strlit("_");
    lemma_decimal_digits(a as nat);
    lemma_decimal_digits(b as nat);
    if s1 == s2 {
        assert(s1.subrange(0, lp + la + 1) =~= p + da + "_"@);
        assert(s2.subrange(0, lp + lb + 1) =~= p + db + "_"@);
        if da.len() == db.len() {
            assert(da =~= s1.subrange(lp, lp + la));
            assert(db =~= s2.subrange(lp, lp + lb));
            lemma_decimal_injective(a as nat, b as nat);
        } else if da.len() < db.len() {
            assert(s1[lp + la] == '_');
            assert(s2[lp + la] == db[la]);
        } else {
            assert(s2[lp + lb] == '_');
            assert(s1[lp + lb] == da[lb]);
        }
    }
}

/// Continues the hash over the characters of `s`.
fn fnv_text(h: u32, s: &str) -> (r: u32)
    ensures
        r == fnv_fold(h, s@),
{
    let n = s.unicode_len();
    let mut acc = h;
    let mut i: usize = 0;
    while i < n
        invariant
            n == s@.len(),
            i <= n,
            acc == fnv_fold(h, s@.take(i as int)),
        decreases n - i,
    {
        let c = s.get_char(i);
        assert(s@.take(i + 1).drop_last() == s@.take(i as int));
        acc = (acc ^ (c as u32)).wrapping_mul(FNV_PRIME);
        i = i + 1;
    }
    assert(s@.take(n as int) == s@);
    acc
}

/// Writes the decimal digits of `n`.
fn write_decimal(out: &mut String, n: u64)
    ensures
        final(out)@ == old(out)@ + decimal(n as nat),
    decreases n,
{
    proof {
        reveal_strlit("0123456789");
    }
    if n >= 10 {
        write_decimal(out, n / 10);
    }
    let d = (n % 10) as usize;
    out.append("0123456789".substring_char(d, d + 1));
    assert(out@ =~= old(out)@ + decimal(n as nat));
}

/// The identifier of the scope that wraps what invocation number
/// `invocation` generates for the type `cls` of shape `shape` with the
/// handler methods `names`.
///
/// It is a function of these inputs alone, so the same inputs give the same
/// identifier; invocations with different numbers get different ones.
pub fn scope_ident(cls: &String, shape: &TypeShape, names: &Vec<String>, invocation: u64) -> (r: String)
    ensures
        r@ == scope_ident_spec(cls@, *shape, names@.map_values(|s: String| s@), invocation),
{
    let ghost views = names@.map_values(|s: String| s@);
    let mut h = fnv_text(FNV_OFFSET, cls.as_str());
    let mut i: usize = 0;
    while i < names.len()
        invariant
            i <= names@.len(),
            views == names@.map_values(|s: String| s@),
            h == names_fold(fnv_fold(FNV_OFFSET, cls@), views.take(i as int)),
        decreases names@.len() - i,
    {
        assert(views.take(i + 1).drop_last() == views.take(i as int));
        assert(views.take(i + 1).last() == names@[i as int]@);
        h = (h ^ (';' as u32)).wrapping_mul(FNV_PRIME);
        h = fnv_text(h, names[i].as_str());
        i = i + 1;
    }
    assert(views.take(names@.len() as int) == views);
    let mut r = String::new();
    r.append("_impl_handlers_");
    write_decimal(&mut r, invocation);
    r.append("_");
    write_decimal(&mut r, h as u64);
    r.append("_");
    match shape {
        TypeShape::Path { segments, .. } => {
            if segments.len() > 0 {
                r.append(segments[segments.len() - 1].ident.as_str());
            } else {
                r.append("handlers");
            }
        },
        TypeShape::Other => r.append("handlers"),
    }
    assert(r@ =~= scope_ident_spec(cls@, *shape, views, invocation));
    r
}

} // verus!
