//! JSON text as bytes: numbers, objects and arrays built from members that
//! are already JSON, and strings quoted by serde_json.

use vstd::prelude::*;

verus! {

/// The JSON text of a string: quotes around it, with the characters that JSON
/// requires escaped.
pub uninterp spec fn json_quoted(s: Seq<char>) -> Seq<u8>;

/// Relies on serde_json::to_vec: a `str` serialises to its quoted and escaped
/// JSON form. Writing into a `Vec` cannot fail, so the error arm is never taken.
#[verifier::external_body]
pub(crate) fn quote(s: &str) -> (r: Vec<u8>)
    ensures
        r@ == json_quoted(s@),
{
    match serde_json::to_vec(s) {
        Ok(bytes) => bytes,
        Err(_) => Vec::new(),
    }
}

/// Decimal digits of a natural number, most significant first.
pub open spec fn digits(n: nat) -> Seq<u8>
    decreases n,
{
    if n < 10 {
        seq![(48 + n) as u8]
    } else {
        digits(n / 10).push((48 + n % 10) as u8)
    }
}

/// Decimal text of an integer, with a leading `-` when it is negative.
pub open spec fn decimal_of(n: int) -> Seq<u8> {
    if n < 0 {
        seq![45u8] + digits((-n) as nat)
    } else {
        digits(n as nat)
    }
}

/// A decimal number in quotes, as used for object keys that are ids.
pub open spec fn quoted_decimal_of(n: int) -> Seq<u8> {
    seq![34u8] + decimal_of(n) + seq![34u8]
}

proof fn lemma_digits_shape(n: nat)
    ensures
        digits(n).len() >= 1,
        n < 10 ==> digits(n).len() == 1,
        n >= 10 ==> digits(n).len() >= 2,
        forall|i: int| 0 <= i < digits(n).len() ==> 48 <= #[trigger] digits(n)[i] <= 57,
    decreases n,
{
    if n >= 10 {
        lemma_digits_shape(n / 10);
    }
}

/// Different numbers have different decimal digits.
proof fn lemma_digits_injective(n: nat, m: nat)
    requires
        digits(n) == digits(m),
    ensures
        n == m,
    decreases n,
{
    lemma_digits_shape(n);
    lemma_digits_shape(m);
    if n < 10 || m < 10 {
        assert(n < 10 && m < 10);
        assert(digits(n)[0] == digits(m)[0]);
        assert(digits(n)[0] == (48 + n) as u8);
        assert(digits(m)[0] == (48 + m) as u8);
    } else {
        assert(digits(n).drop_last() =~= digits(n / 10));
        assert(digits(m).drop_last() =~= digits(m / 10));
        lemma_digits_injective(n / 10, m / 10);
        assert(digits(n).last() == (48 + n % 10) as u8);
        assert(digits(m).last() == (48 + m % 10) as u8);
        assert(n % 10 == m % 10);
        assert(n == (n / 10) * 10 + n % 10) by (nonlinear_arith);
        assert(m == (m / 10) * 10 + m % 10) by (nonlinear_arith);
    }
}

/// Different integers have different decimal texts, quoted or not.
pub proof fn lemma_decimal_injective(n: int, m: int)
    requires
        decimal_of(n) == decimal_of(m) || quoted_decimal_of(n) == quoted_decimal_of(m),
    ensures
        n == m,
{
    if quoted_decimal_of(n) == quoted_decimal_of(m) {
        assert(decimal_of(n) =~= quoted_decimal_of(n).subrange(1, quoted_decimal_of(n).len() - 1));
        assert(decimal_of(m) =~= quoted_decimal_of(m).subrange(1, quoted_decimal_of(m).len() - 1));
    }
    if n < 0 {
        lemma_digits_shape((-m) as nat);
        lemma_digits_shape(m as nat);
        if m >= 0 {
            assert(decimal_of(n)[0] == 45u8);
            assert(decimal_of(m)[0] == digits(m as nat)[0]);
        } else {
            assert(decimal_of(n).subrange(1, decimal_of(n).len() as int) =~= digits((-n) as nat));
            assert(decimal_of(m).subrange(1, decimal_of(m).len() as int) =~= digits((-m) as nat));
            lemma_digits_injective((-n) as nat, (-m) as nat);
        }
    } else {
        lemma_digits_shape(n as nat);
        if m < 0 {
            assert(decimal_of(m)[0] == 45u8);
            assert(decimal_of(n)[0] == digits(n as nat)[0]);
        } else {
            lemma_digits_injective(n as nat, m as nat);
        }
    }
}

fn push_digits(out: &mut Vec<u8>, n: u64)
    ensures
        final(out)@ == old(out)@ + digits(n as nat),
    decreases n,
{
    if n >= 10 {
        push_digits(out, n / 10);
    }
    out.push(48u8 + (n % 10) as u8);
    proof {
        if n >= 10 {
            assert(final(out)@ =~= old(out)@ + digits(n as nat));
        } else {
            assert(final(out)@ =~= old(out)@ + digits(n as nat));
        }
    }
}

/// Appends the decimal text of `n`.
pub fn push_decimal(out: &mut Vec<u8>, n: i64)
    ensures
        final(out)@ == old(out)@ + decimal_of(n as int),
{
    if n < 0 {
        out.push(45u8);
        let m: u64 = (0i128 - n as i128) as u64;
        push_digits(out, m);
        assert(final(out)@ =~= old(out)@ + decimal_of(n as int));
    } else {
        push_digits(out, n as u64);
    }
}

/// The decimal text of `n`.
pub fn decimal(n: i64) -> (r: Vec<u8>)
    ensures
        r@ == decimal_of(n as int),
{
    let mut out: Vec<u8> = Vec::new();
    push_decimal(&mut out, n);
    assert(out@ =~= decimal_of(n as int));
    out
}

/// The decimal text of an index.
pub fn index_decimal(n: usize) -> (r: Vec<u8>)
    ensures
        r@ == decimal_of(n as int),
{
    let mut out: Vec<u8> = Vec::new();
    push_digits(&mut out, n as u64);
    assert(out@ =~= decimal_of(n as int));
    out
}

/// The decimal text of an index in quotes.
pub fn quoted_index(n: usize) -> (r: Vec<u8>)
    ensures
        r@ == quoted_decimal_of(n as int),
{
    let mut out: Vec<u8> = Vec::new();
    out.push(34u8);
    push_digits(&mut out, n as u64);
    out.push(34u8);
    assert(out@ =~= quoted_decimal_of(n as int));
    out
}

/// The decimal text of `n` in quotes.
pub fn quoted_decimal(n: i64) -> (r: Vec<u8>)
    ensures
        r@ == quoted_decimal_of(n as int),
{
    let mut out: Vec<u8> = Vec::new();
    out.push(34u8);
    push_decimal(&mut out, n);
    out.push(34u8);
    assert(out@ =~= quoted_decimal_of(n as int));
    out
}

/// Appends `b` to `out`.
pub fn push_all(out: &mut Vec<u8>, b: &[u8])
    ensures
        final(out)@ == old(out)@ + b@,
{
    let mut i: usize = 0;
    while i < b.len()
        invariant
            i <= b@.len(),
            out@ == old(out)@ + b@.subrange(0, i as int),
        decreases b@.len() - i,
    {
        out.push(b[i]);
        i = i + 1;
        assert(out@ =~= old(out)@ + b@.subrange(0, i as int));
    }
    assert(b@.subrange(0, b@.len() as int) =~= b@);
}

/// The members of a JSON object, each a key and a value that are already JSON,
/// joined as `k:v,k:v`.
pub open spec fn members_of(es: Seq<(Seq<u8>, Seq<u8>)>) -> Seq<u8>
    decreases es.len(),
{
    if es.len() == 0 {
        Seq::empty()
    } else {
        let last = es.last();
        let head = if es.len() == 1 {
            Seq::empty()
        } else {
            members_of(es.drop_last()) + seq![44u8]
        };
        head + last.0 + seq![58u8] + last.1
    }
}

/// A JSON object written from its members in the given order.
pub open spec fn object_of(es: Seq<(Seq<u8>, Seq<u8>)>) -> Seq<u8> {
    seq![123u8] + members_of(es) + seq![125u8]
}

/// The elements of a JSON array, each already JSON, joined by commas.
pub open spec fn elements_of(xs: Seq<Seq<u8>>) -> Seq<u8>
    decreases xs.len(),
{
    if xs.len() == 0 {
        Seq::empty()
    } else if xs.len() == 1 {
        xs[0]
    } else {
        elements_of(xs.drop_last()) + seq![44u8] + xs.last()
    }
}

/// A JSON array written from its elements in the given order.
pub open spec fn array_of(xs: Seq<Seq<u8>>) -> Seq<u8> {
    seq![91u8] + elements_of(xs) + seq![93u8]
}

/// The byte views of key and value pairs.
pub open spec fn pairs_view(es: Seq<(Vec<u8>, Vec<u8>)>) -> Seq<(Seq<u8>, Seq<u8>)> {
    es.map_values(|e: (Vec<u8>, Vec<u8>)| (e.0@, e.1@))
}

/// The byte views of a list of byte vectors.
pub open spec fn items_view(xs: Seq<Vec<u8>>) -> Seq<Seq<u8>> {
    xs.map_values(|x: Vec<u8>| x@)
}

/// Writes a JSON object from members that are already JSON text.
pub fn render_object(es: &Vec<(Vec<u8>, Vec<u8>)>) -> (r: Vec<u8>)
    ensures
        r@ == object_of(pairs_view(es@)),
{
    let mut out: Vec<u8> = Vec::new();
    out.push(123u8);
    let mut i: usize = 0;
    while i < es.len()
        invariant
            i <= es@.len(),
            out@ == seq![123u8] + members_of(pairs_view(es@.subrange(0, i as int))),
        decreases es@.len() - i,
    {
        if i > 0 {
            out.push(44u8);
        }
        push_all(&mut out, es[i].0.as_slice());
        out.push(58u8);
        push_all(&mut out, es[i].1.as_slice());
        proof {
            let pre = pairs_view(es@.subrange(0, i as int));
            let now = pairs_view(es@.subrange(0, i + 1));
            assert(now.drop_last() =~= pre);
            assert(now.last() == (es@[i as int].0@, es@[i as int].1@));
        }
        i = i + 1;
        assert(out@ =~= seq![123u8] + members_of(pairs_view(es@.subrange(0, i as int))));
    }
    out.push(125u8);
    assert(es@.subrange(0, es@.len() as int) =~= es@);
    out
}

/// Writes a JSON array from elements that are already JSON text.
pub fn render_array(xs: &Vec<Vec<u8>>) -> (r: Vec<u8>)
    ensures
        r@ == array_of(items_view(xs@)),
{
    let mut out: Vec<u8> = Vec::new();
    out.push(91u8);
    let mut i: usize = 0;
    while i < xs.len()
        invariant
            i <= xs@.len(),
            out@ == seq![91u8] + elements_of(items_view(xs@.subrange(0, i as int))),
        decreases xs@.len() - i,
    {
        if i > 0 {
            out.push(44u8);
        }
        push_all(&mut out, xs[i].as_slice());
        proof {
            let pre = items_view(xs@.subrange(0, i as int));
            let now = items_view(xs@.subrange(0, i + 1));
            assert(now.drop_last() =~= pre);
        }
        i = i + 1;
        assert(out@ =~= seq![91u8] + elements_of(items_view(xs@.subrange(0, i as int))));
    }
    out.push(93u8);
    assert(xs@.subrange(0, xs@.len() as int) =~= xs@);
    out
}

} // verus!
