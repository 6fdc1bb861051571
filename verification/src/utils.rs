//! Integer rounding and path helpers.

use vstd::prelude::*;
use itertools::{EitherOrBoth, Itertools};
use vstd::arithmetic::div_mod::lemma_fundamental_div_mod_converse;

verus! {

/// The quotient of `a` by `b`, rounded up to the next whole number.
pub open spec fn rounded_up_div(a: nat, b: nat) -> nat
    recommends
        b > 0,
{
    ((a + b - 1) / (b as int)) as nat
}

/// `a` rounded up to the next multiple of `b`.
pub open spec fn aligned_to(a: nat, b: nat) -> nat
    recommends
        b > 0,
{
    rounded_up_div(a, b) * b
}

/// `rounded_up_div(a, b)` multiplied by `b` reaches `a` and overshoots it by
/// less than `b`.
pub proof fn lemma_rounded_up_div_bounds(a: nat, b: nat)
    requires
        b > 0,
    ensures
        a <= rounded_up_div(a, b) * b < a + b,
{
    let n = (a + b - 1) as int;
    let d = b as int;
    let c = n / d;
    vstd::arithmetic::div_mod::lemma_fundamental_div_mod(n, d);
    vstd::arithmetic::div_mod::lemma_mod_bound(n, d);
    assert(c >= 0) by (nonlinear_arith)
        requires
            n >= 0,
            d > 0,
            c == n / d,
    ;
    assert(d * c == c * d) by (nonlinear_arith);
}

/// No smaller multiplier reaches `a`: `rounded_up_div(a, b)` is the least
/// `q` with `a <= q * b`.
pub proof fn lemma_rounded_up_div_is_least(a: nat, b: nat, q: nat)
    requires
        b > 0,
        a <= q * b,
    ensures
        rounded_up_div(a, b) <= q,
{
    let c = rounded_up_div(a, b);
    lemma_rounded_up_div_bounds(a, b);
    if q < c {
        assert(q * b + b <= c * b) by (nonlinear_arith)
            requires
                q + 1 <= c,
        ;
    }
}

/// The only `q` with `a <= q * b < a + b` is `rounded_up_div(a, b)`.
pub proof fn lemma_rounded_up_div_unique(a: nat, b: nat, q: nat)
    requires
        b > 0,
        a <= q * b < a + b,
    ensures
        rounded_up_div(a, b) == q,
{
    let c = rounded_up_div(a, b);
    lemma_rounded_up_div_bounds(a, b);
    lemma_rounded_up_div_is_least(a, b, q);
    if c < q {
        assert(c * b + b <= q * b) by (nonlinear_arith)
            requires
                c + 1 <= q,
        ;
    }
}

/// When `a >= 1`, rounding up is one more than the quotient of `a - 1`.
pub proof fn lemma_rounded_up_div_step(a: nat, b: nat)
    requires
        a >= 1,
        b > 0,
    ensures
        rounded_up_div(a, b) == (a - 1) / (b as int) + 1,
{
    let d = b as int;
    let m = (a - 1) as int;
    let q = m / d;
    vstd::arithmetic::div_mod::lemma_fundamental_div_mod(m, d);
    vstd::arithmetic::div_mod::lemma_mod_bound(m, d);
    assert(d * q == q * d) by (nonlinear_arith);
    assert((q + 1) * d == q * d + d) by (nonlinear_arith);
    lemma_fundamental_div_mod_converse(m + d, d, q + 1, m % d);
}

/// Divides `a` by `b`, rounding up.
pub fn unsigned_rounded_up_div(a: u64, b: u64) -> (q: u64)
    requires
        a >= 1,
        b >= 1,
    ensures
        q == rounded_up_div(a as nat, b as nat),
{
    proof {
        lemma_rounded_up_div_step(a as nat, b as nat);
        assert((a - 1) / (b as int) <= a - 1) by (nonlinear_arith)
            requires
                a >= 1,
                b >= 1,
        ;
    }
    (a - 1) / b + 1
}

/// Rounds `a` up to the next multiple of `b`.
pub fn unsigned_align_to(a: u64, b: u64) -> (r: u64)
    requires
        a >= 1,
        b >= 1,
        aligned_to(a as nat, b as nat) <= u64::MAX,
    ensures
        r == aligned_to(a as nat, b as nat),
        r % b == 0,
        a <= r < a + b,
{
    let q = unsigned_rounded_up_div(a, b);
    proof {
        lemma_rounded_up_div_bounds(a as nat, b as nat);
        vstd::arithmetic::div_mod::lemma_mod_multiples_basic(q as int, b as int);
    }
    q * b
}

/// The names in `v` as sequences of characters.
pub open spec fn names(v: Seq<String>) -> Seq<Seq<char>> {
    Seq::new(v.len(), |i: int| v[i]@)
}

/// The components among the first `n` of `path` that stand beyond the end
/// of `root` or differ from the component of `root` at the same place.
pub open spec fn relative_components(
    root: Seq<Seq<char>>,
    path: Seq<Seq<char>>,
    n: nat,
) -> Seq<Seq<char>>
    recommends
        n <= path.len(),
    decreases n,
{
    if n == 0 {
        Seq::empty()
    } else {
        let before = relative_components(root, path, (n - 1) as nat);
        if n - 1 >= root.len() || root[n - 1] != path[n - 1] {
            before.push(path[n - 1])
        } else {
            before
        }
    }
}

/// Pairs the components of two paths place by place with
/// `itertools::Itertools::zip_longest`, which goes on until both are used
/// up: the pair at a place holds the component of `root` there, where it
/// has one, and that of `path`, where it has one.
#[verifier::external_body]
fn zip_longest_components<'a>(root: &'a Vec<String>, path: &'a Vec<String>) -> (pairs: Vec<
    (Option<&'a String>, Option<&'a String>),
>)
    ensures
        pairs@.len() == if root@.len() >= path@.len() {
            root@.len()
        } else {
            path@.len()
        },
        forall|i: int|
            0 <= i < pairs@.len() ==> (#[trigger] pairs@[i]).0 == if i < root@.len() {
                Some(&root@[i])
            } else {
                None
            },
        forall|i: int|
            0 <= i < pairs@.len() ==> (#[trigger] pairs@[i]).1 == if i < path@.len() {
                Some(&path@[i])
            } else {
                None
            },
{
    root.iter().zip_longest(path.iter()).map(
        |either|
            match either {
                EitherOrBoth::Both(r, p) => (Some(r), Some(p)),
                EitherOrBoth::Left(r) => (Some(r), None),
                EitherOrBoth::Right(p) => (None, Some(p)),
            },
    ).collect()
}

/// The path of an entry as seen from `root`: the components of `path`
/// without those it shares with `root` place by place.
pub fn relative_path_from_common_root(root: &Vec<String>, path: &Vec<String>) -> (relative: Vec<
    String,
>)
    ensures
        names(relative@) == relative_components(names(root@), names(path@), path@.len() as nat),
{
    let pairs = zip_longest_components(root, path);
    let mut relative: Vec<String> = Vec::new();
    let mut i: usize = 0;
    while i < pairs.len()
        invariant
            i <= pairs@.len(),
            pairs@.len() == if root@.len() >= path@.len() {
                root@.len()
            } else {
                path@.len()
            },
            forall|k: int|
                0 <= k < pairs@.len() ==> (#[trigger] pairs@[k]).0 == if k < root@.len() {
                    Some(&root@[k])
                } else {
                    None
                },
            forall|k: int|
                0 <= k < pairs@.len() ==> (#[trigger] pairs@[k]).1 == if k < path@.len() {
                    Some(&path@[k])
                } else {
                    None
                },
            names(relative@) == relative_components(
                names(root@),
                names(path@),
                if i <= path@.len() {
                    i as nat
                } else {
                    path@.len() as nat
                },
            ),
        decreases pairs@.len() - i,
    {
        let ghost before = relative@;
        match pairs[i] {
            (Some(r), Some(p)) => {
                if !r.eq(p) {
                    relative.push(p.clone());
                    assert(names(relative@) =~= names(before).push(p@));
                }
            },
            (None, Some(p)) => {
                relative.push(p.clone());
                assert(names(relative@) =~= names(before).push(p@));
            },
            _ => {},
        }
        i += 1;
    }
    relative
}

} // verus!
