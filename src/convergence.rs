use vstd::prelude::*;

verus! {

/// How many positions hold different values in `a` and `b`, over the length of `a`.
pub open spec fn changed_count(a: Seq<int>, b: Seq<int>) -> nat
    decreases a.len(),
{
    if a.len() == 0 {
        0
    } else {
        changed_count(a.drop_last(), b.drop_last()) + if a.last() != b[a.len() - 1] {
            1nat
        } else {
            0nat
        }
    }
}

/// One pass over all directives: directive `i` takes the value that its
/// expression has when evaluated against the addresses of the previous pass.
pub open spec fn run_pass(eval: spec_fn(Seq<int>, int) -> int, addrs: Seq<int>) -> Seq<int> {
    Seq::new(addrs.len(), |i: int| eval(addrs, i))
}

/// The addresses after `k` passes from `init`.
pub open spec fn passes(eval: spec_fn(Seq<int>, int) -> int, init: Seq<int>, k: nat) -> Seq<int>
    decreases k,
{
    if k == 0 {
        init
    } else {
        run_pass(eval, passes(eval, init, (k - 1) as nat))
    }
}

/// The address expressions of `n` directives form no circular dependency:
/// each directive has a rank below `n`, and its value depends only on the
/// addresses of directives of strictly lower rank.
pub open spec fn acyclic(eval: spec_fn(Seq<int>, int) -> int, n: nat, rank: spec_fn(int) -> nat) -> bool {
    &&& forall|i: int| 0 <= i < n ==> #[trigger] rank(i) < n
    &&& forall|v: Seq<int>, w: Seq<int>, i: int|
        v.len() == n && w.len() == n && 0 <= i < n && (forall|j: int|
            0 <= j < n && rank(j) < rank(i) ==> v[j] == w[j]) ==> #[trigger] eval(v, i) == #[trigger] eval(w, i)
}

proof fn lemma_passes_len(eval: spec_fn(Seq<int>, int) -> int, init: Seq<int>, k: nat)
    ensures
        passes(eval, init, k).len() == init.len(),
    decreases k,
{
    if k > 0 {
        lemma_passes_len(eval, init, (k - 1) as nat);
    }
}

/// After `k` passes, every directive of rank below `k` keeps its address on the next pass.
proof fn lemma_low_ranks_settled(
    eval: spec_fn(Seq<int>, int) -> int,
    init: Seq<int>,
    rank: spec_fn(int) -> nat,
    k: nat,
)
    requires
        acyclic(eval, init.len(), rank),
    ensures
        forall|i: int|
            0 <= i < init.len() && rank(i) < k ==> passes(eval, init, k)[i] == #[trigger] passes(
                eval,
                init,
                k + 1,
            )[i],
    decreases k,
{
    let n = init.len();
    if k > 0 {
        let km = (k - 1) as nat;
        lemma_low_ranks_settled(eval, init, rank, km);
        lemma_passes_len(eval, init, km);
        lemma_passes_len(eval, init, k);
        let v = passes(eval, init, km);
        let w = passes(eval, init, k);
        assert forall|i: int| 0 <= i < n && rank(i) < k implies passes(eval, init, k)[i] == #[trigger] passes(
            eval,
            init,
            k + 1,
        )[i] by {
            assert forall|j: int| 0 <= j < n && rank(j) < rank(i) implies v[j] == w[j] by {
                assert(passes(eval, init, km + 1)[j] == passes(eval, init, km)[j]);
            }
            assert(eval(v, i) == eval(w, i));
        }
    }
}

/// A program whose address expressions form no circular dependency reaches
/// its fixed point within as many passes as it has directives: the pass after
/// that changes no address, so it reports no directive as unresolved.
pub proof fn lemma_acyclic_converges(
    eval: spec_fn(Seq<int>, int) -> int,
    init: Seq<int>,
    rank: spec_fn(int) -> nat,
)
    requires
        acyclic(eval, init.len(), rank),
    ensures
        changed_count(passes(eval, init, init.len()), passes(eval, init, init.len() + 1)) == 0,
        passes(eval, init, init.len() + 1) == passes(eval, init, init.len()),
{
    let n = init.len();
    lemma_low_ranks_settled(eval, init, rank, n);
    lemma_passes_len(eval, init, n);
    lemma_passes_len(eval, init, n + 1);
    let a = passes(eval, init, n);
    let b = passes(eval, init, n + 1);
    assert forall|i: int| 0 <= i < n implies a[i] == b[i] by {
        assert(rank(i) < n);
    }
    assert(b =~= a);
    lemma_unchanged_count_zero(a);
}

/// A sequence compared with itself has no changed position.
proof fn lemma_unchanged_count_zero(a: Seq<int>)
    ensures
        changed_count(a, a) == 0,
    decreases a.len(),
{
    if a.len() > 0 {
        lemma_unchanged_count_zero(a.drop_last());
    }
}

} // verus!
