use vstd::prelude::*;

verus! {

broadcast use Seq::lemma_flatten_push;

/// The concatenation of the first `n` pieces that `piece` names.
pub open spec fn concat<A>(n: int, piece: spec_fn(int) -> Seq<A>) -> Seq<A> {
    Seq::new(n as nat, piece).flatten()
}

/// The concatenation of `n + 1` pieces is that of the first `n`, followed by
/// the last piece.
pub proof fn lemma_concat_step<A>(n: int, piece: spec_fn(int) -> Seq<A>)
    requires
        0 <= n,
    ensures
        concat(n + 1, piece) == concat(n, piece) + piece(n),
        concat(0, piece) == Seq::<A>::empty(),
{
    assert(Seq::new((n + 1) as nat, piece) =~= Seq::new(n as nat, piece).push(piece(n)));
    assert(concat(n + 1, piece) =~= concat(n, piece) + piece(n));
    assert(concat(0, piece) =~= Seq::<A>::empty());
}

/// An item occurs in a concatenation exactly if it occurs in one of the pieces.
pub proof fn lemma_concat_contains<A>(n: int, piece: spec_fn(int) -> Seq<A>, item: A)
    requires
        0 <= n,
    ensures
        concat(n, piece).contains(item) <==> exists|i: int|
            0 <= i < n && (#[trigger] piece(i)).contains(item),
    decreases n,
{
    if n == 0 {
        lemma_concat_step(0, piece);
        assert(!concat(0, piece).contains(item));
    } else {
        lemma_concat_step(n - 1, piece);
        lemma_concat_contains(n - 1, piece, item);
        let head = concat(n - 1, piece);
        let last = piece(n - 1);
        let all = concat(n, piece);
        assert(all == head + last);
        if all.contains(item) {
            let k = choose|k: int| 0 <= k < all.len() && all[k] == item;
            if k < head.len() {
                assert(head[k] == item);
                assert(head.contains(item));
                let i = choose|i: int| 0 <= i < n - 1 && (#[trigger] piece(i)).contains(item);
                assert(0 <= i < n && piece(i).contains(item));
            } else {
                assert(last[k - head.len()] == item);
                assert(last.contains(item));
                assert(piece(n - 1).contains(item));
            }
        }
        if exists|i: int| 0 <= i < n && (#[trigger] piece(i)).contains(item) {
            let i = choose|i: int| 0 <= i < n && (#[trigger] piece(i)).contains(item);
            if i < n - 1 {
                assert(head.contains(item));
                let k = choose|k: int| 0 <= k < head.len() && head[k] == item;
                assert(all[k] == item);
            } else {
                let k = choose|k: int| 0 <= k < last.len() && last[k] == item;
                assert(all[head.len() + k] == item);
            }
        }
    }
}

/// Where every piece has `width` items, piece `i` is the stretch of the
/// concatenation that begins at item `width * i`.
pub proof fn lemma_concat_uniform<A>(n: int, piece: spec_fn(int) -> Seq<A>, width: int)
    requires
        0 <= n,
        0 <= width,
        forall|i: int| 0 <= i < n ==> (#[trigger] piece(i)).len() == width,
    ensures
        concat(n, piece).len() == width * n,
        forall|i: int| 0 <= i < n ==> 0 <= #[trigger] (width * i) <= width * n - width,
        forall|i: int|
            0 <= i < n ==> concat(n, piece).subrange(width * i, width * i + width)
                == #[trigger] piece(i),
    decreases n,
{
    assert forall|i: int| 0 <= i < n implies 0 <= #[trigger] (width * i) <= width * n - width by {
        assert(0 <= width * i <= width * n - width) by (nonlinear_arith)
            requires
                0 <= i < n,
                0 <= width,
        ;
    }
    if n == 0 {
        lemma_concat_step(0, piece);
        assert(width * 0 == 0);
    } else {
        lemma_concat_step(n - 1, piece);
        lemma_concat_uniform(n - 1, piece, width);
        let head = concat(n - 1, piece);
        let all = concat(n, piece);
        assert(width * n == width * (n - 1) + width) by (nonlinear_arith);
        assert forall|i: int| 0 <= i < n implies all.subrange(width * i, width * i + width)
            == #[trigger] piece(i) by {
            assert(0 <= width * i <= width * n - width);
            if i < n - 1 {
                assert(0 <= width * i <= width * (n - 1) - width);
                assert(head.subrange(width * i, width * i + width) == piece(i));
                assert(all.subrange(width * i, width * i + width) =~= head.subrange(
                    width * i,
                    width * i + width,
                ));
            } else {
                assert(all.subrange(width * i, width * i + width) =~= piece(i));
            }
        }
    }
}

} // verus!
