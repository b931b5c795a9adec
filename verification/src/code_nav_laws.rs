//! What holds of symbol listings whatever the symbols: they come out
//! ordered by file and line, and nothing is lost or added.
use vstd::prelude::*;
use crate::code_nav::{SymbolView, sym_lt, sym_insert, sort_symbols};
use crate::text::{lemma_seq_lt_irreflexive, lemma_seq_lt_asymmetric, lemma_seq_lt_transitive};

verus! {

/// No symbol is followed by one that sorts before it.
pub open spec fn symbols_sorted(s: Seq<SymbolView>) -> bool {
    forall|i: int, j: int| 0 <= i < j < s.len() ==> !sym_lt(#[trigger] s[j], #[trigger] s[i])
}

proof fn lemma_sym_lt_order(a: SymbolView, b: SymbolView, c: SymbolView)
    ensures
        !sym_lt(a, a),
        sym_lt(a, b) ==> !sym_lt(b, a),
        sym_lt(a, b) && sym_lt(b, c) ==> sym_lt(a, c),
{
    lemma_seq_lt_irreflexive(a.file);
    lemma_seq_lt_irreflexive(b.file);
    lemma_seq_lt_asymmetric(a.file, b.file);
    lemma_seq_lt_transitive(a.file, b.file, c.file);
}

/// Inserting places `x` at the first position whose symbol sorts after it.
proof fn lemma_insert_position(s: Seq<SymbolView>, x: SymbolView) -> (k: int)
    ensures
        0 <= k <= s.len(),
        sym_insert(s, x) == s.insert(k, x),
        forall|i: int| 0 <= i < k ==> !sym_lt(x, #[trigger] s[i]),
        k < s.len() ==> sym_lt(x, s[k]),
    decreases s.len(),
{
    if s.len() == 0 {
        assert(s.insert(0, x) =~= seq![x]);
        0
    } else if sym_lt(x, s[0]) {
        assert(s.insert(0, x) =~= seq![x] + s);
        0
    } else {
        let rest = s.drop_first();
        let k1 = lemma_insert_position(rest, x);
        assert(seq![s[0]] + rest.insert(k1, x) =~= s.insert(k1 + 1, x));
        assert forall|i: int| 0 <= i < k1 + 1 implies !sym_lt(x, #[trigger] s[i]) by {
            if i > 0 {
                assert(s[i] == rest[i - 1]);
            }
        }
        if k1 < rest.len() {
            assert(s[k1 + 1] == rest[k1]);
        }
        k1 + 1
    }
}

proof fn lemma_insert_sorted(s: Seq<SymbolView>, x: SymbolView)
    requires
        symbols_sorted(s),
    ensures
        symbols_sorted(sym_insert(s, x)),
        sym_insert(s, x).to_multiset() == s.to_multiset().insert(x),
{
    let k = lemma_insert_position(s, x);
    let r = s.insert(k, x);
    vstd::seq_lib::to_multiset_insert(s, k, x);
    assert forall|i: int, j: int| 0 <= i < j < r.len() implies !sym_lt(#[trigger] r[j], #[trigger] r[i]) by {
        if j < k {
            assert(r[i] == s[i] && r[j] == s[j]);
        } else if j == k {
            assert(r[i] == s[i]);
        } else if i > k {
            assert(r[i] == s[i - 1] && r[j] == s[j - 1]);
        } else if i == k {
            assert(r[j] == s[j - 1]);
            lemma_sym_lt_order(s[j - 1], x, s[k]);
            if j - 1 > k {
                assert(!sym_lt(s[j - 1], s[k]));
            }
        } else {
            assert(r[i] == s[i] && r[j] == s[j - 1]);
        }
    }
}

/// A symbol listing comes out ordered by file, then line, and holds
/// exactly the symbols it was given.
pub proof fn law_symbols_sorted(s: Seq<SymbolView>)
    ensures
        symbols_sorted(sort_symbols(s)),
        sort_symbols(s).to_multiset() == s.to_multiset(),
    decreases s.len(),
{
    if s.len() == 0 {
        assert(s =~= Seq::<SymbolView>::empty());
    } else {
        let init = s.drop_last();
        law_symbols_sorted(init);
        lemma_insert_sorted(sort_symbols(init), s.last());
        assert(init.push(s.last()) =~= s);
        vstd::seq_lib::to_multiset_build(init, s.last());
        assert(sort_symbols(s).to_multiset() =~= s.to_multiset());
    }
}

} // verus!
