//! Laws of the DSML stream parser: how it treats a delta cut into pieces.
use vstd::prelude::*;
use crate::dsml::{
    close_tag, feed_acc, held_extra, open_tag, parse_block, push_calls, push_normal, spec_feed,
    CallView, ModeView, ParserView, SegmentView,
};
use crate::text::{
    ends_with_prefix, find_from, lemma_find_from, lemma_suffix_prefix_upto, occurs_at,
    suffix_prefix_len, suffix_prefix_upto,
};

verus! {

broadcast use {vstd::seq::group_seq_axioms, vstd::seq_lib::group_seq_properties};

/// One unit of parser output: a character of text (by its code point), a
/// tool call, or the end of a group of tool calls from one block.
pub enum FlatItem {
    Text(int),
    Call(CallView),
    GroupEnd,
}

pub open spec fn text_items(t: Seq<char>) -> Seq<FlatItem> {
    Seq::new(t.len(), |i: int| FlatItem::Text(t[i] as int))
}

/// A group of calls: each call, then the end of the group; nothing for no
/// calls.
pub open spec fn call_items(c: Seq<CallView>) -> Seq<FlatItem> {
    if c.len() == 0 {
        Seq::empty()
    } else {
        Seq::new(c.len(), |i: int| FlatItem::Call(c[i])).push(FlatItem::GroupEnd)
    }
}

pub open spec fn flat_seg(s: SegmentView) -> Seq<FlatItem> {
    match s {
        SegmentView::Normal(t) => text_items(t),
        SegmentView::ToolCalls(c) => call_items(c),
    }
}

/// The output as a flat sequence of characters and calls, forgetting where
/// text segments were cut but keeping which calls came from one block.
pub open spec fn flat(segs: Seq<SegmentView>) -> Seq<FlatItem>
    decreases segs.len(),
{
    if segs.len() == 0 {
        Seq::empty()
    } else {
        flat(segs.drop_last()) + flat_seg(segs.last())
    }
}

/// No closing tag begins inside the buffered block text and runs on into `b`.
pub open spec fn no_close_across(mode: ModeView, b: Seq<char>) -> bool {
    match mode {
        ModeView::Block(buf) => forall|j: int|
            0 <= j < buf.len() ==> !#[trigger] occurs_at(buf + b, close_tag(), j),
        _ => true,
    }
}

proof fn lemma_text_items_concat(x: Seq<char>, y: Seq<char>)
    ensures
        text_items(x + y) == text_items(x) + text_items(y),
{
    let l = text_items(x + y);
    let r = text_items(x) + text_items(y);
    assert(l.len() == r.len());
    assert forall|i: int| 0 <= i < l.len() implies l[i] == r[i] by {
        if i < x.len() {
            assert((x + y)[i] == x[i]);
        } else {
            assert((x + y)[i] == y[i - x.len()]);
        }
    }
    assert(l =~= r);
}

proof fn lemma_flat_push(acc: Seq<SegmentView>, s: SegmentView)
    ensures
        flat(acc.push(s)) == flat(acc) + flat_seg(s),
{
    assert(acc.push(s).drop_last() =~= acc);
}

proof fn lemma_flat_push_normal(acc: Seq<SegmentView>, x: Seq<char>)
    ensures
        flat(push_normal(acc, x)) == flat(acc) + text_items(x),
{
    if x.len() == 0 {
        assert(text_items(x).len() == 0);
        assert(text_items(x) =~= Seq::<FlatItem>::empty());
        assert(flat(acc) + text_items(x) =~= flat(acc));
    } else if acc.len() > 0 && acc.last() is Normal {
        let e = acc.last()->Normal_0;
        lemma_flat_push(acc.drop_last(), SegmentView::Normal(e + x));
        lemma_text_items_concat(e, x);
        assert(flat(acc) == flat(acc.drop_last()) + text_items(e));
        assert(flat(acc.drop_last()) + (text_items(e) + text_items(x)) =~= flat(acc.drop_last())
            + text_items(e) + text_items(x));
    } else {
        lemma_flat_push(acc, SegmentView::Normal(x));
    }
}

proof fn lemma_flat_push_calls(acc: Seq<SegmentView>, c: Seq<CallView>)
    ensures
        flat(push_calls(acc, c)) == flat(acc) + call_items(c),
{
    if c.len() > 0 {
        lemma_flat_push(acc, SegmentView::ToolCalls(c));
    } else {
        assert(call_items(c) =~= Seq::<FlatItem>::empty());
        assert(flat(acc) + call_items(c) =~= flat(acc));
    }
}

/// The mode and counter do not depend on what was emitted before, and the
/// output extends what was emitted before.
proof fn lemma_feed_acc_independent(acc: Seq<SegmentView>, mode: ModeView, c: nat, t: Seq<char>)
    ensures
        feed_acc(acc, mode, c, t).1 == feed_acc(Seq::empty(), mode, c, t).1,
        feed_acc(acc, mode, c, t).2 == feed_acc(Seq::empty(), mode, c, t).2,
        flat(feed_acc(acc, mode, c, t).0) == flat(acc) + flat(feed_acc(Seq::empty(), mode, c, t).0),
    decreases t.len() + held_extra(mode),
{
    let e = Seq::<SegmentView>::empty();
    assert(flat(e) =~= Seq::<FlatItem>::empty());
    match mode {
        ModeView::Held(h) => {
            lemma_feed_acc_independent(acc, ModeView::Idle, c, h + t);
        },
        ModeView::Idle => match find_from(t, open_tag(), 0) {
            Some(p) => if 0 <= p && p + open_tag().len() <= t.len() {
                let x = t.take(p);
                let r = t.skip(p + open_tag().len());
                lemma_feed_acc_independent(push_normal(acc, x), ModeView::Block(Seq::empty()), c, r);
                lemma_feed_acc_independent(push_normal(e, x), ModeView::Block(Seq::empty()), c, r);
                lemma_flat_push_normal(acc, x);
                lemma_flat_push_normal(e, x);
                let f = flat(feed_acc(e, ModeView::Block(Seq::empty()), c, r).0);
                assert(flat(acc) + text_items(x) + f =~= flat(acc) + (flat(e) + text_items(x) + f));
            } else {
                assert(flat(acc) + flat(e) =~= flat(acc));
            },
            None => {
                let h = suffix_prefix_len(t, open_tag());
                let x = t.take(t.len() - h);
                lemma_flat_push_normal(acc, x);
                lemma_flat_push_normal(e, x);
                assert(flat(acc) + text_items(x) =~= flat(acc) + (flat(e) + text_items(x)));
            },
        },
        ModeView::Block(buf) => match find_from(t, close_tag(), 0) {
            Some(q) => if 0 <= q && q + close_tag().len() <= t.len() {
                let calls = parse_block(buf + t.take(q), c);
                let r = t.skip(q + close_tag().len());
                let c2 = c + calls.len();
                lemma_feed_acc_independent(push_calls(acc, calls), ModeView::Idle, c2, r);
                lemma_feed_acc_independent(push_calls(e, calls), ModeView::Idle, c2, r);
                lemma_flat_push_calls(acc, calls);
                lemma_flat_push_calls(e, calls);
                let f = flat(feed_acc(e, ModeView::Idle, c2, r).0);
                assert(flat(acc) + call_items(calls) + f =~= flat(acc) + (flat(e) + call_items(calls)
                    + f));
            } else {
                assert(flat(acc) + flat(e) =~= flat(acc));
            },
            None => {
                assert(flat(acc) + flat(e) =~= flat(acc));
            },
        },
    }
}

/// Outputs from accumulators with the same flat view have the same flat view.
proof fn lemma_feed_acc_flat_congruent(
    acc1: Seq<SegmentView>,
    acc2: Seq<SegmentView>,
    mode: ModeView,
    c: nat,
    t: Seq<char>,
)
    requires
        flat(acc1) == flat(acc2),
    ensures
        flat(feed_acc(acc1, mode, c, t).0) == flat(feed_acc(acc2, mode, c, t).0),
        feed_acc(acc1, mode, c, t).1 == feed_acc(acc2, mode, c, t).1,
        feed_acc(acc1, mode, c, t).2 == feed_acc(acc2, mode, c, t).2,
{
    lemma_feed_acc_independent(acc1, mode, c, t);
    lemma_feed_acc_independent(acc2, mode, c, t);
}

/// An occurrence wholly inside `a` is an occurrence in `a + b`, and back.
proof fn lemma_occurs_prefix(a: Seq<char>, b: Seq<char>, n: Seq<char>, j: int)
    requires
        0 <= j,
        j + n.len() <= a.len(),
    ensures
        occurs_at(a + b, n, j) == occurs_at(a, n, j),
{
    assert((a + b).subrange(j, j + n.len()) =~= a.subrange(j, j + n.len()));
}

/// The first occurrence in `a` that lies wholly inside `a` is also the first
/// one in `a + b`.
proof fn lemma_find_prefix_stable(a: Seq<char>, b: Seq<char>, n: Seq<char>, j: int, p: int)
    requires
        0 <= j <= p,
        p + n.len() <= a.len(),
        find_from(a, n, j) == Some(p),
    ensures
        find_from(a + b, n, j) == Some(p),
    decreases p - j,
{
    lemma_occurs_prefix(a, b, n, j);
    lemma_find_from(a, n, j);
    if j < p {
        assert(!occurs_at(a, n, j));
        assert(find_from(a, n, j + 1) == Some(p));
        lemma_find_prefix_stable(a, b, n, j + 1, p);
    }
}

/// With no occurrence at indices `i..k`, searching from `i` is searching
/// from `k`.
proof fn lemma_find_skip(s: Seq<char>, n: Seq<char>, i: int, k: int)
    requires
        0 <= i <= k <= s.len(),
        forall|j: int| i <= j < k ==> !occurs_at(s, n, j),
    ensures
        find_from(s, n, i) == find_from(s, n, k),
    decreases k - i,
{
    if i < k {
        if i + n.len() > s.len() {
            lemma_find_none_past(s, n, k);
        } else {
            lemma_find_skip(s, n, i + 1, k);
        }
    }
}

proof fn lemma_find_none_past(s: Seq<char>, n: Seq<char>, k: int)
    ensures
        k + n.len() > s.len() ==> find_from(s, n, k) is None,
{
}

/// Searching `x + w` from `|x|` is searching `w` from 0, shifted.
proof fn lemma_find_suffix(x: Seq<char>, w: Seq<char>, n: Seq<char>)
    ensures
        find_from(x + w, n, x.len() as int) == (match find_from(w, n, 0) {
            Some(k) => Some(k + x.len()),
            None => None::<int>,
        }),
{
    crate::text::lemma_find_shift(x + w, n, x.len() as int, 0);
    assert((x + w).skip(x.len() as int) =~= w);
}

proof fn lemma_spl_facts(t: Seq<char>)
    ensures
        0 <= suffix_prefix_len(t, open_tag()) <= t.len(),
        suffix_prefix_len(t, open_tag()) < open_tag().len() || find_from(t, open_tag(), 0) is Some,
        suffix_prefix_len(t, open_tag()) > 0 ==> ends_with_prefix(t, open_tag(), suffix_prefix_len(t, open_tag())),
        forall|l: int|
            suffix_prefix_len(t, open_tag()) < l <= t.len() && l <= open_tag().len() ==> !ends_with_prefix(t, open_tag(), l),
{
    let max = if t.len() < open_tag().len() { t.len() as int } else { open_tag().len() as int };
    lemma_suffix_prefix_upto(t, open_tag(), max);
    let h = suffix_prefix_len(t, open_tag());
    if h == open_tag().len() {
        // the whole tag ends the text, so it occurs in it
        let j = t.len() - h;
        assert(t.subrange(j, j + open_tag().len()) =~= open_tag().take(h));
        assert(open_tag().take(h) =~= open_tag());
        assert(occurs_at(t, open_tag(), j));
        lemma_find_from(t, open_tag(), 0);
    }
}

/// Processing text from idle after an opening-tag-free prefix `x`: when no
/// opening tag starts inside `x` and the held suffix of `x + w` lies inside
/// `w`, the prefix is simply emitted as text first.
proof fn lemma_idle_prefix(acc: Seq<SegmentView>, c: nat, x: Seq<char>, w: Seq<char>)
    requires
        forall|j: int| 0 <= j < x.len() ==> !#[trigger] occurs_at(x + w, open_tag(), j),
        find_from(w, open_tag(), 0) is None ==> suffix_prefix_len(x + w, open_tag())
            == suffix_prefix_len(w, open_tag()),
    ensures
        flat(feed_acc(acc, ModeView::Idle, c, x + w).0) == flat(
            feed_acc(push_normal(acc, x), ModeView::Idle, c, w).0,
        ),
        feed_acc(acc, ModeView::Idle, c, x + w).1 == feed_acc(push_normal(acc, x), ModeView::Idle, c, w).1,
        feed_acc(acc, ModeView::Idle, c, x + w).2 == feed_acc(push_normal(acc, x), ModeView::Idle, c, w).2,
{
    let s = x + w;
    let o = open_tag();
    lemma_find_skip(s, o, 0, x.len() as int);
    lemma_find_suffix(x, w, o);
    lemma_flat_push_normal(acc, x);
    match find_from(w, o, 0) {
        Some(p) => {
            lemma_find_from(w, o, 0);
            assert(find_from(s, o, 0) == Some(p + x.len()));
            let q = p + x.len();
            assert(s.take(q) =~= x + w.take(p));
            assert(s.skip(q + o.len()) =~= w.skip(p + o.len()));
            let acc_a = push_normal(acc, s.take(q));
            let acc_b = push_normal(push_normal(acc, x), w.take(p));
            lemma_flat_push_normal(acc, s.take(q));
            lemma_flat_push_normal(push_normal(acc, x), w.take(p));
            lemma_text_items_concat(x, w.take(p));
            assert(flat(acc_a) =~= flat(acc_b));
            lemma_feed_acc_flat_congruent(acc_a, acc_b, ModeView::Block(Seq::empty()), c, w.skip(p + o.len()));
        },
        None => {
            let h = suffix_prefix_len(w, o);
            lemma_spl_facts(w);
            assert(s.take(s.len() - h) =~= x + w.take(w.len() - h));
            assert(s.skip(s.len() - h) =~= w.skip(w.len() - h));
            lemma_flat_push_normal(acc, s.take(s.len() - h));
            lemma_flat_push_normal(push_normal(acc, x), w.take(w.len() - h));
            lemma_text_items_concat(x, w.take(w.len() - h));
        },
    }
}

spec fn h_len(a: Seq<char>) -> int {
    suffix_prefix_len(a, open_tag())
}

/// A suffix of `a + b` that starts a tag and reaches into `a` would make a
/// longer held suffix of `a` than the one `a` has.
proof fn lemma_held_suffix_stays(x: Seq<char>, hs: Seq<char>, b: Seq<char>)
    requires
        find_from(x + hs, open_tag(), 0) is None,
        suffix_prefix_len(x + hs, open_tag()) == hs.len(),
        find_from(hs + b, open_tag(), 0) is None,
    ensures
        suffix_prefix_len(x + (hs + b), open_tag()) == suffix_prefix_len(hs + b, open_tag()),
{
    let a = x + hs;
    let w = hs + b;
    let s = x + w;
    let o = open_tag();
    lemma_spl_facts(a);
    lemma_spl_facts(w);
    lemma_spl_facts(s);
    let r1 = suffix_prefix_len(s, o);
    let r2 = suffix_prefix_len(w, o);
    if r2 > 0 {
        assert(s.subrange(s.len() - r2, s.len() as int) =~= w.subrange(w.len() - r2, w.len() as int));
        assert(ends_with_prefix(s, o, r2));
    }
    if r1 > w.len() {
        let l = r1 - b.len();
        assert(s =~= a + b);
        assert(ends_with_prefix(s, o, r1));
        assert(a.subrange(a.len() - l, a.len() as int) =~= s.subrange(s.len() - r1, s.len() as int).take(l));
        assert(o.take(r1).take(l) =~= o.take(l));
        assert(l > h_len(a));
        assert(ends_with_prefix(a, o, l));
        assert(false);
    }
    if r1 > 0 {
        assert(s.subrange(s.len() - r1, s.len() as int) =~= w.subrange(w.len() - r1, w.len() as int));
        assert(ends_with_prefix(w, o, r1));
    }
}

/// No opening tag starts inside the emitted part of opening-tag-free text.
proof fn lemma_no_open_before_held(a: Seq<char>, b: Seq<char>)
    requires
        find_from(a, open_tag(), 0) is None,
    ensures
        forall|j: int|
            0 <= j < a.len() - suffix_prefix_len(a, open_tag()) ==> !#[trigger] occurs_at(a + b, open_tag(), j),
{
    let o = open_tag();
    let h = suffix_prefix_len(a, o);
    lemma_spl_facts(a);
    lemma_find_from(a, o, 0);
    assert forall|j: int| 0 <= j < a.len() - h implies !#[trigger] occurs_at(a + b, o, j) by {
        if occurs_at(a + b, o, j) {
            if j + o.len() <= a.len() {
                lemma_occurs_prefix(a, b, o, j);
            } else {
                let l = a.len() - j;
                assert(a.subrange(j, a.len() as int) =~= (a + b).subrange(j, j + o.len()).take(l));
                assert(o.take(l) =~= (a + b).subrange(j, j + o.len()).take(l));
                assert(ends_with_prefix(a, o, l));
            }
        }
    }
}

/// Feeding `a` then `b` from accumulated output gives the same flat output,
/// mode and counter as feeding `a + b`, when no closing tag straddles the cut.
#[verifier::spinoff_prover]
#[verifier::rlimit(40)]
proof fn lemma_feed_split(acc: Seq<SegmentView>, mode: ModeView, c: nat, a: Seq<char>, b: Seq<char>)
    requires
        no_close_across(feed_acc(acc, mode, c, a).1, b),
    ensures
        ({
            let r1 = feed_acc(acc, mode, c, a);
            let r2 = feed_acc(r1.0, r1.1, r1.2, b);
            let r3 = feed_acc(acc, mode, c, a + b);
            &&& flat(r2.0) == flat(r3.0)
            &&& r2.1 == r3.1
            &&& r2.2 == r3.2
        }),
    decreases a.len() + held_extra(mode),
{
    let o = open_tag();
    let cl = close_tag();
    match mode {
        ModeView::Held(h) => {
            assert(h + (a + b) =~= (h + a) + b);
            lemma_feed_split(acc, ModeView::Idle, c, h + a, b);
        },
        ModeView::Idle => match find_from(a, o, 0) {
            Some(p) => {
                lemma_find_from(a, o, 0);
                lemma_find_prefix_stable(a, b, o, 0, p);
                assert((a + b).take(p) =~= a.take(p));
                assert((a + b).skip(p + o.len()) =~= a.skip(p + o.len()) + b);
                lemma_feed_split(
                    push_normal(acc, a.take(p)),
                    ModeView::Block(Seq::empty()),
                    c,
                    a.skip(p + o.len()),
                    b,
                );
            },
            None => {
                lemma_split_idle_none(acc, c, a, b);
            },
        },
        ModeView::Block(buf) => match find_from(a, cl, 0) {
            Some(q) => {
                lemma_find_from(a, cl, 0);
                lemma_find_prefix_stable(a, b, cl, 0, q);
                assert((a + b).take(q) =~= a.take(q));
                assert((a + b).skip(q + cl.len()) =~= a.skip(q + cl.len()) + b);
                let calls = parse_block(buf + a.take(q), c);
                lemma_feed_split(
                    push_calls(acc, calls),
                    ModeView::Idle,
                    c + calls.len(),
                    a.skip(q + cl.len()),
                    b,
                );
            },
            None => {
                lemma_split_block_none(acc, buf, c, a, b);
            },
        },
    }
}

/// The cut falls after tag-free text read from idle.
proof fn lemma_split_idle_none(acc: Seq<SegmentView>, c: nat, a: Seq<char>, b: Seq<char>)
    requires
        find_from(a, open_tag(), 0) is None,
    ensures
        ({
            let r1 = feed_acc(acc, ModeView::Idle, c, a);
            let r2 = feed_acc(r1.0, r1.1, r1.2, b);
            let r3 = feed_acc(acc, ModeView::Idle, c, a + b);
            &&& flat(r2.0) == flat(r3.0)
            &&& r2.1 == r3.1
            &&& r2.2 == r3.2
        }),
{
    let o = open_tag();
    let h = suffix_prefix_len(a, o);
    lemma_spl_facts(a);
    let x = a.take(a.len() - h);
    let hs = a.skip(a.len() - h);
    let w = hs + b;
    assert(a =~= x + hs);
    assert(a + b =~= x + w);
    lemma_no_open_before_held(a, b);
    assert forall|j: int| 0 <= j < x.len() implies !#[trigger] occurs_at(x + w, o, j) by {
        assert(occurs_at(a + b, o, j) == occurs_at(x + w, o, j));
    }
    if find_from(w, o, 0) is None {
        lemma_held_suffix_stays(x, hs, b);
    }
    lemma_idle_prefix(acc, c, x, w);
    if h == 0 {
        assert(w =~= b);
    }
}

/// The cut falls inside an open block whose closing tag is not in `a`.
proof fn lemma_split_block_none(acc: Seq<SegmentView>, buf: Seq<char>, c: nat, a: Seq<char>, b: Seq<char>)
    requires
        find_from(a, close_tag(), 0) is None,
        no_close_across(ModeView::Block(buf + a), b),
    ensures
        ({
            let r1 = feed_acc(acc, ModeView::Block(buf), c, a);
            let r2 = feed_acc(r1.0, r1.1, r1.2, b);
            let r3 = feed_acc(acc, ModeView::Block(buf), c, a + b);
            &&& flat(r2.0) == flat(r3.0)
            &&& r2.1 == r3.1
            &&& r2.2 == r3.2
        }),
{
    let cl = close_tag();
    let big = buf + a;
    assert(big + b =~= buf + (a + b));
    assert(no_close_across(ModeView::Block(big), b));
    assert(match ModeView::Block(big) {
        ModeView::Block(bb) => forall|j: int| 0 <= j < bb.len() ==> !#[trigger] occurs_at(bb + b, close_tag(), j),
        _ => true,
    });
    assert(forall|j: int| 0 <= j < big.len() ==> !#[trigger] occurs_at(big + b, cl, j));
    assert forall|j: int| 0 <= j < a.len() implies !#[trigger] occurs_at(a + b, cl, j) by {
        assert(!occurs_at(big + b, cl, j + buf.len()));
        if occurs_at(a + b, cl, j) {
            assert((a + b).subrange(j, j + cl.len()) =~= (big + b).subrange(
                j + buf.len(),
                j + buf.len() + cl.len(),
            ));
        }
    }
    lemma_find_skip(a + b, cl, 0, a.len() as int);
    lemma_find_suffix(a, b, cl);
    match find_from(b, cl, 0) {
        Some(q) => {
            lemma_find_from(b, cl, 0);
            assert(buf + (a + b).take(q + a.len()) =~= big + b.take(q));
            assert((a + b).skip(q + a.len() + cl.len()) =~= b.skip(q + cl.len()));
        },
        None => {
            assert(buf + (a + b) =~= big + b);
        },
    }
}

/// Feeding a delta in two pieces emits the same text and tool calls, in the
/// same order and grouped block by block, and leaves the parser in the same
/// state as feeding it whole,
/// as long as no closing tag starts in the buffered block before the cut
/// and ends after it.
pub proof fn law_feed_split(v: ParserView, a: Seq<char>, b: Seq<char>)
    requires
        no_close_across(spec_feed(v, a).1.mode, b),
    ensures
        flat(spec_feed(v, a).0) + flat(spec_feed(spec_feed(v, a).1, b).0) == flat(spec_feed(v, a + b).0),
        spec_feed(spec_feed(v, a).1, b).1 == spec_feed(v, a + b).1,
{
    let e = Seq::<SegmentView>::empty();
    let r1 = feed_acc(e, v.mode, v.counter, a);
    lemma_feed_split(e, v.mode, v.counter, a, b);
    lemma_feed_acc_independent(r1.0, r1.1, r1.2, b);
}

/// Text without `<` passes through an idle parser unchanged: it comes out
/// as one piece of text, nothing is held back, and the parser stays idle
/// with the same call count.
pub proof fn law_plain_text_passes_through(counter: nat, t: Seq<char>)
    requires
        forall|i: int| 0 <= i < t.len() ==> t[i] != '<',
    ensures
        spec_feed(ParserView { mode: ModeView::Idle, counter }, t) == (
            push_normal(Seq::empty(), t),
            ParserView { mode: ModeView::Idle, counter },
        ),
{
    let open = open_tag();
    lemma_find_from(t, open, 0);
    if let Some(p) = find_from(t, open, 0) {
        assert(t.subrange(p, p + open.len())[0] == t[p]);
        assert(false);
    }
    let max = if t.len() < open.len() { t.len() as int } else { open.len() as int };
    lemma_suffix_prefix_upto(t, open, max);
    let h = suffix_prefix_len(t, open);
    if h > 0 {
        assert(ends_with_prefix(t, open, h));
        assert(t.subrange(t.len() - h, t.len() as int)[0] == t[t.len() - h]);
        assert(open.take(h)[0] == '<');
        assert(false);
    }
    assert(t.take(t.len() - h) =~= t);
}

/// The chunks joined into one text.
pub open spec fn joined_chunks(cs: Seq<Seq<char>>) -> Seq<char>
    decreases cs.len(),
{
    if cs.len() == 0 {
        Seq::empty()
    } else {
        joined_chunks(cs.drop_last()) + cs.last()
    }
}

/// Feeding the chunks one after another: the segments of each feed in
/// turn, and the state the parser ends in.
pub open spec fn feed_chunks(v: ParserView, cs: Seq<Seq<char>>) -> (Seq<SegmentView>, ParserView)
    decreases cs.len(),
{
    if cs.len() == 0 {
        (Seq::empty(), v)
    } else {
        let r = feed_chunks(v, cs.drop_last());
        let step = spec_feed(r.1, cs.last());
        (r.0 + step.0, step.1)
    }
}

/// Segments as the parser emits them: no empty text, no text right after
/// text, and no empty group of calls.
pub open spec fn canonical(segs: Seq<SegmentView>) -> bool
    decreases segs.len(),
{
    if segs.len() == 0 {
        true
    } else {
        &&& canonical(segs.drop_last())
        &&& match segs.last() {
            SegmentView::Normal(t) => t.len() > 0 && !(segs.len() > 1 && segs.drop_last().last() is Normal),
            SegmentView::ToolCalls(c) => c.len() > 0,
        }
    }
}

/// `segs` appended to `acc` the way the parser appends its output: text
/// joins text right before it, and empty pieces are dropped.
pub open spec fn merge_into(acc: Seq<SegmentView>, segs: Seq<SegmentView>) -> Seq<SegmentView>
    decreases segs.len(),
{
    if segs.len() == 0 {
        acc
    } else {
        let a = merge_into(acc, segs.drop_last());
        match segs.last() {
            SegmentView::Normal(t) => push_normal(a, t),
            SegmentView::ToolCalls(c) => push_calls(a, c),
        }
    }
}

/// The segments with adjacent text joined.
pub open spec fn regroup(segs: Seq<SegmentView>) -> Seq<SegmentView> {
    merge_into(Seq::empty(), segs)
}

proof fn lemma_flat_add(x: Seq<SegmentView>, y: Seq<SegmentView>)
    ensures
        flat(x + y) == flat(x) + flat(y),
    decreases y.len(),
{
    if y.len() == 0 {
        assert(x + y =~= x);
        assert(flat(x) + flat(y) =~= flat(x));
    } else {
        lemma_flat_add(x, y.drop_last());
        assert((x + y).drop_last() =~= x + y.drop_last());
        assert((x + y).last() == y.last());
        assert(flat(x) + flat(y.drop_last()) + flat_seg(y.last()) =~= flat(x) + (flat(y.drop_last())
            + flat_seg(y.last())));
    }
}

proof fn lemma_canonical_push_normal(acc: Seq<SegmentView>, x: Seq<char>)
    requires
        canonical(acc),
    ensures
        canonical(push_normal(acc, x)),
{
    if x.len() > 0 {
        if acc.len() > 0 && acc.last() is Normal {
            let r = push_normal(acc, x);
            assert(r.drop_last() =~= acc.drop_last());
            assert(canonical(acc.drop_last()));
        } else {
            assert(acc.push(SegmentView::Normal(x)).drop_last() =~= acc);
        }
    }
}

proof fn lemma_canonical_push_calls(acc: Seq<SegmentView>, c: Seq<CallView>)
    requires
        canonical(acc),
    ensures
        canonical(push_calls(acc, c)),
{
    if c.len() > 0 {
        assert(acc.push(SegmentView::ToolCalls(c)).drop_last() =~= acc);
    }
}

/// The parser's output stays canonical.
proof fn lemma_feed_canonical(acc: Seq<SegmentView>, mode: ModeView, c: nat, t: Seq<char>)
    requires
        canonical(acc),
    ensures
        canonical(feed_acc(acc, mode, c, t).0),
    decreases t.len() + held_extra(mode),
{
    match mode {
        ModeView::Held(h) => {
            lemma_feed_canonical(acc, ModeView::Idle, c, h + t);
        },
        ModeView::Idle => match find_from(t, open_tag(), 0) {
            Some(p) => {
                if 0 <= p && p + open_tag().len() <= t.len() {
                    lemma_canonical_push_normal(acc, t.take(p));
                    lemma_feed_canonical(
                        push_normal(acc, t.take(p)),
                        ModeView::Block(Seq::empty()),
                        c,
                        t.skip(p + open_tag().len()),
                    );
                }
            },
            None => {
                let h = suffix_prefix_len(t, open_tag());
                lemma_canonical_push_normal(acc, t.take(t.len() - h));
            },
        },
        ModeView::Block(buf) => match find_from(t, close_tag(), 0) {
            Some(q) => {
                if 0 <= q && q + close_tag().len() <= t.len() {
                    let calls = parse_block(buf + t.take(q), c);
                    lemma_canonical_push_calls(acc, calls);
                    lemma_feed_canonical(
                        push_calls(acc, calls),
                        ModeView::Idle,
                        c + calls.len(),
                        t.skip(q + close_tag().len()),
                    );
                }
            },
            None => {},
        },
    }
}

/// Regrouping gives canonical segments with the same flat view.
proof fn lemma_merge_into(acc: Seq<SegmentView>, segs: Seq<SegmentView>)
    requires
        canonical(acc),
    ensures
        canonical(merge_into(acc, segs)),
        flat(merge_into(acc, segs)) == flat(acc) + flat(segs),
    decreases segs.len(),
{
    if segs.len() == 0 {
        assert(flat(segs) =~= Seq::<FlatItem>::empty());
        assert(flat(acc) + flat(segs) =~= flat(acc));
    } else {
        let a = merge_into(acc, segs.drop_last());
        lemma_merge_into(acc, segs.drop_last());
        match segs.last() {
            SegmentView::Normal(t) => {
                lemma_canonical_push_normal(a, t);
                lemma_flat_push_normal(a, t);
            },
            SegmentView::ToolCalls(c) => {
                lemma_canonical_push_calls(a, c);
                lemma_flat_push_calls(a, c);
            },
        }
        assert(flat(acc) + flat(segs.drop_last()) + flat_seg(segs.last()) =~= flat(acc) + (flat(
            segs.drop_last(),
        ) + flat_seg(segs.last())));
    }
}

/// The flat view of canonical segments ends with a character exactly when
/// the last segment is text, and with the end of a group otherwise.
proof fn lemma_canonical_flat_last(segs: Seq<SegmentView>)
    requires
        canonical(segs),
        segs.len() > 0,
    ensures
        flat(segs).len() > 0,
        segs.last() is Normal ==> flat(segs).last() is Text,
        segs.last() is ToolCalls ==> flat(segs).last() is GroupEnd,
        flat(segs) == flat(segs.drop_last()) + flat_seg(segs.last()),
{
}

/// Canonical segments are told apart by their flat view.
proof fn lemma_canonical_flat_injective(x: Seq<SegmentView>, y: Seq<SegmentView>)
    requires
        canonical(x),
        canonical(y),
        flat(x) == flat(y),
    ensures
        x == y,
    decreases x.len() + y.len(),
{
    if x.len() == 0 || y.len() == 0 {
        if x.len() > 0 {
            lemma_canonical_flat_last(x);
        }
        if y.len() > 0 {
            lemma_canonical_flat_last(y);
        }
        assert(x =~= y);
    } else {
        lemma_canonical_flat_last(x);
        lemma_canonical_flat_last(y);
        let (xp, yp) = (x.drop_last(), y.drop_last());
        let (fx, fy) = (flat(xp), flat(yp));
        match (x.last(), y.last()) {
            (SegmentView::Normal(t), SegmentView::Normal(u)) => {
                let (tt, tu) = (text_items(t), text_items(u));
                assert(fx + tt == fy + tu);
                if t.len() < u.len() {
                    assert(fx.len() > fy.len());
                    assert((fx + tt)[fx.len() - 1] == (fy + tu)[fx.len() - 1]);
                    assert(xp.len() > 0) by {
                        if xp.len() == 0 {
                            assert(fx =~= Seq::<FlatItem>::empty());
                        }
                    }
                    lemma_canonical_flat_last(xp);
                    assert(false);
                } else if u.len() < t.len() {
                    assert(fy.len() > fx.len());
                    assert((fx + tt)[fy.len() - 1] == (fy + tu)[fy.len() - 1]);
                    assert(yp.len() > 0) by {
                        if yp.len() == 0 {
                            assert(fy =~= Seq::<FlatItem>::empty());
                        }
                    }
                    lemma_canonical_flat_last(yp);
                    assert(false);
                }
                assert forall|i: int| 0 <= i < t.len() implies t[i] == u[i] by {
                    assert((fx + tt)[fx.len() + i] == (fy + tu)[fy.len() + i]);
                    assert(tt[i] == tu[i]);
                }
                assert(t =~= u);
                assert(fx.len() == fy.len());
                assert(fx =~= (fx + tt).take(fx.len() as int));
                assert(fy =~= (fy + tu).take(fy.len() as int));
                lemma_canonical_flat_injective(xp, yp);
                assert(x.last() == y.last());
                assert(x =~= xp.push(x.last()));
                assert(y =~= yp.push(y.last()));
                assert(x =~= y);
            },
            (SegmentView::ToolCalls(c), SegmentView::ToolCalls(d)) => {
                let (ic, id) = (call_items(c), call_items(d));
                assert(fx + ic == fy + id);
                if c.len() < d.len() {
                    assert(fx.len() > fy.len());
                    assert((fx + ic)[fx.len() - 1] == (fy + id)[fx.len() - 1]);
                    assert(xp.len() > 0) by {
                        if xp.len() == 0 {
                            assert(fx =~= Seq::<FlatItem>::empty());
                        }
                    }
                    lemma_canonical_flat_last(xp);
                    assert(false);
                } else if d.len() < c.len() {
                    assert(fy.len() > fx.len());
                    assert((fx + ic)[fy.len() - 1] == (fy + id)[fy.len() - 1]);
                    assert(yp.len() > 0) by {
                        if yp.len() == 0 {
                            assert(fy =~= Seq::<FlatItem>::empty());
                        }
                    }
                    lemma_canonical_flat_last(yp);
                    assert(false);
                }
                assert forall|i: int| 0 <= i < c.len() implies c[i] == d[i] by {
                    assert((fx + ic)[fx.len() + i] == (fy + id)[fy.len() + i]);
                    assert(ic[i] == id[i]);
                }
                assert(c =~= d);
                assert(ic.len() == id.len());
                assert(fx.len() == fy.len());
                assert(fx =~= (fx + ic).take(fx.len() as int));
                assert(fy =~= (fy + id).take(fy.len() as int));
                lemma_canonical_flat_injective(xp, yp);
                assert(x.last() == y.last());
                assert(x =~= xp.push(x.last()));
                assert(y =~= yp.push(y.last()));
                assert(x =~= y);
            },
            (SegmentView::Normal(t), SegmentView::ToolCalls(d)) => {
                assert(flat(x).last() == flat(y).last());
                assert(false);
            },
            (SegmentView::ToolCalls(c), SegmentView::Normal(u)) => {
                assert(flat(x).last() == flat(y).last());
                assert(false);
            },
        }
    }
}

proof fn lemma_feed_chunks_flat(v: ParserView, cs: Seq<Seq<char>>)
    requires
        cs.len() >= 1,
        forall|k: int|
            1 <= k < cs.len() ==> no_close_across(
                #[trigger] spec_feed(v, joined_chunks(cs.take(k))).1.mode,
                cs[k],
            ),
    ensures
        flat(feed_chunks(v, cs).0) == flat(spec_feed(v, joined_chunks(cs)).0),
        feed_chunks(v, cs).1 == spec_feed(v, joined_chunks(cs)).1,
    decreases cs.len(),
{
    let p = cs.drop_last();
    if cs.len() == 1 {
        assert(p.len() == 0);
        assert(feed_chunks(v, p) == (Seq::<SegmentView>::empty(), v));
        assert(joined_chunks(p) =~= Seq::<char>::empty());
        assert(joined_chunks(cs) =~= cs[0]);
        assert(Seq::<SegmentView>::empty() + spec_feed(v, cs[0]).0 =~= spec_feed(v, cs[0]).0);
    } else {
        assert forall|k: int| 1 <= k < p.len() implies no_close_across(
            #[trigger] spec_feed(v, joined_chunks(p.take(k))).1.mode,
            p[k],
        ) by {
            assert(p.take(k) =~= cs.take(k));
            assert(spec_feed(v, joined_chunks(cs.take(k))).1.mode == spec_feed(v, joined_chunks(p.take(k))).1.mode);
        }
        lemma_feed_chunks_flat(v, p);
        assert(cs.take(p.len() as int) =~= p);
        assert(no_close_across(spec_feed(v, joined_chunks(cs.take(p.len() as int))).1.mode, cs[p.len() as int]));
        law_feed_split(v, joined_chunks(p), cs.last());
        assert(joined_chunks(cs) == joined_chunks(p) + cs.last());
        let r = feed_chunks(v, p);
        lemma_flat_add(r.0, spec_feed(r.1, cs.last()).0);
    }
}

/// Feeding a text in any number of chunks gives, once adjacent text is
/// joined, exactly the segments feeding it whole gives: the same text, the
/// same tool calls grouped block by block, in the same order; and it leaves
/// the parser in the same state. This holds as long as no closing tag starts
/// in the buffered block before a cut and ends after it.
pub proof fn law_feed_chunks(v: ParserView, cs: Seq<Seq<char>>)
    requires
        cs.len() >= 1,
        forall|k: int|
            1 <= k < cs.len() ==> no_close_across(
                #[trigger] spec_feed(v, joined_chunks(cs.take(k))).1.mode,
                cs[k],
            ),
    ensures
        regroup(feed_chunks(v, cs).0) == spec_feed(v, joined_chunks(cs)).0,
        feed_chunks(v, cs).1 == spec_feed(v, joined_chunks(cs)).1,
{
    let e = Seq::<SegmentView>::empty();
    let whole = spec_feed(v, joined_chunks(cs)).0;
    lemma_feed_chunks_flat(v, cs);
    lemma_merge_into(e, feed_chunks(v, cs).0);
    lemma_feed_canonical(e, v.mode, v.counter, joined_chunks(cs));
    assert(flat(e) + flat(feed_chunks(v, cs).0) =~= flat(feed_chunks(v, cs).0));
    lemma_canonical_flat_injective(regroup(feed_chunks(v, cs).0), whole);
}

} // verus!
