//! Scoping a CSS selector to a component: the selector is taken apart into
//! compound selectors, a scoping selector is added at both ends, and it is put
//! back together. Simple selectors and combinators are carried as they are.

use vstd::prelude::*;

verus! {

broadcast use vstd::seq_lib::group_seq_properties;

/// A piece of a selector: a simple selector or a combinator.
pub enum SelectorPart<C, K> {
    Component(C),
    Combinator(K),
}

/// A compound selector and the combinator that joins it to the compound
/// selector on its right, as a selector is walked from its right end (the
/// rightmost compound selector has none).
pub type Segment<C, K> = (Seq<C>, Option<K>);

/// The pieces of one segment: its simple selectors, then its combinator.
pub open spec fn segment_parts<C, K>(seg: Segment<C, K>) -> Seq<SelectorPart<C, K>> {
    seg.0.map_values(|c: C| SelectorPart::<C, K>::Component(c)) + match seg.1 {
        Some(k) => seq![SelectorPart::<C, K>::Combinator(k)],
        None => Seq::empty(),
    }
}

/// The segments written out from left to right: the last segment walked comes
/// first.
pub open spec fn flatten_reversed<C, K>(segs: Seq<Segment<C, K>>) -> Seq<SelectorPart<C, K>>
    decreases segs.len(),
{
    if segs.len() == 0 {
        Seq::empty()
    } else {
        segment_parts(segs.last()) + flatten_reversed(segs.drop_last())
    }
}

/// The segments with a scoping selector added to the rightmost compound
/// selector (`first`) and to the leftmost one (`last`): both to the same one
/// when there is only one.
pub open spec fn with_scope<C, K>(segs: Seq<Segment<C, K>>, first: C, last: C) -> Seq<
    Segment<C, K>,
>
    recommends
        segs.len() > 0,
{
    let s1 = segs.update(0, (segs[0].0.push(first), segs[0].1));
    s1.update(s1.len() - 1, (s1.last().0.push(last), s1.last().1))
}

/// The pieces of a segment, from a vector of simple selectors.
fn push_segment<C, K>(out: &mut Vec<SelectorPart<C, K>>, comps: Vec<C>, comb: Option<K>)
    ensures
        final(out)@ == old(out)@ + segment_parts((comps@, comb)),
{
    let ghost start = out@;
    let ghost cv = comps@;
    let mut rest = comps;
    let n = rest.len();
    let mut i: usize = 0;
    while i < n
        invariant
            n == cv.len(),
            i <= n,
            rest@ == cv.skip(i as int),
            out@ == start + cv.take(i as int).map_values(|c: C| SelectorPart::<C, K>::Component(c)),
        decreases n - i,
    {
        let c = rest.remove(0);
        assert(c == cv[i as int]);
        out.push(SelectorPart::Component(c));
        assert(cv.take(i + 1).map_values(|c: C| SelectorPart::<C, K>::Component(c)) =~= cv.take(
            i as int,
        ).map_values(|c: C| SelectorPart::<C, K>::Component(c)).push(SelectorPart::Component(cv[i as int])));
        assert(out@ =~= start + cv.take(i + 1).map_values(|c: C| SelectorPart::<C, K>::Component(c)));
        i += 1;
        assert(rest@ =~= cv.skip(i as int));
    }
    assert(cv.take(n as int) =~= cv);
    match comb {
        Some(k) => {
            out.push(SelectorPart::Combinator(k));
        },
        None => {},
    }
    assert(out@ =~= start + segment_parts((cv, comb)));
}

/// The view of a vector of segments.
pub open spec fn segments_view<C, K>(segs: Seq<(Vec<C>, Option<K>)>) -> Seq<Segment<C, K>> {
    segs.map_values(|s: (Vec<C>, Option<K>)| (s.0@, s.1))
}

/// Scopes a selector to a component: given its compound selectors as walked
/// from the right (each with the combinator to its right), adds `first` to the
/// rightmost one and `last` to the leftmost one, and writes the selector out
/// from left to right.
pub fn scope_selector_segments<C, K>(segments: Vec<(Vec<C>, Option<K>)>, first: C, last: C) -> (r:
    Vec<SelectorPart<C, K>>)
    requires
        segments@.len() > 0,
    ensures
        r@ == flatten_reversed(with_scope(segments_view(segments@), first, last)),
{
    let ghost sv = segments_view(segments@);
    let mut segs = segments;
    let (mut comps, comb) = segs.remove(0);
    comps.push(first);
    segs.insert(0, (comps, comb));
    let ghost s1 = segments_view(segs@);
    assert(s1 =~= sv.update(0, (sv[0].0.push(first), sv[0].1)));
    let (mut comps, comb) = match segs.pop() {
        Some(x) => x,
        None => {
            assert(false);
            (Vec::new(), None)
        },
    };
    comps.push(last);
    segs.push((comps, comb));
    let ghost target = with_scope(sv, first, last);
    assert(segments_view(segs@) =~= target);
    let mut out: Vec<SelectorPart<C, K>> = Vec::new();
    let n = segs.len();
    let mut i: usize = n;
    while i > 0
        invariant
            i <= n,
            n == target.len(),
            segments_view(segs@) == target.take(i as int),
            out@ + flatten_reversed(target.take(i as int)) == flatten_reversed(target),
        decreases i,
    {
        let ghost before = segs@;
        let (comps, comb) = match segs.pop() {
            Some(x) => x,
            None => {
                assert(false);
                (Vec::new(), None)
            },
        };
        assert(segments_view(before).last() == (comps@, comb));
        let ghost t = target.take(i as int);
        assert(t.drop_last() =~= target.take(i - 1));
        assert(flatten_reversed(t) == segment_parts(t.last()) + flatten_reversed(t.drop_last()));
        let ghost old_out = out@;
        push_segment(&mut out, comps, comb);
        assert(out@ + flatten_reversed(target.take(i - 1)) =~= old_out + flatten_reversed(t));
        i -= 1;
        assert(segments_view(segs@) =~= target.take(i as int));
    }
    assert(target.take(0) =~= Seq::<Segment<C, K>>::empty());
    assert(out@ =~= flatten_reversed(target));
    out
}

} // verus!
