//! Displays, and the order in which a locker is told of them.

use vstd::prelude::*;
use crate::text::texts;

verus! {

/// A connected display: the name its backend gave it, and its width in
/// pixels.
#[derive(Debug, Clone, PartialEq, Eq)]
pub struct Display {
    pub name: String,
    pub width: u32,
}

/// The displays of `displays` that are `width` pixels wide, in their order.
pub open spec fn of_width(displays: Seq<Display>, width: u32) -> Seq<Display> {
    displays.filter(|d: Display| d.width == width)
}

/// No display comes before a wider one.
pub open spec fn is_widest_first(displays: Seq<Display>) -> bool {
    forall|i: int, j: int|
        0 <= i <= j < displays.len() ==> displays[i].width >= displays[j].width
}

/// `arranged` holds the displays of `displays`, and those of one width stand
/// in it as they stand in `displays`.
pub open spec fn keeps_order_of(arranged: Seq<Display>, displays: Seq<Display>) -> bool {
    forall|width: u32| #[trigger] of_width(arranged, width) == of_width(displays, width)
}

/// `arranged` is `displays` sorted by width, widest first, with displays of
/// equal width left in their order.
pub open spec fn is_widest_first_order_of(arranged: Seq<Display>, displays: Seq<Display>) -> bool {
    is_widest_first(arranged) && keeps_order_of(arranged, displays)
}

/// The displays of `displays`, widest first, those of equal width in their
/// order. [`sort_widest_first`] computes this arrangement, and
/// [`lemma_widest_first_order_is_unique`] shows that there is no other.
pub open spec fn widest_first(displays: Seq<Display>) -> Seq<Display> {
    choose|arranged: Seq<Display>| is_widest_first_order_of(arranged, displays)
}

/// The display at `position` is the primary one of `displays`: none is wider,
/// and every display before it is narrower.
pub open spec fn is_primary(displays: Seq<Display>, position: int) -> bool {
    &&& 0 <= position < displays.len()
    &&& forall|k: int| 0 <= k < displays.len() ==> displays[k].width <= displays[position].width
    &&& forall|k: int| 0 <= k < position ==> displays[k].width < displays[position].width
}

/// The names of `displays`, in their order.
pub open spec fn names_of(displays: Seq<Display>) -> Seq<Seq<char>> {
    displays.map_values(|d: Display| d.name@)
}

/// Among displays that differ from `width`, none is of that width.
proof fn lemma_none_of_width(displays: Seq<Display>, width: u32)
    requires
        forall|k: int| 0 <= k < displays.len() ==> displays[k].width != width,
    ensures
        of_width(displays, width) == Seq::<Display>::empty(),
{
    let wanted = |d: Display| d.width == width;
    displays.lemma_all_neg_filter_empty(wanted);
}

/// A display put in front of narrower ones alone stands, width by width,
/// where it would stand at the end.
proof fn lemma_insert_keeps_order(arranged: Seq<Display>, at: int, display: Display)
    requires
        0 <= at <= arranged.len(),
        forall|k: int| at <= k < arranged.len() ==> arranged[k].width < display.width,
    ensures
        keeps_order_of(arranged.insert(at, display), arranged.push(display)),
{
    let front = arranged.subrange(0, at);
    let back = arranged.subrange(at, arranged.len() as int);
    assert(arranged.push(display) =~= (front + back).push(display));
    assert forall|width: u32| #[trigger]
        of_width(arranged.insert(at, display), width) == of_width(
            arranged.push(display),
            width,
        ) by {
        let wanted = |d: Display| d.width == width;
        Seq::filter_distributes_over_add(front.push(display), back, wanted);
        Seq::filter_distributes_over_add(front, back, wanted);
        front.lemma_filter_push(display, wanted);
        (front + back).lemma_filter_push(display, wanted);
        if display.width == width {
            lemma_none_of_width(back, width);
        }
    }
}

/// Adding the same display at the end of both keeps the order kept.
proof fn lemma_push_keeps_order(arranged: Seq<Display>, displays: Seq<Display>, display: Display)
    requires
        keeps_order_of(arranged, displays),
    ensures
        keeps_order_of(arranged.push(display), displays.push(display)),
{
    assert forall|width: u32| #[trigger]
        of_width(arranged.push(display), width) == of_width(displays.push(display), width) by {
        let wanted = |d: Display| d.width == width;
        arranged.lemma_filter_push(display, wanted);
        displays.lemma_filter_push(display, wanted);
        assert(of_width(arranged, width) == of_width(displays, width));
    }
}

/// The first of a widest-first sequence is the first of its width, and the
/// rest is widest first again and holds, width by width, what is left.
proof fn lemma_first_display(displays: Seq<Display>)
    requires
        displays.len() > 0,
    ensures
        of_width(displays, displays[0].width).len() > 0,
        of_width(displays, displays[0].width)[0] == displays[0],
        forall|width: u32| #[trigger]
            of_width(displays, width) == if width == displays[0].width {
                seq![displays[0]] + of_width(displays.drop_first(), width)
            } else {
                of_width(displays.drop_first(), width)
            },
        is_widest_first(displays) ==> is_widest_first(displays.drop_first()),
{
    let first = displays[0];
    let rest = displays.drop_first();
    assert(displays =~= seq![first] + rest);
    assert forall|width: u32| #[trigger]
        of_width(displays, width) == if width == first.width {
            seq![first] + of_width(rest, width)
        } else {
            of_width(rest, width)
        } by {
        let wanted = |d: Display| d.width == width;
        rest.lemma_filter_prepend(first, wanted);
    }
}

/// Widest first, a sequence starts with a display of the greatest width that
/// occurs in it.
proof fn lemma_first_is_widest(displays: Seq<Display>, width: u32)
    requires
        is_widest_first(displays),
        of_width(displays, width).len() > 0,
    ensures
        displays.len() > 0,
        displays[0].width >= width,
{
    let wanted = |d: Display| d.width == width;
    let found = of_width(displays, width)[0];
    displays.lemma_filter_contains_rev(wanted, found);
}

/// Two widest-first sequences that agree width by width are one sequence.
pub proof fn lemma_widest_first_is_determined(a: Seq<Display>, b: Seq<Display>)
    requires
        is_widest_first(a),
        is_widest_first(b),
        keeps_order_of(a, b),
    ensures
        a == b,
    decreases a.len(),
{
    if a.len() == 0 {
        if b.len() > 0 {
            lemma_first_display(b);
            assert(of_width(a, b[0].width) =~= Seq::<Display>::empty()) by {
                lemma_none_of_width(a, b[0].width);
            }
        }
    } else {
        lemma_first_display(a);
        lemma_first_is_widest(b, a[0].width);
        lemma_first_display(b);
        lemma_first_is_widest(a, b[0].width);
        let rest_a = a.drop_first();
        let rest_b = b.drop_first();
        assert forall|width: u32| #[trigger]
            of_width(rest_a, width) == of_width(rest_b, width) by {
            assert(of_width(a, width) == of_width(b, width));
            if width == a[0].width {
                assert(of_width(rest_a, width) =~= (seq![a[0]] + of_width(
                    rest_a,
                    width,
                )).drop_first());
            }
        }
        lemma_widest_first_is_determined(rest_a, rest_b);
        assert(a =~= seq![a[0]] + rest_a);
    }
}

/// Sorting by width with equal widths left in place has one result: two
/// arrangements of the same displays that are both widest first and both keep
/// the order of equal widths are equal.
pub proof fn lemma_widest_first_order_is_unique(
    first: Seq<Display>,
    second: Seq<Display>,
    displays: Seq<Display>,
)
    requires
        is_widest_first_order_of(first, displays),
        is_widest_first_order_of(second, displays),
    ensures
        first == second,
        first == widest_first(displays),
{
    lemma_widest_first_is_determined(first, second);
    let chosen = widest_first(displays);
    lemma_widest_first_is_determined(first, chosen);
}

/// Where a display of `width` goes among displays that stand widest first:
/// behind those at least as wide, in front of the narrower ones.
proof fn lemma_insertion_point(arranged: Seq<Display>, width: u32) -> (at: int)
    requires
        is_widest_first(arranged),
    ensures
        0 <= at <= arranged.len(),
        forall|k: int| 0 <= k < at ==> arranged[k].width >= width,
        forall|k: int| at <= k < arranged.len() ==> arranged[k].width < width,
    decreases arranged.len(),
{
    if arranged.len() == 0 {
        0
    } else if arranged.last().width >= width {
        arranged.len() as int
    } else {
        let front = arranged.drop_last();
        let at = lemma_insertion_point(front, width);
        assert forall|k: int| 0 <= k < at implies arranged[k].width >= width by {
            assert(front[k] == arranged[k]);
        }
        assert forall|k: int| at <= k < arranged.len() implies arranged[k].width < width by {
            if k < front.len() {
                assert(front[k] == arranged[k]);
            }
        }
        at
    }
}

/// Every sequence of displays has its widest-first arrangement: it stands
/// widest first, keeps displays of equal width in their order, and holds the
/// displays of the sequence, each as often as the sequence does.
pub proof fn lemma_widest_first(displays: Seq<Display>)
    ensures
        is_widest_first(widest_first(displays)),
        keeps_order_of(widest_first(displays), displays),
        widest_first(displays).len() == displays.len(),
        widest_first(displays).to_multiset() == displays.to_multiset(),
    decreases displays.len(),
{
    if displays.len() == 0 {
        lemma_widest_first_order_is_unique(displays, displays, displays);
    } else {
        let seen = displays.drop_last();
        let last = displays.last();
        lemma_widest_first(seen);
        let before = widest_first(seen);
        let at = lemma_insertion_point(before, last.width);
        let arranged = before.insert(at, last);
        assert(seen.push(last) =~= displays);
        lemma_insert_keeps_order(before, at, last);
        lemma_push_keeps_order(before, seen, last);
        lemma_widest_first_order_is_unique(arranged, arranged, displays);
        assert(arranged.to_multiset() == displays.to_multiset()) by {
            assert(arranged.remove(at) =~= before);
            vstd::seq_lib::to_multiset_remove(arranged, at);
            vstd::seq_lib::to_multiset_build(seen, last);
            arranged.to_multiset_ensures();
            assert(arranged.contains(last));
        }
    }
}

/// The primary display leads the widest-first arrangement: the widest
/// display comes first, and among several of the greatest width the one that
/// was enumerated first.
pub proof fn lemma_primary_comes_first(displays: Seq<Display>, position: int)
    requires
        is_primary(displays, position),
    ensures
        widest_first(displays).len() > 0,
        widest_first(displays)[0] == displays[position],
{
    let arranged = widest_first(displays);
    let primary = displays[position];
    let width = primary.width;
    let wanted = |d: Display| d.width == width;
    lemma_widest_first(displays);
    // The primary display is the first of its width.
    let front = displays.take(position);
    let back = displays.skip(position);
    assert(displays =~= front + back);
    assert(back =~= seq![primary] + back.drop_first());
    lemma_none_of_width(front, width);
    back.drop_first().lemma_filter_prepend(primary, wanted);
    // The arrangement starts with a display of that width.
    lemma_first_is_widest(arranged, width);
    lemma_first_display(arranged);
    let leader = arranged[0];
    displays.lemma_filter_contains_rev(|d: Display| d.width == leader.width, leader);
}

/// Sorts the displays by width, widest first. Displays of equal width keep
/// the order in which they came.
pub fn sort_widest_first(displays: Vec<Display>) -> (arranged: Vec<Display>)
    ensures
        is_widest_first(arranged@),
        keeps_order_of(arranged@, displays@),
        arranged@.len() == displays@.len(),
        arranged@ == widest_first(displays@),
{
    let ghost given = displays@;
    let mut arranged: Vec<Display> = Vec::new();
    assert(given.take(0) =~= arranged@);
    for display in it: displays
        invariant
            it.seq() == given,
            arranged@.len() == it.index(),
            is_widest_first(arranged@),
            keeps_order_of(arranged@, given.take(it.index())),
    {
        let mut at = arranged.len();
        while at > 0 && arranged[at - 1].width < display.width
            invariant
                at <= arranged.len(),
                forall|k: int| at <= k < arranged.len() ==> arranged@[k].width < display.width,
            decreases at,
        {
            at -= 1;
        }
        proof {
            let before = arranged@;
            let seen = given.take(it.index());
            lemma_insert_keeps_order(before, at as int, display);
            lemma_push_keeps_order(before, seen, display);
            assert(given.take(it.index() + 1) =~= seen.push(display));
        }
        arranged.insert(at, display);
    }
    proof {
        assert(given.take(given.len() as int) =~= given);
        lemma_widest_first_order_is_unique(arranged@, arranged@, given);
    }
    arranged
}

/// The names of the displays, in their order.
pub fn names(displays: &[Display]) -> (names: Vec<String>)
    ensures
        texts(names@) == names_of(displays@),
{
    let mut names: Vec<String> = Vec::new();
    for i in 0..displays.len()
        invariant
            names.len() == i,
            forall|k: int| 0 <= k < i ==> (#[trigger] names@[k])@ == displays@[k].name@,
    {
        names.push(displays[i].name.clone());
    }
    names
}

} // verus!
