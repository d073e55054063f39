//! What chance decides: where the control points of a curve lie, and which
//! points of a curve are joined by secondary lines.

use rand::rngs::StdRng;
use rand::seq::SliceRandom;
use rand::Rng;
use vstd::prelude::*;

verus! {

/// The random number generator `rand::rngs::StdRng`, passed through as it is.
#[verifier::external_type_specification]
#[verifier::external_body]
pub struct ExStdRng(StdRng);

/// A control point on the pixel grid of a canvas.
#[derive(Clone, Copy, Debug, PartialEq, Eq, Structural)]
pub struct ControlPoint {
    pub x: u32,
    pub y: u32,
}

/// A random number below `bound`.
///
/// Trusted: `rand::Rng::gen_range(0, bound)` panics where `bound` is 0 and
/// otherwise returns a value from 0 up to, and not including, `bound`.
#[verifier::external_body]
fn random_below(rng: &mut StdRng, bound: u32) -> (value: u32)
    requires
        bound > 0,
    ensures
        value < bound,
{
    rng.gen_range(0, bound)
}

/// Puts the items in a random order.
///
/// Trusted: `rand::seq::SliceRandom::shuffle` only swaps items, so the same
/// items are there afterwards, each as often as before.
#[verifier::external_body]
fn shuffle<T>(rng: &mut StdRng, items: &mut Vec<T>)
    ensures
        final(items)@.to_multiset() == old(items)@.to_multiset(),
{
    items.shuffle(rng)
}

/// The last `count` items of a sequence, the last one first; all of them, in
/// reverse, where there are no more than `count`.
pub open spec fn taken_from_back<T>(items: Seq<T>, count: nat) -> Seq<T> {
    Seq::new(
        if count <= items.len() {
            count
        } else {
            items.len()
        },
        |i: int| items[items.len() - 1 - i],
    )
}

/// `num` control points, each at random within a canvas of `width` by
/// `height` pixels.
pub fn generate_random_points(rng: &mut StdRng, num: u8, width: u32, height: u32) -> (points: Vec<
    ControlPoint,
>)
    requires
        num > 0 ==> width > 0 && height > 0,
    ensures
        points.len() == num,
        forall|i: int|
            0 <= i < points.len() ==> (#[trigger] points[i]).x < width && points[i].y < height,
{
    let mut points: Vec<ControlPoint> = Vec::new();
    let mut made: u8 = 0;
    while made < num
        invariant
            made <= num,
            num > 0 ==> width > 0 && height > 0,
            points.len() == made,
            forall|i: int|
                0 <= i < points.len() ==> (#[trigger] points[i]).x < width && points[i].y < height,
        decreases num - made,
    {
        let x = random_below(rng, width);
        let y = random_below(rng, height);
        points.push(ControlPoint { x, y });
        made += 1;
    }
    points
}

/// Takes up to `count` items off the back of `items`, the last one first.
pub fn take_from_back<T>(items: Vec<T>, count: u32) -> (taken: Vec<T>)
    ensures
        taken@ == taken_from_back(items@, count as nat),
        taken@.to_multiset().subset_of(items@.to_multiset()),
{
    let ghost all = items@;
    let mut rest = items;
    let mut taken: Vec<T> = Vec::new();
    let mut wanted: u32 = count;
    proof {
        taken@.to_multiset_ensures();
        assert forall|item: T| taken@.to_multiset().count(item) == 0 by {
            assert(!taken@.contains(item));
        }
        assert(rest@ == all.take(rest.len() as int));
    }
    while wanted > 0 && rest.len() > 0
        invariant
            wanted <= count,
            taken.len() + rest.len() == all.len(),
            taken.len() == count - wanted,
            rest@ == all.take(rest.len() as int),
            forall|i: int| 0 <= i < taken.len() ==> taken[i] == all[all.len() - 1 - i],
            taken@.to_multiset().add(rest@.to_multiset()) =~= all.to_multiset(),
        decreases wanted,
    {
        let ghost rest_before = rest@;
        let ghost taken_before = taken@;
        let item = rest.pop().unwrap();
        proof {
            assert(rest_before == rest@.push(item));
            vstd::seq_lib::to_multiset_build(rest@, item);
            vstd::seq_lib::to_multiset_build(taken_before, item);
        }
        taken.push(item);
        wanted -= 1;
    }
    proof {
        assert(taken@ =~= taken_from_back(all, count as nat));
    }
    taken
}

/// Up to `max_lines` of the items, chosen and ordered at random: the items
/// are shuffled, and then taken off the back.
pub fn pick_random<T>(rng: &mut StdRng, items: Vec<T>, max_lines: u32) -> (picked: Vec<T>)
    ensures
        picked.len() == if max_lines <= items.len() {
            max_lines as nat
        } else {
            items.len() as nat
        },
        picked@.to_multiset().subset_of(items@.to_multiset()),
        exists|shuffled: Seq<T>|
            shuffled.to_multiset() == items@.to_multiset() && picked@ == #[trigger] taken_from_back(
                shuffled,
                max_lines as nat,
            ),
{
    let mut shuffled = items;
    shuffle(rng, &mut shuffled);
    let ghost order = shuffled@;
    proof {
        order.to_multiset_ensures();
        items@.to_multiset_ensures();
    }
    let picked = take_from_back(shuffled, max_lines);
    assert(picked@ == taken_from_back(order, max_lines as nat));
    picked
}

} // verus!
