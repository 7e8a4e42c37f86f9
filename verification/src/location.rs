//! The board: six fixed locations, laid out in one random permutation per
//! game.  The layout is split into three consecutive pairs ("groups", the
//! attack range) and also gives each location two cyclic neighbours.  Each
//! location owns the set of dice sums that land on it; the sums 2 to 10
//! except 7 each land on exactly one location, and 7 lands on none (it
//! triggers a free choice instead).

use vstd::prelude::*;
use rand::seq::SliceRandom;

verus! {

/// Opaque handle of one board location.
#[derive(Debug, Clone, Copy, PartialEq, Eq, Structural)]
pub struct LocationId(pub usize);

/// How many locations the board holds.
pub const LOCATION_COUNT: usize = 6;

/// One board location.
#[derive(Debug)]
pub struct Location {
    pub id: LocationId,
    pub name: &'static str,
    pub dice_numbers: Vec<usize>,
}

impl Location {
    pub fn new(id: usize, name: &'static str, dice_numbers: Vec<usize>) -> (r: Self)
        ensures
            r.id.0 == id,
            r.name == name,
            r.dice_numbers@ == dice_numbers@,
    {
        Location { id: LocationId(id), name, dice_numbers }
    }

    pub fn id(&self) -> (r: LocationId)
        ensures
            r == self.id,
    {
        self.id
    }

    pub fn name(&self) -> (r: &'static str)
        ensures
            r == self.name,
    {
        self.name
    }

    pub fn dice_numbers(&self) -> (r: &Vec<usize>)
        ensures
            r@ == self.dice_numbers@,
    {
        &self.dice_numbers
    }
}

/// The dice sums that land on catalog location `i`.
pub open spec fn catalog_numbers(i: int) -> Seq<usize> {
    if i == 0 {
        seq![2usize, 3]
    } else if i == 1 {
        seq![4usize, 5]
    } else if i == 2 {
        seq![6usize]
    } else if i == 3 {
        seq![8usize]
    } else if i == 4 {
        seq![9usize]
    } else {
        seq![10usize]
    }
}

/// Whether some location's dice numbers hold the sum `n`.
pub open spec fn covered_sum(n: usize) -> bool {
    2 <= n <= 10 && n != 7
}

/// The catalog location whose dice numbers hold the covered sum `n`.
pub open spec fn covering_index(n: usize) -> int {
    if n <= 3 {
        0
    } else if n <= 5 {
        1
    } else if n == 6 {
        2
    } else if n == 8 {
        3
    } else if n == 9 {
        4
    } else {
        5
    }
}

/// A location value that agrees with the fixed catalog.
pub open spec fn is_catalog_entry(l: Location) -> bool {
    l.id.0 < LOCATION_COUNT && l.dice_numbers@ == catalog_numbers(l.id.0 as int)
}

/// Every covered sum lands on exactly one location: its covering location
/// holds it, and no other location does.
pub proof fn lemma_dice_number_cover(n: usize)
    requires
        covered_sum(n),
    ensures
        0 <= covering_index(n) < 6,
        catalog_numbers(covering_index(n)).contains(n),
        forall|i: int| 0 <= i < 6 && i != covering_index(n) ==> !catalog_numbers(i).contains(n),
{
    assert(catalog_numbers(covering_index(n)).contains(n)) by {
        let s = catalog_numbers(covering_index(n));
        if n == 2 || n == 4 {
            assert(s[0] == n);
        } else if n == 3 || n == 5 {
            assert(s[1] == n);
        } else {
            assert(s[0] == n);
        }
    }
    assert forall|i: int| 0 <= i < 6 && i != covering_index(n) implies !catalog_numbers(
        i,
    ).contains(n) by {
        let s = catalog_numbers(i);
        assert(forall|j: int| 0 <= j < s.len() ==> s[j] != n);
    }
}

/// A well-formed layout: six slots holding each location id exactly once.
pub open spec fn layout_wf(layout: Seq<LocationId>) -> bool {
    &&& layout.len() == 6
    &&& forall|j: int| 0 <= j < 6 ==> (#[trigger] layout[j]).0 < 6
    &&& forall|a: int, b: int| 0 <= a < b < 6 ==> layout[a] != layout[b]
    &&& forall|k: usize| k < 6 ==> layout.contains(LocationId(k))
}

/// The slot of `id` in the layout.
pub open spec fn pos_of(layout: Seq<LocationId>, id: LocationId) -> int {
    if layout[0] == id {
        0
    } else if layout[1] == id {
        1
    } else if layout[2] == id {
        2
    } else if layout[3] == id {
        3
    } else if layout[4] == id {
        4
    } else {
        5
    }
}

/// The layout slots outside group `g`, in layout order.
pub open spec fn out_slots(g: int) -> Seq<int> {
    if g == 0 {
        seq![2int, 3, 4, 5]
    } else if g == 1 {
        seq![0int, 1, 4, 5]
    } else {
        seq![0int, 1, 2, 3]
    }
}

/// Whether `a` and `b` lie in the same layout group (the same consecutive
/// pair of layout slots).
pub open spec fn same_group(layout: Seq<LocationId>, a: LocationId, b: LocationId) -> bool {
    pos_of(layout, a) / 2 == pos_of(layout, b) / 2
}

/// `a` shares `b`'s group exactly when `a` sits in one of the two layout
/// slots of `b`'s group.
pub proof fn lemma_same_group_slots(layout: Seq<LocationId>, a: LocationId, b: LocationId)
    requires
        layout_wf(layout),
        a.0 < 6,
        b.0 < 6,
    ensures
        same_group(layout, a, b) <==> (a == layout[2 * (pos_of(layout, b) / 2)] || a == layout[2
            * (pos_of(layout, b) / 2) + 1]),
{
    assert(a == LocationId(a.0));
    assert(b == LocationId(b.0));
    assert(layout.contains(a));
    assert(layout.contains(b));
    let pa = pos_of(layout, a);
    let pb = pos_of(layout, b);
    assert(layout[pa] == a) by {
        let j = choose|j: int| 0 <= j < 6 && layout[j] == a;
        assert(layout[j] == a);
    }
    assert(layout[pb] == b) by {
        let j = choose|j: int| 0 <= j < 6 && layout[j] == b;
        assert(layout[j] == b);
    }
}

/// Every board location id.
pub open spec fn all_location_ids() -> Set<LocationId> {
    set![
        LocationId(0),
        LocationId(1),
        LocationId(2),
        LocationId(3),
        LocationId(4),
        LocationId(5),
    ]
}

/// The ids sharing `id`'s layout group, `id` included.
pub open spec fn in_group_ids(layout: Seq<LocationId>, id: LocationId) -> Set<LocationId> {
    let g = pos_of(layout, id) / 2;
    set![layout[2 * g], layout[2 * g + 1]]
}

/// The ids outside `id`'s layout group.
pub open spec fn out_group_ids(layout: Seq<LocationId>, id: LocationId) -> Set<LocationId> {
    let g = pos_of(layout, id) / 2;
    set![
        layout[out_slots(g)[0]],
        layout[out_slots(g)[1]],
        layout[out_slots(g)[2]],
        layout[out_slots(g)[3]],
    ]
}

/// For any location, the board splits into the pair of locations sharing its
/// group — the location itself among them — and the four others; the two
/// parts do not overlap and together cover all six locations.
pub proof fn lemma_group_partition(layout: Seq<LocationId>, id: LocationId)
    requires
        layout_wf(layout),
        id.0 < 6,
    ensures
        in_group_ids(layout, id).len() == 2,
        out_group_ids(layout, id).len() == 4,
        in_group_ids(layout, id).contains(id),
        in_group_ids(layout, id).disjoint(out_group_ids(layout, id)),
        in_group_ids(layout, id).union(out_group_ids(layout, id)) == all_location_ids(),
{
    broadcast use vstd::set::group_set_axioms;

    assert(id == LocationId(id.0));
    assert(layout.contains(id));
    let p = pos_of(layout, id);
    assert(layout[p] == id) by {
        let j = choose|j: int| 0 <= j < 6 && layout[j] == id;
        assert(layout[j] == id);
    }
    let g = p / 2;
    let ins = in_group_ids(layout, id);
    let outs = out_group_ids(layout, id);
    assert(ins.contains(id));
    assert(ins.len() == 2);
    assert(outs.len() == 4);
    assert(ins.disjoint(outs));
    assert forall|x: LocationId| ins.union(outs).contains(x) implies all_location_ids().contains(
        x,
    ) by {
        assert(x.0 < 6);
        assert(x == LocationId(x.0));
    }
    assert forall|x: LocationId| all_location_ids().contains(x) implies ins.union(outs).contains(
        x,
    ) by {
        assert(layout.contains(x));
        let j = choose|j: int| 0 <= j < 6 && layout[j] == x;
        assert(layout[j] == x);
    }
    assert(ins.union(outs) =~= all_location_ids());
}

/// Relies on rand::seq::SliceRandom::shuffle with the thread-local generator:
/// it permutes the slice in place, so the new contents are a rearrangement of
/// the old.
#[verifier::external_body]
fn shuffle_ids(v: &mut Vec<LocationId>)
    ensures
        final(v)@.to_multiset() == old(v)@.to_multiset(),
{
    v.shuffle(&mut rand::thread_rng());
}

/// The board: the fixed location catalog under one layout permutation.
#[derive(Debug)]
pub struct Locations {
    pub layout: Vec<LocationId>,
}

impl Locations {
    pub open spec fn wf(self) -> bool {
        layout_wf(self.layout@)
    }

    /// A board with the given layout.
    pub fn new(layout: Vec<LocationId>) -> (r: Self)
        requires
            layout_wf(layout@),
        ensures
            r.wf(),
            r.layout@ == layout@,
    {
        Locations { layout }
    }

    /// The board in catalog order; the layout every test can predict.
    pub fn unshuffled() -> (r: Self)
        ensures
            r.wf(),
            forall|j: int| 0 <= j < 6 ==> (#[trigger] r.layout@[j]).0 == j,
    {
        let mut layout: Vec<LocationId> = Vec::new();
        layout.push(LocationId(0));
        layout.push(LocationId(1));
        layout.push(LocationId(2));
        layout.push(LocationId(3));
        layout.push(LocationId(4));
        layout.push(LocationId(5));
        proof {
            assert forall|k: usize| k < 6 implies layout@.contains(LocationId(k)) by {
                assert(layout@[k as int] == LocationId(k));
            }
        }
        Locations { layout }
    }

    /// A board under a fresh uniformly-random layout.
    pub fn generate() -> (r: Self)
        ensures
            r.wf(),
    {
        let unshuffled = Self::unshuffled();
        let mut layout = unshuffled.layout;
        let ghost before = layout@;
        shuffle_ids(&mut layout);
        proof {
            broadcast use vstd::seq_lib::group_to_multiset_ensures;

            assert(layout@.to_multiset().len() == layout@.len());
            assert(before.to_multiset().len() == before.len());
            assert(layout@.len() == 6);
            assert forall|k: usize| k < 6 implies layout@.contains(LocationId(k)) by {
                assert(before.contains(LocationId(k)));
                assert(before.to_multiset().count(LocationId(k)) > 0);
            }
            assert forall|j: int| 0 <= j < 6 implies (#[trigger] layout@[j]).0 < 6 by {
                assert(layout@.contains(layout@[j]));
                assert(before.to_multiset().count(layout@[j]) > 0);
                assert(before.contains(layout@[j]));
            }
            assert(before.no_duplicates());
            before.lemma_multiset_has_no_duplicates();
            layout@.lemma_multiset_has_no_duplicates_conv();
            assert(layout@.no_duplicates());
        }
        Locations { layout }
    }

    /// The catalog entry behind `id`, independent of the layout.
    pub fn from_id(&self, id: LocationId) -> (r: Location)
        requires
            id.0 < LOCATION_COUNT,
        ensures
            r.id == id,
            is_catalog_entry(r),
    {
        let mut dice_numbers: Vec<usize> = Vec::new();
        let name: &'static str;
        if id.0 == 0 {
            name = "Hermits Cabin";
            dice_numbers.push(2);
            dice_numbers.push(3);
        } else if id.0 == 1 {
            name = "Underworld Gate";
            dice_numbers.push(4);
            dice_numbers.push(5);
        } else if id.0 == 2 {
            name = "Church";
            dice_numbers.push(6);
        } else if id.0 == 3 {
            name = "Cemetry";
            dice_numbers.push(8);
        } else if id.0 == 4 {
            name = "Weird Woods";
            dice_numbers.push(9);
        } else {
            name = "Erstwhile Altar";
            dice_numbers.push(10);
        }
        proof {
            assert(dice_numbers@ =~= catalog_numbers(id.0 as int));
            assert(id == LocationId(id.0));
        }
        Location { id, name, dice_numbers }
    }

    /// The unique location whose dice numbers hold the sum `dice_number`.
    pub fn from_dice_number(&self, dice_number: usize) -> (r: Location)
        requires
            covered_sum(dice_number),
        ensures
            is_catalog_entry(r),
            r.id.0 as int == covering_index(dice_number),
            r.dice_numbers@.contains(dice_number),
    {
        proof {
            lemma_dice_number_cover(dice_number);
        }
        let mut i: usize = 0;
        while i < LOCATION_COUNT
            invariant
                covered_sum(dice_number),
                i <= 6,
                forall|j: int| 0 <= j < i ==> !catalog_numbers(j).contains(dice_number),
            decreases 6 - i,
        {
            let l = self.from_id(LocationId(i));
            if crate::contains_num(&l.dice_numbers, dice_number) {
                proof {
                    lemma_dice_number_cover(dice_number);
                }
                return l;
            }
            i = i + 1;
        }
        proof {
            lemma_dice_number_cover(dice_number);
            assert(false);
        }
        unreached()
    }

    /// All six locations, in catalog order.
    pub fn iter(&self) -> (r: Vec<Location>)
        ensures
            r@.len() == 6,
            forall|j: int| 0 <= j < 6 ==> (#[trigger] r@[j]).id.0 == j,
            forall|j: int| 0 <= j < 6 ==> is_catalog_entry(#[trigger] r@[j]),
    {
        let mut r: Vec<Location> = Vec::new();
        let mut i: usize = 0;
        while i < LOCATION_COUNT
            invariant
                i <= 6,
                r@.len() == i,
                forall|j: int| 0 <= j < i ==> (#[trigger] r@[j]).id.0 == j,
                forall|j: int| 0 <= j < i ==> is_catalog_entry(#[trigger] r@[j]),
            decreases 6 - i,
        {
            r.push(self.from_id(LocationId(i)));
            i = i + 1;
        }
        r
    }

    /// The layout slot holding `id`.
    fn position_of(&self, id: LocationId) -> (r: usize)
        requires
            self.wf(),
            id.0 < LOCATION_COUNT,
        ensures
            r < 6,
            self.layout@[r as int] == id,
            r as int == pos_of(self.layout@, id),
    {
        proof {
            assert(id == LocationId(id.0));
            assert(self.layout@.contains(id));
        }
        if self.layout[0] == id {
            0
        } else if self.layout[1] == id {
            1
        } else if self.layout[2] == id {
            2
        } else if self.layout[3] == id {
            3
        } else if self.layout[4] == id {
            4
        } else {
            proof {
                let j = choose|j: int| 0 <= j < 6 && self.layout@[j] == id;
                assert(self.layout@[j] == id);
            }
            5
        }
    }

    /// The pair of locations sharing `id`'s layout group, in layout order;
    /// `id` itself is one of the two.
    pub fn in_group_iter(&self, id: LocationId) -> (r: Vec<Location>)
        requires
            self.wf(),
            id.0 < LOCATION_COUNT,
        ensures
            r@.len() == 2,
            ({
                let g = pos_of(self.layout@, id) / 2;
                r@[0].id == self.layout@[2 * g] && r@[1].id == self.layout@[2 * g + 1]
            }),
            r@[0].id == id || r@[1].id == id,
            forall|j: int| 0 <= j < 2 ==> is_catalog_entry(#[trigger] r@[j]),
    {
        let pos = self.position_of(id);
        let base: usize = pos / 2 * 2;
        let mut r: Vec<Location> = Vec::new();
        r.push(self.from_id(self.layout[base]));
        r.push(self.from_id(self.layout[base + 1]));
        r
    }

    /// The four locations outside `id`'s layout group, in layout order.
    pub fn out_group_iter(&self, id: LocationId) -> (r: Vec<Location>)
        requires
            self.wf(),
            id.0 < LOCATION_COUNT,
        ensures
            r@.len() == 4,
            forall|k: int|
                0 <= k < 4 ==> (#[trigger] r@[k]).id == self.layout@[out_slots(
                    pos_of(self.layout@, id) / 2,
                )[k]],
            forall|k: int| 0 <= k < 4 ==> is_catalog_entry(#[trigger] r@[k]),
    {
        let pos = self.position_of(id);
        let base: usize = pos / 2 * 2;
        let mut r: Vec<Location> = Vec::new();
        let mut j: usize = 0;
        while j < LOCATION_COUNT
            invariant
                self.wf(),
                j <= 6,
                base == pos_of(self.layout@, id) / 2 * 2,
                base == 0 || base == 2 || base == 4,
                r@.len() == (if j <= base {
                    j as int
                } else if j <= base + 2 {
                    base as int
                } else {
                    j - 2
                }),
                forall|k: int|
                    0 <= k < r@.len() ==> (#[trigger] r@[k]).id == self.layout@[out_slots(
                        base as int / 2,
                    )[k]],
                forall|k: int| 0 <= k < r@.len() ==> is_catalog_entry(#[trigger] r@[k]),
            decreases 6 - j,
        {
            if j < base || j >= base + 2 {
                r.push(self.from_id(self.layout[j]));
            }
            j = j + 1;
        }
        r
    }

    /// The two cyclic layout neighbours of `id`: the slot before it, then the
    /// slot after it.
    pub fn adjacent(&self, id: LocationId) -> (r: Vec<Location>)
        requires
            self.wf(),
            id.0 < LOCATION_COUNT,
        ensures
            r@.len() == 2,
            ({
                let p = pos_of(self.layout@, id);
                r@[0].id == self.layout@[(p + 5) % 6] && r@[1].id == self.layout@[(p + 1) % 6]
            }),
            forall|j: int| 0 <= j < 2 ==> is_catalog_entry(#[trigger] r@[j]),
    {
        let pos = self.position_of(id);
        let prev: usize = (pos + 5) % 6;
        let next: usize = (pos + 1) % 6;
        let mut r: Vec<Location> = Vec::new();
        r.push(self.from_id(self.layout[prev]));
        r.push(self.from_id(self.layout[next]));
        r
    }
}

} // verus!
