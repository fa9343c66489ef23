//! Shard ranges and the coverage rule that every flag must meet.
//!
//! Subjects are hashed into `[0, total_shards)`, once for each salt; a salt
//! names one hash space. A shard claims ranges of one hash space, and a split
//! holds the subjects that fall into every one of its shards. The rule asks
//! that the ranges of a shard lie within the space and do not overlap, and
//! that the splits of one allocation claim different subjects: two splits
//! may repeat a shard unchanged, must not claim the same value of a hash
//! space otherwise, and must be told apart by a hash space in which they
//! claim nothing in common.

use vstd::prelude::*;
use vstd::set_lib::*;

verus! {

/// A half-open range `[start, end)` of shard values.
#[derive(Clone, Copy, Debug, PartialEq, Eq, Structural)]
pub struct ShardRange {
    pub start: u64,
    pub end: u64,
}

/// One shard of a split: its hash space, named by the salt, and the ranges
/// that it claims there.
#[derive(Debug)]
pub struct ShardLayout {
    pub salt: String,
    pub ranges: Vec<ShardRange>,
}

/// The mathematical value of a [`ShardLayout`].
pub struct ShardLayoutView {
    pub salt: Seq<char>,
    pub ranges: Seq<ShardRange>,
}

impl View for ShardLayout {
    type V = ShardLayoutView;

    open spec fn view(&self) -> ShardLayoutView {
        ShardLayoutView { salt: self.salt@, ranges: self.ranges@ }
    }
}

/// The view of a split: its shards in definition order.
pub open spec fn split_view(split: Seq<ShardLayout>) -> Seq<ShardLayoutView> {
    Seq::new(split.len(), |i: int| split[i]@)
}

/// The view of an allocation: its splits in definition order.
pub open spec fn allocation_view(allocation: Seq<Vec<ShardLayout>>) -> Seq<Seq<ShardLayoutView>> {
    Seq::new(allocation.len(), |i: int| split_view(allocation[i]@))
}

/// What the coverage rule reads of one flag: the size of its shard space
/// and, for each allocation in definition order, its splits, each with its
/// shards.
#[derive(Debug)]
pub struct FlagLayout {
    pub total_shards: u64,
    pub allocations: Vec<Vec<Vec<ShardLayout>>>,
}

/// The mathematical value of a [`FlagLayout`].
pub struct FlagLayoutView {
    pub total_shards: u64,
    pub allocations: Seq<Seq<Seq<ShardLayoutView>>>,
}

impl View for FlagLayout {
    type V = FlagLayoutView;

    open spec fn view(&self) -> FlagLayoutView {
        FlagLayoutView {
            total_shards: self.total_shards,
            allocations: Seq::new(self.allocations@.len(), |i: int| allocation_view(self.allocations@[i]@)),
        }
    }
}

impl ShardRange {
    /// `value` falls into the range.
    pub open spec fn covers(self, value: int) -> bool {
        self.start <= value < self.end
    }

    /// The number of shard values in the range; a range whose end lies before
    /// its start is empty.
    pub open spec fn size(self) -> nat {
        if self.start <= self.end {
            (self.end - self.start) as nat
        } else {
            0
        }
    }

    /// The range is written in order and ends within a space of `total_shards`.
    pub open spec fn within(self, total_shards: u64) -> bool {
        self.start <= self.end <= total_shards
    }

    /// No shard value falls into both ranges.
    pub open spec fn disjoint_from(self, other: ShardRange) -> bool {
        forall|value: int| !(self.covers(value) && other.covers(value))
    }

    /// Tests whether `value` falls into the range.
    pub fn contains(&self, value: u64) -> (result: bool)
        ensures
            result == self.covers(value as int),
    {
        self.start <= value && value < self.end
    }

    /// Tests whether the range lies within a space of `total_shards`.
    pub fn is_within(&self, total_shards: u64) -> (result: bool)
        ensures
            result == self.within(total_shards),
    {
        self.start <= self.end && self.end <= total_shards
    }

    /// Tests whether the two ranges share a shard value.
    pub fn overlaps(&self, other: &ShardRange) -> (result: bool)
        ensures
            result == !self.disjoint_from(*other),
    {
        let result = self.start < other.end && other.start < self.end && self.start < self.end
            && other.start < other.end;
        proof {
            if result {
                let witness: int = if self.start >= other.start {
                    self.start as int
                } else {
                    other.start as int
                };
                assert(self.covers(witness) && other.covers(witness));
            }
        }
        result
    }
}

/// Every range of the shard lies within the space.
pub open spec fn all_within(ranges: Seq<ShardRange>, total_shards: u64) -> bool {
    forall|i: int| 0 <= i < ranges.len() ==> (#[trigger] ranges[i]).within(total_shards)
}

/// No two ranges of the shard share a shard value.
pub open spec fn pairwise_disjoint(ranges: Seq<ShardRange>) -> bool {
    forall|i: int, j: int|
        0 <= i < j < ranges.len() ==> (#[trigger] ranges[i]).disjoint_from(#[trigger] ranges[j])
}

/// The sum of the sizes of the ranges.
pub open spec fn total_size(ranges: Seq<ShardRange>) -> nat
    decreases ranges.len(),
{
    if ranges.len() == 0 {
        0
    } else {
        total_size(ranges.drop_last()) + ranges.last().size()
    }
}

/// The coverage rule for one shard.
pub open spec fn shard_covered(ranges: Seq<ShardRange>, total_shards: u64) -> bool {
    all_within(ranges, total_shards) && pairwise_disjoint(ranges)
}

/// No shard value is claimed by a range of the one shard and by a range of
/// the other.
pub open spec fn claims_disjoint(first: Seq<ShardRange>, second: Seq<ShardRange>) -> bool {
    forall|x: int, y: int|
        0 <= x < first.len() && 0 <= y < second.len() ==> (#[trigger] first[x]).disjoint_from(
            #[trigger] second[y],
        )
}

/// Two shards of different splits agree: where they lie in the same hash
/// space, the one repeats the other unchanged or they claim nothing in
/// common.
pub open spec fn shards_agree(first: ShardLayoutView, second: ShardLayoutView) -> bool {
    first.salt == second.salt ==> (first.ranges == second.ranges || claims_disjoint(
        first.ranges,
        second.ranges,
    ))
}

/// Two shards tell their splits apart: they lie in the same hash space and
/// claim nothing in common.
pub open spec fn shards_separate(first: ShardLayoutView, second: ShardLayoutView) -> bool {
    first.salt == second.salt && claims_disjoint(first.ranges, second.ranges)
}

/// Every shard of the one split agrees with every shard of the other.
pub open spec fn splits_agree(first: Seq<ShardLayoutView>, second: Seq<ShardLayoutView>) -> bool {
    forall|a: int, b: int|
        0 <= a < first.len() && 0 <= b < second.len() ==> shards_agree(
            #[trigger] first[a],
            #[trigger] second[b],
        )
}

/// Some shard of the one split and some shard of the other tell the two
/// splits apart.
pub open spec fn splits_separated(first: Seq<ShardLayoutView>, second: Seq<ShardLayoutView>) -> bool {
    exists|a: int, b: int|
        0 <= a < first.len() && 0 <= b < second.len() && shards_separate(
            #[trigger] first[a],
            #[trigger] second[b],
        )
}

/// Every shard of the split meets the coverage rule for one shard.
pub open spec fn split_covered(split: Seq<ShardLayoutView>, total_shards: u64) -> bool {
    forall|a: int| 0 <= a < split.len() ==> shard_covered((#[trigger] split[a]).ranges, total_shards)
}

/// The coverage rule for one allocation: every shard meets the rule for one
/// shard, and any two of its splits agree and are told apart.
pub open spec fn allocation_covered(splits: Seq<Seq<ShardLayoutView>>, total_shards: u64) -> bool {
    &&& forall|i: int| 0 <= i < splits.len() ==> split_covered(#[trigger] splits[i], total_shards)
    &&& forall|i: int, j: int|
        0 <= i < j < splits.len() ==> splits_agree(#[trigger] splits[i], #[trigger] splits[j])
            && splits_separated(splits[i], splits[j])
}

/// The coverage rule for one flag: its shard space is not empty and each of
/// its allocations meets the rule.
pub open spec fn layout_covered(layout: FlagLayoutView) -> bool {
    &&& layout.total_shards > 0
    &&& forall|a: int|
        0 <= a < layout.allocations.len() ==> allocation_covered(
            #[trigger] layout.allocations[a],
            layout.total_shards,
        )
}

/// The subject's shard value in the shard's hash space falls into a range
/// of the shard, where `hash` gives the shard value for each salt.
pub open spec fn shard_holds(shard: ShardLayoutView, hash: spec_fn(Seq<char>) -> int) -> bool {
    exists|r: int| 0 <= r < shard.ranges.len() && (#[trigger] shard.ranges[r]).covers(hash(shard.salt))
}

/// The split holds the subject: every one of its shards does.
pub open spec fn split_holds(split: Seq<ShardLayoutView>, hash: spec_fn(Seq<char>) -> int) -> bool {
    forall|a: int| 0 <= a < split.len() ==> shard_holds(#[trigger] split[a], hash)
}

/// Splits that are told apart hold no subject in common, whatever the
/// subject's shard values are.
pub proof fn separated_splits_share_no_subject(
    first: Seq<ShardLayoutView>,
    second: Seq<ShardLayoutView>,
    hash: spec_fn(Seq<char>) -> int,
)
    requires
        splits_separated(first, second),
    ensures
        !(split_holds(first, hash) && split_holds(second, hash)),
{
    let (a, b) = choose|a: int, b: int|
        0 <= a < first.len() && 0 <= b < second.len() && shards_separate(
            #[trigger] first[a],
            #[trigger] second[b],
        );
    if split_holds(first, hash) && split_holds(second, hash) {
        assert(shard_holds(first[a], hash));
        assert(shard_holds(second[b], hash));
        let x = choose|r: int|
            0 <= r < first[a].ranges.len() && (#[trigger] first[a].ranges[r]).covers(hash(first[a].salt));
        let y = choose|r: int|
            0 <= r < second[b].ranges.len() && (#[trigger] second[b].ranges[r]).covers(
                hash(second[b].salt),
            );
        assert(first[a].ranges[x].disjoint_from(second[b].ranges[y]));
        assert(false);
    }
}

/// The shard values that some range of the shard claims.
pub open spec fn claimed_values(ranges: Seq<ShardRange>) -> Set<int> {
    Set::new(|value: int| exists|i: int| 0 <= i < ranges.len() && (#[trigger] ranges[i]).covers(value))
}

/// Under the coverage rule the ranges of a shard claim as many shard values
/// as their sizes add up to, all of them in the shard space.
proof fn lemma_claimed_count(ranges: Seq<ShardRange>, total_shards: u64)
    requires
        shard_covered(ranges, total_shards),
    ensures
        claimed_values(ranges).finite(),
        claimed_values(ranges).len() == total_size(ranges),
        claimed_values(ranges).subset_of(set_int_range(0, total_shards as int)),
    decreases ranges.len(),
{
    if ranges.len() == 0 {
        assert(claimed_values(ranges) =~= Set::<int>::empty());
    } else {
        let earlier = ranges.drop_last();
        let last = ranges.last();
        let last_index = ranges.len() - 1;
        assert forall|i: int| 0 <= i < earlier.len() implies (#[trigger] earlier[i]).within(
            total_shards,
        ) by {
            assert(earlier[i] == ranges[i]);
        }
        assert forall|i: int, j: int| 0 <= i < j < earlier.len() implies (#[trigger] earlier[i]).disjoint_from(
            #[trigger] earlier[j],
        ) by {
            assert(earlier[i] == ranges[i] && earlier[j] == ranges[j]);
        }
        lemma_claimed_count(earlier, total_shards);
        let last_values = set_int_range(last.start as int, last.end as int);
        assert(ranges[last_index].within(total_shards));
        lemma_int_range(last.start as int, last.end as int);
        assert forall|value: int| claimed_values(ranges).contains(value) implies claimed_values(
            earlier,
        ).union(last_values).contains(value) by {
            let i = choose|i: int| 0 <= i < ranges.len() && (#[trigger] ranges[i]).covers(value);
            if i < last_index {
                assert(earlier[i].covers(value));
            }
        }
        assert forall|value: int| claimed_values(earlier).union(last_values).contains(
            value,
        ) implies claimed_values(ranges).contains(value) by {
            if claimed_values(earlier).contains(value) {
                let i = choose|i: int| 0 <= i < earlier.len() && (#[trigger] earlier[i]).covers(value);
                assert(ranges[i].covers(value));
            } else {
                assert(ranges[last_index].covers(value));
            }
        }
        assert(claimed_values(ranges) =~= claimed_values(earlier).union(last_values));
        assert forall|value: int| claimed_values(earlier).contains(value) implies !last_values.contains(
            value,
        ) by {
            let i = choose|i: int| 0 <= i < earlier.len() && (#[trigger] earlier[i]).covers(value);
            assert(ranges[i].disjoint_from(ranges[last_index]));
            assert(ranges[i].covers(value));
        }
        assert(claimed_values(earlier).disjoint(last_values));
        lemma_set_disjoint_lens(claimed_values(earlier), last_values);
        assert forall|value: int| claimed_values(ranges).contains(value) implies set_int_range(
            0,
            total_shards as int,
        ).contains(value) by {
            let i = choose|i: int| 0 <= i < ranges.len() && (#[trigger] ranges[i]).covers(value);
            assert(ranges[i].within(total_shards));
        }
    }
}

/// The coverage invariant: the ranges of a shard that meets the coverage rule
/// never add up to more than the shard space holds.
pub proof fn coverage_bound(ranges: Seq<ShardRange>, total_shards: u64)
    requires
        shard_covered(ranges, total_shards),
    ensures
        total_size(ranges) <= total_shards,
{
    lemma_claimed_count(ranges, total_shards);
    lemma_int_range(0, total_shards as int);
    lemma_len_subset(claimed_values(ranges), set_int_range(0, total_shards as int));
}

/// A subject's shard value picks at most one range of a shard that meets the
/// coverage rule.
pub proof fn at_most_one_range_covers(ranges: Seq<ShardRange>, total_shards: u64, value: int, i: int, j: int)
    requires
        shard_covered(ranges, total_shards),
        0 <= i < ranges.len(),
        0 <= j < ranges.len(),
        ranges[i].covers(value),
        ranges[j].covers(value),
    ensures
        i == j,
{
    if i < j {
        assert(ranges[i].disjoint_from(ranges[j]));
    } else if j < i {
        assert(ranges[j].disjoint_from(ranges[i]));
    }
}

/// The sizes of a family of shards, added up.
pub open spec fn family_size(family: Seq<Seq<ShardRange>>) -> nat
    decreases family.len(),
{
    if family.len() == 0 {
        0
    } else {
        family_size(family.drop_last()) + total_size(family.last())
    }
}

/// The ranges of a family of shards, one shard after the other.
pub open spec fn joined(family: Seq<Seq<ShardRange>>) -> Seq<ShardRange>
    decreases family.len(),
{
    if family.len() == 0 {
        Seq::empty()
    } else {
        joined(family.drop_last()) + family.last()
    }
}

/// The size of two lists of ranges, one after the other, is the sum of
/// their sizes.
proof fn lemma_total_size_of_concatenation(first: Seq<ShardRange>, second: Seq<ShardRange>)
    ensures
        total_size(first + second) == total_size(first) + total_size(second),
    decreases second.len(),
{
    if second.len() == 0 {
        assert(first + second =~= first);
    } else {
        lemma_total_size_of_concatenation(first, second.drop_last());
        assert((first + second).drop_last() =~= first + second.drop_last());
        assert((first + second).last() == second.last());
    }
}

/// The joined ranges of a family of shards that each meet the coverage rule
/// and pairwise claim nothing in common meet the rule for one shard, and
/// are as large as the family.
proof fn lemma_joined_family(family: Seq<Seq<ShardRange>>, total_shards: u64)
    requires
        forall|i: int| 0 <= i < family.len() ==> shard_covered(#[trigger] family[i], total_shards),
        forall|i: int, j: int|
            0 <= i < j < family.len() ==> claims_disjoint(#[trigger] family[i], #[trigger] family[j]),
    ensures
        shard_covered(joined(family), total_shards),
        total_size(joined(family)) == family_size(family),
        forall|x: int|
            0 <= x < joined(family).len() ==> exists|i: int, y: int|
                0 <= i < family.len() && 0 <= y < family[i].len() && (#[trigger] family[i][y]) == (
                #[trigger] joined(family)[x]),
    decreases family.len(),
{
    if family.len() > 0 {
        let earlier = family.drop_last();
        let last = family.last();
        let last_index = family.len() - 1;
        assert forall|i: int| 0 <= i < earlier.len() implies shard_covered(
            #[trigger] earlier[i],
            total_shards,
        ) by {
            assert(earlier[i] == family[i]);
        }
        assert forall|i: int, j: int| 0 <= i < j < earlier.len() implies claims_disjoint(
            #[trigger] earlier[i],
            #[trigger] earlier[j],
        ) by {
            assert(earlier[i] == family[i] && earlier[j] == family[j]);
        }
        lemma_joined_family(earlier, total_shards);
        lemma_total_size_of_concatenation(joined(earlier), last);
        let before = joined(earlier);
        let all = joined(family);
        assert(all == before + last);
        assert(shard_covered(family[last_index], total_shards));
        assert forall|x: int| 0 <= x < all.len() implies exists|i: int, y: int|
            0 <= i < family.len() && 0 <= y < family[i].len() && (#[trigger] family[i][y]) == (
            #[trigger] all[x]) by {
            if x < before.len() {
                let (i, y) = choose|i: int, y: int|
                    0 <= i < earlier.len() && 0 <= y < earlier[i].len() && (#[trigger] earlier[i][y]) == (
                    #[trigger] before[x]);
                assert(earlier[i] == family[i]);
                assert(family[i][y] == all[x]);
            } else {
                assert(family[last_index][x - before.len()] == all[x]);
            }
        }
        assert forall|x: int| 0 <= x < all.len() implies (#[trigger] all[x]).within(total_shards) by {
            if x < before.len() {
                assert(all[x] == before[x]);
            } else {
                assert(all[x] == last[x - before.len()]);
            }
        }
        assert forall|x: int, z: int| 0 <= x < z < all.len() implies (#[trigger] all[x]).disjoint_from(
            #[trigger] all[z],
        ) by {
            if z < before.len() {
                assert(all[x] == before[x] && all[z] == before[z]);
            } else if x >= before.len() {
                assert(all[x] == last[x - before.len()] && all[z] == last[z - before.len()]);
            } else {
                let (i, y) = choose|i: int, y: int|
                    0 <= i < earlier.len() && 0 <= y < earlier[i].len() && (#[trigger] earlier[i][y]) == (
                    #[trigger] before[x]);
                assert(earlier[i] == family[i]);
                assert(claims_disjoint(family[i], family[last_index]));
                assert(all[x] == family[i][y]);
                assert(all[z] == family[last_index][z - before.len()]);
            }
        }
    }
}

/// The sizes claimed in one hash space add up to no more than the space
/// holds: shards that each meet the coverage rule and pairwise claim
/// nothing in common are together no larger than the shard space.
pub proof fn disjoint_claims_bound(family: Seq<Seq<ShardRange>>, total_shards: u64)
    requires
        forall|i: int| 0 <= i < family.len() ==> shard_covered(#[trigger] family[i], total_shards),
        forall|i: int, j: int|
            0 <= i < j < family.len() ==> claims_disjoint(#[trigger] family[i], #[trigger] family[j]),
    ensures
        family_size(family) <= total_shards,
{
    lemma_joined_family(family, total_shards);
    coverage_bound(joined(family), total_shards);
}

/// The shards that are picked from the splits of an allocation, one from
/// each split: `picks[i]` is the place of the shard in the split `i`.
pub open spec fn picked_claims(splits: Seq<Seq<ShardLayoutView>>, picks: Seq<int>) -> Seq<Seq<ShardRange>> {
    Seq::new(splits.len(), |i: int| splits[i][picks[i]].ranges)
}

/// The coverage invariant over the splits of an allocation. Pick from each
/// split its shard in one hash space, so that no two of the picked shards
/// are one shard repeated unchanged. Then the picked shards pairwise claim
/// nothing in common, and their sizes add up to no more than the shard
/// space holds.
pub proof fn split_sizes_bound(splits: Seq<Seq<ShardLayoutView>>, total_shards: u64, picks: Seq<int>)
    requires
        allocation_covered(splits, total_shards),
        picks.len() == splits.len(),
        forall|i: int| 0 <= i < splits.len() ==> 0 <= #[trigger] picks[i] < splits[i].len(),
        forall|i: int, j: int|
            0 <= i < j < splits.len() ==> (#[trigger] splits[i])[picks[i]].salt == (
            #[trigger] splits[j])[picks[j]].salt && splits[i][picks[i]].ranges != splits[j][picks[j]].ranges,
    ensures
        forall|i: int, j: int|
            0 <= i < j < splits.len() ==> claims_disjoint(
                #[trigger] picked_claims(splits, picks)[i],
                #[trigger] picked_claims(splits, picks)[j],
            ),
        family_size(picked_claims(splits, picks)) <= total_shards,
{
    let family = picked_claims(splits, picks);
    assert forall|i: int| 0 <= i < family.len() implies shard_covered(#[trigger] family[i], total_shards) by {
        assert(split_covered(splits[i], total_shards));
        assert(shard_covered(splits[i][picks[i]].ranges, total_shards));
    }
    assert forall|i: int, j: int| 0 <= i < j < family.len() implies claims_disjoint(
        #[trigger] family[i],
        #[trigger] family[j],
    ) by {
        assert(splits_agree(splits[i], splits[j]));
        assert(shards_agree(splits[i][picks[i]], splits[j][picks[j]]));
    }
    disjoint_claims_bound(family, total_shards);
}

/// Tests `ranges[index]` against every range before it.
fn disjoint_from_earlier(ranges: &Vec<ShardRange>, index: usize) -> (result: bool)
    requires
        index < ranges.len(),
    ensures
        result == (forall|i: int| 0 <= i < index ==> (#[trigger] ranges@[i]).disjoint_from(ranges@[index as int])),
{
    let mut i: usize = 0;
    while i < index
        invariant
            i <= index < ranges.len(),
            forall|k: int| 0 <= k < i ==> (#[trigger] ranges@[k]).disjoint_from(ranges@[index as int]),
        decreases index - i,
    {
        if ranges[i].overlaps(&ranges[index]) {
            return false;
        }
        i += 1;
    }
    true
}

/// Tests the coverage rule for one shard.
pub fn check_shard(ranges: &Vec<ShardRange>, total_shards: u64) -> (result: bool)
    ensures
        result == shard_covered(ranges@, total_shards),
{
    let mut j: usize = 0;
    while j < ranges.len()
        invariant
            j <= ranges.len(),
            forall|k: int| 0 <= k < j ==> (#[trigger] ranges@[k]).within(total_shards),
            forall|a: int, b: int|
                0 <= a < b < j ==> (#[trigger] ranges@[a]).disjoint_from(#[trigger] ranges@[b]),
        decreases ranges.len() - j,
    {
        if !ranges[j].is_within(total_shards) {
            return false;
        }
        if !disjoint_from_earlier(ranges, j) {
            return false;
        }
        j += 1;
    }
    true
}

/// Tests one range against every range of a shard.
fn range_disjoint_from_all(range: &ShardRange, others: &Vec<ShardRange>) -> (result: bool)
    ensures
        result == (forall|y: int| 0 <= y < others.len() ==> range.disjoint_from(#[trigger] others@[y])),
{
    let mut y: usize = 0;
    while y < others.len()
        invariant
            y <= others.len(),
            forall|k: int| 0 <= k < y ==> range.disjoint_from(#[trigger] others@[k]),
        decreases others.len() - y,
    {
        if range.overlaps(&others[y]) {
            return false;
        }
        y += 1;
    }
    true
}

/// Tests whether two shards claim no shard value in common.
pub fn check_claims_disjoint(first: &Vec<ShardRange>, second: &Vec<ShardRange>) -> (result: bool)
    ensures
        result == claims_disjoint(first@, second@),
{
    let mut x: usize = 0;
    while x < first.len()
        invariant
            x <= first.len(),
            forall|k: int, y: int|
                0 <= k < x && 0 <= y < second.len() ==> (#[trigger] first@[k]).disjoint_from(
                    #[trigger] second@[y],
                ),
        decreases first.len() - x,
    {
        if !range_disjoint_from_all(&first[x], second) {
            return false;
        }
        x += 1;
    }
    true
}

/// Tests whether two shards claim the same ranges in the same order.
pub fn same_ranges(first: &Vec<ShardRange>, second: &Vec<ShardRange>) -> (result: bool)
    ensures
        result == (first@ == second@),
{
    if first.len() != second.len() {
        return false;
    }
    let mut i: usize = 0;
    while i < first.len()
        invariant
            i <= first.len(),
            first.len() == second.len(),
            forall|k: int| 0 <= k < i ==> first@[k] == second@[k],
        decreases first.len() - i,
    {
        if first[i].start != second[i].start || first[i].end != second[i].end {
            return false;
        }
        i += 1;
    }
    assert(first@ =~= second@);
    true
}

/// Tests whether two shards lie in the same hash space and claim the same
/// ranges in the same order.
pub fn same_shard(first: &ShardLayout, second: &ShardLayout) -> (result: bool)
    ensures
        result == (first@ == second@),
{
    first.salt == second.salt && same_ranges(&first.ranges, &second.ranges)
}

/// Tests whether two splits hold the same shards in the same order.
pub fn same_split(first: &Vec<ShardLayout>, second: &Vec<ShardLayout>) -> (result: bool)
    ensures
        result == (split_view(first@) == split_view(second@)),
{
    if first.len() != second.len() {
        assert(split_view(first@).len() != split_view(second@).len());
        return false;
    }
    let mut i: usize = 0;
    while i < first.len()
        invariant
            i <= first.len(),
            first.len() == second.len(),
            forall|k: int| 0 <= k < i ==> split_view(first@)[k] == split_view(second@)[k],
        decreases first.len() - i,
    {
        if !same_shard(&first[i], &second[i]) {
            assert(split_view(first@)[i as int] != split_view(second@)[i as int]);
            return false;
        }
        i += 1;
    }
    assert(split_view(first@) =~= split_view(second@));
    true
}

/// Tests whether two allocations hold the same splits in the same order.
pub fn same_allocation(first: &Vec<Vec<ShardLayout>>, second: &Vec<Vec<ShardLayout>>) -> (result: bool)
    ensures
        result == (allocation_view(first@) == allocation_view(second@)),
{
    if first.len() != second.len() {
        assert(allocation_view(first@).len() != allocation_view(second@).len());
        return false;
    }
    let mut i: usize = 0;
    while i < first.len()
        invariant
            i <= first.len(),
            first.len() == second.len(),
            forall|k: int| 0 <= k < i ==> allocation_view(first@)[k] == allocation_view(second@)[k],
        decreases first.len() - i,
    {
        if !same_split(&first[i], &second[i]) {
            assert(allocation_view(first@)[i as int] != allocation_view(second@)[i as int]);
            return false;
        }
        i += 1;
    }
    assert(allocation_view(first@) =~= allocation_view(second@));
    true
}

/// Tests whether two flags have the same layout: the same shard space and
/// the same allocations, splits and shards in the same order.
pub fn same_layout(first: &FlagLayout, second: &FlagLayout) -> (result: bool)
    ensures
        result == (first@ == second@),
{
    if first.total_shards != second.total_shards {
        return false;
    }
    if first.allocations.len() != second.allocations.len() {
        assert(first@.allocations.len() != second@.allocations.len());
        return false;
    }
    let mut i: usize = 0;
    while i < first.allocations.len()
        invariant
            i <= first.allocations.len(),
            first.allocations.len() == second.allocations.len(),
            forall|k: int| 0 <= k < i ==> first@.allocations[k] == second@.allocations[k],
        decreases first.allocations.len() - i,
    {
        if !same_allocation(&first.allocations[i], &second.allocations[i]) {
            assert(first@.allocations[i as int] != second@.allocations[i as int]);
            return false;
        }
        i += 1;
    }
    assert(first@.allocations =~= second@.allocations);
    true
}

/// Tests whether two shards of different splits agree.
pub fn check_shards_agree(first: &ShardLayout, second: &ShardLayout) -> (result: bool)
    ensures
        result == shards_agree(first@, second@),
{
    if !(first.salt == second.salt) {
        return true;
    }
    same_ranges(&first.ranges, &second.ranges) || check_claims_disjoint(&first.ranges, &second.ranges)
}

/// Tests whether two shards tell their splits apart.
pub fn check_shards_separate(first: &ShardLayout, second: &ShardLayout) -> (result: bool)
    ensures
        result == shards_separate(first@, second@),
{
    first.salt == second.salt && check_claims_disjoint(&first.ranges, &second.ranges)
}

/// Tests whether every shard of the one split agrees with every shard of
/// the other.
pub fn check_splits_agree(first: &Vec<ShardLayout>, second: &Vec<ShardLayout>) -> (result: bool)
    ensures
        result == splits_agree(split_view(first@), split_view(second@)),
{
    let mut a: usize = 0;
    while a < first.len()
        invariant
            a <= first.len(),
            forall|k: int, b: int|
                0 <= k < a && 0 <= b < second.len() ==> shards_agree(
                    #[trigger] split_view(first@)[k],
                    #[trigger] split_view(second@)[b],
                ),
        decreases first.len() - a,
    {
        let mut b: usize = 0;
        while b < second.len()
            invariant
                b <= second.len(),
                a < first.len(),
                forall|k: int|
                    0 <= k < b ==> shards_agree(split_view(first@)[a as int], #[trigger] split_view(second@)[k]),
            decreases second.len() - b,
        {
            if !check_shards_agree(&first[a], &second[b]) {
                assert(!shards_agree(split_view(first@)[a as int], split_view(second@)[b as int]));
                return false;
            }
            b += 1;
        }
        a += 1;
    }
    true
}

/// Tests whether some shard of the one split and some shard of the other
/// tell the two splits apart.
pub fn check_splits_separated(first: &Vec<ShardLayout>, second: &Vec<ShardLayout>) -> (result: bool)
    ensures
        result == splits_separated(split_view(first@), split_view(second@)),
{
    let mut a: usize = 0;
    while a < first.len()
        invariant
            a <= first.len(),
            forall|k: int, b: int|
                0 <= k < a && 0 <= b < second.len() ==> !shards_separate(
                    #[trigger] split_view(first@)[k],
                    #[trigger] split_view(second@)[b],
                ),
        decreases first.len() - a,
    {
        let mut b: usize = 0;
        while b < second.len()
            invariant
                b <= second.len(),
                a < first.len(),
                forall|k: int|
                    0 <= k < b ==> !shards_separate(
                        split_view(first@)[a as int],
                        #[trigger] split_view(second@)[k],
                    ),
            decreases second.len() - b,
        {
            if check_shards_separate(&first[a], &second[b]) {
                assert(shards_separate(split_view(first@)[a as int], split_view(second@)[b as int]));
                return true;
            }
            b += 1;
        }
        a += 1;
    }
    false
}

/// Tests whether every shard of a split meets the coverage rule for one
/// shard.
pub fn check_split(split: &Vec<ShardLayout>, total_shards: u64) -> (result: bool)
    ensures
        result == split_covered(split_view(split@), total_shards),
{
    let mut a: usize = 0;
    while a < split.len()
        invariant
            a <= split.len(),
            forall|k: int| 0 <= k < a ==> shard_covered((#[trigger] split_view(split@)[k]).ranges, total_shards),
        decreases split.len() - a,
    {
        if !check_shard(&split[a].ranges, total_shards) {
            assert(!shard_covered(split_view(split@)[a as int].ranges, total_shards));
            return false;
        }
        a += 1;
    }
    true
}

/// Tests one split against every split before it.
fn split_fits_earlier(allocation: &Vec<Vec<ShardLayout>>, index: usize) -> (result: bool)
    requires
        index < allocation.len(),
    ensures
        result == (forall|i: int|
            0 <= i < index ==> splits_agree(
                #[trigger] allocation_view(allocation@)[i],
                allocation_view(allocation@)[index as int],
            ) && splits_separated(allocation_view(allocation@)[i], allocation_view(allocation@)[index as int])),
{
    let mut i: usize = 0;
    while i < index
        invariant
            i <= index < allocation.len(),
            forall|k: int|
                0 <= k < i ==> splits_agree(
                    #[trigger] allocation_view(allocation@)[k],
                    allocation_view(allocation@)[index as int],
                ) && splits_separated(
                    allocation_view(allocation@)[k],
                    allocation_view(allocation@)[index as int],
                ),
        decreases index - i,
    {
        if !check_splits_agree(&allocation[i], &allocation[index]) || !check_splits_separated(
            &allocation[i],
            &allocation[index],
        ) {
            assert(!(splits_agree(
                allocation_view(allocation@)[i as int],
                allocation_view(allocation@)[index as int],
            ) && splits_separated(
                allocation_view(allocation@)[i as int],
                allocation_view(allocation@)[index as int],
            )));
            return false;
        }
        i += 1;
    }
    true
}

/// Tests the coverage rule for one allocation.
pub fn check_allocation(allocation: &Vec<Vec<ShardLayout>>, total_shards: u64) -> (result: bool)
    ensures
        result == allocation_covered(allocation_view(allocation@), total_shards),
{
    let mut j: usize = 0;
    while j < allocation.len()
        invariant
            j <= allocation.len(),
            forall|k: int| 0 <= k < j ==> split_covered(#[trigger] allocation_view(allocation@)[k], total_shards),
            forall|a: int, b: int|
                0 <= a < b < j ==> splits_agree(
                    #[trigger] allocation_view(allocation@)[a],
                    #[trigger] allocation_view(allocation@)[b],
                ) && splits_separated(allocation_view(allocation@)[a], allocation_view(allocation@)[b]),
        decreases allocation.len() - j,
    {
        if !check_split(&allocation[j], total_shards) {
            assert(!split_covered(allocation_view(allocation@)[j as int], total_shards));
            return false;
        }
        if !split_fits_earlier(allocation, j) {
            return false;
        }
        j += 1;
    }
    true
}

/// Tests the coverage rule for one flag.
pub fn check_layout(layout: &FlagLayout) -> (result: bool)
    ensures
        result == layout_covered(layout@),
{
    if layout.total_shards == 0 {
        return false;
    }
    let mut a: usize = 0;
    while a < layout.allocations.len()
        invariant
            a <= layout.allocations.len(),
            layout.total_shards > 0,
            forall|k: int|
                0 <= k < a ==> allocation_covered(#[trigger] layout@.allocations[k], layout.total_shards),
        decreases layout.allocations.len() - a,
    {
        if !check_allocation(&layout.allocations[a], layout.total_shards) {
            assert(layout@.allocations[a as int] == allocation_view(layout.allocations@[a as int]@));
            return false;
        }
        assert(layout@.allocations[a as int] == allocation_view(layout.allocations@[a as int]@));
        a += 1;
    }
    true
}

} // verus!
