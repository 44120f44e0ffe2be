use smallvec::SmallVec;
use vstd::arithmetic::div_mod::lemma_fundamental_div_mod_converse;
use vstd::prelude::*;

verus! {

pub const KB: usize = 1024;

pub const MB: usize = 1048576;

/// The size ladder: the only sizes a capsule may have, smallest first.
pub const CAPSULE_SIZES: [usize; 5] = [262144, 1048576, 10485760, 104857600, 1048576000];

/// `size` is one of the five sizes of the ladder.
pub open spec fn is_capsule_size(size: int) -> bool {
    size == 262144 || size == 1048576 || size == 10485760 || size == 104857600 || size
        == 1048576000
}

/// `count` chunks of one size.
pub open spec fn repeated(size: usize, count: nat) -> Seq<usize> {
    Seq::new(count, |i: int| size)
}

/// The chunk plan for an input of `total` bytes: as many chunks of the largest
/// size as fit, then of the next size what fits into the rest, and so on down
/// the ladder; one chunk of the smallest size takes a rest that is shorter
/// than it. An empty input has the one smallest chunk.
pub open spec fn chunk_plan(total: nat) -> Seq<usize> {
    if total == 0 {
        seq![262144usize]
    } else {
        let rest4 = total % 1048576000;
        let rest3 = rest4 % 104857600;
        let rest2 = rest3 % 10485760;
        let rest1 = rest2 % 1048576;
        let rest0 = rest1 % 262144;
        repeated(1048576000, total / 1048576000) + repeated(104857600, rest4 / 104857600)
            + repeated(10485760, rest3 / 10485760) + repeated(1048576, rest2 / 1048576)
            + repeated(262144, rest1 / 262144) + (if rest0 > 0 {
            seq![262144usize]
        } else {
            Seq::<usize>::empty()
        })
    }
}

/// The sum of the first `count` sizes of `sizes`.
pub open spec fn prefix_total(sizes: Seq<usize>, count: int) -> int
    decreases count,
{
    if count <= 0 {
        0
    } else {
        prefix_total(sizes, count - 1) + sizes[count - 1]
    }
}

/// A chunk plan, kept in a small vector that holds short plans inline.
#[verifier::external_body]
pub struct ChunkPlan {
    sizes: SmallVec<[usize; 8]>,
}

/// The sizes that a plan holds, first chunk first.
pub uninterp spec fn plan_sizes(plan: ChunkPlan) -> Seq<usize>;

impl View for ChunkPlan {
    type V = Seq<usize>;

    open spec fn view(&self) -> Seq<usize> {
        plan_sizes(*self)
    }
}

/// `SmallVec::new`: a vector that holds nothing.
#[verifier::external_body]
fn plan_new() -> (plan: ChunkPlan)
    ensures
        plan_sizes(plan) == Seq::<usize>::empty(),
{
    ChunkPlan { sizes: SmallVec::new() }
}

/// `SmallVec::push`: the vector holds what it held, then `size`.
#[verifier::external_body]
fn plan_push(plan: &mut ChunkPlan, size: usize)
    ensures
        plan_sizes(*final(plan)) == plan_sizes(*old(plan)).push(size),
{
    plan.sizes.push(size)
}

/// `SmallVec::len`: how many items the vector holds.
#[verifier::external_body]
fn plan_len(plan: &ChunkPlan) -> (count: usize)
    ensures
        count == plan_sizes(*plan).len(),
{
    plan.sizes.len()
}

/// Indexing a `SmallVec` through its slice: the item at `position`.
#[verifier::external_body]
fn plan_get(plan: &ChunkPlan, position: usize) -> (size: usize)
    requires
        position < plan_sizes(*plan).len(),
    ensures
        size == plan_sizes(*plan)[position as int],
{
    plan.sizes[position]
}

impl ChunkPlan {
    /// The number of chunks.
    pub fn len(&self) -> (count: usize)
        ensures
            count == self@.len(),
    {
        plan_len(self)
    }

    /// The size planned for the chunk at `position`.
    pub fn get(&self, position: usize) -> (size: usize)
        requires
            position < self@.len(),
        ensures
            size == self@[position as int],
    {
        plan_get(self, position)
    }

    /// The planned sizes as a vector, first chunk first.
    pub fn to_vec(&self) -> (sizes: Vec<usize>)
        ensures
            sizes@ == self@,
    {
        let count = plan_len(self);
        let mut sizes: Vec<usize> = Vec::new();
        let mut position: usize = 0;
        while position < count
            invariant
                count == self@.len(),
                position <= count,
                sizes@ == self@.take(position as int),
            decreases count - position,
        {
            sizes.push(plan_get(self, position));
            position += 1;
            assert(sizes@ =~= self@.take(position as int));
        }
        assert(self@.take(count as int) =~= self@);
        sizes
    }
}

/// Appends `size` to the plan as often as it fits into `remaining`, and
/// returns what is left.
fn take_chunks(plan: &mut ChunkPlan, remaining: u64, size: usize) -> (rest: u64)
    requires
        size > 0,
    ensures
        final(plan)@ == old(plan)@ + repeated(size, (remaining as nat) / (size as nat)),
        rest == (remaining as nat) % (size as nat),
{
    let mut rest = remaining;
    let ghost mut count: nat = 0;
    assert(plan@ =~= old(plan)@ + repeated(size, 0));
    while rest >= size as u64
        invariant
            size > 0,
            rest + count * size == remaining,
            plan@ == old(plan)@ + repeated(size, count),
        decreases rest,
    {
        plan_push(plan, size);
        rest -= size as u64;
        proof {
            assert((count + 1) * size == count * size + size) by (nonlinear_arith);
            assert(plan@ =~= old(plan)@ + repeated(size, count + 1));
            count = count + 1;
        }
    }
    proof {
        lemma_fundamental_div_mod_converse(
            remaining as int,
            size as int,
            count as int,
            rest as int,
        );
    }
    rest
}

/// The chunking law: the plan for an input of `total_size` bytes. The position
/// of a size in the plan is the index of its chunk.
pub fn determine_chunk_sizes(total_size: u64) -> (plan: ChunkPlan)
    ensures
        plan@ == chunk_plan(total_size as nat),
{
    let mut plan = plan_new();
    if total_size == 0 {
        plan_push(&mut plan, CAPSULE_SIZES[0]);
        assert(plan@ =~= chunk_plan(0));
        return plan;
    }
    let rest4 = take_chunks(&mut plan, total_size, CAPSULE_SIZES[4]);
    let rest3 = take_chunks(&mut plan, rest4, CAPSULE_SIZES[3]);
    let rest2 = take_chunks(&mut plan, rest3, CAPSULE_SIZES[2]);
    let rest1 = take_chunks(&mut plan, rest2, CAPSULE_SIZES[1]);
    let rest0 = take_chunks(&mut plan, rest1, CAPSULE_SIZES[0]);
    if rest0 > 0 {
        plan_push(&mut plan, CAPSULE_SIZES[0]);
    }
    assert(plan@ =~= chunk_plan(total_size as nat));
    plan
}

/// The number of chunks that the plan for `total_size` bytes holds.
pub fn chunk_count(total_size: u64) -> (count: u64)
    ensures
        count == chunk_plan(total_size as nat).len(),
{
    if total_size == 0 {
        return 1;
    }
    let rest4 = total_size % 1048576000;
    let rest3 = rest4 % 104857600;
    let rest2 = rest3 % 10485760;
    let rest1 = rest2 % 1048576;
    let rest0 = rest1 % 262144;
    let tail: u64 = if rest0 > 0 {
        1
    } else {
        0
    };
    total_size / 1048576000 + rest4 / 104857600 + rest3 / 10485760 + rest2 / 1048576 + rest1
        / 262144 + tail
}

/// The five sizes of the ladder, smallest first.
pub fn get_capsule_sizes() -> (sizes: Vec<u32>)
    ensures
        sizes@ == seq![262144u32, 1048576u32, 10485760u32, 104857600u32, 1048576000u32],
{
    let mut sizes: Vec<u32> = Vec::new();
    let mut rung: usize = 0;
    while rung < 5
        invariant
            rung <= 5,
            sizes@.len() == rung,
            forall|i: int| 0 <= i < rung ==> sizes@[i] == CAPSULE_SIZES[i],
        decreases 5 - rung,
    {
        sizes.push(CAPSULE_SIZES[rung] as u32);
        rung += 1;
    }
    assert(sizes@ =~= seq![262144u32, 1048576u32, 10485760u32, 104857600u32, 1048576000u32]);
    sizes
}

/// Whether `size` is one of the sizes of the ladder.
pub fn is_ladder_size(size: usize) -> (found: bool)
    ensures
        found == is_capsule_size(size as int),
{
    let mut rung: usize = 0;
    while rung < 5
        invariant
            rung <= 5,
            forall|i: int| 0 <= i < rung ==> CAPSULE_SIZES[i] != size,
        decreases 5 - rung,
    {
        if CAPSULE_SIZES[rung] == size {
            return true;
        }
        rung += 1;
    }
    assert(CAPSULE_SIZES[0] != size && CAPSULE_SIZES[1] != size && CAPSULE_SIZES[2] != size
        && CAPSULE_SIZES[3] != size && CAPSULE_SIZES[4] != size);
    false
}

/// `data_len` bytes, the marker, the footer and `spare` bytes of filler have
/// room in a capsule of `capsule_size` bytes.
pub open spec fn fits(data_len: nat, capsule_size: nat, spare: nat) -> bool {
    data_len + 8 + spare <= capsule_size
}

/// The filler asked for at first: a twentieth of the data, rounded down.
pub open spec fn full_spare(data_len: nat) -> nat {
    data_len / 20
}

/// The filler accepted in the planned size before a larger one is taken: a
/// hundredth of the data, rounded down, and at least 1024 bytes.
pub open spec fn reduced_spare(data_len: nat) -> nat {
    if data_len / 100 > 1024 {
        data_len / 100
    } else {
        1024
    }
}

/// `size` is larger than the planned size and has room for the data with its
/// full filler.
pub open spec fn upgrades_to(data_len: nat, target: nat, size: nat) -> bool {
    size > target && fits(data_len, size, full_spare(data_len))
}

/// The capsule size for `data_len` processed bytes planned for `target`: the
/// planned size where the data fits with full or with reduced filler, else
/// the first larger size of the ladder with room for the full filler, else
/// the largest size.
pub open spec fn optimal_capsule_size(data_len: nat, target: nat) -> nat {
    if fits(data_len, target, full_spare(data_len)) {
        target
    } else if fits(data_len, target, reduced_spare(data_len)) {
        target
    } else if upgrades_to(data_len, target, 262144) {
        262144
    } else if upgrades_to(data_len, target, 1048576) {
        1048576
    } else if upgrades_to(data_len, target, 10485760) {
        10485760
    } else if upgrades_to(data_len, target, 104857600) {
        104857600
    } else {
        1048576000
    }
}

/// Chooses the capsule size for a processed chunk: the planned size is kept
/// whenever the data fits it, and left for a larger one only when it does not.
pub fn find_optimal_capsule_size(processed_data_size: usize, target_capsule_size: usize) -> (size:
    usize)
    ensures
        size == optimal_capsule_size(processed_data_size as nat, target_capsule_size as nat),
        size == target_capsule_size || is_capsule_size(size as int),
{
    let data_len = processed_data_size as u128;
    let target = target_capsule_size as u128;
    let required_space = data_len + 8 + data_len / 20;
    if required_space <= target {
        return target_capsule_size;
    }
    let min_padding_reduced: u128 = if data_len / 100 > 1024 {
        data_len / 100
    } else {
        1024
    };
    let required_space_reduced = data_len + 8 + min_padding_reduced;
    if required_space_reduced <= target {
        return target_capsule_size;
    }
    let mut rung: usize = 0;
    while rung < 5
        invariant
            rung <= 5,
            required_space == processed_data_size + 8 + full_spare(processed_data_size as nat),
            !fits(
                processed_data_size as nat,
                target_capsule_size as nat,
                full_spare(processed_data_size as nat),
            ),
            !fits(
                processed_data_size as nat,
                target_capsule_size as nat,
                reduced_spare(processed_data_size as nat),
            ),
            forall|i: int|
                0 <= i < rung ==> !upgrades_to(
                    processed_data_size as nat,
                    target_capsule_size as nat,
                    #[trigger] CAPSULE_SIZES[i] as nat,
                ),
        decreases 5 - rung,
    {
        let capsule_size = CAPSULE_SIZES[rung];
        if capsule_size > target_capsule_size && required_space <= capsule_size as u128 {
            return capsule_size;
        }
        rung += 1;
    }
    CAPSULE_SIZES[4]
}

/// The sum of `count` chunks of one size.
proof fn lemma_prefix_total_repeated(size: usize, count: nat, upto: int)
    requires
        0 <= upto <= count,
    ensures
        prefix_total(repeated(size, count), upto) == upto * size,
    decreases upto,
{
    if upto > 0 {
        lemma_prefix_total_repeated(size, count, upto - 1);
        assert(repeated(size, count)[upto - 1] == size);
        assert(upto * size == (upto - 1) * size + size) by (nonlinear_arith);
    } else {
        assert(upto * size == 0) by (nonlinear_arith)
            requires
                upto == 0,
        ;
    }
}

/// The sum over two plans put together is the sum of the first and what the
/// second adds.
proof fn lemma_prefix_total_concat(first: Seq<usize>, second: Seq<usize>, upto: int)
    requires
        0 <= upto <= second.len(),
    ensures
        prefix_total(first + second, first.len() + upto) == prefix_total(
            first,
            first.len() as int,
        ) + prefix_total(second, upto),
    decreases upto,
{
    if upto > 0 {
        lemma_prefix_total_concat(first, second, upto - 1);
        assert((first + second)[first.len() + upto - 1] == second[upto - 1]);
    } else {
        lemma_prefix_total_prefix(first, first + second, first.len() as int);
    }
}

/// The sum of the first sizes depends on those sizes alone.
pub proof fn lemma_prefix_total_prefix(first: Seq<usize>, second: Seq<usize>, upto: int)
    requires
        0 <= upto <= first.len(),
        upto <= second.len(),
        forall|i: int| 0 <= i < upto ==> first[i] == second[i],
    ensures
        prefix_total(first, upto) == prefix_total(second, upto),
    decreases upto,
{
    if upto > 0 {
        lemma_prefix_total_prefix(first, second, upto - 1);
    }
}

/// The sum of a plan extended by a run of one size.
proof fn lemma_total_with_run(first: Seq<usize>, size: usize, count: nat)
    ensures
        prefix_total(first + repeated(size, count), (first.len() + count) as int) == prefix_total(
            first,
            first.len() as int,
        ) + count * size,
{
    lemma_prefix_total_concat(first, repeated(size, count), count as int);
    lemma_prefix_total_repeated(size, count, count as int);
}

/// Every size of a chunk plan is a size of the ladder.
pub proof fn lemma_plan_sizes_on_ladder(total: nat)
    ensures
        forall|i: int|
            0 <= i < chunk_plan(total).len() ==> is_capsule_size(
                #[trigger] chunk_plan(total)[i] as int,
            ),
{
}

/// A chunk plan is never empty, and its sizes never grow from one chunk to the
/// next.
pub proof fn lemma_plan_descends(total: nat)
    ensures
        chunk_plan(total).len() >= 1,
        forall|i: int, j: int|
            0 <= i <= j < chunk_plan(total).len() ==> chunk_plan(total)[i] >= chunk_plan(
                total,
            )[j],
{
}

/// The sizes of a chunk plan add up to the input's length rounded up to the
/// next multiple of the smallest size: the plan covers the input, and only its
/// last chunk can be short of data. For a plan of more than one chunk, the
/// chunks before the last are filled and the last holds at least one byte.
pub proof fn lemma_plan_covers(total: nat)
    ensures
        prefix_total(chunk_plan(total), chunk_plan(total).len() as int) >= total,
        total > 0 ==> prefix_total(chunk_plan(total), chunk_plan(total).len() as int) < total
            + 262144,
        total > 0 ==> prefix_total(chunk_plan(total), chunk_plan(total).len() - 1) < total,
{
    if total == 0 {
        assert(prefix_total(chunk_plan(0), 1) == prefix_total(chunk_plan(0), 0) + 262144);
    } else {
        let rest4 = total % 1048576000;
        let rest3 = rest4 % 104857600;
        let rest2 = rest3 % 10485760;
        let rest1 = rest2 % 1048576;
        let rest0 = rest1 % 262144;
        let run4 = repeated(1048576000, total / 1048576000);
        let run3 = run4 + repeated(104857600, rest4 / 104857600);
        let run2 = run3 + repeated(10485760, rest3 / 10485760);
        let run1 = run2 + repeated(1048576, rest2 / 1048576);
        let run0 = run1 + repeated(262144, rest1 / 262144);
        lemma_total_with_run(Seq::<usize>::empty(), 1048576000, total / 1048576000);
        assert(Seq::<usize>::empty() + repeated(1048576000, total / 1048576000) =~= run4);
        lemma_total_with_run(run4, 104857600, rest4 / 104857600);
        lemma_total_with_run(run3, 10485760, rest3 / 10485760);
        lemma_total_with_run(run2, 1048576, rest2 / 1048576);
        lemma_total_with_run(run1, 262144, rest1 / 262144);
        assert(prefix_total(run0, run0.len() as int) == total - rest0);
        let plan = chunk_plan(total);
        if rest0 > 0 {
            assert(plan =~= run0.push(262144usize));
            lemma_prefix_total_prefix(run0, plan, run0.len() as int);
        } else {
            assert(plan =~= run0);
            assert(plan.len() >= 1);
            assert(is_capsule_size(plan[plan.len() - 1] as int));
        }
    }
}

} // verus!
