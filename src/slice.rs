//! The slice cache: 2-D slices of a 3-D color space, kept per kind as a sorted
//! list of fixed slices and one dynamic slice, and the job lists of the worker
//! that builds them.
//!
//! A slice's constant coordinate is a fixed-point number: `TICKS_PER_TURN`
//! ticks make one full turn (2π for a hue). Exactness is equality of ticks,
//! and the interpolation weight is the exact ratio `Alpha`.
//!
//! Rasterizing and uploading a slice is the worker's outside work; this module
//! decides what the worker builds next and where the result goes.
use vstd::prelude::*;

verus! {

/// Ticks of the constant coordinate in one full turn.
pub const TICKS_PER_TURN: u64 = 4294967296;

/// How many slice kinds there are.
pub const KIND_COUNT: usize = 1;

/// Kind of 3-D color space and of a 2-D slice of it.
#[derive(Clone, Copy, Debug, PartialEq, Eq, Structural, Hash)]
pub enum Kind {
    /// Okhsv slice at a constant hue.
    OkhsvHueSlice,
}

impl Kind {
    /// The position of this kind in per-kind tables.
    pub open spec fn spec_index(self) -> int {
        match self {
            Kind::OkhsvHueSlice => 0,
        }
    }

    /// The kind at position `k` of per-kind tables.
    pub fn from_index(k: usize) -> (r: Kind)
        requires
            k < KIND_COUNT,
        ensures
            r.spec_index() == k,
    {
        Kind::OkhsvHueSlice
    }

    /// The position of this kind in per-kind tables.
    pub fn index(self) -> (r: usize)
        ensures
            r == self.spec_index(),
            r < KIND_COUNT,
    {
        match self {
            Kind::OkhsvHueSlice => 0,
        }
    }
}

/// Slice cache settings.
#[derive(Clone, Copy, Debug, PartialEq, Eq, Structural)]
pub struct CacheSettings {
    /// Width of the slices.
    pub width: u32,
    /// Height of the slices.
    pub height: u32,
    /// Number of fixed slices per slice kind.
    pub num_fixed_slices: u32,
}

/// A 2-D slice of a 3-D color space at a constant coordinate.
#[derive(Clone, Debug)]
pub struct Slice<A> {
    /// The constant coordinate, in ticks.
    pub constant: u64,
    /// The rendered slice.
    pub asset: A,
}

/// The interpolation weight `numerator / denominator` of the upper slice.
#[derive(Clone, Copy, Debug, PartialEq, Eq, Structural)]
pub struct Alpha {
    pub numerator: u64,
    pub denominator: u64,
}

/// Result of a slice lookup.
#[derive(Clone, Debug)]
pub enum CacheHit<A> {
    /// Interpolation between the two nearest slices.
    Interpolated { asset_a: A, asset_b: A, alpha: Alpha },
    /// A slice for exactly that constant exists.
    Exact { asset: A },
}

/// The slices of one kind, as a mathematical value.
pub struct SliceListModel<A> {
    pub fixed: Seq<Slice<A>>,
    pub dynamic: Option<Slice<A>>,
}

/// Constants strictly increase along the list.
pub open spec fn strictly_sorted<A>(s: Seq<Slice<A>>) -> bool {
    forall|i: int, j: int| 0 <= i < j < s.len() ==> s[i].constant < s[j].constant
}

/// The first position at or after `i` whose constant is at least `c`, or the
/// length of the list if there is none.
pub open spec fn first_at_least<A>(s: Seq<Slice<A>>, c: u64, i: int) -> int
    decreases s.len() - i,
{
    if i >= s.len() || s[i].constant >= c {
        i
    } else {
        first_at_least(s, c, i + 1)
    }
}

/// What a lookup of constant `c` finds among `fixed` and `dynamic`.
///
/// The dynamic slice answers when its constant is `c`. Otherwise the first
/// fixed slice at or above `c` answers when its constant is `c`, and with its
/// predecessor gives an interpolation when it lies above `c`. Below the first
/// or above the last fixed slice nothing is found.
pub open spec fn lookup<A>(fixed: Seq<Slice<A>>, dynamic: Option<Slice<A>>, c: u64) -> Option<
    CacheHit<A>,
> {
    if dynamic is Some && dynamic->0.constant == c {
        Some(CacheHit::Exact { asset: dynamic->0.asset })
    } else {
        let b = first_at_least(fixed, c, 0);
        if b >= fixed.len() {
            None
        } else if fixed[b].constant == c {
            Some(CacheHit::Exact { asset: fixed[b].asset })
        } else if b == 0 {
            None
        } else {
            Some(
                CacheHit::Interpolated {
                    asset_a: fixed[b - 1].asset,
                    asset_b: fixed[b].asset,
                    alpha: Alpha {
                        numerator: (c - fixed[b - 1].constant) as u64,
                        denominator: (fixed[b].constant - fixed[b - 1].constant) as u64,
                    },
                },
            )
        }
    }
}

/// `actual` is `expected` with each asset replaced by a clone of it.
pub open spec fn hit_cloned<A: Clone>(actual: Option<CacheHit<A>>, expected: Option<CacheHit<A>>) -> bool {
    match expected {
        None => actual is None,
        Some(CacheHit::Exact { asset }) => match actual {
            Some(CacheHit::Exact { asset: got }) => cloned(asset, got),
            _ => false,
        },
        Some(CacheHit::Interpolated { asset_a, asset_b, alpha }) => match actual {
            Some(CacheHit::Interpolated { asset_a: got_a, asset_b: got_b, alpha: got_alpha }) => {
                &&& cloned(asset_a, got_a)
                &&& cloned(asset_b, got_b)
                &&& got_alpha == alpha
            },
            _ => false,
        },
    }
}

/// `fixed` with `x` put in its sorted place; a slice with the same constant
/// is replaced.
pub open spec fn insert_sorted<A>(s: Seq<Slice<A>>, x: Slice<A>) -> Seq<Slice<A>> {
    let p = first_at_least(s, x.constant, 0);
    if p < s.len() && s[p].constant == x.constant {
        s.update(p, x)
    } else {
        s.insert(p, x)
    }
}

proof fn lemma_first_at_least<A>(s: Seq<Slice<A>>, c: u64, i: int)
    requires
        0 <= i <= s.len(),
    ensures
        i <= first_at_least(s, c, i) <= s.len(),
        forall|j: int| i <= j < first_at_least(s, c, i) ==> s[j].constant < c,
        first_at_least(s, c, i) < s.len() ==> s[first_at_least(s, c, i)].constant >= c,
    decreases s.len() - i,
{
    if i < s.len() && s[i].constant < c {
        lemma_first_at_least(s, c, i + 1);
    }
}

proof fn lemma_first_at_least_is<A>(s: Seq<Slice<A>>, c: u64, i: int, p: int)
    requires
        0 <= i <= p <= s.len(),
        forall|j: int| i <= j < p ==> s[j].constant < c,
        p < s.len() ==> s[p].constant >= c,
    ensures
        first_at_least(s, c, i) == p,
    decreases p - i,
{
    if i < p {
        lemma_first_at_least_is(s, c, i + 1, p);
    }
}

/// Cache exactness: once a fixed slice for `slice.constant` has been
/// inserted, a lookup of that constant is exact, and answers with the inserted
/// slice unless the dynamic slice sits at the same constant.
pub proof fn lemma_inserted_fixed_is_exact<A>(l: SliceListModel<A>, slice: Slice<A>)
    requires
        strictly_sorted(l.fixed),
    ensures
        ({
            let c = slice.constant;
            let expected = if l.dynamic is Some && l.dynamic->0.constant == c {
                l.dynamic->0.asset
            } else {
                slice.asset
            };
            lookup(insert_sorted(l.fixed, slice), l.dynamic, c) == Some(
                CacheHit::Exact { asset: expected },
            )
        }),
{
    let s = l.fixed;
    let c = slice.constant;
    lemma_first_at_least(s, c, 0);
    let p = first_at_least(s, c, 0);
    let t = insert_sorted(s, slice);
    assert(forall|j: int| 0 <= j < p ==> t[j] == s[j]);
    lemma_first_at_least_is(t, c, 0, p);
}

/// Interpolation: a constant strictly between two neighbouring fixed slices,
/// with no dynamic slice at that constant, is answered by those two slices,
/// weighted by how far the constant lies from the lower one.
pub proof fn lemma_between_interpolates<A>(l: SliceListModel<A>, i: int, c: u64)
    requires
        strictly_sorted(l.fixed),
        0 <= i,
        i + 1 < l.fixed.len(),
        l.fixed[i].constant < c < l.fixed[i + 1].constant,
        !(l.dynamic is Some && l.dynamic->0.constant == c),
    ensures
        lookup(l.fixed, l.dynamic, c) == Some(
            CacheHit::Interpolated {
                asset_a: l.fixed[i].asset,
                asset_b: l.fixed[i + 1].asset,
                alpha: Alpha {
                    numerator: (c - l.fixed[i].constant) as u64,
                    denominator: (l.fixed[i + 1].constant - l.fixed[i].constant) as u64,
                },
            },
        ),
        0 < c - l.fixed[i].constant < l.fixed[i + 1].constant - l.fixed[i].constant,
{
    lemma_first_at_least_is(l.fixed, c, 0, i + 1);
}

/// The slices of one kind.
#[derive(Debug)]
struct SliceList<A> {
    /// Fixed slices, sorted by constant, constants distinct.
    fixed_slices: Vec<Slice<A>>,
    /// The one dynamic slice, at any constant.
    dynamic_slice: Option<Slice<A>>,
}

/// The slices of every kind. The worker writes them; lookups read them.
#[derive(Debug)]
pub struct SliceStore<A> {
    lists: Vec<SliceList<A>>,
}

impl<A> View for SliceStore<A> {
    type V = Seq<SliceListModel<A>>;

    closed spec fn view(&self) -> Seq<SliceListModel<A>> {
        self.lists@.map_values(
            |l: SliceList<A>| SliceListModel { fixed: l.fixed_slices@, dynamic: l.dynamic_slice },
        )
    }
}

/// Returns the first position whose constant is at least `c`.
fn position_at_least<A>(fixed: &Vec<Slice<A>>, c: u64) -> (r: usize)
    ensures
        r == first_at_least(fixed@, c, 0),
{
    let mut i: usize = 0;
    while i < fixed.len() && fixed[i].constant < c
        invariant
            i <= fixed@.len(),
            first_at_least(fixed@, c, 0) == first_at_least(fixed@, c, i as int),
        decreases fixed@.len() - i,
    {
        i = i + 1;
    }
    i
}

impl<A> SliceStore<A> {
    /// One list per kind, and each fixed list strictly sorted.
    pub open spec fn wf(&self) -> bool {
        &&& self@.len() == KIND_COUNT
        &&& forall|k: int| 0 <= k < KIND_COUNT ==> strictly_sorted(#[trigger] self@[k].fixed)
    }

    /// The slices of `kind`.
    pub open spec fn slices(&self, kind: Kind) -> SliceListModel<A> {
        self@[kind.spec_index()]
    }

    /// An empty store.
    pub fn new() -> (r: SliceStore<A>)
        ensures
            r.wf(),
            forall|k: Kind| #[trigger] r.slices(k).fixed.len() == 0 && r.slices(k).dynamic is None,
    {
        let mut lists: Vec<SliceList<A>> = Vec::new();
        lists.push(SliceList { fixed_slices: Vec::new(), dynamic_slice: None });
        let r = SliceStore { lists };
        proof {
            assert forall|k: Kind| #[trigger] r.slices(k).fixed.len() == 0 && r.slices(k).dynamic is None by {
                assert(k.spec_index() == 0);
            }
        }
        r
    }

    /// Looks up `constant` among the slices of `kind`, cloning what it finds.
    pub fn get(&self, kind: Kind, constant: u64) -> (r: Option<CacheHit<A>>)
        where
            A: Clone,
        requires
            self.wf(),
        ensures
            hit_cloned(r, lookup(self.slices(kind).fixed, self.slices(kind).dynamic, constant)),
    {
        let list = &self.lists[kind.index()];
        if let Some(slice) = &list.dynamic_slice {
            if slice.constant == constant {
                return Some(CacheHit::Exact { asset: slice.asset.clone() });
            }
        }
        let fixed = &list.fixed_slices;
        let b = position_at_least(fixed, constant);
        if b >= fixed.len() {
            return None;
        }
        let slice_b = &fixed[b];
        if slice_b.constant == constant {
            return Some(CacheHit::Exact { asset: slice_b.asset.clone() });
        }
        if b == 0 {
            return None;
        }
        let slice_a = &fixed[b - 1];
        proof {
            lemma_first_at_least(fixed@, constant, 0);
        }
        let alpha = Alpha {
            numerator: constant - slice_a.constant,
            denominator: slice_b.constant - slice_a.constant,
        };
        Some(
            CacheHit::Interpolated {
                asset_a: slice_a.asset.clone(),
                asset_b: slice_b.asset.clone(),
                alpha,
            },
        )
    }

    /// Puts a fixed slice of `kind` in its sorted place, replacing one at the
    /// same constant.
    pub fn insert_fixed(&mut self, kind: Kind, slice: Slice<A>)
        requires
            old(self).wf(),
        ensures
            final(self).wf(),
            final(self)@ == old(self)@.update(
                kind.spec_index(),
                SliceListModel {
                    fixed: insert_sorted(old(self).slices(kind).fixed, slice),
                    dynamic: old(self).slices(kind).dynamic,
                },
            ),
    {
        let ghost old_view = self@;
        let k = kind.index();
        let list = &mut self.lists[k];
        let p = position_at_least(&list.fixed_slices, slice.constant);
        let ghost s = list.fixed_slices@;
        let ghost x = slice;
        proof {
            lemma_first_at_least(s, x.constant, 0);
        }
        if p < list.fixed_slices.len() && list.fixed_slices[p].constant == slice.constant {
            list.fixed_slices.set(p, slice);
        } else {
            list.fixed_slices.insert(p, slice);
        }
        proof {
            assert(self@ =~= old_view.update(
                kind.spec_index(),
                SliceListModel { fixed: insert_sorted(s, x), dynamic: old_view[k as int].dynamic },
            ));
        }
    }

    /// Makes `slice` the dynamic slice of `kind`.
    pub fn insert_dynamic(&mut self, kind: Kind, slice: Slice<A>)
        requires
            old(self).wf(),
        ensures
            final(self).wf(),
            final(self)@ == old(self)@.update(
                kind.spec_index(),
                SliceListModel { fixed: old(self).slices(kind).fixed, dynamic: Some(slice) },
            ),
    {
        let ghost old_view = self@;
        let k = kind.index();
        let list = &mut self.lists[k];
        list.dynamic_slice = Some(slice);
        proof {
            assert(self@ =~= old_view.update(
                kind.spec_index(),
                SliceListModel { fixed: old_view[k as int].fixed, dynamic: Some(slice) },
            ));
        }
    }
}

/// A request to build the slice of `kind` at `constant`.
#[derive(Clone, Copy, Debug, PartialEq, Eq, Structural)]
pub struct Job {
    pub kind: Kind,
    pub constant: u64,
}

/// The pending dynamic requests after asking for `(kind, c)`: at most one per
/// kind, the newest replacing the older.
pub open spec fn scheduled(jobs: Seq<Option<u64>>, kind: Kind, c: u64) -> Seq<Option<u64>> {
    jobs.update(kind.spec_index(), Some(c))
}

/// The worker's dynamic requests after taking over the `shared` ones: a kind
/// requested in `shared` takes the shared constant.
pub open spec fn collected(own: Seq<Option<u64>>, shared: Seq<Option<u64>>) -> Seq<Option<u64>> {
    Seq::new(own.len(), |k: int| if shared[k] is Some { shared[k] } else { own[k] })
}

/// The first kind with a pending request, or `jobs.len()` if there is none.
pub open spec fn first_pending(jobs: Seq<Option<u64>>, i: int) -> int
    decreases jobs.len() - i,
{
    if i >= jobs.len() || jobs[i] is Some {
        i
    } else {
        first_pending(jobs, i + 1)
    }
}

proof fn lemma_first_pending(jobs: Seq<Option<u64>>, i: int)
    requires
        0 <= i <= jobs.len(),
    ensures
        i <= first_pending(jobs, i) <= jobs.len(),
        forall|j: int| i <= j < first_pending(jobs, i) ==> jobs[j] is None,
        first_pending(jobs, i) < jobs.len() ==> jobs[first_pending(jobs, i)] is Some,
    decreases jobs.len() - i,
{
    if i < jobs.len() && jobs[i] is None {
        lemma_first_pending(jobs, i + 1);
    }
}

/// Dynamic overwrite: of two requests for one kind made before the worker
/// takes them over, the worker holds only the later one; the earlier constant
/// is dropped without being built.
pub proof fn lemma_dynamic_overwrite(
    own: Seq<Option<u64>>,
    shared: Seq<Option<u64>>,
    kind: Kind,
    c1: u64,
    c2: u64,
)
    requires
        own.len() == KIND_COUNT,
        shared.len() == KIND_COUNT,
    ensures
        scheduled(scheduled(shared, kind, c1), kind, c2) == scheduled(shared, kind, c2),
        collected(own, scheduled(scheduled(shared, kind, c1), kind, c2))[kind.spec_index()] == Some(c2),
{
    assert(scheduled(scheduled(shared, kind, c1), kind, c2) =~= scheduled(shared, kind, c2));
}

/// The dynamic requests waiting for the worker: at most one per kind.
#[derive(Debug)]
pub struct DynamicJobs {
    constants: Vec<Option<u64>>,
}

impl View for DynamicJobs {
    type V = Seq<Option<u64>>;

    closed spec fn view(&self) -> Seq<Option<u64>> {
        self.constants@
    }
}

impl DynamicJobs {
    /// No request pending.
    pub fn new() -> (r: DynamicJobs)
        ensures
            r@ == Seq::<Option<u64>>::new(KIND_COUNT as nat, |k: int| None),
    {
        let mut constants: Vec<Option<u64>> = Vec::new();
        constants.push(None);
        let r = DynamicJobs { constants };
        proof {
            assert(r@ =~= Seq::<Option<u64>>::new(KIND_COUNT as nat, |k: int| None));
        }
        r
    }

    /// Asks for the slice of `kind` at `constant`, replacing an older request
    /// for that kind. Returns whether the request is new, so that the worker
    /// must be woken.
    pub fn schedule(&mut self, kind: Kind, constant: u64) -> (wake: bool)
        requires
            old(self)@.len() == KIND_COUNT,
        ensures
            final(self)@ == scheduled(old(self)@, kind, constant),
            wake == (old(self)@[kind.spec_index()] != Some(constant)),
    {
        let k = kind.index();
        let wake = match self.constants[k] {
            Some(c) => c != constant,
            None => true,
        };
        self.constants.set(k, Some(constant));
        wake
    }

    /// Moves every request of `shared` into `self`; `shared` is left empty.
    pub fn collect(&mut self, shared: &mut DynamicJobs)
        requires
            old(self)@.len() == KIND_COUNT,
            old(shared)@.len() == KIND_COUNT,
        ensures
            final(self)@ == collected(old(self)@, old(shared)@),
            final(shared)@ == Seq::<Option<u64>>::new(KIND_COUNT as nat, |k: int| None),
    {
        let ghost own = self@;
        let ghost theirs = shared@;
        let mut k: usize = 0;
        while k < self.constants.len()
            invariant
                self@.len() == KIND_COUNT,
                shared@.len() == KIND_COUNT,
                own.len() == KIND_COUNT,
                theirs.len() == KIND_COUNT,
                k <= KIND_COUNT,
                forall|j: int| 0 <= j < k ==> self@[j] == collected(own, theirs)[j],
                forall|j: int| k <= j < KIND_COUNT ==> self@[j] == own[j],
                forall|j: int| 0 <= j < k ==> shared@[j] is None,
                forall|j: int| k <= j < KIND_COUNT ==> shared@[j] == theirs[j],
            decreases KIND_COUNT - k,
        {
            if let Some(c) = shared.constants[k] {
                self.constants.set(k, Some(c));
                shared.constants.set(k, None);
            }
            k = k + 1;
        }
        proof {
            assert(self@ =~= collected(own, theirs));
            assert(shared@ =~= Seq::<Option<u64>>::new(KIND_COUNT as nat, |k: int| None));
        }
    }

    /// Whether any request is pending.
    pub fn is_empty(&self) -> (r: bool)
        requires
            self@.len() == KIND_COUNT,
        ensures
            r == (first_pending(self@, 0) == KIND_COUNT),
    {
        first_pending_kind(&self.constants) == self.constants.len()
    }

    /// Takes out the request of the first kind that has one.
    pub fn take_first(&mut self) -> (r: Option<Job>)
        requires
            old(self)@.len() == KIND_COUNT,
        ensures
            ({
                let k = first_pending(old(self)@, 0);
                if k < KIND_COUNT {
                    &&& r matches Some(job)
                    &&& job.kind.spec_index() == k
                    &&& Some(job.constant) == old(self)@[k]
                    &&& final(self)@ == old(self)@.update(k, None)
                } else {
                    &&& r is None
                    &&& final(self)@ == old(self)@
                }
            }),
    {
        let k = first_pending_kind(&self.constants);
        proof {
            lemma_first_pending(self@, 0);
        }
        if k < self.constants.len() {
            if let Some(constant) = self.constants[k] {
                self.constants.set(k, None);
                return Some(Job { kind: Kind::from_index(k), constant });
            }
        }
        None
    }
}

/// Returns the first kind with a pending request.
fn first_pending_kind(jobs: &Vec<Option<u64>>) -> (r: usize)
    ensures
        r == first_pending(jobs@, 0),
{
    let mut i: usize = 0;
    while i < jobs.len() && jobs[i].is_none()
        invariant
            i <= jobs@.len(),
            first_pending(jobs@, 0) == first_pending(jobs@, i as int),
        decreases jobs@.len() - i,
    {
        i = i + 1;
    }
    i
}

/// The grid index built `i`-th from the last: first, last, first + 1,
/// last - 1, and so on inward, so that the whole range is covered early.
pub open spec fn spread_index(n: int, i: int) -> int {
    if i % 2 == 0 {
        i / 2
    } else {
        n - 1 - i / 2
    }
}

/// The constant of grid index `idx` when `n` fixed slices are spread evenly
/// over one turn: `idx / n` of a turn, so every constant lies in
/// `[0, TICKS_PER_TURN)`.
pub open spec fn fixed_constant(n: int, idx: int) -> int {
    idx * (TICKS_PER_TURN as int) / n
}

/// The `j`-th entry of the fixed-slice worklist for `n` slices. The worker
/// takes entries from the end.
pub open spec fn fixed_job(n: int, j: int) -> Job {
    Job {
        kind: Kind::OkhsvHueSlice,
        constant: fixed_constant(n, spread_index(n, n - 1 - j)) as u64,
    }
}

/// Where grid index `idx` stands in the spread order of `n`.
pub open spec fn spread_position(n: int, idx: int) -> int {
    if 2 * idx < n {
        2 * idx
    } else {
        2 * (n - 1 - idx) + 1
    }
}

/// The fixed-slice worklist visits every grid index exactly once: the spread
/// order is a permutation of `0..n`, with `spread_position` as its inverse.
pub proof fn lemma_spread_is_permutation(n: int)
    requires
        n >= 2,
    ensures
        forall|i: int| 0 <= i < n ==> 0 <= #[trigger] spread_index(n, i) < n,
        forall|i: int, j: int|
            0 <= i < n && 0 <= j < n && i != j ==> #[trigger] spread_index(n, i) != #[trigger] spread_index(
                n,
                j,
            ),
        forall|idx: int|
            0 <= idx < n ==> 0 <= #[trigger] spread_position(n, idx) < n && spread_index(
                n,
                spread_position(n, idx),
            ) == idx,
{
}

/// The constant of grid index `idx` out of `n`.
fn fixed_slice_constant(n: u32, idx: u32) -> (r: u64)
    requires
        n >= 2,
        idx < n,
    ensures
        r == fixed_constant(n as int, idx as int),
        r < TICKS_PER_TURN,
{
    let t = TICKS_PER_TURN;
    let d = n as u64;
    proof {
        vstd::arithmetic::mul::lemma_mul_strict_inequality(idx as int, d as int, t as int);
        vstd::arithmetic::mul::lemma_mul_is_commutative(d as int, t as int);
        vstd::arithmetic::div_mod::lemma_multiply_divide_lt((idx as int) * (t as int), d as int, t as int);
        assert((idx as int) * (t as int) <= 0xffff_ffff_ffff_ffff) by (nonlinear_arith)
            requires
                idx <= 0xffff_ffff,
                t == 4294967296,
        ;
    }
    (idx as u64) * t / d
}

/// Grid constants strictly increase with the grid index: one step of the
/// grid is more than a tick, since a turn has more ticks than any slice count.
proof fn lemma_fixed_constant_increases(n: int, i: int, j: int)
    requires
        2 <= n <= 0xffff_ffff,
        0 <= i < j,
    ensures
        fixed_constant(n, i) < fixed_constant(n, j),
{
    let t = TICKS_PER_TURN as int;
    assert(n + i * t <= j * t) by (nonlinear_arith)
        requires
            i < j,
            n <= 0xffff_ffff,
            t == 4294967296,
    ;
    vstd::arithmetic::div_mod::lemma_div_is_ordered(n + i * t, j * t, n);
    vstd::arithmetic::div_mod::lemma_div_plus_one(i * t, n);
}

/// The fixed-slice worklist for `num_slices` slices of every kind, in the
/// order of `fixed_job`.
pub fn create_fixed_slice_jobs(num_slices: u32) -> (r: Vec<Job>)
    requires
        num_slices >= 2,
    ensures
        r@.len() == num_slices,
        forall|j: int| 0 <= j < num_slices ==> #[trigger] r@[j] == fixed_job(num_slices as int, j),
        forall|j: int| 0 <= j < num_slices ==> #[trigger] r@[j].constant < TICKS_PER_TURN,
        forall|a: int, b: int|
            0 <= a < b < num_slices ==> #[trigger] r@[a].constant != #[trigger] r@[b].constant,
{
    let mut jobs: Vec<Job> = Vec::new();
    let mut i: u32 = num_slices;
    while i > 0
        invariant
            num_slices >= 2,
            i <= num_slices,
            jobs@.len() == num_slices - i,
            forall|j: int|
                0 <= j < jobs@.len() ==> #[trigger] jobs@[j] == fixed_job(num_slices as int, j),
            forall|j: int| 0 <= j < jobs@.len() ==> #[trigger] jobs@[j].constant < TICKS_PER_TURN,
            forall|j: int|
                0 <= j < jobs@.len() ==> #[trigger] jobs@[j].constant == fixed_constant(
                    num_slices as int,
                    spread_index(num_slices as int, num_slices - 1 - j),
                ),
        decreases i,
    {
        i = i - 1;
        let idx: u32 = if i % 2 == 0 {
            i / 2
        } else {
            num_slices - 1 - i / 2
        };
        let constant = fixed_slice_constant(num_slices, idx);
        jobs.push(Job { kind: Kind::OkhsvHueSlice, constant });
    }
    proof {
        let n = num_slices as int;
        lemma_spread_is_permutation(n);
        assert forall|a: int, b: int| 0 <= a < b < n implies #[trigger] jobs@[a].constant
            != #[trigger] jobs@[b].constant by {
            let ia = spread_index(n, n - 1 - a);
            let ib = spread_index(n, n - 1 - b);
            assert(ia != ib);
            if ia < ib {
                lemma_fixed_constant_increases(n, ia, ib);
            } else {
                lemma_fixed_constant_increases(n, ib, ia);
            }
        }
    }
    jobs
}

/// What the worker does next.
#[derive(Clone, Copy, Debug, PartialEq, Eq, Structural)]
pub enum WorkerStep {
    /// Stop: the cache is being destroyed.
    Exit,
    /// Sleep until woken: nothing to build.
    Wait,
    /// Build this slice and make it the dynamic slice of its kind.
    BuildDynamic(Job),
    /// Build this slice and add it to the fixed slices of its kind.
    BuildFixed(Job),
}

/// The worker's own job lists, as a mathematical value.
pub struct WorkerModel {
    pub dynamic: Seq<Option<u64>>,
    pub fixed: Seq<Job>,
}

/// The worker's own job lists: the dynamic requests it has taken over, and
/// what is left of the fixed-slice worklist.
#[derive(Debug)]
pub struct WorkerQueue {
    dynamic_jobs: DynamicJobs,
    fixed_jobs: Vec<Job>,
}

impl View for WorkerQueue {
    type V = WorkerModel;

    closed spec fn view(&self) -> WorkerModel {
        WorkerModel { dynamic: self.dynamic_jobs@, fixed: self.fixed_jobs@ }
    }
}

impl WorkerQueue {
    /// No dynamic request, and the whole fixed-slice worklist.
    pub fn new(settings: CacheSettings) -> (r: WorkerQueue)
        requires
            settings.num_fixed_slices >= 2,
        ensures
            r@.dynamic == Seq::<Option<u64>>::new(KIND_COUNT as nat, |k: int| None),
            r@.fixed.len() == settings.num_fixed_slices,
            forall|j: int|
                0 <= j < settings.num_fixed_slices ==> #[trigger] r@.fixed[j] == fixed_job(
                    settings.num_fixed_slices as int,
                    j,
                ),
            forall|j: int|
                0 <= j < settings.num_fixed_slices ==> #[trigger] r@.fixed[j].constant
                    < TICKS_PER_TURN,
            forall|a: int, b: int|
                0 <= a < b < settings.num_fixed_slices ==> #[trigger] r@.fixed[a].constant
                    != #[trigger] r@.fixed[b].constant,
    {
        WorkerQueue {
            dynamic_jobs: DynamicJobs::new(),
            fixed_jobs: create_fixed_slice_jobs(settings.num_fixed_slices),
        }
    }

    /// Takes over the requests of `shared`, which is left empty; a newer
    /// request for a kind replaces the one held.
    pub fn collect(&mut self, shared: &mut DynamicJobs)
        requires
            old(self)@.dynamic.len() == KIND_COUNT,
            old(shared)@.len() == KIND_COUNT,
        ensures
            final(self)@.dynamic == collected(old(self)@.dynamic, old(shared)@),
            final(self)@.fixed == old(self)@.fixed,
            final(shared)@ == Seq::<Option<u64>>::new(KIND_COUNT as nat, |k: int| None),
    {
        self.dynamic_jobs.collect(shared);
    }

    /// Whether anything is left to build.
    pub fn has_any_jobs(&self) -> (r: bool)
        requires
            self@.dynamic.len() == KIND_COUNT,
        ensures
            r == (first_pending(self@.dynamic, 0) < KIND_COUNT || self@.fixed.len() > 0),
    {
        proof {
            lemma_first_pending(self@.dynamic, 0);
        }
        !self.dynamic_jobs.is_empty() || self.fixed_jobs.len() > 0
    }

    /// Decides the worker's next step and takes the job it builds off its
    /// list. Once the cache stops running the answer is `Exit`, whatever is
    /// left; otherwise dynamic requests come before the fixed worklist.
    pub fn next_step(&mut self, running: bool) -> (r: WorkerStep)
        requires
            old(self)@.dynamic.len() == KIND_COUNT,
        ensures
            final(self)@.dynamic.len() == KIND_COUNT,
            !running ==> r == WorkerStep::Exit && final(self)@ == old(self)@,
            running && first_pending(old(self)@.dynamic, 0) < KIND_COUNT ==> {
                let k = first_pending(old(self)@.dynamic, 0);
                &&& r matches WorkerStep::BuildDynamic(job)
                &&& job.kind.spec_index() == k
                &&& Some(job.constant) == old(self)@.dynamic[k]
                &&& final(self)@.dynamic == old(self)@.dynamic.update(k, None)
                &&& final(self)@.fixed == old(self)@.fixed
            },
            running && first_pending(old(self)@.dynamic, 0) == KIND_COUNT && old(self)@.fixed.len()
                > 0 ==> {
                &&& r == WorkerStep::BuildFixed(old(self)@.fixed.last())
                &&& final(self)@.dynamic == old(self)@.dynamic
                &&& final(self)@.fixed == old(self)@.fixed.drop_last()
            },
            running && first_pending(old(self)@.dynamic, 0) == KIND_COUNT && old(self)@.fixed.len()
                == 0 ==> r == WorkerStep::Wait && final(self)@ == old(self)@,
    {
        if !running {
            return WorkerStep::Exit;
        }
        proof {
            lemma_first_pending(self@.dynamic, 0);
        }
        if let Some(job) = self.dynamic_jobs.take_first() {
            return WorkerStep::BuildDynamic(job);
        }
        match self.fixed_jobs.pop() {
            Some(job) => WorkerStep::BuildFixed(job),
            None => WorkerStep::Wait,
        }
    }
}

/// Asks the worker for the slice of `kind` at `constant` unless `hit` is
/// exact. Returns whether the worker must be woken.
pub fn schedule_unless_exact<A>(
    jobs: &mut DynamicJobs,
    hit: &Option<CacheHit<A>>,
    kind: Kind,
    constant: u64,
) -> (wake: bool)
    requires
        old(jobs)@.len() == KIND_COUNT,
    ensures
        *hit matches Some(CacheHit::Exact { .. }) ==> final(jobs)@ == old(jobs)@ && !wake,
        !(*hit matches Some(CacheHit::Exact { .. })) ==> final(jobs)@ == scheduled(
            old(jobs)@,
            kind,
            constant,
        ) && wake == (old(jobs)@[kind.spec_index()] != Some(constant)),
{
    if let Some(CacheHit::Exact { .. }) = hit {
        false
    } else {
        jobs.schedule(kind, constant)
    }
}

/// Looks up `constant` among the slices of `kind`; unless the answer is
/// exact, asks the worker for that slice. Returns the answer and whether the
/// worker must be woken.
pub fn get_or_schedule<A: Clone>(
    slices: &SliceStore<A>,
    jobs: &mut DynamicJobs,
    kind: Kind,
    constant: u64,
) -> (r: (Option<CacheHit<A>>, bool))
    requires
        slices.wf(),
        old(jobs)@.len() == KIND_COUNT,
    ensures
        hit_cloned(r.0, lookup(slices.slices(kind).fixed, slices.slices(kind).dynamic, constant)),
        lookup(slices.slices(kind).fixed, slices.slices(kind).dynamic, constant) matches Some(
            CacheHit::Exact { .. },
        ) ==> final(jobs)@ == old(jobs)@ && !r.1,
        !(lookup(slices.slices(kind).fixed, slices.slices(kind).dynamic, constant) matches Some(
            CacheHit::Exact { .. },
        )) ==> final(jobs)@ == scheduled(old(jobs)@, kind, constant) && r.1 == (
        old(jobs)@[kind.spec_index()] != Some(constant)),
{
    let hit = slices.get(kind, constant);
    let wake = schedule_unless_exact(jobs, &hit, kind, constant);
    (hit, wake)
}

} // verus!
