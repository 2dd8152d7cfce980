//! The spatial acceleration tree: an r-tree of element boxes together with
//! the reverse index that lets the boxes of one element be replaced or
//! removed.
//!
//! The r-tree keeps boxes by position only; replacing or removing the boxes
//! of one element therefore needs a reverse index from the element's
//! reference number to the boxes it currently has in the tree. The tree and
//! the index change together, and the invariant of an
//! `AccelerationTree` states that the tree holds exactly the boxes that the
//! index lists. The index keeps each element's boxes in a `SmallVec`, as
//! most elements have a single box.
//!
//! Boxes come with IEEE-754 single-precision corners, given by their bit
//! patterns. The tree orders them by an integer key per coordinate that
//! follows the order of the numbers they stand for (see `coord_key`).

use vstd::prelude::*;
use vstd::multiset::Multiset;
use std::collections::HashMap;
use std::collections::HashSet;
use crate::refno::RefU64;
use crate::spatial::BoxTree;
use crate::spatial::Corners;
use crate::spatial::TreeEntry;
use crate::spatial::encloses;
use crate::spatial::bounded;
use crate::spatial::meets;
use crate::spatial::ordered;
use crate::spatial::tree_entries;
use smallvec::SmallVec;

verus! {

broadcast use vstd::std_specs::hash::group_hash_axioms;

/// An axis-aligned box given by the IEEE-754 bit patterns of its corners.
/// Two boxes are the same box exactly when these patterns agree.
#[derive(Debug, Clone, Copy, PartialEq, Eq, Hash, Structural)]
pub struct AabbBits {
    pub min_x: u32,
    pub min_y: u32,
    pub min_z: u32,
    pub max_x: u32,
    pub max_y: u32,
    pub max_z: u32,
}

/// One entry of the spatial tree: a box, the element it belongs to and the
/// element's noun (kept for filtering).
#[derive(Debug, Clone)]
pub struct RStarBoundingBox {
    pub aabb: AabbBits,
    pub refno: RefU64,
    pub noun: String,
}

impl RStarBoundingBox {
    /// A tree entry for `refno` with the given noun.
    pub fn new(aabb: AabbBits, refno: RefU64, noun: String) -> (r: Self)
        ensures
            r.aabb == aabb,
            r.refno == refno,
            r.noun@ == noun@,
    {
        RStarBoundingBox { aabb, refno, noun }
    }

    /// A tree entry for `refno` whose noun is not known (`"UNSET"`).
    pub fn from_aabb(aabb: AabbBits, refno: RefU64) -> (r: Self)
        ensures
            r.aabb == aabb,
            r.refno == refno,
            r.noun@ == "UNSET"@,
    {
        RStarBoundingBox { aabb, refno, noun: String::from_str("UNSET") }
    }

    /// A copy of this entry.
    pub fn duplicate(&self) -> (r: Self)
        ensures
            r == *self,
    {
        RStarBoundingBox { aabb: self.aabb, refno: self.refno, noun: self.noun.clone() }
    }
}

/// The boxes of one element, in the index: a `SmallVec` with room for one
/// box in place, as most elements have a single box.
#[verifier::external_body]
pub struct BoxList {
    items: SmallVec<[RStarBoundingBox; 1]>,
}

/// What a box list holds, in order.
pub uninterp spec fn listed_boxes(l: BoxList) -> Seq<RStarBoundingBox>;

impl View for BoxList {
    type V = Seq<RStarBoundingBox>;

    open spec fn view(&self) -> Seq<RStarBoundingBox> {
        listed_boxes(*self)
    }
}

impl BoxList {
    /// `SmallVec::new`: an empty list.
    #[verifier::external_body]
    fn new() -> (l: Self)
        ensures
            listed_boxes(l) == Seq::<RStarBoundingBox>::empty(),
    {
        BoxList { items: SmallVec::new() }
    }

    /// `SmallVec::push`: the box is appended. (As with `Vec::push`, a list
    /// that outgrows the address space makes it panic; nothing here states
    /// that.)
    #[verifier::external_body]
    fn push(&mut self, b: RStarBoundingBox)
        ensures
            listed_boxes(*final(self)) == listed_boxes(*old(self)).push(b),
    {
        self.items.push(b);
    }

    /// `SmallVec::len`: the number of boxes.
    #[verifier::external_body]
    fn len(&self) -> (n: usize)
        ensures
            n == listed_boxes(*self).len(),
    {
        self.items.len()
    }

    /// Indexing a `SmallVec`: the box at position `i`.
    #[verifier::external_body]
    fn get(&self, i: usize) -> (b: &RStarBoundingBox)
        requires
            i < listed_boxes(*self).len(),
        ensures
            *b == listed_boxes(*self)[i as int],
    {
        &self.items[i]
    }

    /// `SmallVec::into_vec`: the same boxes in a `Vec`.
    #[verifier::external_body]
    fn into_vec(self) -> (v: Vec<RStarBoundingBox>)
        ensures
            v@ == listed_boxes(self),
    {
        self.items.into_vec()
    }
}

/// The key of one coordinate, from the bit pattern of the number: the
/// magnitude bits, negated when the sign bit is set; every NaN gets one key
/// above that of +infinity. Keys compare as `rstar` compares the numbers
/// (through `RTreeNum::ord`, which for `f32` is `OrderedFloat`: NaN
/// largest, all NaNs equal, -0.0 equal to 0.0), and both zeros get key 0.
pub open spec fn coord_key(bits: u32) -> int {
    let magnitude: int = if bits < 0x8000_0000 { bits as int } else { bits - 0x8000_0000 };
    if magnitude > 0x7f80_0000 {
        0x7f80_0001
    } else if bits < 0x8000_0000 {
        magnitude
    } else {
        -magnitude
    }
}

/// Computes `coord_key`.
pub fn coord_key_of(bits: u32) -> (k: i128)
    ensures
        k == coord_key(bits),
        -0x7f80_0000 <= k <= 0x7f80_0001,
{
    let magnitude: u32 = if bits < 0x8000_0000 { bits } else { bits - 0x8000_0000 };
    if magnitude > 0x7f80_0000 {
        0x7f80_0001
    } else if bits < 0x8000_0000 {
        magnitude as i128
    } else {
        -(magnitude as i128)
    }
}

/// The smaller of two keys.
pub open spec fn lesser(a: int, b: int) -> int {
    if a <= b { a } else { b }
}

/// The larger of two keys.
pub open spec fn greater(a: int, b: int) -> int {
    if a <= b { b } else { a }
}

/// The corner keys of a box, each axis ordered as `rstar` orders the two
/// corners it is given.
pub open spec fn corners_of(a: AabbBits) -> Corners {
    (
        lesser(coord_key(a.min_x), coord_key(a.max_x)) as i128,
        lesser(coord_key(a.min_y), coord_key(a.max_y)) as i128,
        lesser(coord_key(a.min_z), coord_key(a.max_z)) as i128,
        greater(coord_key(a.min_x), coord_key(a.max_x)) as i128,
        greater(coord_key(a.min_y), coord_key(a.max_y)) as i128,
        greater(coord_key(a.min_z), coord_key(a.max_z)) as i128,
    )
}

/// Orders two keys.
fn order_pair(a: i128, b: i128) -> (r: (i128, i128))
    ensures
        r.0 == lesser(a as int, b as int),
        r.1 == greater(a as int, b as int),
{
    if a <= b { (a, b) } else { (b, a) }
}

/// Computes `corners_of`.
pub fn corners_of_box(a: AabbBits) -> (c: Corners)
    ensures
        c == corners_of(a),
        ordered(c),
        bounded(c),
{
    let x = order_pair(coord_key_of(a.min_x), coord_key_of(a.max_x));
    let y = order_pair(coord_key_of(a.min_y), coord_key_of(a.max_y));
    let z = order_pair(coord_key_of(a.min_z), coord_key_of(a.max_z));
    (x.0, y.0, z.0, x.1, y.1, z.1)
}

/// The tree entry that stands for a box.
pub open spec fn entry_of(b: RStarBoundingBox) -> TreeEntry {
    (corners_of(b.aabb), b.refno.0)
}

/// Computes `entry_of`.
pub fn entry_key(b: &RStarBoundingBox) -> (e: TreeEntry)
    ensures
        e == entry_of(*b),
        ordered(e.0),
        bounded(e.0),
{
    (corners_of_box(b.aabb), b.refno.0)
}

/// The tree entries that stand for a sequence of boxes.
pub open spec fn entries_of(s: Seq<RStarBoundingBox>) -> Multiset<TreeEntry> {
    s.map_values(|b: RStarBoundingBox| entry_of(b)).to_multiset()
}

/// The entries of `s` that belong to `r`, in their order in `s`.
pub open spec fn with_refno(s: Seq<RStarBoundingBox>, r: u64) -> Seq<RStarBoundingBox>
    decreases s.len(),
{
    if s.len() == 0 {
        s
    } else {
        let rest = with_refno(s.drop_last(), r);
        if s.last().refno.0 == r {
            rest.push(s.last())
        } else {
            rest
        }
    }
}

/// Whether some entry of `s` belongs to `r`.
pub open spec fn mentions(s: Seq<RStarBoundingBox>, r: u64) -> bool {
    with_refno(s, r).len() > 0
}

/// Appending one entry to a sequence appends it to the entries of its refno
/// and leaves the entries of every other refno alone.
pub proof fn lemma_with_refno_push(s: Seq<RStarBoundingBox>, e: RStarBoundingBox, r: u64)
    ensures
        with_refno(s.push(e), r) == if e.refno.0 == r {
            with_refno(s, r).push(e)
        } else {
            with_refno(s, r)
        },
{
    assert(s.push(e).drop_last() =~= s);
}

/// Every entry listed for `r` belongs to `r`.
pub proof fn lemma_with_refno_belongs(s: Seq<RStarBoundingBox>, r: u64)
    ensures
        forall|i: int| 0 <= i < with_refno(s, r).len() ==> (#[trigger] with_refno(s, r)[i]).refno.0 == r,
    decreases s.len(),
{
    if s.len() > 0 {
        lemma_with_refno_belongs(s.drop_last(), r);
        let rest = with_refno(s.drop_last(), r);
        assert forall|i: int| 0 <= i < with_refno(s, r).len() implies (#[trigger] with_refno(
            s,
            r,
        )[i]).refno.0 == r by {
            if i < rest.len() {
                assert(with_refno(s, r)[i] == rest[i]);
            }
        }
    }
}

/// A refno mentioned in a prefix is mentioned in the whole sequence.
pub proof fn lemma_mentions_prefix(s: Seq<RStarBoundingBox>, n: int, r: u64)
    requires
        0 <= n <= s.len(),
        mentions(s.take(n), r),
    ensures
        mentions(s, r),
    decreases s.len(),
{
    if n < s.len() {
        assert(s.drop_last().take(n) =~= s.take(n));
        lemma_mentions_prefix(s.drop_last(), n, r);
    } else {
        assert(s.take(n) =~= s);
    }
}

/// The index after a batch has been synchronised: every refno of the batch
/// holds exactly the batch's boxes for it (in batch order), every other
/// refno keeps what it had.
pub open spec fn synced(m: Map<u64, Seq<RStarBoundingBox>>, batch: Seq<RStarBoundingBox>) -> Map<
    u64,
    Seq<RStarBoundingBox>,
> {
    Map::new(
        |k: u64| mentions(batch, k) || m.contains_key(k),
        |k: u64|
            if mentions(batch, k) {
                with_refno(batch, k)
            } else {
                m[k]
            },
    )
}

/// The boxes that a synchronisation takes out of the tree: the old boxes of
/// each refno of the batch, refno by refno in the order in which the refnos
/// first occur in the batch.
pub open spec fn stale_boxes(m: Map<u64, Seq<RStarBoundingBox>>, batch: Seq<RStarBoundingBox>) -> Seq<
    RStarBoundingBox,
>
    decreases batch.len(),
{
    if batch.len() == 0 {
        Seq::empty()
    } else {
        let prefix = batch.drop_last();
        let r = batch.last().refno.0;
        stale_boxes(m, prefix) + if m.contains_key(r) && !mentions(prefix, r) {
            m[r]
        } else {
            Seq::empty()
        }
    }
}

/// The index with every refno mentioned in `batch` taken out.
pub open spec fn without_batch(m: Map<u64, Seq<RStarBoundingBox>>, batch: Seq<RStarBoundingBox>) -> Map<
    u64,
    Seq<RStarBoundingBox>,
> {
    Map::new(|k: u64| m.contains_key(k) && !mentions(batch, k), |k: u64| m[k])
}

/// The tree entries that stand for every box that an index lists.
pub open spec fn all_entries(m: Map<u64, Seq<RStarBoundingBox>>) -> Multiset<TreeEntry>
    decreases m.dom().len(),
    when m.dom().finite()
{
    if m.dom().len() > 0 {
        let k = m.dom().choose();
        entries_of(m[k]).add(all_entries(m.remove(k)))
    } else {
        Multiset::empty()
    }
}

/// Appending a box to a sequence adds its entry.
pub proof fn lemma_entries_push(s: Seq<RStarBoundingBox>, b: RStarBoundingBox)
    ensures
        entries_of(s.push(b)) == entries_of(s).insert(entry_of(b)),
{
    broadcast use vstd::seq_lib::group_to_multiset_ensures;

    let f = |x: RStarBoundingBox| entry_of(x);
    assert(s.push(b).map_values(f) =~= s.map_values(f).push(entry_of(b)));
}

/// No entry of a sequence of boxes of other refnos carries `e`'s refno.
pub proof fn lemma_entries_other_refno(s: Seq<RStarBoundingBox>, e: TreeEntry)
    requires
        forall|i: int| 0 <= i < s.len() ==> (#[trigger] s[i]).refno.0 != e.1,
    ensures
        entries_of(s).count(e) == 0,
{
    broadcast use vstd::seq_lib::group_to_multiset_ensures;

    let t = s.map_values(|x: RStarBoundingBox| entry_of(x));
    if t.contains(e) {
        let i = choose|i: int| 0 <= i < t.len() && t[i] == e;
        assert(s[i].refno.0 == e.1);
    }
}

/// An entry of a sequence stands for one of its boxes.
pub proof fn lemma_entries_witness(s: Seq<RStarBoundingBox>, e: TreeEntry)
    requires
        entries_of(s).count(e) > 0,
    ensures
        exists|i: int| 0 <= i < s.len() && entry_of(#[trigger] s[i]) == e,
{
    broadcast use vstd::seq_lib::group_to_multiset_ensures;

    let t = s.map_values(|x: RStarBoundingBox| entry_of(x));
    assert(t.contains(e));
    let i = choose|i: int| 0 <= i < t.len() && t[i] == e;
    assert(entry_of(s[i]) == e);
}

/// Taking one refno out of an index takes exactly its entries out.
pub proof fn lemma_all_entries_remove(m: Map<u64, Seq<RStarBoundingBox>>, k: u64)
    requires
        m.dom().finite(),
        m.contains_key(k),
    ensures
        all_entries(m) == entries_of(m[k]).add(all_entries(m.remove(k))),
    decreases m.dom().len(),
{
    broadcast use vstd::multiset::group_multiset_axioms;

    let c = m.dom().choose();
    assert(m.dom().len() > 0);
    if c != k {
        lemma_all_entries_remove(m.remove(c), k);
        lemma_all_entries_remove(m.remove(k), c);
        assert(m.remove(c).remove(k) =~= m.remove(k).remove(c));
        assert(all_entries(m) =~= entries_of(m[k]).add(all_entries(m.remove(k))));
    }
}

/// Giving a refno a new list replaces its entries.
pub proof fn lemma_all_entries_insert(m: Map<u64, Seq<RStarBoundingBox>>, k: u64, v: Seq<RStarBoundingBox>)
    requires
        m.dom().finite(),
    ensures
        all_entries(m.insert(k, v)) == entries_of(v).add(all_entries(m.remove(k))),
{
    lemma_all_entries_remove(m.insert(k, v), k);
    assert(m.insert(k, v).remove(k) =~= m.remove(k));
}

/// In an index whose lists hold only boxes of their own refno, an entry can
/// only come from the list of its refno.
pub proof fn lemma_all_entries_count(m: Map<u64, Seq<RStarBoundingBox>>, e: TreeEntry)
    requires
        m.dom().finite(),
        forall|k: u64, i: int| #[trigger] m.contains_key(k) && 0 <= i < m[k].len()
            ==> (#[trigger] m[k][i]).refno.0 == k,
    ensures
        all_entries(m).count(e) == if m.contains_key(e.1) { entries_of(m[e.1]).count(e) } else { 0 },
    decreases m.dom().len(),
{
    broadcast use vstd::multiset::group_multiset_axioms;

    if m.dom().len() > 0 {
        let c = m.dom().choose();
        assert(m.contains_key(c));
        lemma_all_entries_count(m.remove(c), e);
        if c != e.1 {
            assert forall|i: int| 0 <= i < m[c].len() implies (#[trigger] m[c][i]).refno.0 != e.1 by {
                assert(m[c][i].refno.0 == c);
            }
            lemma_entries_other_refno(m[c], e);
        }
    } else {
        assert(!m.contains_key(e.1));
    }
}

/// The entries of an empty index.
pub proof fn lemma_all_entries_empty()
    ensures
        all_entries(Map::<u64, Seq<RStarBoundingBox>>::empty()) == Multiset::<TreeEntry>::empty(),
{
    assert(Map::<u64, Seq<RStarBoundingBox>>::empty().dom() =~= Set::<u64>::empty());
}

/// Appending a box to the list of its refno adds its entry.
pub proof fn lemma_all_entries_add_box(
    m: Map<u64, Seq<RStarBoundingBox>>,
    k: u64,
    list: Seq<RStarBoundingBox>,
    b: RStarBoundingBox,
)
    requires
        m.dom().finite(),
        list == if m.contains_key(k) { m[k] } else { Seq::<RStarBoundingBox>::empty() },
    ensures
        all_entries(m.insert(k, list.push(b))) == all_entries(m).insert(entry_of(b)),
{
    broadcast use vstd::multiset::group_multiset_axioms;
    broadcast use vstd::seq_lib::group_to_multiset_ensures;

    lemma_all_entries_insert(m, k, list.push(b));
    lemma_entries_push(list, b);
    if m.contains_key(k) {
        lemma_all_entries_remove(m, k);
    } else {
        assert(m.remove(k) =~= m);
        assert(list.map_values(|x: RStarBoundingBox| entry_of(x)) =~= Seq::<TreeEntry>::empty());
        assert(entries_of(list).len() == 0);
        assert(entries_of(list) =~= Multiset::<TreeEntry>::empty());
    }
    assert(all_entries(m.insert(k, list.push(b))) =~= all_entries(m).insert(entry_of(b)));
}

/// The entries of two sequences one after the other are the entries of
/// each.
pub proof fn lemma_entries_concat(a: Seq<RStarBoundingBox>, b: Seq<RStarBoundingBox>)
    ensures
        entries_of(a + b) == entries_of(a).add(entries_of(b)),
{
    let f = |x: RStarBoundingBox| entry_of(x);
    assert((a + b).map_values(f) =~= a.map_values(f) + b.map_values(f));
    vstd::seq_lib::lemma_multiset_commutative(a.map_values(f), b.map_values(f));
}

/// The corner keys of a box are ordered and within `KEY_BOUND`.
pub proof fn lemma_corners_bounded(a: AabbBits)
    ensures
        ordered(corners_of(a)),
        bounded(corners_of(a)),
{
}

/// Every entry of an index whose lists hold only boxes of their own refno
/// stands for one of its boxes, so its corners are ordered and bounded.
pub proof fn lemma_all_entries_bounded(m: Map<u64, Seq<RStarBoundingBox>>)
    requires
        m.dom().finite(),
        keyed_by_refno(m),
    ensures
        forall|e: TreeEntry| #[trigger] all_entries(m).count(e) > 0 ==> ordered(e.0) && bounded(e.0),
{
    assert forall|e: TreeEntry| #[trigger] all_entries(m).count(e) > 0 implies ordered(e.0) && bounded(e.0) by {
        lemma_all_entries_count(m, e);
        lemma_entries_witness(m[e.1], e);
        let i = choose|i: int| 0 <= i < m[e.1].len() && entry_of(#[trigger] m[e.1][i]) == e;
        lemma_corners_bounded(m[e.1][i].aabb);
    }
}

/// The entries of a sequence are as many as its boxes.
pub proof fn lemma_entries_len(s: Seq<RStarBoundingBox>)
    ensures
        entries_of(s).len() == s.len(),
{
    broadcast use vstd::seq_lib::group_to_multiset_ensures;

    assert(s.map_values(|x: RStarBoundingBox| entry_of(x)).len() == s.len());
}

/// Takes the entries of `boxes` out of `tree`, which holds them on top of
/// `rest`.
fn remove_entries(tree: &mut BoxTree, boxes: &Vec<RStarBoundingBox>, Ghost(rest): Ghost<Multiset<TreeEntry>>)
    requires
        tree_entries(*old(tree)) == entries_of(boxes@).add(rest),
    ensures
        tree_entries(*final(tree)) == rest,
        tree_entries(*old(tree)).len() == rest.len() + boxes@.len(),
{
    broadcast use vstd::multiset::group_multiset_axioms;

    proof {
        lemma_entries_len(boxes@);
    }
    let mut j: usize = boxes.len();
    assert(boxes@.take(j as int) =~= boxes@);
    while j > 0
        invariant
            j <= boxes@.len(),
            tree_entries(*tree) == entries_of(boxes@.take(j as int)).add(rest),
        decreases j,
    {
        j = j - 1;
        let e = entry_key(&boxes[j]);
        proof {
            assert(boxes@.take(j + 1) =~= boxes@.take(j as int).push(boxes@[j as int]));
            lemma_entries_push(boxes@.take(j as int), boxes@[j as int]);
        }
        tree.remove(e);
        proof {
            assert(tree_entries(*tree) =~= entries_of(boxes@.take(j as int)).add(rest));
        }
    }
    proof {
        broadcast use vstd::seq_lib::group_to_multiset_ensures;

        assert(boxes@.take(0).map_values(|x: RStarBoundingBox| entry_of(x)) =~= Seq::<TreeEntry>::empty());
        assert(entries_of(boxes@.take(0)) =~= Multiset::<TreeEntry>::empty());
        assert(tree_entries(*tree) =~= rest);
    }
}

/// The parts of the acceleration tree: the r-tree of element boxes, the set
/// of refnos that have boxes in it, and the reverse index from each such
/// refno to its boxes.
struct TreeIndex {
    tree: BoxTree,
    ids: HashSet<u64>,
    refno_index: HashMap<u64, BoxList>,
}

impl TreeIndex {
    /// The boxes of each refno, in the order in which they entered the tree.
    /// Under `wf` this is the whole state: the id set is its domain and the
    /// r-tree holds the entries of its boxes (`lemma_index_matches`).
    spec fn model(&self) -> Map<u64, Seq<RStarBoundingBox>> {
        Map::new(|k: u64| self.refno_index@.contains_key(k), |k: u64| self.refno_index@[k]@)
    }

    /// The refnos that the tree holds boxes for.
    spec fn ids(&self) -> Set<u64> {
        self.ids@
    }

    /// What the r-tree holds.
    spec fn entries(&self) -> Multiset<TreeEntry> {
        tree_entries(self.tree)
    }

    /// Well-formedness: the id set is the set of indexed refnos, every list
    /// is non-empty and holds only boxes of its own refno, and the r-tree
    /// holds exactly the entries of the listed boxes.
    spec fn wf(&self) -> bool {
        &&& self.ids@ == self.refno_index@.dom()
        &&& self.model().dom().finite()
        &&& forall|k: u64| #[trigger] self.model().contains_key(k) ==> self.model()[k].len() > 0
        &&& forall|k: u64, i: int| #[trigger] self.model().contains_key(k) && 0 <= i < self.model()[k].len()
            ==> (#[trigger] self.model()[k][i]).refno.0 == k
        &&& tree_entries(self.tree) == all_entries(self.model())
    }

    /// Number of boxes in the tree.
    spec fn spec_size(&self) -> nat {
        tree_entries(self.tree).len()
    }

    /// An empty tree.
    fn new() -> (r: Self)
        ensures
            r.wf(),
            r.model() == Map::<u64, Seq<RStarBoundingBox>>::empty(),
            r.spec_size() == 0,
    {
        let r = TreeIndex { tree: BoxTree::new(), ids: HashSet::new(), refno_index: HashMap::new() };
        proof {
            assert(r.model() =~= Map::<u64, Seq<RStarBoundingBox>>::empty());
            lemma_all_entries_empty();
            broadcast use vstd::multiset::group_multiset_axioms;
        }
        r
    }

    /// Number of boxes in the tree.
    fn size(&self) -> (r: usize)
        ensures
            r == self.spec_size(),
    {
        self.tree.size()
    }

    /// Whether the tree holds no box.
    fn is_empty(&self) -> (r: bool)
        ensures
            r == (self.spec_size() == 0),
    {
        self.tree.size() == 0
    }

    /// Whether the tree holds a box for `refno`.
    fn contains_id(&self, refno: RefU64) -> (r: bool)
        requires
            self.wf(),
        ensures
            r == self.model().contains_key(refno.0),
            r == self.ids().contains(refno.0),
    {
        self.ids.contains(&refno.0)
    }
}

impl TreeIndex {
    /// Takes every box of the given refnos out of the tree, and returns how
    /// many boxes left. Refnos without boxes are ignored; an empty set
    /// changes nothing.
    fn remove_by_refnos(&mut self, refnos: &HashSet<u64>) -> (removed: usize)
        requires
            old(self).wf(),
        ensures
            final(self).wf(),
            final(self).model() == old(self).model().remove_keys(refnos@),
            final(self).spec_size() == old(self).spec_size() - removed,
            final(self).entries() == outside_refnos(old(self).entries(), refnos@),
            removed == of_refnos(old(self).entries(), refnos@).len(),
            forall|r: u64| #[trigger] refnos@.contains(r) ==> !final(self).ids().contains(r),
    {
        let ghost m0 = self.model();
        let ghost size0 = self.spec_size();
        let ghost mut done: Set<u64> = Set::empty();
        let mut removed: usize = 0;
        // The tree counts its boxes in a `usize`, so `removed` cannot overflow.
        let _size: usize = self.tree.size();
        proof {
            lemma_entries_without_refnos(m0, refnos@);
            lemma_refno_split_len(tree_entries(self.tree), refnos@);
        }
        if refnos.is_empty() {
            proof {
                assert(refnos@ =~= Set::<u64>::empty());
                assert(m0.remove_keys(refnos@) =~= m0);
            }
            return 0;
        }
        for r in it: refnos.iter()
            invariant
                self.wf(),
                m0.dom().finite(),
                self.model() == m0.remove_keys(done),
                it.seq().unref().to_set() == refnos@,
                done == it.seq().take(it.index() as int).unref().to_set(),
                it.index() == it.seq().len() ==> done == refnos@,
                removed as int == size0 - self.spec_size(),
                size0 <= usize::MAX,
        {
            let ghost before = self.model();
            let key: u64 = *r;
            if let Some(listed) = self.refno_index.remove(&key) {
                let old_boxes = listed.into_vec();
                proof {
                    lemma_all_entries_remove(before, key);
                    lemma_entries_len(old_boxes@);
                    broadcast use vstd::multiset::group_multiset_axioms;
                }
                remove_entries(&mut self.tree, &old_boxes, Ghost(all_entries(before.remove(key))));
                removed = removed + old_boxes.len();
            } else {
                proof {
                    assert(before.remove(key) =~= before);
                }
            }
            self.ids.remove(&key);
            proof {
                let s = it.seq();
                let i = it.index() as int;
                assert(s.take(i + 1).unref() =~= s.take(i).unref().push(*r));
                s.take(i).unref().lemma_push_to_set_commute(*r);
                assert(s.take(s.len() as int) =~= s);
                assert(self.model() =~= before.remove(key));
                assert(self.ids@ =~= self.refno_index@.dom());
                done = done.insert(key);
                assert(self.model() =~= m0.remove_keys(done));
            }
        }
        proof {
            assert(self.ids@ =~= self.model().dom());
        }
        removed
    }
}

impl TreeIndex {
    /// Makes the given boxes the whole current state of their refnos: every
    /// box that the tree held for one of these refnos leaves it, then every
    /// box of the batch enters it. Returns the boxes that left, so that the
    /// caller can tell whether anything changed; a refno seen for the first
    /// time contributes nothing to it. An empty batch changes nothing.
    fn sync_refnos(&mut self, bboxes: Vec<RStarBoundingBox>) -> (stale: Vec<RStarBoundingBox>)
        requires
            old(self).wf(),
            old(self).spec_size() + bboxes@.len() <= usize::MAX,
        ensures
            final(self).wf(),
            final(self).model() == synced(old(self).model(), bboxes@),
            stale@ == stale_boxes(old(self).model(), bboxes@),
            final(self).spec_size() + stale@.len() == old(self).spec_size() + bboxes@.len(),
            final(self).entries().add(entries_of(stale@)) == old(self).entries().add(entries_of(bboxes@)),
            final(self).entries() == outside_refnos(old(self).entries(), batch_refnos(bboxes@)).add(
                entries_of(bboxes@),
            ),
            entries_of(stale@) == of_refnos(old(self).entries(), batch_refnos(bboxes@)),
            forall|r: u64| #[trigger] batch_refnos(bboxes@).contains(r) ==> final(self).ids().contains(r),
    {
        let ghost m0 = self.model();
        let ghost tree0 = tree_entries(self.tree);
        let ghost batch = bboxes@;
        let ghost size0 = self.spec_size() as int;
        let mut stale: Vec<RStarBoundingBox> = Vec::new();
        if bboxes.len() == 0 {
            proof {
                assert(synced(m0, batch) =~= m0);
                lemma_entries_len(stale@);
                lemma_entries_len(batch);
                broadcast use vstd::multiset::group_multiset_axioms;
                assert(entries_of(stale@) =~= Multiset::<TreeEntry>::empty());
                assert(entries_of(batch) =~= Multiset::<TreeEntry>::empty());
                assert(tree_entries(self.tree).add(entries_of(stale@)) =~= tree0.add(entries_of(batch)));
                lemma_sync_entries(m0, batch, stale@, tree0, tree_entries(self.tree));
                assert(batch_refnos(batch) =~= Set::<u64>::empty());
            }
            return stale;
        }
        proof {
            broadcast use vstd::multiset::group_multiset_axioms;
            lemma_entries_len(stale@);
            assert(entries_of(stale@) =~= Multiset::<TreeEntry>::empty());
            assert(tree_entries(self.tree).add(entries_of(stale@)) =~= tree0);
        }
        let n = bboxes.len();
        let mut i: usize = 0;
        while i < n
            invariant
                n == batch.len(),
                bboxes@ == batch,
                i <= n,
                self.wf(),
                size0 + n <= usize::MAX,
                self.model() == without_batch(m0, batch.take(i as int)),
                stale@ == stale_boxes(m0, batch.take(i as int)),
                self.spec_size() + stale@.len() == size0,
                tree_entries(self.tree).add(entries_of(stale@)) == tree0,
            decreases n - i,
        {
            let ghost before = self.model();
            let key: u64 = bboxes[i].refno.0;
            proof {
                assert(batch.take(i + 1) =~= batch.take(i as int).push(batch[i as int]));
                assert(batch.take(i + 1).drop_last() =~= batch.take(i as int));
                assert forall|k: u64| mentions(batch.take(i + 1), k) == (mentions(batch.take(i as int), k) || k == key) by {
                    lemma_with_refno_push(batch.take(i as int), batch[i as int], k);
                }
            }
            if let Some(listed) = self.refno_index.remove(&key) {
                let mut old_boxes = listed.into_vec();
                proof {
                    lemma_all_entries_remove(before, key);
                }
                let ghost tree_before = tree_entries(self.tree);
                let ghost stale_before = stale@;
                remove_entries(&mut self.tree, &old_boxes, Ghost(all_entries(before.remove(key))));
                let ghost moved = old_boxes@;
                stale.append(&mut old_boxes);
                proof {
                    broadcast use vstd::multiset::group_multiset_axioms;
                    lemma_entries_concat(stale_before, moved);
                    assert(tree_entries(self.tree).add(entries_of(stale@)) =~= tree_before.add(
                        entries_of(stale_before),
                    ));
                }
            } else {
                proof {
                    assert(before.remove(key) =~= before);
                }
            }
            self.ids.remove(&key);
            i = i + 1;
            proof {
                assert(self.model() =~= before.remove(key));
                assert(self.ids@ =~= self.refno_index@.dom());
                assert(self.model() =~= without_batch(m0, batch.take(i as int)));
            }
        }
        proof {
            assert(batch.take(n as int) =~= batch);
        }
        let ghost mid = self.model();
        let ghost stale_len = stale@.len();
        let ghost mid_tree = tree_entries(self.tree);
        proof {
            broadcast use vstd::multiset::group_multiset_axioms;
            broadcast use vstd::seq_lib::group_to_multiset_ensures;
            assert(batch.take(0).map_values(|x: RStarBoundingBox| entry_of(x)) =~= Seq::<TreeEntry>::empty());
            assert(entries_of(batch.take(0)) =~= Multiset::<TreeEntry>::empty());
            assert(mid_tree.add(entries_of(batch.take(0))) =~= mid_tree);
        }
        for b in it: bboxes
            invariant
                it.seq() == batch,
                mid == without_batch(m0, batch),
                self.ids@ == self.refno_index@.dom(),
                self.model().dom().finite(),
                forall|k: u64| #[trigger] self.model().contains_key(k) ==> self.model()[k].len() > 0,
                forall|k: u64, j: int| #[trigger] self.model().contains_key(k) && 0 <= j < self.model()[k].len()
                    ==> (#[trigger] self.model()[k][j]).refno.0 == k,
                tree_entries(self.tree) == all_entries(self.model()),
                self.spec_size() as int == size0 - stale_len + it.index(),
                size0 + batch.len() <= usize::MAX,
                stale_len <= size0,
                tree_entries(self.tree) == mid_tree.add(entries_of(batch.take(it.index() as int))),
                self.model() == Map::new(
                    |k: u64| mentions(batch.take(it.index() as int), k) || mid.contains_key(k),
                    |k: u64|
                        if mentions(batch.take(it.index() as int), k) {
                            with_refno(batch.take(it.index() as int), k)
                        } else {
                            mid[k]
                        },
                ),
        {
            let ghost j = it.index() as int;
            let ghost before = self.model();
            let key: u64 = b.refno.0;
            let e = entry_key(&b);
            proof {
                assert(b == batch[j]);
                assert(batch.take(j + 1) =~= batch.take(j).push(b));
                assert forall|k: u64| #[trigger] with_refno(batch.take(j + 1), k) == if b.refno.0 == k {
                    with_refno(batch.take(j), k).push(b)
                } else {
                    with_refno(batch.take(j), k)
                } by {
                    lemma_with_refno_push(batch.take(j), b, k);
                }
                lemma_with_refno_belongs(batch.take(j + 1), key);
                assert(batch.take(batch.len() as int) =~= batch);
                lemma_mentions_prefix(batch, j + 1, key);
                lemma_entries_push(batch.take(j), b);
            }
            proof {
                lemma_all_entries_bounded(before);
            }
            self.tree.insert(e);
            proof {
                broadcast use vstd::multiset::group_multiset_axioms;
                assert(tree_entries(self.tree) =~= mid_tree.add(entries_of(batch.take(j + 1))));
            }
            let mut list: BoxList = match self.refno_index.remove(&key) {
                Some(existing) => existing,
                None => BoxList::new(),
            };
            proof {
                assert(list@ == if before.contains_key(key) { before[key] } else { Seq::empty() });
                assert(!mid.contains_key(key) && !mentions(batch.take(j), key) ==> !before.contains_key(key));
                assert(before.contains_key(key) ==> before[key] == with_refno(batch.take(j), key));
                lemma_all_entries_add_box(before, key, list@, b);
            }
            list.push(b);
            proof {
                if !before.contains_key(key) {
                    assert(with_refno(batch.take(j), key) =~= Seq::<RStarBoundingBox>::empty());
                }
                assert(list@ =~= with_refno(batch.take(j + 1), key));
            }
            self.refno_index.insert(key, list);
            self.ids.insert(key);
            proof {
                assert(self.model() =~= before.insert(key, with_refno(batch.take(j + 1), key)));
                assert(self.ids@ =~= self.refno_index@.dom());
            }
        }
        proof {
            assert(batch.take(batch.len() as int) =~= batch);
            assert(self.model() =~= synced(m0, batch));
            broadcast use vstd::multiset::group_multiset_axioms;
            assert(tree_entries(self.tree).add(entries_of(stale@)) =~= tree0.add(entries_of(batch)));
            lemma_sync_entries(m0, batch, stale@, tree0, tree_entries(self.tree));
            assert(self.ids@ =~= self.model().dom());
        }
        stale
    }
}

/// Whether every list of an index holds only boxes of its own refno.
pub open spec fn keyed_by_refno(m: Map<u64, Seq<RStarBoundingBox>>) -> bool {
    forall|k: u64, i: int| #[trigger] m.contains_key(k) && 0 <= i < m[k].len() ==> (#[trigger] m[k][i]).refno.0 == k
}

/// The refnos that a batch of boxes mentions.
pub open spec fn batch_refnos(batch: Seq<RStarBoundingBox>) -> Set<u64> {
    Set::new(|r: u64| mentions(batch, r))
}

/// The entries of `ms` whose refno is in `refnos`.
pub open spec fn of_refnos(ms: Multiset<TreeEntry>, refnos: Set<u64>) -> Multiset<TreeEntry> {
    ms.filter(|e: TreeEntry| refnos.contains(e.1))
}

/// The entries of `ms` whose refno is not in `refnos`.
pub open spec fn outside_refnos(ms: Multiset<TreeEntry>, refnos: Set<u64>) -> Multiset<TreeEntry> {
    ms.filter(|e: TreeEntry| !refnos.contains(e.1))
}

/// How often an entry occurs in `of_refnos` and `outside_refnos`.
pub proof fn lemma_refno_filters_count(ms: Multiset<TreeEntry>, refnos: Set<u64>, e: TreeEntry)
    ensures
        of_refnos(ms, refnos).count(e) == if refnos.contains(e.1) { ms.count(e) } else { 0 },
        outside_refnos(ms, refnos).count(e) == if refnos.contains(e.1) { 0 } else { ms.count(e) },
{
    vstd::multiset::axiom_filter_count(ms, |x: TreeEntry| refnos.contains(x.1), e);
    vstd::multiset::axiom_filter_count(ms, |x: TreeEntry| !refnos.contains(x.1), e);
}

/// The entries of a batch are those of each refno's part of it.
pub proof fn lemma_entries_of_own_refno(batch: Seq<RStarBoundingBox>, e: TreeEntry)
    ensures
        entries_of(batch).count(e) == entries_of(with_refno(batch, e.1)).count(e),
    decreases batch.len(),
{
    broadcast use vstd::multiset::group_multiset_axioms;
    broadcast use vstd::seq_lib::group_to_multiset_ensures;

    if batch.len() == 0 {
        assert(with_refno(batch, e.1) =~= batch);
    } else {
        let p = batch.drop_last();
        let b = batch.last();
        assert(p.push(b) =~= batch);
        lemma_entries_of_own_refno(p, e);
        lemma_entries_push(p, b);
        lemma_with_refno_push(p, b, e.1);
        if b.refno.0 == e.1 {
            lemma_entries_push(with_refno(p, e.1), b);
        }
    }
}

/// Every entry is either of the given refnos or outside them.
pub proof fn lemma_refno_split_len(ms: Multiset<TreeEntry>, refnos: Set<u64>)
    ensures
        ms == of_refnos(ms, refnos).add(outside_refnos(ms, refnos)),
        ms.len() == of_refnos(ms, refnos).len() + outside_refnos(ms, refnos).len(),
{
    assert forall|e: TreeEntry| #[trigger] ms.count(e) == of_refnos(ms, refnos).add(outside_refnos(ms, refnos)).count(e) by {
        lemma_refno_filters_count(ms, refnos, e);
        vstd::multiset::axiom_multiset_add(of_refnos(ms, refnos), outside_refnos(ms, refnos), e);
    }
    assert(ms =~= of_refnos(ms, refnos).add(outside_refnos(ms, refnos)));
    vstd::multiset::axiom_len_add(of_refnos(ms, refnos), outside_refnos(ms, refnos));
}

/// The entries of an index without some refnos are the entries of the whole
/// index outside those refnos.
pub proof fn lemma_entries_without_refnos(m: Map<u64, Seq<RStarBoundingBox>>, refnos: Set<u64>)
    requires
        m.dom().finite(),
        keyed_by_refno(m),
    ensures
        all_entries(m.remove_keys(refnos)) == outside_refnos(all_entries(m), refnos),
{
    let r = m.remove_keys(refnos);
    assert(r.dom() =~= m.dom().difference(refnos));
    assert forall|e: TreeEntry| #[trigger] all_entries(r).count(e) == outside_refnos(all_entries(m), refnos).count(e) by {
        lemma_all_entries_count(m, e);
        lemma_all_entries_count(r, e);
        lemma_refno_filters_count(all_entries(m), refnos, e);
    }
    assert(all_entries(r) =~= outside_refnos(all_entries(m), refnos));
}

/// What a synchronisation does to the entries: those of the batch's refnos
/// are replaced by the batch's, and those are what leaves.
proof fn lemma_sync_entries(
    m0: Map<u64, Seq<RStarBoundingBox>>,
    batch: Seq<RStarBoundingBox>,
    stale: Seq<RStarBoundingBox>,
    old_entries: Multiset<TreeEntry>,
    new_entries: Multiset<TreeEntry>,
)
    requires
        m0.dom().finite(),
        synced(m0, batch).dom().finite(),
        keyed_by_refno(m0),
        keyed_by_refno(synced(m0, batch)),
        old_entries == all_entries(m0),
        new_entries == all_entries(synced(m0, batch)),
        new_entries.add(entries_of(stale)) == old_entries.add(entries_of(batch)),
    ensures
        new_entries == outside_refnos(old_entries, batch_refnos(batch)).add(entries_of(batch)),
        entries_of(stale) == of_refnos(old_entries, batch_refnos(batch)),
{
    broadcast use vstd::multiset::group_multiset_axioms;
    broadcast use vstd::seq_lib::group_to_multiset_ensures;

    let m1 = synced(m0, batch);
    let refnos = batch_refnos(batch);
    assert forall|e: TreeEntry| #[trigger] new_entries.count(e) == outside_refnos(old_entries, refnos).count(e)
        + entries_of(batch).count(e) && old_entries.count(e) + entries_of(batch).count(e)
        == new_entries.count(e) + entries_of(stale).count(e) && of_refnos(old_entries, refnos).count(e)
        == (if refnos.contains(e.1) { old_entries.count(e) } else { 0 }) by {
        lemma_all_entries_count(m0, e);
        lemma_all_entries_count(m1, e);
        lemma_refno_filters_count(old_entries, refnos, e);
        lemma_entries_of_own_refno(batch, e);
        vstd::multiset::axiom_multiset_add(new_entries, entries_of(stale), e);
        vstd::multiset::axiom_multiset_add(old_entries, entries_of(batch), e);
        assert(new_entries.add(entries_of(stale)).count(e) == old_entries.add(entries_of(batch)).count(e));
        if mentions(batch, e.1) {
            assert(refnos.contains(e.1));
            assert(m1.contains_key(e.1) && m1[e.1] == with_refno(batch, e.1));
            assert(new_entries.count(e) == entries_of(batch).count(e));
        } else {
            assert(!refnos.contains(e.1));
            assert(m1.contains_key(e.1) == m0.contains_key(e.1));
            if m0.contains_key(e.1) {
                assert(m1[e.1] == m0[e.1]);
            }
            assert(new_entries.count(e) == old_entries.count(e));
            assert(with_refno(batch, e.1) =~= Seq::<RStarBoundingBox>::empty());
            assert(with_refno(batch, e.1).map_values(|x: RStarBoundingBox| entry_of(x)) =~= Seq::<TreeEntry>::empty());
            assert(entries_of(with_refno(batch, e.1)).len() == 0);
            assert(entries_of(batch).count(e) == 0);
        }
    }
    assert forall|e: TreeEntry| #[trigger] new_entries.count(e) == outside_refnos(old_entries, refnos).add(
        entries_of(batch),
    ).count(e) by {
        assert(new_entries.count(e) == outside_refnos(old_entries, refnos).count(e) + entries_of(batch).count(e));
    }
    assert(new_entries =~= outside_refnos(old_entries, refnos).add(entries_of(batch)));
    assert forall|e: TreeEntry| #[trigger] entries_of(stale).count(e) == of_refnos(old_entries, refnos).count(e) by {
        assert(new_entries.count(e) == outside_refnos(old_entries, refnos).count(e) + entries_of(batch).count(e));
        lemma_refno_filters_count(old_entries, refnos, e);
    }
    assert(entries_of(stale) =~= of_refnos(old_entries, refnos));
}

/// What a box query keeps: every entry, those meeting a box, or those
/// within a box.
#[derive(Clone, Copy)]
pub enum BoxQuery {
    Every,
    Meeting(Corners),
    Within(Corners),
}

/// Whether a query keeps an entry with the given corners.
pub open spec fn keeps(query: BoxQuery, c: Corners) -> bool {
    match query {
        BoxQuery::Every => true,
        BoxQuery::Meeting(q) => meets(c, q),
        BoxQuery::Within(q) => encloses(q, c),
    }
}

/// Computes `keeps`.
fn box_kept(query: BoxQuery, c: Corners) -> (r: bool)
    ensures
        r == keeps(query, c),
{
    match query {
        BoxQuery::Every => true,
        BoxQuery::Meeting(q) => {
            c.0 <= q.3 && c.1 <= q.4 && c.2 <= q.5 && c.3 >= q.0 && c.4 >= q.1 && c.5 >= q.2
        },
        BoxQuery::Within(q) => {
            q.0 <= c.0 && q.1 <= c.1 && q.2 <= c.2 && q.3 >= c.3 && q.4 >= c.4 && q.5 >= c.5
        },
    }
}

/// Every box that an index lists, as often as it is listed.
pub open spec fn all_boxes(m: Map<u64, Seq<RStarBoundingBox>>) -> Multiset<RStarBoundingBox>
    decreases m.dom().len(),
    when m.dom().finite()
{
    if m.dom().len() > 0 {
        let k = m.dom().choose();
        m[k].to_multiset().add(all_boxes(m.remove(k)))
    } else {
        Multiset::empty()
    }
}

/// The listed boxes whose entry a query keeps, as often as they are listed.
pub open spec fn kept_boxes(m: Map<u64, Seq<RStarBoundingBox>>, query: BoxQuery) -> Multiset<RStarBoundingBox> {
    all_boxes(m).filter(|b: RStarBoundingBox| keeps(query, entry_of(b).0))
}

/// In an index whose lists hold only boxes of their own refno, a box can only
/// be counted in the list of its refno.
pub proof fn lemma_all_boxes_count(m: Map<u64, Seq<RStarBoundingBox>>, b: RStarBoundingBox)
    requires
        m.dom().finite(),
        keyed_by_refno(m),
    ensures
        all_boxes(m).count(b) == if m.contains_key(b.refno.0) { m[b.refno.0].to_multiset().count(b) } else { 0 },
    decreases m.dom().len(),
{
    broadcast use vstd::multiset::group_multiset_axioms;
    broadcast use vstd::seq_lib::group_to_multiset_ensures;

    if m.dom().len() > 0 {
        let c = m.dom().choose();
        assert(m.contains_key(c));
        lemma_all_boxes_count(m.remove(c), b);
        if c != b.refno.0 && m[c].to_multiset().count(b) > 0 {
            assert(m[c].contains(b));
            let j = choose|j: int| 0 <= j < m[c].len() && m[c][j] == b;
            assert(m[c][j].refno.0 == c);
        }
    } else {
        assert(!m.contains_key(b.refno.0));
    }
}

/// `lemma_all_boxes_count` for every box at once.
pub proof fn lemma_all_boxes_count_all(m: Map<u64, Seq<RStarBoundingBox>>)
    requires
        m.dom().finite(),
        keyed_by_refno(m),
    ensures
        forall|b: RStarBoundingBox| #[trigger] all_boxes(m).count(b) == if m.contains_key(b.refno.0) {
            m[b.refno.0].to_multiset().count(b)
        } else {
            0
        },
{
    assert forall|b: RStarBoundingBox| #[trigger] all_boxes(m).count(b) == if m.contains_key(b.refno.0) {
        m[b.refno.0].to_multiset().count(b)
    } else {
        0
    } by {
        lemma_all_boxes_count(m, b);
    }
}

/// How often a box occurs among the kept boxes.
pub proof fn lemma_kept_boxes_count(m: Map<u64, Seq<RStarBoundingBox>>, query: BoxQuery, b: RStarBoundingBox)
    requires
        m.dom().finite(),
        keyed_by_refno(m),
    ensures
        kept_boxes(m, query).count(b) == if keeps(query, entry_of(b).0) && m.contains_key(b.refno.0) {
            m[b.refno.0].to_multiset().count(b)
        } else {
            0
        },
{
    lemma_all_boxes_count(m, b);
    vstd::multiset::axiom_filter_count(all_boxes(m), |x: RStarBoundingBox| keeps(query, entry_of(x).0), b);
}

/// Every box among the kept boxes is listed.
pub proof fn lemma_kept_boxes_held(m: Map<u64, Seq<RStarBoundingBox>>, query: BoxQuery, s: Seq<RStarBoundingBox>)
    requires
        m.dom().finite(),
        keyed_by_refno(m),
        s.to_multiset() == kept_boxes(m, query),
    ensures
        forall|i: int| 0 <= i < s.len() ==> held(m, #[trigger] s[i]),
{
    broadcast use vstd::seq_lib::group_to_multiset_ensures;

    assert forall|i: int| 0 <= i < s.len() implies held(m, #[trigger] s[i]) by {
        assert(s.contains(s[i]));
        lemma_kept_boxes_count(m, query, s[i]);
        assert(m[s[i].refno.0].to_multiset().count(s[i]) > 0);
    }
}

/// Whether `b` is one of the boxes that the index lists for its refno.
pub open spec fn held(m: Map<u64, Seq<RStarBoundingBox>>, b: RStarBoundingBox) -> bool {
    m.contains_key(b.refno.0) && m[b.refno.0].contains(b)
}

impl TreeIndex {
    /// A tree over the given boxes, loaded in one go; the index lists every
    /// box under its own refno.
    fn load(bounding_boxes: Vec<RStarBoundingBox>) -> (r: Self)
        ensures
            r.wf(),
            r.model() == synced(Map::empty(), bounding_boxes@),
            r.spec_size() == bounding_boxes@.len(),
    {
        let ghost batch = bounding_boxes@;
        let n = bounding_boxes.len();
        let mut entries: Vec<TreeEntry> = Vec::new();
        let mut i: usize = 0;
        while i < n
            invariant
                n == batch.len(),
                bounding_boxes@ == batch,
                i <= n,
                entries@ == batch.take(i as int).map_values(|x: RStarBoundingBox| entry_of(x)),
                forall|j: int| 0 <= j < entries@.len() ==> ordered(#[trigger] entries@[j].0),
            decreases n - i,
        {
            let e = entry_key(&bounding_boxes[i]);
            entries.push(e);
            proof {
                assert(batch.take(i + 1) =~= batch.take(i as int).push(batch[i as int]));
            }
            i = i + 1;
            proof {
                assert(entries@ =~= batch.take(i as int).map_values(|x: RStarBoundingBox| entry_of(x)));
            }
        }
        proof {
            assert(batch.take(n as int) =~= batch);
            lemma_entries_len(batch);
        }
        let mut r = TreeIndex {
            tree: BoxTree::bulk_load(entries),
            ids: HashSet::new(),
            refno_index: HashMap::new(),
        };
        proof {
            assert(r.model() =~= synced(Map::empty(), batch.take(0)));
            assert(batch.take(0).map_values(|x: RStarBoundingBox| entry_of(x)) =~= Seq::<TreeEntry>::empty());
            broadcast use vstd::seq_lib::group_to_multiset_ensures;
            broadcast use vstd::multiset::group_multiset_axioms;
            assert(entries_of(batch.take(0)) =~= Multiset::<TreeEntry>::empty());
            assert(r.model() =~= Map::<u64, Seq<RStarBoundingBox>>::empty());
            lemma_all_entries_empty();
        }
        for b in it: bounding_boxes
            invariant
                it.seq() == batch,
                tree_entries(r.tree) == entries_of(batch),
                r.ids@ == r.refno_index@.dom(),
                r.model().dom().finite(),
                forall|k: u64| #[trigger] r.model().contains_key(k) ==> r.model()[k].len() > 0,
                forall|k: u64, j: int| #[trigger] r.model().contains_key(k) && 0 <= j < r.model()[k].len()
                    ==> (#[trigger] r.model()[k][j]).refno.0 == k,
                r.model() == synced(Map::empty(), batch.take(it.index() as int)),
                all_entries(r.model()) == entries_of(batch.take(it.index() as int)),
        {
            let ghost j = it.index() as int;
            let ghost before = r.model();
            let key: u64 = b.refno.0;
            proof {
                assert(b == batch[j]);
                assert(batch.take(j + 1) =~= batch.take(j).push(b));
                assert forall|k: u64| #[trigger] with_refno(batch.take(j + 1), k) == if b.refno.0 == k {
                    with_refno(batch.take(j), k).push(b)
                } else {
                    with_refno(batch.take(j), k)
                } by {
                    lemma_with_refno_push(batch.take(j), b, k);
                }
                lemma_with_refno_belongs(batch.take(j + 1), key);
                lemma_entries_push(batch.take(j), b);
            }
            let mut list: BoxList = match r.refno_index.remove(&key) {
                Some(existing) => existing,
                None => BoxList::new(),
            };
            proof {
                assert(list@ == if before.contains_key(key) { before[key] } else { Seq::empty() });
                lemma_all_entries_add_box(before, key, list@, b);
            }
            list.push(b);
            proof {
                if !before.contains_key(key) {
                    assert(with_refno(batch.take(j), key) =~= Seq::<RStarBoundingBox>::empty());
                }
                assert(list@ =~= with_refno(batch.take(j + 1), key));
            }
            r.refno_index.insert(key, list);
            r.ids.insert(key);
            proof {
                assert(r.model() =~= before.insert(key, with_refno(batch.take(j + 1), key)));
                assert(r.model() =~= synced(Map::empty(), batch.take(j + 1)));
                assert(r.ids@ =~= r.refno_index@.dom());
            }
        }
        proof {
            assert(batch.take(batch.len() as int) =~= batch);
        }
        r
    }

    /// The listed boxes that `query` keeps, given the tree's entries that the
    /// query keeps (`found`, in any order): each refno of `found` is visited
    /// once and its list is filtered.
    fn collect_boxes(&self, found: &Vec<TreeEntry>, query: BoxQuery) -> (r: Vec<RStarBoundingBox>)
        requires
            self.wf(),
            forall|b: RStarBoundingBox|
                #![trigger held(self.model(), b), keeps(query, entry_of(b).0)]
                held(self.model(), b) && keeps(query, entry_of(b).0) ==> exists|i: int|
                    0 <= i < found@.len() && (#[trigger] found@[i]).1 == b.refno.0,
        ensures
            r@.to_multiset() == kept_boxes(self.model(), query),
    {
        broadcast use vstd::seq_lib::group_to_multiset_ensures;

        let ghost m = self.model();
        let mut seen: HashSet<u64> = HashSet::new();
        let mut out: Vec<RStarBoundingBox> = Vec::new();
        let n = found.len();
        let mut i: usize = 0;
        proof {
            assert forall|b: RStarBoundingBox| #[trigger] out@.to_multiset().count(b) == 0 by {
                assert(!out@.contains(b));
            }
        }
        while i < n
            invariant
                n == found@.len(),
                i <= n,
                self.wf(),
                m == self.model(),
                forall|r: u64| #[trigger] seen@.contains(r) <==> exists|k: int| 0 <= k < i && (#[trigger] found@[k]).1 == r,
                forall|b: RStarBoundingBox| #[trigger] out@.to_multiset().count(b) == if seen@.contains(b.refno.0)
                    && keeps(query, entry_of(b).0) && m.contains_key(b.refno.0) {
                    m[b.refno.0].to_multiset().count(b)
                } else {
                    0
                },
            decreases n - i,
        {
            let r: u64 = found[i].1;
            if !seen.contains(&r) {
                let ghost base = out@;
                if let Some(list) = self.refno_index.get(&r) {
                    let ghost v = m[r];
                    let len = list.len();
                    let mut k: usize = 0;
                    proof {
                        assert(out@ == base);
                        assert forall|b: RStarBoundingBox| #[trigger] v.take(0).to_multiset().count(b) == 0 by {
                            vstd::seq_lib::to_multiset_contains(v.take(0), b);
                        }
                    }
                    while k < len
                        invariant
                            len == v.len(),
                            list@ == v,
                            k <= len,
                            forall|b: RStarBoundingBox| #[trigger] out@.to_multiset().count(b) == base.to_multiset().count(b)
                                + if keeps(query, entry_of(b).0) { v.take(k as int).to_multiset().count(b) } else { 0 },
                        decreases len - k,
                    {
                        let e = entry_key(list.get(k));
                        let ghost before = out@;
                        proof {
                            assert(v.take(k + 1) =~= v.take(k as int).push(v[k as int]));
                            vstd::seq_lib::to_multiset_build(v.take(k as int), v[k as int]);
                        }
                        if box_kept(query, e.0) {
                            out.push(list.get(k).duplicate());
                            proof {
                                assert(out@ == before.push(v[k as int]));
                                vstd::seq_lib::to_multiset_build(before, v[k as int]);
                            }
                        }
                        k = k + 1;
                    }
                    proof {
                        assert(v.take(len as int) =~= v);
                        assert forall|b: RStarBoundingBox| #[trigger] out@.to_multiset().count(b) == if (seen@.contains(b.refno.0) || b.refno.0 == r)
                            && keeps(query, entry_of(b).0) && m.contains_key(b.refno.0) {
                            m[b.refno.0].to_multiset().count(b)
                        } else {
                            0
                        } by {
                            if b.refno.0 != r && v.to_multiset().count(b) > 0 {
                                vstd::seq_lib::to_multiset_contains(v, b);
                                assert(v.contains(b));
                                let j = choose|j: int| 0 <= j < v.len() && v[j] == b;
                                assert(m.contains_key(r) && 0 <= j < m[r].len());
                                assert(m[r][j].refno.0 == r);
                            }
                        }
                    }
                } else {
                    proof {
                        assert forall|b: RStarBoundingBox| #[trigger] out@.to_multiset().count(b) == if (seen@.contains(b.refno.0) || b.refno.0 == r)
                            && keeps(query, entry_of(b).0) && m.contains_key(b.refno.0) {
                            m[b.refno.0].to_multiset().count(b)
                        } else {
                            0
                        } by {
                            assert(out@ == base);
                        }
                    }
                }
                seen.insert(r);
            }
            i = i + 1;
            proof {
                assert forall|q: u64| #[trigger] seen@.contains(q) <==> exists|k: int| 0 <= k < i && (#[trigger] found@[k]).1 == q by {
                    if seen@.contains(q) && q != r {
                        let k = choose|k: int| 0 <= k < i - 1 && (#[trigger] found@[k]).1 == q;
                        assert(0 <= k < i);
                    }
                    if exists|k: int| 0 <= k < i && (#[trigger] found@[k]).1 == q {
                        let k = choose|k: int| 0 <= k < i && (#[trigger] found@[k]).1 == q;
                        if k < i - 1 {
                            assert(exists|k2: int| 0 <= k2 < i - 1 && (#[trigger] found@[k2]).1 == q);
                        }
                    }
                }
            }
        }
        proof {
            lemma_all_boxes_count_all(m);
            assert forall|b: RStarBoundingBox| #[trigger] out@.to_multiset().count(b) == kept_boxes(m, query).count(b) by {
                lemma_kept_boxes_count(m, query, b);
                if keeps(query, entry_of(b).0) && m.contains_key(b.refno.0) && m[b.refno.0].to_multiset().count(b) > 0 {
                    assert(m[b.refno.0].contains(b));
                    assert(held(m, b));
                    let k = choose|k: int| 0 <= k < found@.len() && (#[trigger] found@[k]).1 == b.refno.0;
                    assert(seen@.contains(b.refno.0));
                }
            }
            assert(out@.to_multiset() =~= kept_boxes(m, query));
        }
        out
    }

    /// Every box in the tree, each as often as the tree holds it, in an
    /// order that the r-tree leaves open.
    fn boxes(&self) -> (r: Vec<RStarBoundingBox>)
        requires
            self.wf(),
        ensures
            r@.to_multiset() == kept_boxes(self.model(), BoxQuery::Every),
            forall|i: int| 0 <= i < r@.len() ==> held(self.model(), #[trigger] r@[i]),
    {
        let found = self.tree.entries();
        proof {
            self.lemma_found_covers(found@, BoxQuery::Every);
        }
        let r = self.collect_boxes(&found, BoxQuery::Every);
        proof {
            lemma_kept_boxes_held(self.model(), BoxQuery::Every, r@);
        }
        r
    }

    /// The boxes whose rectangle meets the given bounds (touching counts),
    /// each as often as the tree holds it, in an order that the r-tree
    /// leaves open.
    fn locate_intersecting_bounds(&self, bounds: AabbBits) -> (r: Vec<RStarBoundingBox>)
        requires
            self.wf(),
        ensures
            r@.to_multiset() == kept_boxes(self.model(), BoxQuery::Meeting(corners_of(bounds))),
            forall|i: int| 0 <= i < r@.len() ==> held(self.model(), #[trigger] r@[i]),
    {
        let q = corners_of_box(bounds);
        let found = self.tree.meeting(q);
        proof {
            let f = |e: TreeEntry| meets(e.0, q);
            assert forall|e: TreeEntry| #[trigger] tree_entries(self.tree).filter(f).count(e) == if keeps(BoxQuery::Meeting(q), e.0) {
                tree_entries(self.tree).count(e)
            } else {
                0
            } by {
                vstd::multiset::axiom_filter_count(tree_entries(self.tree), f, e);
            }
            self.lemma_found_covers(found@, BoxQuery::Meeting(q));
        }
        let r = self.collect_boxes(&found, BoxQuery::Meeting(q));
        proof {
            lemma_kept_boxes_held(self.model(), BoxQuery::Meeting(q), r@);
        }
        r
    }

    /// The boxes whose rectangle lies within the given bounds (boundaries
    /// included), each as often as the tree holds it, in an order that the
    /// r-tree leaves open.
    fn locate_contain_bounds(&self, bounds: AabbBits) -> (r: Vec<RStarBoundingBox>)
        requires
            self.wf(),
        ensures
            r@.to_multiset() == kept_boxes(self.model(), BoxQuery::Within(corners_of(bounds))),
            forall|i: int| 0 <= i < r@.len() ==> held(self.model(), #[trigger] r@[i]),
    {
        let q = corners_of_box(bounds);
        let found = self.tree.within(q);
        proof {
            let f = |e: TreeEntry| encloses(q, e.0);
            assert forall|e: TreeEntry| #[trigger] tree_entries(self.tree).filter(f).count(e) == if keeps(BoxQuery::Within(q), e.0) {
                tree_entries(self.tree).count(e)
            } else {
                0
            } by {
                vstd::multiset::axiom_filter_count(tree_entries(self.tree), f, e);
            }
            self.lemma_found_covers(found@, BoxQuery::Within(q));
        }
        let r = self.collect_boxes(&found, BoxQuery::Within(q));
        proof {
            lemma_kept_boxes_held(self.model(), BoxQuery::Within(q), r@);
        }
        r
    }

    /// When `found` holds every entry of the tree that `query` keeps, every
    /// listed box that the query keeps has its refno among `found`.
    proof fn lemma_found_covers(&self, found: Seq<TreeEntry>, query: BoxQuery)
        requires
            self.wf(),
            forall|e: TreeEntry| keeps(query, e.0) && #[trigger] tree_entries(self.tree).count(e) > 0
                ==> found.to_multiset().count(e) > 0,
        ensures
            forall|b: RStarBoundingBox|
                #![trigger held(self.model(), b), keeps(query, entry_of(b).0)]
                held(self.model(), b) && keeps(query, entry_of(b).0) ==> exists|i: int|
                    0 <= i < found.len() && (#[trigger] found[i]).1 == b.refno.0,
    {
        broadcast use vstd::seq_lib::group_to_multiset_ensures;
        broadcast use vstd::multiset::group_multiset_axioms;

        let m = self.model();
        assert forall|b: RStarBoundingBox|
            #![trigger held(self.model(), b), keeps(query, entry_of(b).0)]
            held(self.model(), b) && keeps(query, entry_of(b).0) implies exists|i: int|
                0 <= i < found.len() && (#[trigger] found[i]).1 == b.refno.0 by {
            let e = entry_of(b);
            let list = m[b.refno.0];
            let j = choose|j: int| 0 <= j < list.len() && list[j] == b;
            let t = list.map_values(|x: RStarBoundingBox| entry_of(x));
            assert(t[j] == e);
            assert(t.contains(e));
            lemma_all_entries_count(m, e);
            assert(tree_entries(self.tree).count(e) > 0);
            assert(found.to_multiset().count(e) > 0);
            assert(found.contains(e));
            let i = choose|i: int| 0 <= i < found.len() && found[i] == e;
            assert(found[i].1 == b.refno.0);
        }
    }
}

/// The r-tree holds exactly the boxes that the index lists, as many times
/// as they are listed; the index lists, for each refno that has boxes, a
/// non-empty list of boxes of that refno only, and the id set is the set of
/// those refnos. Hence an entry of the tree is counted in the list of its own
/// refno and nowhere else.
proof fn lemma_index_matches(t: &TreeIndex)
    requires
        t.wf(),
    ensures
        t.entries() == all_entries(t.model()),
        t.spec_size() == all_entries(t.model()).len(),
        t.ids() == t.model().dom(),
        t.model().dom().finite(),
        keyed_by_refno(t.model()),
        forall|k: u64| #[trigger] t.model().contains_key(k) ==> t.model()[k].len() > 0,
        forall|e: TreeEntry| #[trigger] t.entries().count(e) == if t.model().contains_key(e.1) {
            entries_of(t.model()[e.1]).count(e)
        } else {
            0
        },
{
    assert(t.ids() =~= t.model().dom());
    assert forall|e: TreeEntry| #[trigger] t.entries().count(e) == if t.model().contains_key(e.1) {
        entries_of(t.model()[e.1]).count(e)
    } else {
        0
    } by {
        lemma_all_entries_count(t.model(), e);
    }
}

/// Nothing leaves an empty index: a refno seen for the first time gives back
/// no old box.
pub proof fn lemma_stale_of_empty(batch: Seq<RStarBoundingBox>)
    ensures
        stale_boxes(Map::empty(), batch) == Seq::<RStarBoundingBox>::empty(),
    decreases batch.len(),
{
    if batch.len() > 0 {
        lemma_stale_of_empty(batch.drop_last());
        assert(stale_boxes(Map::empty(), batch) =~= Seq::<RStarBoundingBox>::empty());
    }
}

/// Synchronisation replaces, it does not stack: after it, a refno of the
/// batch holds exactly the batch's boxes for it and none of its old ones,
/// and a refno outside the batch is untouched.
pub proof fn lemma_sync_replaces(m: Map<u64, Seq<RStarBoundingBox>>, batch: Seq<RStarBoundingBox>, r: u64)
    ensures
        mentions(batch, r) ==> synced(m, batch).contains_key(r)
            && synced(m, batch)[r] == with_refno(batch, r),
        !mentions(batch, r) ==> (synced(m, batch).contains_key(r) == m.contains_key(r)
            && (m.contains_key(r) ==> synced(m, batch)[r] == m[r])),
{
}

/// Synchronising the same batch a second time leaves the index as the first
/// time left it.
pub proof fn lemma_resync_is_stable(m: Map<u64, Seq<RStarBoundingBox>>, batch: Seq<RStarBoundingBox>)
    ensures
        synced(synced(m, batch), batch) == synced(m, batch),
{
    assert(synced(synced(m, batch), batch) =~= synced(m, batch));
}

/// An empty batch takes nothing out and changes nothing.
pub proof fn lemma_sync_empty_batch(m: Map<u64, Seq<RStarBoundingBox>>)
    ensures
        synced(m, Seq::empty()) == m,
        stale_boxes(m, Seq::empty()) == Seq::<RStarBoundingBox>::empty(),
{
    assert(synced(m, Seq::empty()) =~= m);
}

/// Removal by refno takes every box of the given refnos and nothing else.
pub proof fn lemma_remove_takes_all_and_only(m: Map<u64, Seq<RStarBoundingBox>>, refnos: Set<u64>, r: u64)
    ensures
        refnos.contains(r) ==> !m.remove_keys(refnos).contains_key(r),
        !refnos.contains(r) ==> (m.remove_keys(refnos).contains_key(r) == m.contains_key(r)
            && (m.contains_key(r) ==> m.remove_keys(refnos)[r] == m[r])),
{
}

/// After the refnos of a batch have been removed, synchronising the batch
/// takes nothing out of the tree.
pub proof fn lemma_sync_after_remove_is_fresh(
    m: Map<u64, Seq<RStarBoundingBox>>,
    refnos: Set<u64>,
    batch: Seq<RStarBoundingBox>,
)
    requires
        forall|r: u64| mentions(batch, r) ==> refnos.contains(r),
    ensures
        stale_boxes(m.remove_keys(refnos), batch) == Seq::<RStarBoundingBox>::empty(),
    decreases batch.len(),
{
    if batch.len() > 0 {
        let prefix = batch.drop_last();
        assert forall|r: u64| mentions(prefix, r) implies refnos.contains(r) by {
            assert(batch.take(prefix.len() as int) =~= prefix);
            lemma_mentions_prefix(batch, prefix.len() as int, r);
        }
        lemma_sync_after_remove_is_fresh(m, refnos, prefix);
        let last = batch.last().refno.0;
        assert(batch.drop_last().push(batch.last()) =~= batch);
        lemma_with_refno_push(prefix, batch.last(), last);
        assert(mentions(batch, last));
        assert(stale_boxes(m.remove_keys(refnos), batch) =~= Seq::<RStarBoundingBox>::empty());
    }
}

/// The spatial acceleration tree: the r-tree of element boxes, the set of
/// refnos that have boxes in it, and the reverse index from each such refno
/// to its boxes, kept consistent with each other at all times.
pub struct AccelerationTree {
    index: TreeIndex,
}

impl AccelerationTree {
    /// The invariant of every tree: the id set is the set of indexed refnos,
    /// every list is non-empty and holds only boxes of its own refno, and the
    /// r-tree holds exactly the entries of the listed boxes.
    #[verifier::type_invariant]
    pub closed spec fn wf(self) -> bool {
        self.index.wf()
    }

    /// The boxes of each refno, in the order in which they entered the tree.
    /// This is the whole state: the id set is its domain and the r-tree holds
    /// the entries of its boxes (`lemma_tree_matches_index`).
    pub closed spec fn model(&self) -> Map<u64, Seq<RStarBoundingBox>> {
        self.index.model()
    }

    /// The refnos that the tree holds boxes for.
    pub closed spec fn ids(&self) -> Set<u64> {
        self.index.ids()
    }

    /// What the r-tree holds.
    pub closed spec fn entries(&self) -> Multiset<TreeEntry> {
        self.index.entries()
    }

    /// Number of boxes in the tree.
    pub closed spec fn spec_size(&self) -> nat {
        self.index.spec_size()
    }

    /// An empty tree.
    pub fn new() -> (r: Self)
        ensures
            r.model() == Map::<u64, Seq<RStarBoundingBox>>::empty(),
            r.spec_size() == 0,
    {
        AccelerationTree { index: TreeIndex::new() }
    }

    /// A tree over the given boxes, loaded in one go; the index lists every
    /// box under its own refno.
    pub fn load(bounding_boxes: Vec<RStarBoundingBox>) -> (r: Self)
        ensures
            r.model() == synced(Map::empty(), bounding_boxes@),
            r.spec_size() == bounding_boxes@.len(),
    {
        AccelerationTree { index: TreeIndex::load(bounding_boxes) }
    }

    /// Replaces the whole content of the tree with the given boxes.
    pub fn replace(&mut self, bounding_boxes: Vec<RStarBoundingBox>)
        ensures
            final(self).model() == synced(Map::empty(), bounding_boxes@),
            final(self).spec_size() == bounding_boxes@.len(),
    {
        *self = Self::load(bounding_boxes);
    }

    /// Number of boxes in the tree.
    pub fn size(&self) -> (r: usize)
        ensures
            r == self.spec_size(),
    {
        self.index.size()
    }

    /// Whether the tree holds no box.
    pub fn is_empty(&self) -> (r: bool)
        ensures
            r == (self.spec_size() == 0),
    {
        self.index.is_empty()
    }

    /// Whether the tree holds a box for `refno`.
    pub fn contains_id(&self, refno: RefU64) -> (r: bool)
        ensures
            r == self.model().contains_key(refno.0),
            r == self.ids().contains(refno.0),
    {
        proof {
            use_type_invariant(self);
        }
        self.index.contains_id(refno)
    }

    /// Takes every box of the given refnos out of the tree, and returns how
    /// many boxes left. Refnos without boxes are ignored; an empty set
    /// changes nothing.
    pub fn remove_by_refnos(&mut self, refnos: &HashSet<u64>) -> (removed: usize)
        ensures
            final(self).model() == old(self).model().remove_keys(refnos@),
            final(self).spec_size() == old(self).spec_size() - removed,
            final(self).entries() == outside_refnos(old(self).entries(), refnos@),
            removed == of_refnos(old(self).entries(), refnos@).len(),
            forall|r: u64| #[trigger] refnos@.contains(r) ==> !final(self).ids().contains(r),
    {
        proof {
            use_type_invariant(&*self);
        }
        let mut index = TreeIndex::new();
        std::mem::swap(&mut index, &mut self.index);
        let removed = index.remove_by_refnos(refnos);
        self.index = index;
        removed
    }

    /// Makes the given boxes the whole current state of their refnos: every
    /// box that the tree held for one of these refnos leaves it, then every
    /// box of the batch enters it. Returns the boxes that left, so that the
    /// caller can tell whether anything changed; a refno seen for the first
    /// time contributes nothing to it. An empty batch changes nothing.
    pub fn sync_refnos(&mut self, bboxes: Vec<RStarBoundingBox>) -> (stale: Vec<RStarBoundingBox>)
        requires
            old(self).spec_size() + bboxes@.len() <= usize::MAX,
        ensures
            final(self).model() == synced(old(self).model(), bboxes@),
            stale@ == stale_boxes(old(self).model(), bboxes@),
            final(self).spec_size() + stale@.len() == old(self).spec_size() + bboxes@.len(),
            final(self).entries().add(entries_of(stale@)) == old(self).entries().add(entries_of(bboxes@)),
            final(self).entries() == outside_refnos(old(self).entries(), batch_refnos(bboxes@)).add(
                entries_of(bboxes@),
            ),
            entries_of(stale@) == of_refnos(old(self).entries(), batch_refnos(bboxes@)),
            forall|r: u64| #[trigger] batch_refnos(bboxes@).contains(r) ==> final(self).ids().contains(r),
    {
        proof {
            use_type_invariant(&*self);
        }
        let mut index = TreeIndex::new();
        std::mem::swap(&mut index, &mut self.index);
        let stale = index.sync_refnos(bboxes);
        self.index = index;
        stale
    }

    /// `sync_refnos` for callers that do not need the boxes that left.
    pub fn update_aabbs(&mut self, bboxes: Vec<RStarBoundingBox>)
        requires
            old(self).spec_size() + bboxes@.len() <= usize::MAX,
        ensures
            final(self).model() == synced(old(self).model(), bboxes@),
            final(self).spec_size() + stale_boxes(old(self).model(), bboxes@).len()
                == old(self).spec_size() + bboxes@.len(),
    {
        let _ = self.sync_refnos(bboxes);
    }

    /// Every box in the tree, each as often as the tree holds it, in an
    /// order that the r-tree leaves open.
    pub fn boxes(&self) -> (r: Vec<RStarBoundingBox>)
        ensures
            r@.to_multiset() == kept_boxes(self.model(), BoxQuery::Every),
            forall|i: int| 0 <= i < r@.len() ==> held(self.model(), #[trigger] r@[i]),
    {
        proof {
            use_type_invariant(self);
        }
        self.index.boxes()
    }

    /// The boxes whose rectangle meets the given bounds (touching counts),
    /// each as often as the tree holds it, in an order that the r-tree
    /// leaves open.
    pub fn locate_intersecting_bounds(&self, bounds: AabbBits) -> (r: Vec<RStarBoundingBox>)
        ensures
            r@.to_multiset() == kept_boxes(self.model(), BoxQuery::Meeting(corners_of(bounds))),
            forall|i: int| 0 <= i < r@.len() ==> held(self.model(), #[trigger] r@[i]),
    {
        proof {
            use_type_invariant(self);
        }
        self.index.locate_intersecting_bounds(bounds)
    }

    /// The boxes whose rectangle lies within the given bounds (boundaries
    /// included), each as often as the tree holds it, in an order that the
    /// r-tree leaves open.
    pub fn locate_contain_bounds(&self, bounds: AabbBits) -> (r: Vec<RStarBoundingBox>)
        ensures
            r@.to_multiset() == kept_boxes(self.model(), BoxQuery::Within(corners_of(bounds))),
            forall|i: int| 0 <= i < r@.len() ==> held(self.model(), #[trigger] r@[i]),
    {
        proof {
            use_type_invariant(self);
        }
        self.index.locate_contain_bounds(bounds)
    }
}

impl Default for AccelerationTree {
    /// An empty tree.
    fn default() -> (r: Self)
        ensures
            r.model() == Map::<u64, Seq<RStarBoundingBox>>::empty(),
            r.spec_size() == 0,
    {
        Self::new()
    }
}

/// The r-tree holds exactly the boxes that the index lists, as many times
/// as they are listed; the index lists, for each refno that has boxes, a
/// non-empty list of boxes of that refno only, and the id set is the set of
/// those refnos. Hence an entry of the tree is counted in the list of its own
/// refno and nowhere else. (Every tree meets `wf`, its invariant.)
pub proof fn lemma_tree_matches_index(t: &AccelerationTree)
    requires
        t.wf(),
    ensures
        t.entries() == all_entries(t.model()),
        t.spec_size() == all_entries(t.model()).len(),
        t.ids() == t.model().dom(),
        t.model().dom().finite(),
        keyed_by_refno(t.model()),
        forall|k: u64| #[trigger] t.model().contains_key(k) ==> t.model()[k].len() > 0,
        forall|e: TreeEntry| #[trigger] t.entries().count(e) == if t.model().contains_key(e.1) {
            entries_of(t.model()[e.1]).count(e)
        } else {
            0
        },
{
    lemma_index_matches(&t.index);
}

} // verus!
