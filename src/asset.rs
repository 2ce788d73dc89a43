//! Assets, their canonical order, and the sorted bundle of assets that a
//! transfer carries.

use vstd::prelude::*;
use crate::location::{Junction, Location, LocationView};

verus! {

#[derive(Clone, Copy, Debug, PartialEq, Eq, Structural)]
pub enum Fungibility {
    Fungible(u128),
    NonFungible(u128),
}

/// An asset: the location of its ledger and how much, or which, of it.
#[derive(Clone, Debug)]
pub struct Asset {
    pub id: Location,
    pub fun: Fungibility,
}

pub struct AssetView {
    pub id: LocationView,
    pub fun: Fungibility,
}

impl View for Asset {
    type V = AssetView;

    open spec fn view(&self) -> AssetView {
        AssetView { id: self.id@, fun: self.fun }
    }
}

pub open spec fn fungible(id: LocationView, amount: u128) -> AssetView {
    AssetView { id, fun: Fungibility::Fungible(amount) }
}

/// The amount of a fungible asset; zero for any other.
pub open spec fn amount_of(a: AssetView) -> u128 {
    match a.fun {
        Fungibility::Fungible(n) => n,
        Fungibility::NonFungible(_) => 0,
    }
}

pub open spec fn is_positive_fungible(a: AssetView) -> bool {
    a.fun is Fungible && amount_of(a) > 0
}

/// The sort key of a junction: its kind, then its value.
pub open spec fn junction_key(j: Junction) -> (int, int) {
    match j {
        Junction::Parachain(v) => (0, v as int),
        Junction::AccountIndex64(v) => (1, v as int),
        Junction::PalletInstance(v) => (2, v as int),
        Junction::GeneralIndex(v) => (3, v as int),
        Junction::OnlyChild => (4, 0),
    }
}

pub open spec fn pair_lt(a: (int, int), b: (int, int)) -> bool {
    a.0 < b.0 || (a.0 == b.0 && a.1 < b.1)
}

pub open spec fn junction_lt(a: Junction, b: Junction) -> bool {
    pair_lt(junction_key(a), junction_key(b))
}

/// Lexicographic order on junction paths of the same length.
pub open spec fn path_lt(x: Seq<Junction>, y: Seq<Junction>) -> bool
    decreases x.len(),
{
    x.len() > 0 && y.len() > 0 && (junction_lt(x[0], y[0]) || (x[0] == y[0] && path_lt(
        x.drop_first(),
        y.drop_first(),
    )))
}

/// Locations order by parents, then by interior length, then by the
/// junctions in turn.
pub open spec fn location_lt(a: LocationView, b: LocationView) -> bool {
    a.parents < b.parents || (a.parents == b.parents && (a.interior.len() < b.interior.len() || (
    a.interior.len() == b.interior.len() && path_lt(a.interior, b.interior))))
}

pub open spec fn fun_key(f: Fungibility) -> (int, int) {
    match f {
        Fungibility::Fungible(n) => (0, n as int),
        Fungibility::NonFungible(n) => (1, n as int),
    }
}

/// The canonical order of assets: by id, then fungible before non-fungible,
/// then by value.
pub open spec fn asset_lt(a: AssetView, b: AssetView) -> bool {
    location_lt(a.id, b.id) || (a.id == b.id && pair_lt(fun_key(a.fun), fun_key(b.fun)))
}

/// Each asset is no greater than the next.
pub open spec fn is_sorted(s: Seq<AssetView>) -> bool {
    forall|i: int| 0 < i < s.len() ==> !asset_lt(#[trigger] s[i], s[i - 1])
}

/// No two fungible assets share an id.
pub open spec fn fungibles_unique(s: Seq<AssetView>) -> bool {
    forall|i: int, j: int|
        0 <= i < s.len() && 0 <= j < s.len() && i != j && (#[trigger] s[i]).fun is Fungible
            && (#[trigger] s[j]).fun is Fungible ==> s[i].id != s[j].id
}

/// The first position from `i` on that holds a fungible asset of `id`, or
/// the length when there is none.
pub open spec fn merge_index(s: Seq<AssetView>, id: LocationView, i: int) -> int
    decreases s.len() - i,
{
    if i < 0 || i >= s.len() {
        s.len() as int
    } else if s[i].id == id && s[i].fun is Fungible {
        i
    } else {
        merge_index(s, id, i + 1)
    }
}

/// The first position from `i` on that holds an asset greater than `a`, or
/// the length when there is none.
pub open spec fn insert_index(s: Seq<AssetView>, a: AssetView, i: int) -> int
    decreases s.len() - i,
{
    if i < 0 || i >= s.len() {
        s.len() as int
    } else if asset_lt(a, s[i]) {
        i
    } else {
        insert_index(s, a, i + 1)
    }
}

pub open spec fn saturating_add_u128(a: u128, b: u128) -> u128 {
    if a + b > u128::MAX {
        u128::MAX
    } else {
        (a + b) as u128
    }
}

/// A bundle after adding `a`: a fungible asset whose id is already held
/// as fungible adds to that amount, saturating; anything else is inserted
/// at its place in the canonical order.
pub open spec fn pushed(s: Seq<AssetView>, a: AssetView) -> Seq<AssetView> {
    let m = merge_index(s, a.id, 0);
    if a.fun is Fungible && m < s.len() {
        s.update(m, fungible(a.id, saturating_add_u128(amount_of(s[m]), amount_of(a))))
    } else {
        s.insert(insert_index(s, a, 0), a)
    }
}

/// `s` with each asset equal to `from` replaced by `to`.
pub open spec fn replaced(s: Seq<AssetView>, from: AssetView, to: AssetView) -> Seq<AssetView> {
    s.map_values(|x: AssetView| if x == from { to } else { x })
}

pub open spec fn views_of(v: Seq<Asset>) -> Seq<AssetView> {
    v.map_values(|a: Asset| a@)
}

fn path_less(x: &Vec<Junction>, y: &Vec<Junction>) -> (r: bool)
    requires
        x@.len() == y@.len(),
    ensures
        r == path_lt(x@, y@),
{
    let n = x.len();
    let mut i: usize = 0;
    assert(x@.subrange(0, n as int) =~= x@);
    assert(y@.subrange(0, n as int) =~= y@);
    while i < n && x[i] == y[i]
        invariant
            n == x@.len() == y@.len(),
            i <= n,
            path_lt(x@, y@) == path_lt(x@.subrange(i as int, n as int), y@.subrange(i as int, n as int)),
        decreases n - i,
    {
        assert(x@.subrange(i as int, n as int).drop_first() =~= x@.subrange(i + 1, n as int));
        assert(y@.subrange(i as int, n as int).drop_first() =~= y@.subrange(i + 1, n as int));
        i = i + 1;
    }
    if i == n {
        false
    } else {
        junction_less(x[i], y[i])
    }
}

fn junction_rank(j: Junction) -> (r: (u8, u128))
    ensures
        junction_key(j) == (r.0 as int, r.1 as int),
{
    match j {
        Junction::Parachain(v) => (0, v as u128),
        Junction::AccountIndex64(v) => (1, v as u128),
        Junction::PalletInstance(v) => (2, v as u128),
        Junction::GeneralIndex(v) => (3, v),
        Junction::OnlyChild => (4, 0),
    }
}

fn junction_less(a: Junction, b: Junction) -> (r: bool)
    ensures
        r == junction_lt(a, b),
{
    let ka = junction_rank(a);
    let kb = junction_rank(b);
    ka.0 < kb.0 || (ka.0 == kb.0 && ka.1 < kb.1)
}

pub fn location_less(a: &Location, b: &Location) -> (r: bool)
    ensures
        r == location_lt(a@, b@),
{
    if a.parents != b.parents {
        return a.parents < b.parents;
    }
    if a.interior.len() != b.interior.len() {
        return a.interior.len() < b.interior.len();
    }
    path_less(&a.interior, &b.interior)
}

fn fun_rank(f: Fungibility) -> (r: (u8, u128))
    ensures
        fun_key(f) == (r.0 as int, r.1 as int),
{
    match f {
        Fungibility::Fungible(n) => (0, n),
        Fungibility::NonFungible(n) => (1, n),
    }
}

pub fn asset_less(a: &Asset, b: &Asset) -> (r: bool)
    ensures
        r == asset_lt(a@, b@),
{
    if location_less(&a.id, &b.id) {
        return true;
    }
    if a.id != b.id {
        return false;
    }
    let ka = fun_rank(a.fun);
    let kb = fun_rank(b.fun);
    ka.0 < kb.0 || (ka.0 == kb.0 && ka.1 < kb.1)
}

impl Asset {
    pub fn new_fungible(id: Location, amount: u128) -> (r: Asset)
        ensures
            r@ == fungible(id@, amount),
    {
        Asset { id, fun: Fungibility::Fungible(amount) }
    }

    pub fn duplicate(&self) -> (r: Asset)
        ensures
            r@ == self@,
    {
        Asset { id: self.id.duplicate(), fun: self.fun }
    }

    pub fn same_as(&self, o: &Asset) -> (r: bool)
        ensures
            r == (self@ == o@),
    {
        self.id == o.id && self.fun == o.fun
    }

    /// The amount if fungible, else zero.
    pub fn amount(&self) -> (r: u128)
        ensures
            r == amount_of(self@),
    {
        match self.fun {
            Fungibility::Fungible(n) => n,
            Fungibility::NonFungible(_) => 0,
        }
    }

    /// The same asset with its amount halved, rounding down.
    pub fn half(&self) -> (r: Asset)
        ensures
            r@ == fungible(self@.id, amount_of(self@) / 2),
    {
        Asset::new_fungible(self.id.duplicate(), self.amount() / 2)
    }

    /// The same asset with `amount` taken off.
    pub fn subtract_fee(&self, amount: u128) -> (r: Asset)
        requires
            amount <= amount_of(self@),
        ensures
            r@ == fungible(self@.id, (amount_of(self@) - amount) as u128),
    {
        Asset::new_fungible(self.id.duplicate(), self.amount() - amount)
    }
}

impl PartialEq for Asset {
    fn eq(&self, o: &Asset) -> (r: bool) {
        self.same_as(o)
    }
}

impl vstd::std_specs::cmp::PartialEqSpecImpl for Asset {
    open spec fn obeys_eq_spec() -> bool {
        true
    }

    open spec fn eq_spec(&self, o: &Asset) -> bool {
        self@ == o@
    }
}

impl Eq for Asset {}

/// Assets in canonical order, a fungible asset held at most once per id
/// when built by `push`.
#[derive(Clone, Debug)]
pub struct AssetBundle {
    items: Vec<Asset>,
}

impl View for AssetBundle {
    type V = Seq<AssetView>;

    closed spec fn view(&self) -> Seq<AssetView> {
        views_of(self.items@)
    }
}

impl AssetBundle {
    pub closed spec fn wf(&self) -> bool {
        is_sorted(self@) && fungibles_unique(self@)
    }

    /// A well-formed bundle is in canonical order and holds each fungible
    /// asset once.
    pub proof fn lemma_wf_is_canonical(&self)
        requires
            self.wf(),
        ensures
            is_sorted(self@),
            fungibles_unique(self@),
    {
    }

    pub fn new() -> (r: AssetBundle)
        ensures
            r.wf(),
            r@ == Seq::<AssetView>::empty(),
    {
        let r = AssetBundle { items: Vec::new() };
        assert(r@ =~= Seq::<AssetView>::empty());
        r
    }

    /// A bundle of one asset.
    pub fn single(a: Asset) -> (r: AssetBundle)
        ensures
            r.wf(),
            r@ == seq![a@],
    {
        let mut r = AssetBundle::new();
        r.push(a);
        assert(merge_index(Seq::<AssetView>::empty(), a@.id, 0) == 0);
        assert(insert_index(Seq::<AssetView>::empty(), a@, 0) == 0);
        assert(r@ =~= seq![a@]);
        r
    }

    pub fn len(&self) -> (r: usize)
        ensures
            r == self@.len(),
    {
        self.items.len()
    }

    pub fn get(&self, i: usize) -> (r: Option<&Asset>)
        ensures
            i < self@.len() ==> (r matches Some(a) && a@ == self@[i as int]),
            i >= self@.len() ==> r is None,
    {
        if i < self.items.len() {
            Some(&self.items[i])
        } else {
            None
        }
    }

    pub fn duplicate(&self) -> (r: AssetBundle)
        ensures
            r@ == self@,
            r.wf() == self.wf(),
    {
        let mut items: Vec<Asset> = Vec::new();
        let mut i: usize = 0;
        while i < self.items.len()
            invariant
                i <= self.items@.len(),
                views_of(items@) =~= views_of(self.items@.subrange(0, i as int)),
            decreases self.items@.len() - i,
        {
            let ghost prev = items@;
            items.push(self.items[i].duplicate());
            assert(views_of(items@) =~= views_of(prev).push(self.items@[i as int]@));
            assert(self.items@.subrange(0, i + 1) =~= self.items@.subrange(0, i as int).push(self.items@[i as int]));
            i = i + 1;
        }
        assert(self.items@.subrange(0, i as int) =~= self.items@);
        AssetBundle { items }
    }

    /// The bundle with each asset equal to `from` replaced by `from`'s id
    /// at `amount`.
    pub fn with_replaced(&self, from: &Asset, amount: u128) -> (r: AssetBundle)
        requires
            self.wf(),
            from@.fun is Fungible,
        ensures
            r.wf(),
            r@ == replaced(self@, from@, fungible(from@.id, amount)),
    {
        let ghost s = self@;
        let ghost v = fungible(from@.id, amount);
        let mut items: Vec<Asset> = Vec::new();
        let mut i: usize = 0;
        while i < self.items.len()
            invariant
                s == self@,
                v == fungible(from@.id, amount),
                i <= self.items@.len(),
                views_of(items@) =~= replaced(s.subrange(0, i as int), from@, v),
            decreases self.items@.len() - i,
        {
            let ghost prev = items@;
            assert(s[i as int] == self.items@[i as int]@);
            let next = if self.items[i].same_as(from) {
                Asset::new_fungible(from.id.duplicate(), amount)
            } else {
                self.items[i].duplicate()
            };
            assert(next@ == replaced(s, from@, v)[i as int]);
            items.push(next);
            assert(views_of(items@) =~= views_of(prev).push(next@));
            assert(s.subrange(0, i + 1) =~= s.subrange(0, i as int).push(s[i as int]));
            i = i + 1;
        }
        assert(s.subrange(0, i as int) =~= s);
        let r = AssetBundle { items };
        proof {
            if exists|m: int| 0 <= m < s.len() && s[m] == from@ {
                let m = choose|m: int| 0 <= m < s.len() && s[m] == from@;
                assert forall|j: int| 0 <= j < s.len() && j != m implies s[j] != from@ by {
                    if s[j] == from@ {
                        assert(s[j].fun is Fungible && s[m].fun is Fungible);
                    }
                }
                assert(r@ =~= s.update(m, v));
                lemma_merge_keeps_order(s, m, v);
            } else {
                assert(r@ =~= s);
            }
        }
        r
    }

    /// The position of the fungible asset of `id`, or the length.
    fn find_fungible(&self, id: &Location) -> (r: usize)
        ensures
            r == merge_index(self@, id@, 0),
            r <= self@.len(),
    {
        let n = self.items.len();
        let mut i: usize = 0;
        while i < n
            invariant
                n == self@.len(),
                i <= n,
                merge_index(self@, id@, 0) == merge_index(self@, id@, i as int),
            decreases n - i,
        {
            if self.items[i].id == *id && matches!(self.items[i].fun, Fungibility::Fungible(_)) {
                return i;
            }
            i = i + 1;
        }
        i
    }

    /// The position before the first asset greater than `a`.
    fn find_place(&self, a: &Asset) -> (r: usize)
        ensures
            r == insert_index(self@, a@, 0),
            r <= self@.len(),
            r < self@.len() ==> asset_lt(a@, self@[r as int]),
            forall|j: int| 0 <= j < r ==> !asset_lt(a@, #[trigger] self@[j]),
    {
        let n = self.items.len();
        let mut k: usize = 0;
        while k < n && !asset_less(a, &self.items[k])
            invariant
                n == self@.len(),
                k <= n,
                insert_index(self@, a@, 0) == insert_index(self@, a@, k as int),
                forall|j: int| 0 <= j < k ==> !asset_lt(a@, #[trigger] self@[j]),
            decreases n - k,
        {
            k = k + 1;
        }
        k
    }

    /// Adds `a`: merged into a fungible asset of the same id, saturating,
    /// else inserted in canonical order.
    pub fn push(&mut self, a: Asset)
        requires
            old(self).wf(),
        ensures
            final(self).wf(),
            final(self)@ == pushed(old(self)@, a@),
    {
        let ghost s = self@;
        let n = self.items.len();
        if let Fungibility::Fungible(amount) = a.fun {
            let m = self.find_fungible(&a.id);
            if m < n {
                proof {
                    lemma_merge_index_found(s, a@.id, 0);
                }
                let total = self.items[m].amount().saturating_add(amount);
                let merged = Asset::new_fungible(a.id, total);
                let ghost prev = self.items@;
                self.items.set(m, merged);
                assert(views_of(self.items@) =~= views_of(prev).update(m as int, merged@));
                proof {
                    lemma_merge_keeps_order(s, m as int, merged@);
                }
                return;
            }
            proof {
                lemma_merge_index_none(s, a@.id, 0);
            }
        }
        let k = self.find_place(&a);
        let ghost prev = self.items@;
        self.items.insert(k, a);
        assert(views_of(self.items@) =~= views_of(prev).insert(k as int, a@));
        proof {
            lemma_insert_keeps_order(s, k as int, a@);
        }
    }
}

proof fn lemma_merge_index_found(s: Seq<AssetView>, id: LocationView, i: int)
    requires
        0 <= i,
        merge_index(s, id, i) < s.len(),
    ensures
        s[merge_index(s, id, i)].id == id,
        s[merge_index(s, id, i)].fun is Fungible,
    decreases s.len() - i,
{
    if i < s.len() && !(s[i].id == id && s[i].fun is Fungible) {
        lemma_merge_index_found(s, id, i + 1);
    }
}

/// Raising the amount of a held fungible asset keeps the bundle in order.
proof fn lemma_merge_keeps_order(s: Seq<AssetView>, m: int, v: AssetView)
    requires
        is_sorted(s),
        fungibles_unique(s),
        0 <= m < s.len(),
        s[m].fun is Fungible,
        v.fun is Fungible,
        v.id == s[m].id,
    ensures
        is_sorted(s.update(m, v)),
        fungibles_unique(s.update(m, v)),
{
    let t = s.update(m, v);
    assert forall|j: int| 0 < j < t.len() implies !asset_lt(#[trigger] t[j], t[j - 1]) by {
        assert(!asset_lt(s[j], s[j - 1]));
        if j == m || j == m + 1 {
            lemma_lt_total(s[j], s[j - 1]);
            lemma_lt_asym(s[j - 1], s[j]);
            if s[j].id == s[j - 1].id {
                assert(s[j] != s[j - 1] ==> !(s[j].fun is Fungible && s[j - 1].fun is Fungible));
            }
        }
    }
    assert forall|i: int, j: int|
        0 <= i < t.len() && 0 <= j < t.len() && i != j && (#[trigger] t[i]).fun is Fungible
            && (#[trigger] t[j]).fun is Fungible implies t[i].id != t[j].id by {
        assert(s[i].fun is Fungible && s[j].fun is Fungible);
    }
}

/// Inserting `a` after every asset it does not precede and before the
/// first it precedes keeps the bundle in order.
proof fn lemma_insert_keeps_order(s: Seq<AssetView>, k: int, a: AssetView)
    requires
        is_sorted(s),
        fungibles_unique(s),
        0 <= k <= s.len(),
        k < s.len() ==> asset_lt(a, s[k]),
        forall|j: int| 0 <= j < k ==> !asset_lt(a, #[trigger] s[j]),
        a.fun is Fungible ==> forall|j: int| 0 <= j < s.len() ==> !((#[trigger] s[j]).id == a.id && s[j].fun is Fungible),
    ensures
        is_sorted(s.insert(k, a)),
        fungibles_unique(s.insert(k, a)),
{
    let t = s.insert(k, a);
    assert forall|j: int| 0 < j < t.len() implies !asset_lt(#[trigger] t[j], t[j - 1]) by {
        if j < k {
            assert(!asset_lt(s[j], s[j - 1]));
        } else if j == k {
            assert(!asset_lt(a, s[j - 1]));
            lemma_lt_total(a, s[j - 1]);
            lemma_lt_asym(s[j - 1], a);
        } else if j == k + 1 {
            lemma_lt_asym(a, s[j - 1]);
        } else {
            assert(!asset_lt(s[j - 1], s[j - 2]));
        }
    }
    assert forall|i: int, j: int|
        0 <= i < t.len() && 0 <= j < t.len() && i != j && (#[trigger] t[i]).fun is Fungible
            && (#[trigger] t[j]).fun is Fungible implies t[i].id != t[j].id by {
        if i != k && j != k {
            let si = if i < k { i } else { i - 1 };
            let sj = if j < k { j } else { j - 1 };
            assert(s[si].fun is Fungible && s[sj].fun is Fungible);
        } else if i == k {
            let sj = if j < k { j } else { j - 1 };
            assert(!(s[sj].id == a.id && s[sj].fun is Fungible));
        } else {
            let si = if i < k { i } else { i - 1 };
            assert(!(s[si].id == a.id && s[si].fun is Fungible));
        }
    }
}

/// Where no fungible asset of `id` stands from `i` on, every such position
/// holds another id or a non-fungible asset.
proof fn lemma_merge_index_none(s: Seq<AssetView>, id: LocationView, i: int)
    requires
        0 <= i <= s.len(),
        merge_index(s, id, i) == s.len(),
    ensures
        forall|j: int| i <= j < s.len() ==> !((#[trigger] s[j]).id == id && s[j].fun is Fungible),
    decreases s.len() - i,
{
    if i < s.len() {
        lemma_merge_index_none(s, id, i + 1);
    }
}

proof fn lemma_path_lt_total(x: Seq<Junction>, y: Seq<Junction>)
    requires
        x.len() == y.len(),
        !path_lt(x, y),
    ensures
        path_lt(y, x) || x == y,
    decreases x.len(),
{
    if x.len() > 0 {
        if x[0] == y[0] {
            lemma_path_lt_total(x.drop_first(), y.drop_first());
            if x.drop_first() == y.drop_first() {
                assert(x =~= seq![x[0]] + x.drop_first());
                assert(y =~= seq![y[0]] + y.drop_first());
            }
        } else {
            lemma_junction_key_injective(x[0], y[0]);
        }
    } else {
        assert(x =~= y);
    }
}

proof fn lemma_junction_key_injective(a: Junction, b: Junction)
    ensures
        junction_key(a) == junction_key(b) ==> a == b,
{
}

proof fn lemma_path_lt_asym(x: Seq<Junction>, y: Seq<Junction>)
    requires
        path_lt(x, y),
    ensures
        !path_lt(y, x),
    decreases x.len(),
{
    if x[0] == y[0] {
        lemma_path_lt_asym(x.drop_first(), y.drop_first());
    }
}

/// Of two assets that are not in order one way, the other way holds or they
/// are equal.
proof fn lemma_lt_total(a: AssetView, b: AssetView)
    ensures
        !asset_lt(a, b) ==> asset_lt(b, a) || a == b,
{
    if !asset_lt(a, b) && a.id.parents == b.id.parents && a.id.interior.len() == b.id.interior.len() {
        lemma_path_lt_total(a.id.interior, b.id.interior);
        if a.id.interior == b.id.interior {
            assert(a.id == b.id);
        }
    }
}

proof fn lemma_lt_asym(a: AssetView, b: AssetView)
    ensures
        asset_lt(a, b) ==> !asset_lt(b, a),
{
    if asset_lt(a, b) && a.id.parents == b.id.parents && a.id.interior.len() == b.id.interior.len()
        && path_lt(a.id.interior, b.id.interior) {
        lemma_path_lt_asym(a.id.interior, b.id.interior);
    }
}

} // verus!
