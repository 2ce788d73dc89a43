//! Hierarchical locations: a number of parents to ascend and an interior path
//! of junctions, with the chain / non-chain split and reanchoring.

use vstd::prelude::*;

verus! {

/// The most junctions an interior path may hold.
pub const MAX_JUNCTIONS: usize = 8;

/// One segment of an interior path.
#[derive(Clone, Copy, Debug, PartialEq, Eq, Structural)]
pub enum Junction {
    Parachain(u32),
    AccountIndex64(u64),
    PalletInstance(u8),
    GeneralIndex(u128),
    OnlyChild,
}

/// A location relative to some frame: `parents` levels up, then down the
/// `interior` path.
#[derive(Clone, Debug)]
pub struct Location {
    pub parents: u8,
    pub interior: Vec<Junction>,
}

/// The mathematical value of a `Location`.
pub struct LocationView {
    pub parents: u8,
    pub interior: Seq<Junction>,
}

impl View for Location {
    type V = LocationView;

    open spec fn view(&self) -> LocationView {
        LocationView { parents: self.parents, interior: self.interior@ }
    }
}

pub open spec fn opt_view(o: Option<Location>) -> Option<LocationView> {
    match o {
        Some(l) => Some(l@),
        None => None,
    }
}

pub open spec fn loc(parents: u8, interior: Seq<Junction>) -> LocationView {
    LocationView { parents, interior }
}

/// The prefix that names a whole chain: a sibling or the parent when
/// ascending one level, a child chain when ascending none.
pub open spec fn chain_part_of(l: LocationView) -> Option<LocationView> {
    if l.parents == 1 {
        if l.interior.len() > 0 && l.interior[0] is Parachain {
            Some(loc(1, seq![l.interior[0]]))
        } else {
            Some(loc(1, Seq::empty()))
        }
    } else if l.parents == 0 && l.interior.len() > 0 && l.interior[0] is Parachain {
        Some(loc(0, seq![l.interior[0]]))
    } else {
        None
    }
}

/// The interior with its leading chain junctions removed.
pub open spec fn strip_chains(s: Seq<Junction>) -> Seq<Junction>
    decreases s.len(),
{
    if s.len() > 0 && s[0] is Parachain {
        strip_chains(s.drop_first())
    } else {
        s
    }
}

/// What remains inside the chain, as a location of no parents; absent when
/// nothing remains.
pub open spec fn non_chain_part_of(l: LocationView) -> Option<LocationView> {
    let rest = strip_chains(l.interior);
    if rest.len() > 0 {
        Some(loc(0, rest))
    } else {
        None
    }
}

/// `l` with `suffix` appended to its interior, unless that exceeds the
/// maximum number of junctions.
pub open spec fn appended(l: LocationView, suffix: Seq<Junction>) -> Option<LocationView> {
    if l.interior.len() + suffix.len() > MAX_JUNCTIONS {
        None
    } else {
        Some(loc(l.parents, l.interior + suffix))
    }
}

/// The last `n` junctions of `anc`, padded in front with `OnlyChild` where
/// `anc` is shorter.
pub open spec fn last_junctions(anc: Seq<Junction>, n: nat) -> Seq<Junction> {
    if n <= anc.len() {
        anc.subrange(anc.len() - n, anc.len() as int)
    } else {
        Seq::new((n - anc.len()) as nat, |i: int| Junction::OnlyChild) + anc
    }
}

/// How `target` addresses the frame whose absolute address is `ancestry`.
pub open spec fn inverted_of(ancestry: LocationView, target: LocationView) -> Option<LocationView> {
    if target.parents > MAX_JUNCTIONS || target.interior.len() > MAX_JUNCTIONS {
        None
    } else {
        Some(loc(target.interior.len() as u8, last_junctions(ancestry.interior, target.parents as nat)))
    }
}

pub open spec fn min_nat(a: nat, b: nat) -> nat {
    if a <= b {
        a
    } else {
        b
    }
}

/// `x` as seen from the frame `prefix`: each parent of `x` cancels a trailing
/// junction of `prefix`; fails when the result has too many junctions or
/// parents.
pub open spec fn prepended(x: LocationView, prefix: LocationView) -> Option<LocationView> {
    let pl = prefix.interior.len();
    let k = min_nat(x.parents as nat, pl);
    if x.interior.len() + (pl - k) > MAX_JUNCTIONS || prefix.parents + (x.parents - k) > 255 {
        None
    } else {
        Some(loc((prefix.parents + (x.parents - k)) as u8, prefix.interior.subrange(0, pl - k) + x.interior))
    }
}

/// Drops a parent together with the first junction while the known context
/// shows that ascending and descending again is a detour.
pub open spec fn simplify_steps(parents: u8, interior: Seq<Junction>, context: Seq<Junction>) -> LocationView
    decreases parents,
{
    if parents > 0 && parents <= context.len() && interior.len() > 0
        && context[context.len() - parents] == interior[0] {
        simplify_steps((parents - 1) as u8, interior.drop_first(), context)
    } else {
        loc(parents, interior)
    }
}

pub open spec fn simplified(x: LocationView, context: Seq<Junction>) -> LocationView {
    if context.len() < x.parents {
        x
    } else {
        simplify_steps(x.parents, x.interior, context)
    }
}

/// `x`, a location in the frame whose absolute address is `ancestry`,
/// expressed relative to `target`.
pub open spec fn reanchored_of(x: LocationView, target: LocationView, ancestry: LocationView) -> Option<LocationView> {
    match inverted_of(ancestry, target) {
        None => None,
        Some(inv) => match prepended(x, inv) {
            None => None,
            Some(y) => Some(simplified(y, target.interior)),
        },
    }
}

/// Reanchoring to a sibling frame and back from there gives the location
/// again. This frame's absolute address is `own`; the sibling shares its
/// parent and ends in `sibling` instead. It holds for any location with
/// room for one more junction that does not name this frame by way of the
/// parent.
pub proof fn lemma_reanchor_round_trip(x: LocationView, own: Seq<Junction>, sibling: Junction)
    requires
        own.len() > 0,
        own.last() != sibling,
        x.interior.len() < MAX_JUNCTIONS,
        !(x.parents == 1 && x.interior.len() > 0 && x.interior[0] == own.last()),
    ensures
        ({
            let there = reanchored_of(x, loc(1, seq![sibling]), loc(0, own));
            there is Some && reanchored_of(
                there->0,
                loc(1, seq![own.last()]),
                loc(0, own.drop_last().push(sibling)),
            ) == Some(x)
        }),
{
    let a = seq![own.last()];
    let b = seq![sibling];
    let theirs = own.drop_last().push(sibling);
    assert(last_junctions(own, 1) =~= a);
    assert(last_junctions(theirs, 1) =~= b);
    let inv1 = loc(1, a);
    let inv2 = loc(1, b);
    assert(inverted_of(loc(0, own), loc(1, b)) == Some(inv1));
    assert(inverted_of(loc(0, theirs), loc(1, a)) == Some(inv2));
    if x.parents == 0 {
        let y = loc(1, a + x.interior);
        assert(a.subrange(0, 1) =~= a);
        assert(prepended(x, inv1) == Some(y));
        assert((a + x.interior)[0] == own.last());
        assert(simplified(y, b) == y);
        assert(b.subrange(0, 0) =~= Seq::<Junction>::empty());
        assert(Seq::<Junction>::empty() + (a + x.interior) =~= a + x.interior);
        assert(prepended(y, inv2) == Some(y));
        assert((a + x.interior).drop_first() =~= x.interior);
        assert(simplify_steps(0, x.interior, a) == x);
        assert(simplified(y, a) == x);
    } else if x.parents == 1 {
        assert(a.subrange(0, 0) =~= Seq::<Junction>::empty());
        assert(Seq::<Junction>::empty() + x.interior =~= x.interior);
        assert(prepended(x, inv1) == Some(loc(1, x.interior)));
        if x.interior.len() > 0 && x.interior[0] == sibling {
            let y = loc(0, x.interior.drop_first());
            assert(simplify_steps(0, x.interior.drop_first(), b) == y);
            assert(simplified(loc(1, x.interior), b) == y);
            assert(b.subrange(0, 1) =~= b);
            assert(b + x.interior.drop_first() =~= x.interior);
            assert(prepended(y, inv2) == Some(loc(1, x.interior)));
            assert(simplified(loc(1, x.interior), a) == loc(1, x.interior));
        } else {
            assert(simplified(loc(1, x.interior), b) == loc(1, x.interior));
            assert(b.subrange(0, 0) =~= Seq::<Junction>::empty());
            assert(prepended(loc(1, x.interior), inv2) == Some(loc(1, x.interior)));
            assert(simplified(loc(1, x.interior), a) == loc(1, x.interior));
        }
        assert(x == loc(1, x.interior));
    } else {
        assert(a.subrange(0, 0) =~= Seq::<Junction>::empty());
        assert(b.subrange(0, 0) =~= Seq::<Junction>::empty());
        assert(Seq::<Junction>::empty() + x.interior =~= x.interior);
        assert(prepended(x, inv1) == Some(x));
        assert(simplified(x, b) == x);
        assert(prepended(x, inv2) == Some(x));
        assert(simplified(x, a) == x);
    }
}

/// Reanchoring to the parent frame and back from there gives the location
/// again. This frame's absolute address is `own`; the parent's is `own`
/// without its last junction. It holds for any location with room for one
/// more junction that does not name this frame by way of the parent.
pub proof fn lemma_reanchor_round_trip_via_parent(x: LocationView, own: Seq<Junction>)
    requires
        own.len() > 0,
        x.interior.len() < MAX_JUNCTIONS,
        !(x.parents == 1 && x.interior.len() > 0 && x.interior[0] == own.last()),
    ensures
        ({
            let there = reanchored_of(x, loc(1, Seq::empty()), loc(0, own));
            there is Some && reanchored_of(there->0, loc(0, seq![own.last()]), loc(0, own.drop_last())) == Some(x)
        }),
{
    let a = seq![own.last()];
    let e = Seq::<Junction>::empty();
    assert(last_junctions(own, 1) =~= a);
    assert(last_junctions(own.drop_last(), 0) =~= e);
    let inv1 = loc(0, a);
    let inv2 = loc(1, e);
    assert(inverted_of(loc(0, own), loc(1, e)) == Some(inv1));
    assert(inverted_of(loc(0, own.drop_last()), loc(0, a)) == Some(inv2));
    assert(e + x.interior =~= x.interior);
    assert(a.subrange(0, 0) =~= e);
    assert(e.subrange(0, 0) =~= e);
    if x.parents == 0 {
        let y = loc(0, a + x.interior);
        assert(a.subrange(0, 1) =~= a);
        assert(prepended(x, inv1) == Some(y));
        assert(simplified(y, e) == y);
        assert(e + (a + x.interior) =~= a + x.interior);
        assert(prepended(y, inv2) == Some(loc(1, a + x.interior)));
        assert((a + x.interior)[0] == own.last());
        assert((a + x.interior).drop_first() =~= x.interior);
        assert(simplify_steps(0, x.interior, a) == x);
        assert(simplified(loc(1, a + x.interior), a) == x);
    } else if x.parents == 1 {
        assert(prepended(x, inv1) == Some(loc(0, x.interior)));
        assert(simplified(loc(0, x.interior), e) == loc(0, x.interior));
        assert(prepended(loc(0, x.interior), inv2) == Some(loc(1, x.interior)));
        assert(simplified(loc(1, x.interior), a) == loc(1, x.interior));
        assert(x == loc(1, x.interior));
    } else {
        let y = loc((x.parents - 1) as u8, x.interior);
        assert(prepended(x, inv1) == Some(y));
        assert(simplified(y, e) == y);
        assert(prepended(y, inv2) == Some(x));
        assert(simplified(x, a) == x);
    }
}

fn junctions_eq(a: &Vec<Junction>, b: &Vec<Junction>) -> (r: bool)
    ensures
        r == (a@ == b@),
{
    if a.len() != b.len() {
        return false;
    }
    let mut i: usize = 0;
    while i < a.len()
        invariant
            a@.len() == b@.len(),
            i <= a@.len(),
            forall|j: int| 0 <= j < i ==> a@[j] == b@[j],
        decreases a@.len() - i,
    {
        if a[i] != b[i] {
            return false;
        }
        i = i + 1;
    }
    assert(a@ =~= b@);
    true
}

fn copy_junctions(s: &Vec<Junction>, from: usize, to: usize, out: &mut Vec<Junction>)
    requires
        from <= to <= s@.len(),
    ensures
        final(out)@ == old(out)@ + s@.subrange(from as int, to as int),
{
    let mut i: usize = from;
    while i < to
        invariant
            from <= i <= to <= s@.len(),
            out@ == old(out)@ + s@.subrange(from as int, i as int),
        decreases to - i,
    {
        out.push(s[i]);
        assert(s@.subrange(from as int, i + 1) =~= s@.subrange(from as int, i as int).push(s@[i as int]));
        i = i + 1;
    }
}

impl PartialEq for Location {
    fn eq(&self, o: &Location) -> (r: bool) {
        self.parents == o.parents && junctions_eq(&self.interior, &o.interior)
    }
}

impl vstd::std_specs::cmp::PartialEqSpecImpl for Location {
    open spec fn obeys_eq_spec() -> bool {
        true
    }

    open spec fn eq_spec(&self, o: &Location) -> bool {
        self@ == o@
    }
}

impl Eq for Location {}

impl Location {
    pub fn new(parents: u8, interior: Vec<Junction>) -> (r: Location)
        ensures
            r@ == loc(parents, interior@),
    {
        Location { parents, interior }
    }

    /// The location of no parents and an empty interior.
    pub fn here() -> (r: Location)
        ensures
            r@ == loc(0, Seq::empty()),
    {
        Location { parents: 0, interior: Vec::new() }
    }

    /// The parent: one level up, empty interior.
    pub fn parent() -> (r: Location)
        ensures
            r@ == loc(1, Seq::empty()),
    {
        Location { parents: 1, interior: Vec::new() }
    }

    /// A sibling chain of the given index.
    pub fn sibling(id: u32) -> (r: Location)
        ensures
            r@ == loc(1, seq![Junction::Parachain(id)]),
    {
        let mut interior = Vec::new();
        interior.push(Junction::Parachain(id));
        Location { parents: 1, interior }
    }

    pub fn duplicate(&self) -> (r: Location)
        ensures
            r@ == self@,
    {
        let mut interior = Vec::new();
        copy_junctions(&self.interior, 0, self.interior.len(), &mut interior);
        assert(interior@ =~= self.interior@);
        Location { parents: self.parents, interior }
    }

    pub fn chain_part(&self) -> (r: Option<Location>)
        ensures
            r matches Some(c) ==> chain_part_of(self@) == Some(c@),
            r is None ==> chain_part_of(self@) is None,
    {
        let first_is_chain = self.interior.len() > 0 && matches!(self.interior[0], Junction::Parachain(_));
        if self.parents == 1 {
            if first_is_chain {
                let mut interior = Vec::new();
                interior.push(self.interior[0]);
                assert(interior@ =~= seq![self.interior@[0]]);
                Some(Location { parents: 1, interior })
            } else {
                Some(Location::parent())
            }
        } else if self.parents == 0 && first_is_chain {
            let mut interior = Vec::new();
            interior.push(self.interior[0]);
            assert(interior@ =~= seq![self.interior@[0]]);
            Some(Location { parents: 0, interior })
        } else {
            None
        }
    }

    pub fn non_chain_part(&self) -> (r: Option<Location>)
        ensures
            r matches Some(c) ==> non_chain_part_of(self@) == Some(c@),
            r is None ==> non_chain_part_of(self@) is None,
    {
        let n = self.interior.len();
        let mut i: usize = 0;
        assert(self.interior@.subrange(0, n as int) =~= self.interior@);
        while i < n && matches!(self.interior[i], Junction::Parachain(_))
            invariant
                n == self.interior@.len(),
                i <= n,
                strip_chains(self.interior@) == strip_chains(self.interior@.subrange(i as int, n as int)),
            decreases n - i,
        {
            let ghost s = self.interior@.subrange(i as int, n as int);
            assert(s.drop_first() =~= self.interior@.subrange(i + 1, n as int));
            i = i + 1;
        }
        let ghost s = self.interior@.subrange(i as int, n as int);
        if i == n {
            assert(s.len() == 0);
            None
        } else {
            let mut interior = Vec::new();
            copy_junctions(&self.interior, i, n, &mut interior);
            assert(interior@ =~= s);
            Some(Location { parents: 0, interior })
        }
    }

    /// Appends `suffix` to the interior; fails, leaving `self` as it was,
    /// when the result would exceed the maximum number of junctions.
    pub fn append_with(&mut self, suffix: &Vec<Junction>) -> (r: bool)
        ensures
            r == appended(old(self)@, suffix@) is Some,
            r ==> Some(final(self)@) == appended(old(self)@, suffix@),
            !r ==> final(self)@ == old(self)@,
    {
        if self.interior.len() > MAX_JUNCTIONS || suffix.len() > MAX_JUNCTIONS - self.interior.len() {
            return false;
        }
        copy_junctions(suffix, 0, suffix.len(), &mut self.interior);
        assert(suffix@.subrange(0, suffix@.len() as int) =~= suffix@);
        true
    }

    /// How `target` addresses the frame of absolute address `ancestry`.
    fn inverted(ancestry: &Location, target: &Location) -> (r: Option<Location>)
        ensures
            r matches Some(v) ==> inverted_of(ancestry@, target@) == Some(v@),
            r is None ==> inverted_of(ancestry@, target@) is None,
    {
        if target.parents as usize > MAX_JUNCTIONS || target.interior.len() > MAX_JUNCTIONS {
            return None;
        }
        let n = target.parents as usize;
        let len = ancestry.interior.len();
        let mut interior = Vec::new();
        if n <= len {
            copy_junctions(&ancestry.interior, len - n, len, &mut interior);
            assert(interior@ =~= last_junctions(ancestry.interior@, n as nat));
        } else {
            let mut i: usize = 0;
            while i < n - len
                invariant
                    n > len,
                    i <= n - len,
                    interior@ =~= Seq::new(i as nat, |j: int| Junction::OnlyChild),
                decreases n - len - i,
            {
                interior.push(Junction::OnlyChild);
                i = i + 1;
            }
            copy_junctions(&ancestry.interior, 0, len, &mut interior);
            assert(ancestry.interior@.subrange(0, len as int) =~= ancestry.interior@);
            assert(interior@ =~= last_junctions(ancestry.interior@, n as nat));
        }
        Some(Location { parents: target.interior.len() as u8, interior })
    }

    /// `self` as seen from the frame `prefix`.
    fn prepended(&self, prefix: &Location) -> (r: Option<Location>)
        ensures
            r matches Some(v) ==> prepended(self@, prefix@) == Some(v@),
            r is None ==> prepended(self@, prefix@) is None,
    {
        let pl = prefix.interior.len();
        let k: usize = if (self.parents as usize) <= pl { self.parents as usize } else { pl };
        if self.interior.len() > MAX_JUNCTIONS || pl - k > MAX_JUNCTIONS - self.interior.len() {
            return None;
        }
        let extra: u8 = self.parents - k as u8;
        if prefix.parents as u16 + extra as u16 > 255 {
            return None;
        }
        let mut interior = Vec::new();
        copy_junctions(&prefix.interior, 0, pl - k, &mut interior);
        copy_junctions(&self.interior, 0, self.interior.len(), &mut interior);
        assert(self.interior@.subrange(0, self.interior@.len() as int) =~= self.interior@);
        Some(Location { parents: prefix.parents + extra, interior })
    }

    /// Removes parents that the known `context` shows to be a detour.
    fn simplify(&mut self, context: &Vec<Junction>)
        ensures
            final(self)@ == simplified(old(self)@, context@),
    {
        if context.len() < self.parents as usize {
            return;
        }
        let ghost start = self@;
        let mut rest = Vec::new();
        let mut p: u8 = self.parents;
        let mut i: usize = 0;
        let n = self.interior.len();
        assert(self.interior@.subrange(0, n as int) =~= start.interior);
        while p > 0 && i < n && context[context.len() - p as usize] == self.interior[i]
            invariant
                start == old(self)@,
                self@ == start,
                n == self.interior@.len(),
                i <= n,
                p <= context@.len(),
                p as int + i as int == start.parents as int,
                simplify_steps(p, self.interior@.subrange(i as int, n as int), context@)
                    == simplify_steps(start.parents, start.interior, context@),
            decreases p,
        {
            let ghost s = self.interior@.subrange(i as int, n as int);
            assert(s.drop_first() =~= self.interior@.subrange(i + 1, n as int));
            p = p - 1;
            i = i + 1;
        }
        copy_junctions(&self.interior, i, n, &mut rest);
        assert(rest@ =~= self.interior@.subrange(i as int, n as int));
        self.parents = p;
        self.interior = rest;
    }

    /// `self`, a location in the frame of absolute address `ancestry`,
    /// expressed relative to `target`.
    pub fn reanchored(&self, target: &Location, ancestry: &Location) -> (r: Option<Location>)
        ensures
            r matches Some(v) ==> reanchored_of(self@, target@, ancestry@) == Some(v@),
            r is None ==> reanchored_of(self@, target@, ancestry@) is None,
    {
        match Location::inverted(ancestry, target) {
            None => None,
            Some(inv) => match self.prepended(&inv) {
                None => None,
                Some(mut y) => {
                    y.simplify(&target.interior);
                    Some(y)
                },
            },
        }
    }
}

} // verus!
