//! Resolving bays to devices.
//!
//! Two passes over the bays in declaration order: first every enabled bay
//! with a declared binding takes the first still-unclaimed device it matches;
//! then, when the topology allows it, the remaining devices drop into the
//! remaining enabled unbound bays in enumeration order. Declared bindings
//! therefore always win, and a device is claimed at most once.

use vstd::prelude::*;

use crate::bay::{Bay, BayId, BayTopology, BayV, BindingV, TopologyV, binding_matches, topology_bays};
use crate::bay_build::{ceil_sqrt_from, lemma_ceil_sqrt, law_generated_bench_fits, arma_4u_32_view, bench_cols, bench_n, bench_rows, dock_2bay_view, generated_bench, generated_view, grid_bay, law_grid_bay_ids_are_distinct, nvme_carrier_8_view};
use crate::device::{Device, DeviceId};

verus! {

/// One bay's resolved device.
#[derive(Debug, PartialEq, Eq)]
pub struct BayOccupancy {
    pub bay_id: BayId,
    pub device_id: DeviceId,
}

impl Clone for BayOccupancy {
    fn clone(&self) -> (r: Self)
        ensures
            r == *self,
    {
        BayOccupancy { bay_id: self.bay_id.clone(), device_id: self.device_id.clone() }
    }
}

/// A topology plus the current bay→device resolution.
#[derive(Debug, PartialEq, Eq)]
pub struct ResolvedBayTopology {
    pub topology: BayTopology,
    pub occupancy: Vec<BayOccupancy>,
    /// Devices no bay claimed: reported, never dropped.
    pub unplaced_devices: Vec<DeviceId>,
}

/// A bay that takes part in the declared-binding pass.
pub open spec fn declared(b: BayV) -> bool {
    !b.disabled && !(b.binding is Unbound)
}

/// A bay that takes part in the enumeration-order pass.
pub open spec fn fillable(b: BayV) -> bool {
    !b.disabled && b.binding is Unbound
}

/// First unclaimed device at or after `j` that the binding matches.
pub open spec fn first_match_from(b: BindingV, devs: Seq<Device>, claimed: Seq<bool>, j: int) -> Option<int>
    decreases devs.len() - j,
{
    if j < 0 || j >= devs.len() {
        None
    } else if !claimed[j] && binding_matches(b, devs[j]) {
        Some(j)
    } else {
        first_match_from(b, devs, claimed, j + 1)
    }
}

/// The declared-binding pass over the first `k` bays: which devices are
/// claimed afterwards, and what each of those bays took.
pub open spec fn pass1(bays: Seq<BayV>, devs: Seq<Device>, k: nat) -> (Seq<bool>, Seq<Option<int>>)
    decreases k,
{
    if k == 0 {
        (Seq::new(devs.len(), |i: int| false), Seq::empty())
    } else {
        let prev = pass1(bays, devs, (k - 1) as nat);
        let b = bays[k - 1];
        if declared(b) {
            match first_match_from(b.binding, devs, prev.0, 0) {
                Some(i) => (prev.0.update(i, true), prev.1.push(Some(i))),
                None => (prev.0, prev.1.push(None)),
            }
        } else {
            (prev.0, prev.1.push(None))
        }
    }
}

/// First unclaimed device at or after `next`.
pub open spec fn skip_claimed(claimed: Seq<bool>, next: int) -> int
    decreases claimed.len() - next,
{
    if 0 <= next < claimed.len() && claimed[next] {
        skip_claimed(claimed, next + 1)
    } else {
        next
    }
}

/// The enumeration-order pass over the first `k` bays, starting from the
/// claims `c0` left by the declared pass: claims afterwards, the cursor, and
/// what each of those bays took.
pub open spec fn pass2(bays: Seq<BayV>, c0: Seq<bool>, k: nat) -> (Seq<bool>, int, Seq<Option<int>>)
    decreases k,
{
    if k == 0 {
        (c0, 0, Seq::empty())
    } else {
        let prev = pass2(bays, c0, (k - 1) as nat);
        let b = bays[k - 1];
        if fillable(b) {
            let n2 = skip_claimed(prev.0, prev.1);
            if n2 < c0.len() {
                (prev.0.update(n2, true), n2, prev.2.push(Some(n2)))
            } else {
                (prev.0, n2, prev.2.push(None))
            }
        } else {
            (prev.0, prev.1, prev.2.push(None))
        }
    }
}

/// Declared-pass picks of every bay.
pub open spec fn picks1(t: TopologyV, devs: Seq<Device>) -> Seq<Option<int>> {
    pass1(topology_bays(t), devs, topology_bays(t).len()).1
}

/// Enumeration-pass picks of every bay (all `None` when auto-fill is off).
pub open spec fn picks2(t: TopologyV, devs: Seq<Device>) -> Seq<Option<int>> {
    let bays = topology_bays(t);
    if t.auto_fill_unbound {
        pass2(bays, pass1(bays, devs, bays.len()).0, bays.len()).2
    } else {
        Seq::new(bays.len(), |k: int| None)
    }
}

/// Which devices end up claimed by some bay.
pub open spec fn final_claims(t: TopologyV, devs: Seq<Device>) -> Seq<bool> {
    let bays = topology_bays(t);
    let c1 = pass1(bays, devs, bays.len()).0;
    if t.auto_fill_unbound {
        pass2(bays, c1, bays.len()).0
    } else {
        c1
    }
}

/// The device index bay `k` took in either pass.
pub open spec fn pick(t: TopologyV, devs: Seq<Device>, k: int) -> Option<int> {
    if picks1(t, devs)[k] is Some {
        picks1(t, devs)[k]
    } else {
        picks2(t, devs)[k]
    }
}

/// Among the first `k` bays, the last one with id `x` that took a device in
/// the given pass.
pub open spec fn last_with_id(bays: Seq<BayV>, picks: Seq<Option<int>>, x: Seq<char>, k: int) -> Option<int>
    decreases k,
{
    if k <= 0 {
        None
    } else if bays[k - 1].id == x && picks[k - 1] is Some {
        Some(k - 1)
    } else {
        last_with_id(bays, picks, x, k - 1)
    }
}

/// The device recorded for bay id `x`: assignments are keyed by id, so the
/// last write wins, and enumeration-pass writes come after declared-pass
/// ones.
pub open spec fn device_for_id(t: TopologyV, devs: Seq<Device>, x: Seq<char>) -> Option<int> {
    let bays = topology_bays(t);
    let n = bays.len() as int;
    match last_with_id(bays, picks2(t, devs), x, n) {
        Some(w) => picks2(t, devs)[w],
        None => match last_with_id(bays, picks1(t, devs), x, n) {
            Some(w) => picks1(t, devs)[w],
            None => None,
        },
    }
}

/// Spec-level image of an occupancy entry: (bay id, device id).
pub open spec fn occupancy_upto(t: TopologyV, devs: Seq<Device>, k: int) -> Seq<(Seq<char>, Seq<char>)>
    decreases k,
{
    if k <= 0 {
        Seq::empty()
    } else {
        let prev = occupancy_upto(t, devs, k - 1);
        let x = topology_bays(t)[k - 1].id;
        match device_for_id(t, devs, x) {
            Some(i) => prev.push((x, devs[i].id.0@)),
            None => prev,
        }
    }
}

/// Occupancy in bay-declaration order.
pub open spec fn spec_occupancy(t: TopologyV, devs: Seq<Device>) -> Seq<(Seq<char>, Seq<char>)> {
    occupancy_upto(t, devs, topology_bays(t).len() as int)
}

/// Ids of the unclaimed devices among the first `m`, in enumeration order.
pub open spec fn unplaced_upto(devs: Seq<Device>, claimed: Seq<bool>, m: int) -> Seq<Seq<char>>
    decreases m,
{
    if m <= 0 {
        Seq::empty()
    } else if !claimed[m - 1] {
        unplaced_upto(devs, claimed, m - 1).push(devs[m - 1].id.0@)
    } else {
        unplaced_upto(devs, claimed, m - 1)
    }
}

/// Devices no bay claimed, in enumeration order.
pub open spec fn spec_unplaced(t: TopologyV, devs: Seq<Device>) -> Seq<Seq<char>> {
    unplaced_upto(devs, final_claims(t, devs), devs.len() as int)
}

/// A device index as a mathematical integer.
pub open spec fn opt_index(p: Option<usize>) -> Option<int> {
    match p {
        Some(i) => Some(i as int),
        None => None,
    }
}

/// Picks as mathematical integers.
pub open spec fn picks_view(p: Seq<Option<usize>>) -> Seq<Option<int>> {
    p.map_values(|q: Option<usize>| opt_index(q))
}

/// Bays seen through their views.
pub open spec fn bays_view(b: Seq<&Bay>) -> Seq<BayV> {
    b.map_values(|x: &Bay| x@)
}

proof fn lemma_first_match(b: BindingV, devs: Seq<Device>, claimed: Seq<bool>, j: int)
    requires
        0 <= j <= devs.len(),
        claimed.len() == devs.len(),
    ensures
        first_match_from(b, devs, claimed, j) matches Some(i) ==> j <= i < devs.len() && !claimed[i]
            && binding_matches(b, devs[i]),
    decreases devs.len() - j,
{
    if j < devs.len() {
        lemma_first_match(b, devs, claimed, j + 1);
    }
}

proof fn lemma_pass1_shape(bays: Seq<BayV>, devs: Seq<Device>, k: nat)
    requires
        k <= bays.len(),
    ensures
        pass1(bays, devs, k).0.len() == devs.len(),
        pass1(bays, devs, k).1.len() == k,
        forall|k2: int| 0 <= k2 < k ==> ((#[trigger] pass1(bays, devs, k).1[k2]) matches Some(i) ==> 0 <= i < devs.len()),
    decreases k,
{
    if k > 0 {
        lemma_pass1_shape(bays, devs, (k - 1) as nat);
        let prev = pass1(bays, devs, (k - 1) as nat);
        lemma_first_match(bays[k - 1].binding, devs, prev.0, 0);
        let cur = pass1(bays, devs, k);
        assert forall|k2: int| 0 <= k2 < k implies ((#[trigger] cur.1[k2]) matches Some(i) ==> 0 <= i < devs.len()) by {
            if k2 < k - 1 {
                assert(cur.1[k2] == prev.1[k2]);
            }
        }
    }
}

proof fn lemma_skip_claimed(c: Seq<bool>, next: int)
    requires
        0 <= next,
    ensures
        skip_claimed(c, next) >= next,
        skip_claimed(c, next) < c.len() ==> !c[skip_claimed(c, next)],
    decreases c.len() - next,
{
    if 0 <= next < c.len() && c[next] {
        lemma_skip_claimed(c, next + 1);
    }
}

proof fn lemma_pass2_shape(bays: Seq<BayV>, c0: Seq<bool>, k: nat)
    requires
        k <= bays.len(),
    ensures
        pass2(bays, c0, k).0.len() == c0.len(),
        pass2(bays, c0, k).1 >= 0,
        pass2(bays, c0, k).2.len() == k,
        forall|k2: int| 0 <= k2 < k ==> ((#[trigger] pass2(bays, c0, k).2[k2]) matches Some(i) ==> 0 <= i < c0.len()),
    decreases k,
{
    if k > 0 {
        lemma_pass2_shape(bays, c0, (k - 1) as nat);
        let prev = pass2(bays, c0, (k - 1) as nat);
        lemma_skip_claimed(prev.0, prev.1);
        let cur = pass2(bays, c0, k);
        assert forall|k2: int| 0 <= k2 < k implies ((#[trigger] cur.2[k2]) matches Some(i) ==> 0 <= i < c0.len()) by {
            if k2 < k - 1 {
                assert(cur.2[k2] == prev.2[k2]);
            }
        }
    }
}

proof fn lemma_last_with_id(bays: Seq<BayV>, picks: Seq<Option<int>>, x: Seq<char>, k: int)
    ensures
        last_with_id(bays, picks, x, k) matches Some(w) ==> 0 <= w < k && bays[w].id == x && picks[w] is Some,
    decreases k,
{
    if k > 0 {
        lemma_last_with_id(bays, picks, x, k - 1);
    }
}


/// What the declared pass keeps true after `k` bays.
pub open spec fn pass1_ok(bays: Seq<BayV>, devs: Seq<Device>, k: nat) -> bool {
    let p = pass1(bays, devs, k);
    &&& p.0.len() == devs.len()
    &&& p.1.len() == k
    &&& forall|k1: int| 0 <= k1 < k && (#[trigger] p.1[k1]) is Some ==> {
        let i = p.1[k1]->0;
        &&& 0 <= i < devs.len()
        &&& p.0[i]
        &&& declared(bays[k1])
        &&& binding_matches(bays[k1].binding, devs[i])
    }
    &&& forall|k1: int| 0 <= k1 < k && !declared(bays[k1]) ==> (#[trigger] p.1[k1]) is None
    &&& forall|i: int| 0 <= i < devs.len() && #[trigger] p.0[i] ==> exists|k1: int| 0 <= k1 < k && p.1[k1] == Some(i)
    &&& forall|k1: int, k2: int| 0 <= k1 < k2 < k && (#[trigger] p.1[k1]) is Some && (#[trigger] p.1[k2]) is Some
        ==> p.1[k1] != p.1[k2]
    &&& forall|k1: int, i: int|
        0 <= k1 < k && 0 <= i < devs.len() && declared(bays[k1]) && (#[trigger] p.1[k1]) is None
            && #[trigger] binding_matches(bays[k1].binding, devs[i]) ==> p.0[i]
}

proof fn lemma_first_match_none(b: BindingV, devs: Seq<Device>, claimed: Seq<bool>, j: int)
    requires
        0 <= j <= devs.len(),
        claimed.len() == devs.len(),
        first_match_from(b, devs, claimed, j) is None,
    ensures
        forall|i: int| j <= i < devs.len() && #[trigger] binding_matches(b, devs[i]) ==> claimed[i],
    decreases devs.len() - j,
{
    if j < devs.len() {
        lemma_first_match_none(b, devs, claimed, j + 1);
    }
}

proof fn lemma_pass1_ok(bays: Seq<BayV>, devs: Seq<Device>, k: nat)
    requires
        k <= bays.len(),
    ensures
        pass1_ok(bays, devs, k),
    decreases k,
{
    if k == 0 {
        return;
    }
    let km: nat = (k - 1) as nat;
    lemma_pass1_ok(bays, devs, km);
    let prev = pass1(bays, devs, km);
    let cur = pass1(bays, devs, k);
    let b = bays[km as int];
    assert forall|k1: int| 0 <= k1 < km implies cur.1[k1] == prev.1[k1] by {}
    if declared(b) {
        lemma_first_match(b.binding, devs, prev.0, 0);
        match first_match_from(b.binding, devs, prev.0, 0) {
            Some(i) => {
                assert(cur.0 == prev.0.update(i, true));
                assert forall|i2: int| 0 <= i2 < devs.len() && #[trigger] cur.0[i2] implies
                    exists|k1: int| 0 <= k1 < k && cur.1[k1] == Some(i2) by {
                    if i2 == i {
                        assert(cur.1[km as int] == Some(i2));
                    } else {
                        assert(prev.0[i2]);
                        let w = choose|k1: int| 0 <= k1 < km && prev.1[k1] == Some(i2);
                        assert(cur.1[w] == Some(i2));
                    }
                }
                assert forall|k1: int, k2: int| 0 <= k1 < k2 < k && (#[trigger] cur.1[k1]) is Some
                    && (#[trigger] cur.1[k2]) is Some implies cur.1[k1] != cur.1[k2] by {
                    if k2 == km {
                        assert(prev.0[prev.1[k1]->0]);
                    }
                }
            },
            None => {
                lemma_first_match_none(b.binding, devs, prev.0, 0);
                assert forall|i2: int| 0 <= i2 < devs.len() && #[trigger] cur.0[i2] implies
                    exists|k1: int| 0 <= k1 < k && cur.1[k1] == Some(i2) by {
                    let w = choose|k1: int| 0 <= k1 < km && prev.1[k1] == Some(i2);
                    assert(cur.1[w] == Some(i2));
                }
            },
        }
    } else {
        assert forall|i2: int| 0 <= i2 < devs.len() && #[trigger] cur.0[i2] implies
            exists|k1: int| 0 <= k1 < k && cur.1[k1] == Some(i2) by {
            let w = choose|k1: int| 0 <= k1 < km && prev.1[k1] == Some(i2);
            assert(cur.1[w] == Some(i2));
        }
    }
}


/// What the enumeration pass keeps true after `k` bays.
pub open spec fn pass2_ok(bays: Seq<BayV>, c0: Seq<bool>, k: nat) -> bool {
    let p = pass2(bays, c0, k);
    &&& p.0.len() == c0.len()
    &&& p.1 >= 0
    &&& p.2.len() == k
    &&& forall|k1: int| 0 <= k1 < k && (#[trigger] p.2[k1]) is Some ==> {
        let i = p.2[k1]->0;
        &&& 0 <= i < c0.len()
        &&& i <= p.1
        &&& p.0[i]
        &&& !c0[i]
        &&& fillable(bays[k1])
    }
    &&& forall|k1: int| 0 <= k1 < k && !fillable(bays[k1]) ==> (#[trigger] p.2[k1]) is None
    &&& forall|i: int| 0 <= i < c0.len() && #[trigger] p.0[i] && !c0[i] ==> exists|k1: int| 0 <= k1 < k && p.2[k1] == Some(i)
    &&& forall|i: int| 0 <= i < c0.len() && #[trigger] c0[i] ==> p.0[i]
    &&& forall|k1: int, k2: int| 0 <= k1 < k2 < k && (#[trigger] p.2[k1]) is Some && (#[trigger] p.2[k2]) is Some
        ==> p.2[k1]->0 < p.2[k2]->0
}

proof fn lemma_pass2_ok(bays: Seq<BayV>, c0: Seq<bool>, k: nat)
    requires
        k <= bays.len(),
    ensures
        pass2_ok(bays, c0, k),
    decreases k,
{
    if k == 0 {
        return;
    }
    let km: nat = (k - 1) as nat;
    lemma_pass2_ok(bays, c0, km);
    let prev = pass2(bays, c0, km);
    let cur = pass2(bays, c0, k);
    let b = bays[km as int];
    assert forall|k1: int| 0 <= k1 < km implies cur.2[k1] == prev.2[k1] by {}
    if fillable(b) {
        lemma_skip_claimed(prev.0, prev.1);
        let n2 = skip_claimed(prev.0, prev.1);
        if n2 < c0.len() {
            assert(cur.0 == prev.0.update(n2, true));
            assert(!c0[n2]);
            assert forall|i2: int| 0 <= i2 < c0.len() && #[trigger] cur.0[i2] && !c0[i2] implies
                exists|k1: int| 0 <= k1 < k && cur.2[k1] == Some(i2) by {
                if i2 == n2 {
                    assert(cur.2[km as int] == Some(i2));
                } else {
                    assert(prev.0[i2]);
                    let w = choose|k1: int| 0 <= k1 < km && prev.2[k1] == Some(i2);
                    assert(cur.2[w] == Some(i2));
                }
            }
            assert forall|k1: int, k2: int| 0 <= k1 < k2 < k && (#[trigger] cur.2[k1]) is Some
                && (#[trigger] cur.2[k2]) is Some implies cur.2[k1]->0 < cur.2[k2]->0 by {
                if k2 == km {
                    assert(prev.0[prev.2[k1]->0]);
                }
            }
        } else {
            assert forall|i2: int| 0 <= i2 < c0.len() && #[trigger] cur.0[i2] && !c0[i2] implies
                exists|k1: int| 0 <= k1 < k && cur.2[k1] == Some(i2) by {
                let w = choose|k1: int| 0 <= k1 < km && prev.2[k1] == Some(i2);
                assert(cur.2[w] == Some(i2));
            }
        }
    } else {
        assert forall|i2: int| 0 <= i2 < c0.len() && #[trigger] cur.0[i2] && !c0[i2] implies
            exists|k1: int| 0 <= k1 < k && cur.2[k1] == Some(i2) by {
            let w = choose|k1: int| 0 <= k1 < km && prev.2[k1] == Some(i2);
            assert(cur.2[w] == Some(i2));
        }
    }
}


proof fn lemma_resolve_passes(t: TopologyV, devs: Seq<Device>)
    ensures
        pass1_ok(topology_bays(t), devs, topology_bays(t).len()),
        pass2_ok(topology_bays(t), pass1(topology_bays(t), devs, topology_bays(t).len()).0, topology_bays(t).len()),
        picks1(t, devs).len() == topology_bays(t).len(),
        picks2(t, devs).len() == topology_bays(t).len(),
        !t.auto_fill_unbound ==> forall|k: int| 0 <= k < topology_bays(t).len() ==> (#[trigger] picks2(t, devs)[k]) is None,
{
    let bays = topology_bays(t);
    lemma_pass1_ok(bays, devs, bays.len());
    lemma_pass2_ok(bays, pass1(bays, devs, bays.len()).0, bays.len());
}

/// A disabled bay never holds a device.
pub proof fn law_disabled_bay_stays_empty(t: TopologyV, devs: Seq<Device>, k: int)
    requires
        0 <= k < topology_bays(t).len(),
        topology_bays(t)[k].disabled,
    ensures
        pick(t, devs, k) is None,
{
    lemma_resolve_passes(t, devs);
}

/// A bay with a declared binding only ever holds a device that its binding
/// identifies.
pub proof fn law_declared_bay_holds_a_matching_device(t: TopologyV, devs: Seq<Device>, k: int)
    requires
        0 <= k < topology_bays(t).len(),
        !(topology_bays(t)[k].binding is Unbound),
    ensures
        pick(t, devs, k) matches Some(i) ==> 0 <= i < devs.len() && binding_matches(topology_bays(t)[k].binding, devs[i]),
{
    lemma_resolve_passes(t, devs);
}

/// A bay bound to an enclosure-services slot stays empty: nothing reports
/// such slots, so the binding never matches and the bay is not auto-filled.
pub proof fn law_ses_slot_bay_stays_empty(t: TopologyV, devs: Seq<Device>, k: int)
    requires
        0 <= k < topology_bays(t).len(),
        topology_bays(t)[k].binding is SesSlot,
    ensures
        pick(t, devs, k) is None,
{
    law_declared_bay_holds_a_matching_device(t, devs, k);
}

/// With auto-fill switched off, an unbound bay stays empty.
pub proof fn law_no_fill_without_auto_fill(t: TopologyV, devs: Seq<Device>, k: int)
    requires
        0 <= k < topology_bays(t).len(),
        !t.auto_fill_unbound,
        topology_bays(t)[k].binding is Unbound,
    ensures
        pick(t, devs, k) is None,
{
    lemma_resolve_passes(t, devs);
}

/// A device is never placed in two bays.
pub proof fn law_no_device_in_two_bays(t: TopologyV, devs: Seq<Device>, k1: int, k2: int)
    requires
        0 <= k1 < k2 < topology_bays(t).len(),
        pick(t, devs, k1) is Some,
        pick(t, devs, k2) is Some,
    ensures
        pick(t, devs, k1) != pick(t, devs, k2),
{
    lemma_resolve_passes(t, devs);
    let bays = topology_bays(t);
    let c1 = pass1(bays, devs, bays.len()).0;
    let p1 = picks1(t, devs);
    let p2 = picks2(t, devs);
    if p1[k1] is Some && p1[k2] is Some {
    } else if p1[k1] is Some {
        assert(c1[p1[k1]->0]);
        if t.auto_fill_unbound {
            assert(!c1[p2[k2]->0]);
        }
    } else if p1[k2] is Some {
        assert(c1[p1[k2]->0]);
        if t.auto_fill_unbound {
            assert(!c1[p2[k1]->0]);
        }
    } else {
        assert(t.auto_fill_unbound);
    }
}

/// A device ends up claimed exactly when some bay holds it; the others are
/// the ones reported as unplaced.
pub proof fn law_claimed_iff_placed(t: TopologyV, devs: Seq<Device>, i: int)
    requires
        0 <= i < devs.len(),
    ensures
        final_claims(t, devs)[i] <==> exists|k: int| 0 <= k < topology_bays(t).len() && pick(t, devs, k) == Some(i),
{
    lemma_resolve_passes(t, devs);
    let bays = topology_bays(t);
    let n = bays.len() as int;
    let c1 = pass1(bays, devs, bays.len()).0;
    let p1 = picks1(t, devs);
    let p2 = picks2(t, devs);
    if final_claims(t, devs)[i] {
        if c1[i] {
            let k = choose|k1: int| 0 <= k1 < n && p1[k1] == Some(i);
            assert(pick(t, devs, k) == Some(i));
        } else {
            assert(t.auto_fill_unbound);
            let k = choose|k1: int| 0 <= k1 < n && p2[k1] == Some(i);
            assert(p1[k] is None);
            assert(pick(t, devs, k) == Some(i));
        }
    }
    if exists|k: int| 0 <= k < n && pick(t, devs, k) == Some(i) {
        let k = choose|k: int| 0 <= k < n && pick(t, devs, k) == Some(i);
        if p1[k] is Some {
            assert(c1[i]);
        } else {
            assert(p2[k] == Some(i));
        }
    }
}

/// Declared bindings win over the enumeration fill: a device only drops
/// into an unbound bay when every enabled declared bay that names it already
/// holds a device.
pub proof fn law_declared_bindings_win(t: TopologyV, devs: Seq<Device>, k: int, kf: int, i: int)
    requires
        0 <= k < topology_bays(t).len(),
        0 <= kf < topology_bays(t).len(),
        declared(topology_bays(t)[k]),
        topology_bays(t)[kf].binding is Unbound,
        pick(t, devs, kf) == Some(i),
        binding_matches(topology_bays(t)[k].binding, devs[i]),
    ensures
        pick(t, devs, k) is Some,
{
    lemma_resolve_passes(t, devs);
    let bays = topology_bays(t);
    let c1 = pass1(bays, devs, bays.len()).0;
    let p1 = picks1(t, devs);
    let p2 = picks2(t, devs);
    assert(p1[kf] is None);
    assert(t.auto_fill_unbound);
    assert(!c1[i]);
    if p1[k] is None {
        assert(c1[i]);
    }
}

/// The enumeration fill follows enumeration order: of two unbound bays that
/// were filled, the earlier bay holds the earlier device.
pub proof fn law_fill_follows_enumeration_order(t: TopologyV, devs: Seq<Device>, k1: int, k2: int)
    requires
        0 <= k1 < k2 < topology_bays(t).len(),
        topology_bays(t)[k1].binding is Unbound,
        topology_bays(t)[k2].binding is Unbound,
        pick(t, devs, k1) is Some,
        pick(t, devs, k2) is Some,
    ensures
        pick(t, devs, k1)->0 < pick(t, devs, k2)->0,
{
    lemma_resolve_passes(t, devs);
    let p1 = picks1(t, devs);
    assert(p1[k1] is None);
    assert(p1[k2] is None);
}

/// Bay ids that occur once each.
pub open spec fn unique_bay_ids(bays: Seq<BayV>) -> bool {
    forall|a: int, b: int| 0 <= a < b < bays.len() ==> (#[trigger] bays[a]).id != (#[trigger] bays[b]).id
}

proof fn lemma_last_with_id_unique(bays: Seq<BayV>, picks: Seq<Option<int>>, k: int, m: int)
    requires
        unique_bay_ids(bays),
        0 <= k < bays.len(),
        m <= bays.len(),
    ensures
        last_with_id(bays, picks, bays[k].id, m) == (if m > k && picks[k] is Some { Some(k) } else { None::<int> }),
    decreases m,
{
    if m > 0 {
        lemma_last_with_id_unique(bays, picks, k, m - 1);
        if m - 1 != k {
            if m - 1 < k {
                assert(bays[m - 1].id != bays[k].id);
            } else {
                assert(bays[k].id != bays[m - 1].id);
            }
        }
    }
}

/// Where bay ids are unique, the occupancy entry of every bay names exactly
/// the device that bay took.
pub proof fn law_occupancy_reports_each_bay(t: TopologyV, devs: Seq<Device>, k: int)
    requires
        unique_bay_ids(topology_bays(t)),
        0 <= k < topology_bays(t).len(),
    ensures
        device_for_id(t, devs, topology_bays(t)[k].id) == pick(t, devs, k),
{
    lemma_resolve_passes(t, devs);
    let bays = topology_bays(t);
    lemma_last_with_id_unique(bays, picks2(t, devs), k, bays.len() as int);
    lemma_last_with_id_unique(bays, picks1(t, devs), k, bays.len() as int);
    if picks1(t, devs)[k] is Some {
        assert(picks2(t, devs)[k] is None);
    }
}

proof fn lemma_pass1_prefix(bays: Seq<BayV>, devs: Seq<Device>, k: nat, m: nat)
    requires
        k < m <= bays.len(),
    ensures
        pass1(bays, devs, m).1[k as int] == pass1(bays, devs, (k + 1) as nat).1[k as int],
    decreases m,
{
    lemma_pass1_shape(bays, devs, (m - 1) as nat);
    if m > k + 1 {
        lemma_pass1_prefix(bays, devs, k, (m - 1) as nat);
    }
}

/// A bay with a declared binding takes the first device, in enumeration
/// order, that its binding identifies and that no earlier declared bay took.
pub proof fn law_declared_bay_takes_first_unclaimed_match(t: TopologyV, devs: Seq<Device>, k: int)
    requires
        0 <= k < topology_bays(t).len(),
        declared(topology_bays(t)[k]),
    ensures
        pick(t, devs, k) == first_match_from(topology_bays(t)[k].binding, devs, pass1(topology_bays(t), devs, k as nat).0, 0),
{
    lemma_resolve_passes(t, devs);
    let bays = topology_bays(t);
    lemma_pass1_prefix(bays, devs, k as nat, bays.len());
    lemma_pass1_shape(bays, devs, k as nat);
    let prev = pass1(bays, devs, k as nat);
    assert(pass1(bays, devs, (k + 1) as nat).1[k] == first_match_from(bays[k].binding, devs, prev.0, 0));
    assert(!fillable(bays[k]));
    assert(picks2(t, devs)[k] is None);
}

/// What a declared bay takes depends on the bays and the devices alone:
/// two topologies with the same bays (whatever their auto-fill setting)
/// resolve every declared bay the same way.
pub proof fn law_declared_bays_ignore_auto_fill(t1: TopologyV, t2: TopologyV, devs: Seq<Device>, k: int)
    requires
        topology_bays(t1) == topology_bays(t2),
        0 <= k < topology_bays(t1).len(),
        declared(topology_bays(t1)[k]),
    ensures
        pick(t1, devs, k) == pick(t2, devs, k),
{
    law_declared_bay_takes_first_unclaimed_match(t1, devs, k);
    law_declared_bay_takes_first_unclaimed_match(t2, devs, k);
}

proof fn lemma_first_match_extended(b: BindingV, devs: Seq<Device>, claimed: Seq<bool>, x: Device, c: bool, j: int)
    requires
        claimed.len() == devs.len(),
        0 <= j <= devs.len(),
    ensures
        first_match_from(b, devs, claimed, j) is Some ==>
            first_match_from(b, devs.push(x), claimed.push(c), j) == first_match_from(b, devs, claimed, j),
        first_match_from(b, devs, claimed, j) is None ==> (first_match_from(b, devs.push(x), claimed.push(c), j) is None
            || first_match_from(b, devs.push(x), claimed.push(c), j) == Some(devs.len() as int)),
    decreases devs.len() - j,
{
    let d2 = devs.push(x);
    let c2 = claimed.push(c);
    if j < devs.len() {
        assert(d2[j] == devs[j] && c2[j] == claimed[j]);
        lemma_first_match_extended(b, devs, claimed, x, c, j + 1);
    } else {
        if !c2[j] && binding_matches(b, d2[j]) {
        } else {
            assert(first_match_from(b, d2, c2, j + 1) is None);
        }
    }
}

/// The declared pass over a device list with one more device at the end:
/// the claims on the old devices are the same, and every bay that took a
/// device still takes it; a bay that took none may now take the new one.
pub open spec fn pass1_extends(bays: Seq<BayV>, devs: Seq<Device>, x: Device, k: nat) -> bool {
    let old = pass1(bays, devs, k);
    let new = pass1(bays, devs.push(x), k);
    &&& new.0.len() == devs.len() + 1
    &&& new.0.subrange(0, devs.len() as int) == old.0
    &&& forall|k1: int| 0 <= k1 < k && (#[trigger] old.1[k1]) is Some ==> new.1[k1] == old.1[k1]
}

proof fn lemma_pass1_extends(bays: Seq<BayV>, devs: Seq<Device>, x: Device, k: nat)
    requires
        k <= bays.len(),
    ensures
        pass1_extends(bays, devs, x, k),
    decreases k,
{
    let d2 = devs.push(x);
    lemma_pass1_shape(bays, devs, k);
    lemma_pass1_shape(bays, d2, k);
    if k == 0 {
        assert(pass1(bays, d2, 0).0.subrange(0, devs.len() as int) =~= pass1(bays, devs, 0).0);
        return;
    }
    let km: nat = (k - 1) as nat;
    lemma_pass1_extends(bays, devs, x, km);
    lemma_pass1_shape(bays, devs, km);
    lemma_pass1_shape(bays, d2, km);
    let old = pass1(bays, devs, km);
    let new = pass1(bays, d2, km);
    let b = bays[km as int];
    let c = new.0[devs.len() as int];
    assert(new.0 =~= old.0.push(c));
    let oc = pass1(bays, devs, k);
    let nc = pass1(bays, d2, k);
    if declared(b) {
        lemma_first_match_extended(b.binding, devs, old.0, x, c, 0);
        lemma_first_match(b.binding, devs, old.0, 0);
        lemma_first_match(b.binding, d2, new.0, 0);
        match first_match_from(b.binding, devs, old.0, 0) {
            Some(i) => {
                assert(nc.0.subrange(0, devs.len() as int) =~= oc.0);
            },
            None => {
                match first_match_from(b.binding, d2, new.0, 0) {
                    Some(i) => {
                        assert(i == devs.len());
                        assert(nc.0.subrange(0, devs.len() as int) =~= oc.0);
                    },
                    None => {},
                }
            },
        }
    }
    assert forall|k1: int| 0 <= k1 < k && (#[trigger] oc.1[k1]) is Some implies nc.1[k1] == oc.1[k1] by {
        if k1 < km {
            assert(oc.1[k1] == old.1[k1]);
            assert(nc.1[k1] == new.1[k1]);
        }
    }
}

/// Adding a device never displaces a bay with a declared binding: whatever
/// such a bay held, it still holds once another device appears after the
/// others; where bay ids are unique, so does its occupancy entry.
pub proof fn law_new_device_never_displaces_a_declared_bay(t: TopologyV, devs: Seq<Device>, x: Device, k: int)
    requires
        0 <= k < topology_bays(t).len(),
        declared(topology_bays(t)[k]),
        pick(t, devs, k) is Some,
    ensures
        pick(t, devs.push(x), k) == pick(t, devs, k),
        unique_bay_ids(topology_bays(t)) ==> device_for_id(t, devs.push(x), topology_bays(t)[k].id)
            == device_for_id(t, devs, topology_bays(t)[k].id),
{
    let bays = topology_bays(t);
    lemma_resolve_passes(t, devs);
    lemma_resolve_passes(t, devs.push(x));
    lemma_pass1_extends(bays, devs, x, bays.len());
    if unique_bay_ids(bays) {
        law_occupancy_reports_each_bay(t, devs, k);
        law_occupancy_reports_each_bay(t, devs.push(x), k);
    }
}

proof fn lemma_skip_claimed_all(c: Seq<bool>, next: int)
    requires
        0 <= next,
    ensures
        forall|i: int| next <= i < skip_claimed(c, next) && i < c.len() ==> c[i],
    decreases c.len() - next,
{
    if 0 <= next < c.len() && c[next] {
        lemma_skip_claimed_all(c, next + 1);
    }
}

proof fn lemma_pass2_cursor(bays: Seq<BayV>, c0: Seq<bool>, k: nat)
    requires
        k <= bays.len(),
    ensures
        forall|i: int| 0 <= i < pass2(bays, c0, k).1 && i < c0.len() ==> #[trigger] pass2(bays, c0, k).0[i],
    decreases k,
{
    lemma_pass2_shape(bays, c0, k);
    if k > 0 {
        let km: nat = (k - 1) as nat;
        lemma_pass2_cursor(bays, c0, km);
        lemma_pass2_shape(bays, c0, km);
        let prev = pass2(bays, c0, km);
        let cur = pass2(bays, c0, k);
        if fillable(bays[km as int]) {
            lemma_skip_claimed(prev.0, prev.1);
            lemma_skip_claimed_all(prev.0, prev.1);
            assert forall|i: int| 0 <= i < cur.1 && i < c0.len() implies #[trigger] cur.0[i] by {
                assert(prev.0[i]);
            }
        }
    }
}

proof fn lemma_pass2_grows(bays: Seq<BayV>, c0: Seq<bool>, k: nat, m: nat)
    requires
        k <= m <= bays.len(),
    ensures
        forall|i: int| 0 <= i < c0.len() && #[trigger] pass2(bays, c0, k).0[i] ==> pass2(bays, c0, m).0[i],
        k < m ==> pass2(bays, c0, m).2[k as int] == pass2(bays, c0, (k + 1) as nat).2[k as int],
    decreases m,
{
    lemma_pass2_shape(bays, c0, m);
    if m > k {
        let mm: nat = (m - 1) as nat;
        lemma_pass2_grows(bays, c0, k, mm);
        lemma_pass2_shape(bays, c0, mm);
    }
}

/// Auto-fill leaves no enabled unbound bay empty while a device is left
/// over: if some device ends up unplaced, every such bay holds a device.
pub proof fn law_leftover_device_means_every_free_bay_is_filled(t: TopologyV, devs: Seq<Device>, i: int, k: int)
    requires
        t.auto_fill_unbound,
        0 <= i < devs.len(),
        !final_claims(t, devs)[i],
        0 <= k < topology_bays(t).len(),
        fillable(topology_bays(t)[k]),
    ensures
        pick(t, devs, k) is Some,
{
    lemma_resolve_passes(t, devs);
    let bays = topology_bays(t);
    let n = bays.len();
    let c0 = pass1(bays, devs, n).0;
    let prev = pass2(bays, c0, k as nat);
    lemma_pass2_shape(bays, c0, k as nat);
    lemma_pass2_cursor(bays, c0, k as nat);
    lemma_pass2_grows(bays, c0, k as nat, n);
    lemma_pass2_grows(bays, c0, (k + 1) as nat, n);
    assert(picks1(t, devs)[k] is None);
    if picks2(t, devs)[k] is None {
        let n2 = skip_claimed(prev.0, prev.1);
        lemma_skip_claimed(prev.0, prev.1);
        lemma_skip_claimed_all(prev.0, prev.1);
        assert(pass2(bays, c0, (k + 1) as nat).2[k] is None);
        assert(n2 >= c0.len());
        assert(prev.0[i]);
        lemma_pass2_grows(bays, c0, (k + 1) as nat, n);
        assert(pass2(bays, c0, (k + 1) as nat).0 == prev.0);
        assert(final_claims(t, devs)[i]);
    }
}

/// Auto-fill skips no device: if an unbound bay holds a device, every
/// earlier device that no declared bay took is held by an earlier unbound
/// bay.
pub proof fn law_fill_skips_no_device(t: TopologyV, devs: Seq<Device>, k2: int, i1: int)
    requires
        0 <= k2 < topology_bays(t).len(),
        fillable(topology_bays(t)[k2]),
        pick(t, devs, k2) matches Some(i2) && 0 <= i1 < i2,
        !pass1(topology_bays(t), devs, topology_bays(t).len()).0[i1],
    ensures
        exists|k1: int| 0 <= k1 < k2 && fillable(topology_bays(t)[k1]) && #[trigger] pick(t, devs, k1) == Some(i1),
{
    lemma_resolve_passes(t, devs);
    let bays = topology_bays(t);
    let n = bays.len();
    let c0 = pass1(bays, devs, n).0;
    let prev = pass2(bays, c0, k2 as nat);
    assert(picks1(t, devs)[k2] is None);
    assert(t.auto_fill_unbound);
    lemma_pass2_shape(bays, c0, k2 as nat);
    lemma_pass2_cursor(bays, c0, k2 as nat);
    lemma_pass2_ok(bays, c0, k2 as nat);
    lemma_pass2_grows(bays, c0, k2 as nat, n);
    lemma_skip_claimed(prev.0, prev.1);
    lemma_skip_claimed_all(prev.0, prev.1);
    assert(prev.0[i1]);
    let k1 = choose|k1: int| 0 <= k1 < k2 && prev.2[k1] == Some(i1);
    lemma_pass2_grows(bays, c0, k1 as nat, n);
    lemma_pass2_grows(bays, c0, k1 as nat, k2 as nat);
    assert(picks2(t, devs)[k1] == Some(i1));
    assert(fillable(bays[k1]));
    assert(picks1(t, devs)[k1] is None);
    assert(pick(t, devs, k1) == Some(i1));
}

/// The first `k` bays that hold a device, in declaration order, each with
/// the id of the device it holds.
pub open spec fn held_entries(t: TopologyV, devs: Seq<Device>, k: int) -> Seq<(Seq<char>, Seq<char>)>
    decreases k,
{
    if k <= 0 {
        Seq::empty()
    } else {
        match pick(t, devs, k - 1) {
            Some(p) => held_entries(t, devs, k - 1).push((topology_bays(t)[k - 1].id, devs[p].id.0@)),
            None => held_entries(t, devs, k - 1),
        }
    }
}

proof fn lemma_occupancy_is_held_entries(t: TopologyV, devs: Seq<Device>, k: int)
    requires
        unique_bay_ids(topology_bays(t)),
        0 <= k <= topology_bays(t).len(),
    ensures
        occupancy_upto(t, devs, k) == held_entries(t, devs, k),
    decreases k,
{
    if k > 0 {
        lemma_occupancy_is_held_entries(t, devs, k - 1);
        law_occupancy_reports_each_bay(t, devs, k - 1);
    }
}

/// Where bay ids are unique, the occupancy lists the bays that hold a
/// device in declaration order, each once, with the device it holds.
pub proof fn law_occupancy_follows_declaration_order(t: TopologyV, devs: Seq<Device>)
    requires
        unique_bay_ids(topology_bays(t)),
    ensures
        spec_occupancy(t, devs) == held_entries(t, devs, topology_bays(t).len() as int),
{
    lemma_occupancy_is_held_entries(t, devs, topology_bays(t).len() as int);
}

/// Device ids that occur once each.
pub open spec fn distinct_device_ids(devs: Seq<Device>) -> bool {
    forall|a: int, b: int| 0 <= a < b < devs.len() ==> (#[trigger] devs[a]).id.0@ != (#[trigger] devs[b]).id.0@
}

/// The device bay `kb` holds is a real index into the devices.
proof fn lemma_pick_in_range(t: TopologyV, devs: Seq<Device>, kb: int)
    requires
        0 <= kb < topology_bays(t).len(),
    ensures
        pick(t, devs, kb) matches Some(p) ==> 0 <= p < devs.len(),
{
    lemma_resolve_passes(t, devs);
    if topology_bays(t)[kb].binding is Unbound {
        assert(picks1(t, devs)[kb] is None);
    } else {
        law_declared_bay_holds_a_matching_device(t, devs, kb);
    }
}

/// Bay `kb` holds a device whose id is `x`.
pub open spec fn bay_holds_id(t: TopologyV, devs: Seq<Device>, kb: int, x: Seq<char>) -> bool {
    pick(t, devs, kb) matches Some(p) && devs[p].id.0@ == x
}

/// One of the first `k` bays holds a device whose id is `x`.
pub open spec fn held_among(t: TopologyV, devs: Seq<Device>, k: int, x: Seq<char>) -> bool {
    exists|kb: int| 0 <= kb < k && #[trigger] bay_holds_id(t, devs, kb, x)
}

proof fn lemma_occupancy_sources(t: TopologyV, devs: Seq<Device>, k: int)
    requires
        unique_bay_ids(topology_bays(t)),
        0 <= k <= topology_bays(t).len(),
    ensures
        forall|j: int| 0 <= j < occupancy_upto(t, devs, k).len() ==>
            held_among(t, devs, k, (#[trigger] occupancy_upto(t, devs, k)[j]).1),
    decreases k,
{
    if k > 0 {
        lemma_occupancy_sources(t, devs, k - 1);
        let bays = topology_bays(t);
        let prev = occupancy_upto(t, devs, k - 1);
        let cur = occupancy_upto(t, devs, k);
        law_occupancy_reports_each_bay(t, devs, k - 1);
        assert forall|j: int| 0 <= j < cur.len() implies held_among(t, devs, k, (#[trigger] cur[j]).1) by {
            if j < prev.len() {
                assert(cur[j] == prev[j]);
                assert(held_among(t, devs, k - 1, prev[j].1));
                let kb = choose|kb: int| 0 <= kb < k - 1 && #[trigger] bay_holds_id(t, devs, kb, prev[j].1);
                assert(bay_holds_id(t, devs, kb, cur[j].1));
            } else {
                assert(pick(t, devs, k - 1) is Some);
                let p = pick(t, devs, k - 1)->0;
                assert(cur == prev.push((bays[k - 1].id, devs[p].id.0@)));
                assert(bay_holds_id(t, devs, k - 1, cur[j].1));
            }
        }
    }
}

proof fn lemma_occupancy_complete(t: TopologyV, devs: Seq<Device>, k: int)
    requires
        unique_bay_ids(topology_bays(t)),
        0 <= k <= topology_bays(t).len(),
    ensures
        forall|kb: int| 0 <= kb < k && (#[trigger] pick(t, devs, kb)) is Some ==> exists|j: int|
            0 <= j < occupancy_upto(t, devs, k).len() && occupancy_upto(t, devs, k)[j].1 == devs[pick(t, devs, kb)->0].id.0@,
    decreases k,
{
    if k > 0 {
        lemma_occupancy_complete(t, devs, k - 1);
        let bays = topology_bays(t);
        let prev = occupancy_upto(t, devs, k - 1);
        let cur = occupancy_upto(t, devs, k);
        law_occupancy_reports_each_bay(t, devs, k - 1);
        if pick(t, devs, k - 1) is Some {
            let p = pick(t, devs, k - 1)->0;
            assert(cur == prev.push((bays[k - 1].id, devs[p].id.0@)));
            assert forall|kb: int| 0 <= kb < k && (#[trigger] pick(t, devs, kb)) is Some implies exists|j: int|
                0 <= j < cur.len() && cur[j].1 == devs[pick(t, devs, kb)->0].id.0@ by {
                if kb < k - 1 {
                    let j = choose|j: int| 0 <= j < prev.len() && prev[j].1 == devs[pick(t, devs, kb)->0].id.0@;
                    assert(cur[j] == prev[j]);
                } else {
                    assert(cur[prev.len() as int].1 == devs[p].id.0@);
                }
            }
        } else {
            assert(cur == prev);
            assert forall|kb: int| 0 <= kb < k && (#[trigger] pick(t, devs, kb)) is Some implies exists|j: int|
                0 <= j < cur.len() && cur[j].1 == devs[pick(t, devs, kb)->0].id.0@ by {
                assert(kb < k - 1);
            }
        }
    }
}

proof fn lemma_occupancy_distinct(t: TopologyV, devs: Seq<Device>, k: int)
    requires
        unique_bay_ids(topology_bays(t)),
        distinct_device_ids(devs),
        0 <= k <= topology_bays(t).len(),
    ensures
        forall|j1: int, j2: int| 0 <= j1 < j2 < occupancy_upto(t, devs, k).len() ==>
            (#[trigger] occupancy_upto(t, devs, k)[j1]).1 != (#[trigger] occupancy_upto(t, devs, k)[j2]).1,
    decreases k,
{
    if k > 0 {
        lemma_occupancy_distinct(t, devs, k - 1);
        lemma_occupancy_sources(t, devs, k - 1);
        let bays = topology_bays(t);
        let prev = occupancy_upto(t, devs, k - 1);
        let cur = occupancy_upto(t, devs, k);
        law_occupancy_reports_each_bay(t, devs, k - 1);
        if pick(t, devs, k - 1) is Some {
            let p = pick(t, devs, k - 1)->0;
            lemma_pick_in_range(t, devs, k - 1);
            assert(cur == prev.push((bays[k - 1].id, devs[p].id.0@)));
            assert forall|j1: int, j2: int| 0 <= j1 < j2 < cur.len() implies
                (#[trigger] cur[j1]).1 != (#[trigger] cur[j2]).1 by {
                assert(cur[j1] == prev[j1]);
                if j2 < prev.len() {
                    assert(cur[j2] == prev[j2]);
                } else {
                    assert(held_among(t, devs, k - 1, prev[j1].1));
                    let kb = choose|kb: int| 0 <= kb < k - 1 && #[trigger] bay_holds_id(t, devs, kb, prev[j1].1);
                    law_no_device_in_two_bays(t, devs, kb, k - 1);
                    lemma_pick_in_range(t, devs, kb);
                    let q = pick(t, devs, kb)->0;
                    if q < p {
                        assert(devs[q].id.0@ != devs[p].id.0@);
                    } else {
                        assert(devs[p].id.0@ != devs[q].id.0@);
                    }
                }
            }
        } else {
            assert(cur == prev);
        }
    }
}

proof fn lemma_unplaced_sources(devs: Seq<Device>, claimed: Seq<bool>, m: int)
    requires
        claimed.len() == devs.len(),
        0 <= m <= devs.len(),
    ensures
        forall|j: int| #![trigger unplaced_upto(devs, claimed, m)[j]] 0 <= j < unplaced_upto(devs, claimed, m).len() ==>
            exists|i: int| 0 <= i < m && !claimed[i] && unplaced_upto(devs, claimed, m)[j] == #[trigger] devs[i].id.0@,
    decreases m,
{
    if m > 0 {
        lemma_unplaced_sources(devs, claimed, m - 1);
        let prev = unplaced_upto(devs, claimed, m - 1);
        let cur = unplaced_upto(devs, claimed, m);
        if !claimed[m - 1] {
            assert(cur == prev.push(devs[m - 1].id.0@));
            assert forall|j: int| #![trigger cur[j]] 0 <= j < cur.len() implies
                exists|i: int| 0 <= i < m && !claimed[i] && cur[j] == #[trigger] devs[i].id.0@ by {
                if j < prev.len() {
                    assert(cur[j] == prev[j]);
                } else {
                    assert(cur[j] == devs[m - 1].id.0@);
                }
            }
        }
    }
}

proof fn lemma_unplaced_complete(devs: Seq<Device>, claimed: Seq<bool>, m: int, i: int)
    requires
        claimed.len() == devs.len(),
        0 <= i < m <= devs.len(),
        !claimed[i],
    ensures
        exists|j: int| 0 <= j < unplaced_upto(devs, claimed, m).len() && unplaced_upto(devs, claimed, m)[j] == devs[i].id.0@,
    decreases m,
{
    let prev = unplaced_upto(devs, claimed, m - 1);
    let cur = unplaced_upto(devs, claimed, m);
    if i < m - 1 {
        lemma_unplaced_complete(devs, claimed, m - 1, i);
        let j = choose|j: int| 0 <= j < prev.len() && prev[j] == devs[i].id.0@;
        if !claimed[m - 1] {
            assert(cur == prev.push(devs[m - 1].id.0@));
            assert(cur[j] == prev[j]);
        }
    } else {
        assert(cur == prev.push(devs[m - 1].id.0@));
        assert(cur[prev.len() as int] == devs[i].id.0@);
    }
}

proof fn lemma_unplaced_distinct(devs: Seq<Device>, claimed: Seq<bool>, m: int)
    requires
        distinct_device_ids(devs),
        claimed.len() == devs.len(),
        0 <= m <= devs.len(),
    ensures
        forall|j1: int, j2: int| 0 <= j1 < j2 < unplaced_upto(devs, claimed, m).len() ==>
            #[trigger] unplaced_upto(devs, claimed, m)[j1] != #[trigger] unplaced_upto(devs, claimed, m)[j2],
    decreases m,
{
    if m > 0 {
        lemma_unplaced_distinct(devs, claimed, m - 1);
        lemma_unplaced_sources(devs, claimed, m - 1);
        let prev = unplaced_upto(devs, claimed, m - 1);
        let cur = unplaced_upto(devs, claimed, m);
        if !claimed[m - 1] {
            assert(cur == prev.push(devs[m - 1].id.0@));
            assert forall|j1: int, j2: int| 0 <= j1 < j2 < cur.len() implies #[trigger] cur[j1] != #[trigger] cur[j2] by {
                assert(cur[j1] == prev[j1]);
                if j2 < prev.len() {
                    assert(cur[j2] == prev[j2]);
                } else {
                    let i = choose|i: int| 0 <= i < m - 1 && !claimed[i] && prev[j1] == #[trigger] devs[i].id.0@;
                    assert(devs[i].id.0@ != devs[m - 1].id.0@);
                }
            }
        }
    }
}

/// Every device is reported exactly once. Where bay ids are unique and
/// device ids distinct, a device appears either in the occupancy or among
/// the unplaced devices, never both and never neither; neither list repeats
/// a device, and neither names a device that was not attached.
pub proof fn law_every_device_reported_once(t: TopologyV, devs: Seq<Device>, i: int)
    requires
        unique_bay_ids(topology_bays(t)),
        distinct_device_ids(devs),
        0 <= i < devs.len(),
    ensures
        (exists|j: int| 0 <= j < spec_occupancy(t, devs).len() && spec_occupancy(t, devs)[j].1 == devs[i].id.0@)
            != (exists|j: int| 0 <= j < spec_unplaced(t, devs).len() && spec_unplaced(t, devs)[j] == devs[i].id.0@),
        forall|j1: int, j2: int| 0 <= j1 < j2 < spec_occupancy(t, devs).len() ==>
            (#[trigger] spec_occupancy(t, devs)[j1]).1 != (#[trigger] spec_occupancy(t, devs)[j2]).1,
        forall|j1: int, j2: int| 0 <= j1 < j2 < spec_unplaced(t, devs).len() ==>
            #[trigger] spec_unplaced(t, devs)[j1] != #[trigger] spec_unplaced(t, devs)[j2],
        forall|j: int| 0 <= j < spec_occupancy(t, devs).len() ==> exists|d: int| 0 <= d < devs.len()
            && (#[trigger] spec_occupancy(t, devs)[j]).1 == devs[d].id.0@,
        forall|j: int| 0 <= j < spec_unplaced(t, devs).len() ==> exists|d: int| 0 <= d < devs.len()
            && #[trigger] spec_unplaced(t, devs)[j] == devs[d].id.0@,
{
    lemma_resolve_passes(t, devs);
    let bays = topology_bays(t);
    let n = bays.len() as int;
    let occ = spec_occupancy(t, devs);
    let un = spec_unplaced(t, devs);
    let claims = final_claims(t, devs);
    assert(claims.len() == devs.len()) by {
        if t.auto_fill_unbound {
            lemma_pass2_shape(bays, pass1(bays, devs, bays.len()).0, bays.len());
        }
    }
    let x = devs[i].id.0@;
    law_claimed_iff_placed(t, devs, i);
    if claims[i] {
        let kb = choose|kb: int| 0 <= kb < n && pick(t, devs, kb) == Some(i);
        assert(exists|j: int| 0 <= j < occ.len() && occ[j].1 == x) by {
            lemma_occupancy_complete(t, devs, n);
            assert(pick(t, devs, kb) is Some);
        }
        assert(!exists|j: int| 0 <= j < un.len() && un[j] == x) by {
            lemma_unplaced_sources(devs, claims, devs.len() as int);
            if exists|j: int| 0 <= j < un.len() && un[j] == x {
                let j = choose|j: int| 0 <= j < un.len() && un[j] == x;
                assert(un[j] == x);
                let d = choose|d: int| 0 <= d < devs.len() && !claims[d] && un[j] == #[trigger] devs[d].id.0@;
                if d < i {
                    assert(devs[d].id.0@ != devs[i].id.0@);
                } else if i < d {
                    assert(devs[i].id.0@ != devs[d].id.0@);
                }
            }
        }
    } else {
        assert(exists|j: int| 0 <= j < un.len() && un[j] == x) by {
            lemma_unplaced_complete(devs, claims, devs.len() as int, i);
        }
        assert(!exists|j: int| 0 <= j < occ.len() && occ[j].1 == x) by {
            lemma_occupancy_sources(t, devs, n);
            if exists|j: int| 0 <= j < occ.len() && occ[j].1 == x {
                let j = choose|j: int| 0 <= j < occ.len() && occ[j].1 == x;
                assert(occ[j].1 == x);
                assert(held_among(t, devs, n, occ[j].1));
                let kb = choose|kb: int| 0 <= kb < n && #[trigger] bay_holds_id(t, devs, kb, occ[j].1);
                lemma_pick_in_range(t, devs, kb);
                let d = pick(t, devs, kb)->0;
                if d < i {
                    assert(devs[d].id.0@ != devs[i].id.0@);
                } else if i < d {
                    assert(devs[i].id.0@ != devs[d].id.0@);
                }
                assert(pick(t, devs, kb) == Some(i));
            }
        }
    }
    assert forall|j1: int, j2: int| 0 <= j1 < j2 < occ.len() implies (#[trigger] occ[j1]).1 != (#[trigger] occ[j2]).1 by {
        lemma_occupancy_distinct(t, devs, n);
    }
    assert forall|j1: int, j2: int| 0 <= j1 < j2 < un.len() implies #[trigger] un[j1] != #[trigger] un[j2] by {
        lemma_unplaced_distinct(devs, claims, devs.len() as int);
    }
    assert forall|j: int| 0 <= j < occ.len() implies exists|d: int| 0 <= d < devs.len()
        && (#[trigger] occ[j]).1 == devs[d].id.0@ by {
        lemma_occupancy_sources(t, devs, n);
        assert(held_among(t, devs, n, occ[j].1));
        let kb = choose|kb: int| 0 <= kb < n && #[trigger] bay_holds_id(t, devs, kb, occ[j].1);
        lemma_pick_in_range(t, devs, kb);
    }
    assert forall|j: int| 0 <= j < un.len() implies exists|d: int| 0 <= d < devs.len()
        && #[trigger] un[j] == devs[d].id.0@ by {
        lemma_unplaced_sources(devs, claims, devs.len() as int);
    }
}

proof fn lemma_one_bank_bays(t: TopologyV)
    requires
        t.enclosures.len() == 1,
        t.enclosures[0].banks.len() == 1,
    ensures
        topology_bays(t) == t.enclosures[0].banks[0].bays,
{
    let e = t.enclosures[0];
    assert(t.enclosures.drop_last() =~= Seq::<crate::bay::EnclosureV>::empty());
    assert(e.banks.drop_last() =~= Seq::<crate::bay::BankV>::empty());
    assert(crate::bay::banks_bays(e.banks.drop_last()) =~= Seq::<BayV>::empty());
    assert(crate::bay::banks_bays(e.banks) =~= e.banks[0].bays);
    assert(crate::bay::enclosures_bays(t.enclosures.drop_last()) =~= Seq::<BayV>::empty());
    assert(topology_bays(t) =~= e.banks[0].bays);
}

proof fn lemma_grid_bank_ids_unique(t: TopologyV)
    requires
        t.enclosures.len() == 1,
        t.enclosures[0].banks.len() == 1,
        t.enclosures[0].banks[0].numbering matches Some(run) && forall|k: int| 0 <= k < t.enclosures[0].banks[0].bays.len() ==>
            #[trigger] t.enclosures[0].banks[0].bays[k] == grid_bay(t.enclosures[0].id, t.enclosures[0].banks[0].id,
                t.enclosures[0].banks[0].rows, t.enclosures[0].banks[0].cols, run.order, run.origin, run.label_start, k),
    ensures
        unique_bay_ids(topology_bays(t)),
{
    lemma_one_bank_bays(t);
    let e = t.enclosures[0];
    let b = e.banks[0];
    let run = b.numbering->0;
    assert forall|i: int, j: int| 0 <= i < j < b.bays.len() implies (#[trigger] b.bays[i]).id != (#[trigger] b.bays[j]).id by {
        law_grid_bay_ids_are_distinct(e.id, b.id, b.rows, b.cols, run.order, run.origin, run.label_start, i, j);
    }
}

/// The generated bench is what it says: flagged as generated, filled in
/// enumeration order, every bay enabled and unbound, and no bay id repeated.
pub proof fn law_generated_bench_is_an_honest_grid(device_count: nat)
    ensures
        generated_view(device_count).generated,
        generated_view(device_count).auto_fill_unbound,
        unique_bay_ids(topology_bays(generated_view(device_count))),
        forall|k: int| 0 <= k < topology_bays(generated_view(device_count)).len()
            ==> fillable(#[trigger] topology_bays(generated_view(device_count))[k]),
        1 <= device_count <= 65535 ==> topology_bays(generated_view(device_count)).len() >= device_count,
        1 <= device_count <= 65535 ==> topology_bays(generated_view(device_count)).len()
            < device_count + bench_cols(bench_n(device_count)),
        1 <= device_count <= 4 ==> topology_bays(generated_view(device_count)).len() == device_count
            && bench_rows(bench_n(device_count)) == 1,
{
    let t = generated_view(device_count);
    lemma_one_bank_bays(t);
    lemma_grid_bank_ids_unique(t);
    if 1 <= device_count <= 65535 {
        law_generated_bench_fits(device_count);
        let n = bench_n(device_count);
        assert(n == device_count) by {
            vstd::arithmetic::div_mod::lemma_small_mod(device_count, 65536);
        }
        if n > 4 {
            lemma_ceil_sqrt(n, 0);
        }
        let c = bench_cols(n);
        assert(1 <= c <= n) by {
            if n > 4 {
                let q = ceil_sqrt_from(n, 0);
                assert(q >= 1) by (nonlinear_arith)
                    requires
                        q * q >= n,
                        n > 4,
                        q >= 0;
            }
        }
        let r = bench_rows(n);
        assert(0 <= r <= n) by (nonlinear_arith)
            requires
                1 <= c <= n,
                r == (n + c - 1) / c,
        {
            assert(n + c - 1 <= n * c);
        }
        assert((r as u16) as int == r);
        assert((c as u16) as int == c);
        assert(r * c < n + c) by (nonlinear_arith)
            requires
                1 <= c,
                r == (n + c - 1) / c,
        {
            assert(r * c <= n + c - 1);
        }
        if n <= 4 {
            assert(c == n);
            assert(r == 1) by (nonlinear_arith)
                requires
                    1 <= n,
                    c == n,
                    r == (n + c - 1) / c,
            {
                assert(n + c - 1 == 2 * n - 1);
            }
            assert(r * c == n) by (nonlinear_arith)
                requires
                    r == 1,
                    c == n;
        }
    }
}

proof fn lemma_arma_ids_unique()
    ensures
        unique_bay_ids(topology_bays(arma_4u_32_view())),
{
    let t = arma_4u_32_view();
    let e = t.enclosures[0];
    let ba = e.banks[0];
    let bb = e.banks[1];
    assert(t.enclosures.drop_last() =~= Seq::<crate::bay::EnclosureV>::empty());
    assert(e.banks.drop_last().drop_last() =~= Seq::<crate::bay::BankV>::empty());
    assert(crate::bay::banks_bays(e.banks.drop_last().drop_last()) =~= Seq::<BayV>::empty());
    assert(e.banks.drop_last().last() == ba);
    assert(crate::bay::banks_bays(e.banks.drop_last()) =~= ba.bays);
    assert(crate::bay::enclosures_bays(t.enclosures.drop_last()) =~= Seq::<BayV>::empty());
    let all = topology_bays(t);
    assert(all =~= ba.bays + bb.bays);
    reveal_strlit("chassis");
    reveal_strlit(".");
    reveal_strlit("left");
    reveal_strlit("right");
    assert forall|i: int, j: int| 0 <= i < j < all.len() implies (#[trigger] all[i]).id != (#[trigger] all[j]).id by {
        if j < ba.bays.len() {
            law_grid_bay_ids_are_distinct("chassis"@, "left"@, 8, 2, crate::bay::BayOrder::ColumnMajor,
                crate::bay::BayOrigin::TopLeft, 1, i, j);
        } else if i >= ba.bays.len() {
            law_grid_bay_ids_are_distinct("chassis"@, "right"@, 8, 2, crate::bay::BayOrder::ColumnMajor,
                crate::bay::BayOrigin::TopLeft, 17, i - ba.bays.len(), j - ba.bays.len());
        } else {
            assert(all[i].id[8] == 'l');
            assert(all[j].id[8] == 'r');
        }
    }
}

/// No built-in preset is flagged as generated, and none repeats a bay id.
pub proof fn law_presets_are_declared_topologies()
    ensures
        !arma_4u_32_view().generated,
        !dock_2bay_view().generated,
        !nvme_carrier_8_view().generated,
        unique_bay_ids(topology_bays(arma_4u_32_view())),
        unique_bay_ids(topology_bays(dock_2bay_view())),
        unique_bay_ids(topology_bays(nvme_carrier_8_view())),
{
    lemma_arma_ids_unique();
    lemma_grid_bank_ids_unique(dock_2bay_view());
    lemma_grid_bank_ids_unique(nvme_carrier_8_view());
}

fn first_match_exec(binding: &crate::bay::BayBinding, devices: &[Device], claimed: &Vec<bool>) -> (r: Option<usize>)
    requires
        claimed@.len() == devices@.len(),
    ensures
        opt_index(r) == first_match_from(binding@, devices@, claimed@, 0),
{
    let mut j: usize = 0;
    while j < devices.len()
        invariant
            claimed@.len() == devices@.len(),
            j <= devices@.len(),
            first_match_from(binding@, devices@, claimed@, 0) == first_match_from(binding@, devices@, claimed@, j as int),
        decreases devices.len() - j,
    {
        if !claimed[j] && binding.matches(&devices[j]) {
            return Some(j);
        }
        j = j + 1;
    }
    None
}

fn skip_claimed_exec(claimed: &Vec<bool>, next: usize) -> (r: usize)
    ensures
        r == skip_claimed(claimed@, next as int),
{
    let mut n = next;
    while n < claimed.len() && claimed[n]
        invariant
            next <= n,
            skip_claimed(claimed@, next as int) == skip_claimed(claimed@, n as int),
        decreases claimed.len() - n,
    {
        n = n + 1;
    }
    n
}

impl BayTopology {
    /// Resolve every bay against the current device list: declared bindings
    /// first, then (if `auto_fill_unbound`) enumeration-order fill of the
    /// remaining enabled unbound bays. Occupancy is emitted in bay
    /// declaration order; devices no bay claimed are listed in enumeration
    /// order.
    pub fn resolve(&self, devices: &[Device]) -> (r: ResolvedBayTopology)
        ensures
            r.topology@ == self@,
            r.occupancy@.map_values(|o: BayOccupancy| (o.bay_id@, o.device_id.0@)) == spec_occupancy(self@, devices@),
            r.unplaced_devices@.map_values(|d: DeviceId| d.0@) == spec_unplaced(self@, devices@),
    {
        let bays = self.bays();
        let ghost bv = topology_bays(self@);
        assert(bays_view(bays@) == bv);
        let n = bays.len();
        let ghost devs = devices@;

        // Pass 1 — declared bindings.
        let mut claimed: Vec<bool> = Vec::new();
        for i in 0..devices.len()
            invariant
                claimed@ == Seq::new(i as nat, |j: int| false),
        {
            claimed.push(false);
            assert(claimed@ =~= Seq::new((i + 1) as nat, |j: int| false));
        }
        let mut p1: Vec<Option<usize>> = Vec::new();
        for k in 0..n
            invariant
                n == bv.len(),
                devs == devices@,
                bays_view(bays@) == bv,
                claimed@ == pass1(bv, devs, k as nat).0,
                p1@.len() == k,
                forall|j: int| 0 <= j < k ==> (#[trigger] p1@[j]) == match pass1(bv, devs, k as nat).1[j] {
                    Some(i) => Some(i as usize),
                    None => None::<usize>,
                },
        {
            proof {
                lemma_pass1_shape(bv, devs, k as nat);
                lemma_first_match(bv[k as int].binding, devs, claimed@, 0);
            }
            let bay = bays[k];
            assert(bay@ == bv[k as int]);
            let ghost prev = pass1(bv, devs, k as nat);
            if !bay.disabled && !bay.binding.is_unbound() {
                let found = first_match_exec(&bay.binding, devices, &claimed);
                match found {
                    Some(i) => {
                        claimed.set(i, true);
                        p1.push(Some(i));
                    },
                    None => {
                        p1.push(None);
                    },
                }
            } else {
                p1.push(None);
            }
            proof {
                let cur = pass1(bv, devs, (k + 1) as nat);
                assert forall|j: int| 0 <= j < k + 1 implies (#[trigger] p1@[j]) == match cur.1[j] {
                    Some(i) => Some(i as usize),
                    None => None::<usize>,
                } by {
                    if j < k {
                        assert(cur.1[j] == prev.1[j]);
                    }
                }
            }
        }
        let ghost c1 = claimed@;
        proof {
            lemma_pass1_shape(bv, devs, n as nat);
        }

        // Pass 2 — enumeration-order fill.
        let mut p2: Vec<Option<usize>> = Vec::new();
        if self.auto_fill_unbound {
            let mut next: usize = 0;
            for k in 0..n
                invariant
                    n == bv.len(),
                    devs == devices@,
                    bays_view(bays@) == bv,
                    c1.len() == devs.len(),
                    claimed@ == pass2(bv, c1, k as nat).0,
                    next == pass2(bv, c1, k as nat).1,
                    p2@.len() == k,
                    forall|j: int| 0 <= j < k ==> (#[trigger] p2@[j]) == match pass2(bv, c1, k as nat).2[j] {
                        Some(i) => Some(i as usize),
                        None => None::<usize>,
                    },
            {
                proof {
                    lemma_pass2_shape(bv, c1, k as nat);
                }
                let bay = bays[k];
                assert(bay@ == bv[k as int]);
                let ghost prev = pass2(bv, c1, k as nat);
                if !bay.disabled && bay.binding.is_unbound() {
                    let n2 = skip_claimed_exec(&claimed, next);
                    next = n2;
                    if n2 < claimed.len() {
                        claimed.set(n2, true);
                        p2.push(Some(n2));
                    } else {
                        p2.push(None);
                    }
                } else {
                    p2.push(None);
                }
                proof {
                    let cur = pass2(bv, c1, (k + 1) as nat);
                    assert forall|j: int| 0 <= j < k + 1 implies (#[trigger] p2@[j]) == match cur.2[j] {
                        Some(i) => Some(i as usize),
                        None => None::<usize>,
                    } by {
                        if j < k {
                            assert(cur.2[j] == prev.2[j]);
                        }
                    }
                }
            }
        } else {
            for k in 0..n
                invariant
                    p2@.len() == k,
                    forall|j: int| 0 <= j < k ==> (#[trigger] p2@[j]) is None,
            {
                p2.push(None);
            }
        }
        proof {
            lemma_pass1_shape(bv, devs, bv.len());
            lemma_pass2_shape(bv, c1, bv.len());
            assert(picks_view(p1@) =~= picks1(self@, devs));
            assert(picks_view(p2@) =~= picks2(self@, devs));
        }
        assert(claimed@ == final_claims(self@, devs));

        // Occupancy, keyed by bay id with the last write winning.
        let mut occupancy: Vec<BayOccupancy> = Vec::new();
        for k in 0..n
            invariant
                n == bv.len(),
                bv == topology_bays(self@),
                devs == devices@,
                bays_view(bays@) == bv,
                p1@.len() == n,
                p2@.len() == n,
                picks_view(p1@) == picks1(self@, devs),
                picks_view(p2@) == picks2(self@, devs),
                forall|j: int| 0 <= j < n ==> ((#[trigger] picks1(self@, devs)[j]) matches Some(i) ==> 0 <= i < devs.len()),
                forall|j: int| 0 <= j < n ==> ((#[trigger] picks2(self@, devs)[j]) matches Some(i) ==> 0 <= i < devs.len()),
                occupancy@.map_values(|o: BayOccupancy| (o.bay_id@, o.device_id.0@)) == occupancy_upto(self@, devs, k as int),
        {
            let x = &bays[k].id;
            assert(x@ == bv[k as int].id);
            let ghost prev = occupancy@.map_values(|o: BayOccupancy| (o.bay_id@, o.device_id.0@));
            let w2 = last_writer(&bays, &p2, x, n);
            let w1 = last_writer(&bays, &p1, x, n);
            let found: Option<usize> = match w2 {
                Some(wi) => p2[wi],
                None => match w1 {
                    Some(wi) => p1[wi],
                    None => None,
                },
            };
            proof {
                lemma_last_with_id(bv, picks2(self@, devs), x@, n as int);
                lemma_last_with_id(bv, picks1(self@, devs), x@, n as int);
                match w2 {
                    Some(wi) => {
                        assert(picks_view(p2@)[wi as int] == opt_index(p2@[wi as int]));
                    },
                    None => {
                        match w1 {
                            Some(wi) => {
                                assert(picks_view(p1@)[wi as int] == opt_index(p1@[wi as int]));
                            },
                            None => {},
                        }
                    },
                }
                assert(opt_index(found) == device_for_id(self@, devs, x@));
            }
            match found {
                Some(i) => {
                    occupancy.push(BayOccupancy { bay_id: x.clone(), device_id: devices[i].id.clone() });
                    assert(occupancy@.map_values(|o: BayOccupancy| (o.bay_id@, o.device_id.0@))
                        =~= prev.push((x@, devs[i as int].id.0@)));
                },
                None => {},
            }
        }

        // Devices no bay claimed.
        let mut unplaced: Vec<DeviceId> = Vec::new();
        for i in 0..devices.len()
            invariant
                claimed@.len() == devs.len(),
                devs == devices@,
                claimed@ == final_claims(self@, devs),
                unplaced@.map_values(|d: DeviceId| d.0@) == unplaced_upto(devs, claimed@, i as int),
        {
            let ghost prev = unplaced@.map_values(|d: DeviceId| d.0@);
            if !claimed[i] {
                unplaced.push(devices[i].id.clone());
                assert(unplaced@.map_values(|d: DeviceId| d.0@) =~= prev.push(devs[i as int].id.0@));
            }
        }

        ResolvedBayTopology { topology: self.clone(), occupancy, unplaced_devices: unplaced }
    }
}

/// The last bay before `k` with id `x` that took a device in a pass.
fn last_writer(bays: &Vec<&Bay>, picks: &Vec<Option<usize>>, x: &BayId, k: usize) -> (r: Option<usize>)
    requires
        k <= bays@.len(),
        picks@.len() == bays@.len(),
    ensures
        r matches Some(w) ==> w < k,
        match last_with_id(bays_view(bays@), picks_view(picks@), x@, k as int) {
            Some(w) => r == Some(w as usize),
            None => r is None,
        },
{
    let ghost bv = bays_view(bays@);
    let ghost pv = picks_view(picks@);
    let mut j = k;
    while j > 0
        invariant
            j <= k <= bays@.len(),
            picks@.len() == bays@.len(),
            bv == bays_view(bays@),
            pv == picks_view(picks@),
            last_with_id(bv, pv, x@, k as int) == last_with_id(bv, pv, x@, j as int),
        decreases j,
    {
        assert(bv[j - 1] == bays@[j - 1]@);
        assert(pv[j - 1] == opt_index(picks@[j - 1]));
        if bays[j - 1].id.0 == x.0 && picks[j - 1].is_some() {
            return Some(j - 1);
        }
        j = j - 1;
    }
    None
}

/// The bench a station shows: its declared topology, or, when none is
/// configured, a generated one sized to the attached devices and flagged as
/// generated; either way resolved against the devices.
pub fn resolve_bench(declared: Option<&BayTopology>, devices: &[Device]) -> (r: ResolvedBayTopology)
    requires
        declared is None ==> bench_n(devices@.len() as nat) != 0
            && 1 + bench_rows(bench_n(devices@.len() as nat)) * bench_cols(bench_n(devices@.len() as nat)) <= u16::MAX,
    ensures
        ({
            let t = match declared {
                Some(d) => d@,
                None => generated_view(devices@.len() as nat),
            };
            &&& r.topology@ == t
            &&& r.occupancy@.map_values(|o: BayOccupancy| (o.bay_id@, o.device_id.0@)) == spec_occupancy(t, devices@)
            &&& r.unplaced_devices@.map_values(|d: DeviceId| d.0@) == spec_unplaced(t, devices@)
        }),
{
    match declared {
        Some(t) => t.resolve(devices),
        None => {
            let g = generated_bench(devices.len());
            g.resolve(devices)
        },
    }
}

} // verus!
