//! Checking a topology before it is saved. Errors block the save; warnings
//! are shown to the operator but never block it.

use vstd::prelude::*;

use crate::bay::{BAY_TOPOLOGY_SCHEMA_VERSION, Bank, BankV, Bay, BayId, BayTopology, BayV, EnclosureV, TopologyV, topology_bays, banks_bays};
use crate::sorted_ids::{ids_sorted, lemma_sorted_repeats, repeats_within, sorted_repeats, spec_sorted_repeats, strings_view};
use crate::text::{append_str, concat3, decimal, decimal_string};

verus! {

/// Bay ids seen through their text.
pub open spec fn ids_view(v: Seq<BayId>) -> Seq<Seq<char>> {
    v.map_values(|b: BayId| b@)
}

/// The ids of a run of bays, in order.
pub open spec fn bay_ids(bays: Seq<BayV>) -> Seq<Seq<char>> {
    bays.map_values(|b: BayV| b.id)
}

/// `x` is the id of two different bays of the topology.
pub open spec fn is_duplicate_id(t: TopologyV, x: Seq<char>) -> bool {
    repeats_within(bay_ids(topology_bays(t)), x, topology_bays(t).len() as int)
}

/// Every bay id that occurs more than once, each once, in string order.
pub open spec fn spec_duplicate_ids(t: TopologyV) -> Seq<Seq<char>> {
    spec_sorted_repeats(bay_ids(topology_bays(t)))
}

impl BayTopology {
    /// Every bay id that appears more than once, each listed once, in
    /// string order. A topology with repeated ids still renders, but status
    /// would land on an arbitrary one of the twins, so a non-empty result is
    /// a configuration error.
    pub fn duplicate_bay_ids(&self) -> (r: Vec<BayId>)
        ensures
            ids_view(r@) == spec_duplicate_ids(self@),
    {
        let bays = self.bays();
        let ghost bv = topology_bays(self@);
        let mut ids: Vec<String> = Vec::new();
        for k in 0..bays.len()
            invariant
                bays@.map_values(|b: &Bay| b@) == bv,
                strings_view(ids@) == bay_ids(bv).subrange(0, k as int),
        {
            assert(bays@[k as int]@ == bv[k as int]);
            let ghost before = ids@;
            let s = bays[k].id.0.clone();
            assert(s@ == bv[k as int].id);
            ids.push(s);
            assert(ids@ == before.push(s));
            assert(strings_view(ids@) =~= strings_view(before).push(s@));
            assert(strings_view(ids@) =~= bay_ids(bv).subrange(0, k + 1));
        }
        assert(bay_ids(bv).subrange(0, bv.len() as int) =~= bay_ids(bv));
        let rep = sorted_repeats(&ids);
        let mut out: Vec<BayId> = Vec::new();
        for k in 0..rep.len()
            invariant
                ids_view(out@) == strings_view(rep@).subrange(0, k as int),
        {
            let ghost before = out@;
            let s = rep[k].clone();
            assert(s@ == strings_view(rep@)[k as int]);
            out.push(BayId(s));
            assert(ids_view(out@) =~= ids_view(before).push(s@));
            assert(ids_view(out@) =~= strings_view(rep@).subrange(0, k + 1));
        }
        assert(strings_view(rep@).subrange(0, rep@.len() as int) =~= strings_view(rep@));
        out
    }
}

/// How much a problem matters.
#[derive(Debug, Clone, Copy, PartialEq, Eq, Structural)]
pub enum ProblemSeverity {
    /// Blocks saving.
    Error,
    /// Shown, never blocks saving.
    Warning,
}

/// One finding about a topology.
#[derive(Debug, PartialEq, Eq)]
pub struct TopologyProblem {
    pub severity: ProblemSeverity,
    /// Stable machine-readable code.
    pub code: String,
    /// Operator-facing text.
    pub message: String,
}

impl Clone for TopologyProblem {
    fn clone(&self) -> (r: Self)
        ensures
            r == *self,
    {
        TopologyProblem { severity: self.severity, code: self.code.clone(), message: self.message.clone() }
    }
}

/// Spec-level image of a problem: severity, code, message.
pub type ProblemV = (ProblemSeverity, Seq<char>, Seq<char>);

/// Problems seen through their text.
pub open spec fn problems_view(v: Seq<TopologyProblem>) -> Seq<ProblemV> {
    v.map_values(|p: TopologyProblem| (p.severity, p.code@, p.message@))
}

/// Auto-fill starts to mislead on benches with more bays than this.
pub const AUTO_FILL_BAY_LIMIT: usize = 8;

/// A bank with no rows or no columns.
pub open spec fn grid_problems(b: BankV) -> Seq<ProblemV> {
    if b.rows == 0 || b.cols == 0 {
        seq![(ProblemSeverity::Error, "empty_grid"@, "bank "@ + b.id + " has no rows or no columns"@)]
    } else {
        Seq::empty()
    }
}

/// The bay lies outside its bank's grid.
pub open spec fn outside_grid(bay: BayV, rows: u16, cols: u16) -> bool {
    bay.row >= rows || bay.col >= cols
}

/// Bays among the first `m` placed outside the grid, in order.
pub open spec fn outside_problems(bays: Seq<BayV>, rows: u16, cols: u16, m: int) -> Seq<ProblemV>
    decreases m,
{
    if m <= 0 {
        Seq::empty()
    } else {
        let prev = outside_problems(bays, rows, cols, m - 1);
        let bay = bays[m - 1];
        if outside_grid(bay, rows, cols) {
            prev.push((ProblemSeverity::Error, "bay_outside_grid"@, "bay "@ + bay.id + " lies outside its bank's grid"@))
        } else {
            prev
        }
    }
}

/// An earlier bay of the bank carries the same label as bay `j`.
pub open spec fn label_seen_before(bays: Seq<BayV>, j: int) -> bool {
    exists|i: int| 0 <= i < j && (#[trigger] bays[i]).label == bays[j].label
}

/// Bays among the first `m` repeating an earlier label, in order.
pub open spec fn label_problems(bays: Seq<BayV>, m: int) -> Seq<ProblemV>
    decreases m,
{
    if m <= 0 {
        Seq::empty()
    } else {
        let prev = label_problems(bays, m - 1);
        let bay = bays[m - 1];
        if label_seen_before(bays, m - 1) {
            prev.push((ProblemSeverity::Error, "duplicate_bay_label"@, "bay "@ + bay.id + " repeats the label "@ + bay.label))
        } else {
            prev
        }
    }
}

/// Everything wrong with one bank.
pub open spec fn bank_problems(b: BankV) -> Seq<ProblemV> {
    grid_problems(b) + outside_problems(b.bays, b.rows, b.cols, b.bays.len() as int)
        + label_problems(b.bays, b.bays.len() as int)
}

/// Everything wrong with a run of banks, bank by bank.
pub open spec fn banks_problems(banks: Seq<BankV>) -> Seq<ProblemV>
    decreases banks.len(),
{
    if banks.len() == 0 {
        Seq::empty()
    } else {
        banks_problems(banks.drop_last()) + bank_problems(banks.last())
    }
}

/// Everything wrong with a run of enclosures, bank by bank.
pub open spec fn enclosures_problems(encs: Seq<EnclosureV>) -> Seq<ProblemV>
    decreases encs.len(),
{
    if encs.len() == 0 {
        Seq::empty()
    } else {
        enclosures_problems(encs.drop_last()) + banks_problems(encs.last().banks)
    }
}

/// One error per repeated bay id.
pub open spec fn duplicate_id_problems(ids: Seq<Seq<char>>) -> Seq<ProblemV> {
    ids.map_values(|x: Seq<char>| (ProblemSeverity::Error, "duplicate_bay_id"@, "bay id "@ + x + " appears more than once"@))
}

/// Bench-wide warnings.
pub open spec fn bench_warnings(t: TopologyV) -> Seq<ProblemV> {
    let n = topology_bays(t).len();
    let empty: Seq<ProblemV> = if n == 0 {
        seq![(ProblemSeverity::Warning, "empty_bench"@, "the bench has no bays"@)]
    } else {
        Seq::empty()
    };
    let fill: Seq<ProblemV> = if t.auto_fill_unbound && n > AUTO_FILL_BAY_LIMIT {
        seq![(ProblemSeverity::Warning, "auto_fill_on_large_bench"@,
            "auto-fill guesses bay positions from enumeration order; on a bench this large, bind the bays"@)]
    } else {
        Seq::empty()
    };
    empty + fill
}

/// Every problem of a topology, in the order they are reported.
pub open spec fn spec_problems(t: TopologyV) -> Seq<ProblemV> {
    enclosures_problems(t.enclosures) + duplicate_id_problems(spec_duplicate_ids(t)) + bench_warnings(t)
}

/// No problem of error severity.
pub open spec fn no_errors(ps: Seq<ProblemV>) -> bool {
    forall|i: int| 0 <= i < ps.len() ==> (#[trigger] ps[i]).0 != ProblemSeverity::Error
}

fn push_problem(out: &mut Vec<TopologyProblem>, severity: ProblemSeverity, code: &str, message: String)
    ensures
        problems_view(final(out)@) == problems_view(old(out)@).push((severity, code@, message@)),
{
    out.push(TopologyProblem { severity, code: code.to_owned(), message });
    proof {
        assert(problems_view(out@) =~= problems_view(old(out)@).push((severity, code@, message@)));
    }
}

/// Append the problems of one bank.
fn bank_problems_into(bank: &Bank, out: &mut Vec<TopologyProblem>)
    ensures
        problems_view(final(out)@) == problems_view(old(out)@) + bank_problems(bank@),
{
    let ghost start = problems_view(out@);
    let ghost bv = bank@.bays;
    if bank.rows == 0 || bank.cols == 0 {
        let msg = concat3("bank ", bank.id.as_str(), " has no rows or no columns");
        push_problem(out, ProblemSeverity::Error, "empty_grid", msg);
    }
    let ghost g = problems_view(out@);
    assert(g =~= start + grid_problems(bank@));
    for j in 0..bank.bays.len()
        invariant
            bv == bank@.bays,
            g == start + grid_problems(bank@),
            problems_view(out@) == g + outside_problems(bv, bank.rows, bank.cols, j as int),
    {
        let bay = &bank.bays[j];
        assert(bay@ == bv[j as int]);
        let ghost before = problems_view(out@);
        if bay.row >= bank.rows || bay.col >= bank.cols {
            let msg = concat3("bay ", bay.id.as_str(), " lies outside its bank's grid");
            push_problem(out, ProblemSeverity::Error, "bay_outside_grid", msg);
        }
        assert(problems_view(out@) =~= g + outside_problems(bv, bank.rows, bank.cols, j + 1));
    }
    let ghost o = problems_view(out@);
    for j in 0..bank.bays.len()
        invariant
            bv == bank@.bays,
            o == g + outside_problems(bv, bank.rows, bank.cols, bv.len() as int),
            problems_view(out@) == o + label_problems(bv, j as int),
    {
        let bay = &bank.bays[j];
        assert(bay@ == bv[j as int]);
        let mut seen = false;
        let mut i: usize = 0;
        while i < j
            invariant
                i <= j < bv.len(),
                bv == bank@.bays,
                seen <==> exists|a: int| 0 <= a < i && (#[trigger] bv[a]).label == bv[j as int].label,
                bay@ == bv[j as int],
            decreases j - i,
        {
            assert(bank.bays@[i as int]@ == bv[i as int]);
            if bank.bays[i].label == bay.label {
                seen = true;
            }
            i = i + 1;
        }
        if seen {
            let mut msg = concat3("bay ", bay.id.as_str(), " repeats the label ");
            append_str(&mut msg, bay.label.as_str());
            push_problem(out, ProblemSeverity::Error, "duplicate_bay_label", msg);
        }
        assert(problems_view(out@) =~= o + label_problems(bv, j + 1));
    }
    assert(problems_view(out@) =~= start + bank_problems(bank@));
}

impl BayTopology {
    /// Everything wrong with this topology: per bank, empty grids, bays
    /// outside the grid and labels repeated within the bank; then repeated
    /// bay ids; then the bench-wide warnings (no bays at all, auto-fill on a
    /// bench too large for enumeration order to be trusted).
    pub fn validate(&self) -> (r: Vec<TopologyProblem>)
        ensures
            problems_view(r@) == spec_problems(self@),
    {
        let mut out: Vec<TopologyProblem> = Vec::new();
        let ghost ev = self@.enclosures;
        for k in 0..self.enclosures.len()
            invariant
                ev == self@.enclosures,
                problems_view(out@) == enclosures_problems(ev.subrange(0, k as int)),
        {
            let e = &self.enclosures[k];
            assert(e@ == ev[k as int]);
            let ghost before = problems_view(out@);
            for b in 0..e.banks.len()
                invariant
                    e@ == ev[k as int],
                    problems_view(out@) == before + banks_problems(e@.banks.subrange(0, b as int)),
            {
                bank_problems_into(&e.banks[b], &mut out);
                proof {
                    let s = e@.banks.subrange(0, b + 1);
                    assert(s.drop_last() =~= e@.banks.subrange(0, b as int));
                    assert(s.last() == e.banks@[b as int]@);
                    assert(problems_view(out@) =~= before + banks_problems(s));
                }
            }
            proof {
                assert(e@.banks.subrange(0, e@.banks.len() as int) =~= e@.banks);
                let s = ev.subrange(0, k + 1);
                assert(s.drop_last() =~= ev.subrange(0, k as int));
                assert(problems_view(out@) =~= enclosures_problems(s));
            }
        }
        assert(ev.subrange(0, ev.len() as int) =~= ev);
        let ghost ep = problems_view(out@);
        let dupes = self.duplicate_bay_ids();
        for d in 0..dupes.len()
            invariant
                ids_view(dupes@) == spec_duplicate_ids(self@),
                problems_view(out@) == ep + duplicate_id_problems(ids_view(dupes@).subrange(0, d as int)),
        {
            let msg = concat3("bay id ", dupes[d].as_str(), " appears more than once");
            push_problem(&mut out, ProblemSeverity::Error, "duplicate_bay_id", msg);
            assert(duplicate_id_problems(ids_view(dupes@).subrange(0, d + 1))
                =~= duplicate_id_problems(ids_view(dupes@).subrange(0, d as int)).push(
                    (ProblemSeverity::Error, "duplicate_bay_id"@, "bay id "@ + dupes@[d as int]@ + " appears more than once"@)));
        }
        assert(ids_view(dupes@).subrange(0, dupes@.len() as int) =~= ids_view(dupes@));
        let ghost dp = problems_view(out@);
        let n = self.bay_count();
        if n == 0 {
            push_problem(&mut out, ProblemSeverity::Warning, "empty_bench", String::from_str("the bench has no bays"));
        }
        if self.auto_fill_unbound && n > AUTO_FILL_BAY_LIMIT {
            push_problem(&mut out, ProblemSeverity::Warning, "auto_fill_on_large_bench",
                String::from_str("auto-fill guesses bay positions from enumeration order; on a bench this large, bind the bays"));
        }
        assert(problems_view(out@) =~= dp + bench_warnings(self@));
        out
    }

    /// A topology can be saved when no problem is an error; warnings do not
    /// block.
    pub fn is_savable(&self) -> (r: bool)
        ensures
            r == no_errors(spec_problems(self@)),
    {
        let problems = self.validate();
        let mut i: usize = 0;
        while i < problems.len()
            invariant
                i <= problems@.len(),
                problems_view(problems@) == spec_problems(self@),
                forall|a: int| 0 <= a < i ==> (#[trigger] problems_view(problems@)[a]).0 != ProblemSeverity::Error,
            decreases problems.len() - i,
        {
            assert(problems_view(problems@)[i as int].0 == problems@[i as int].severity);
            if problems[i].severity == ProblemSeverity::Error {
                return false;
            }
            i = i + 1;
        }
        true
    }
}

/// Every problem in the list is an error.
pub open spec fn all_errors(ps: Seq<ProblemV>) -> bool {
    forall|i: int| 0 <= i < ps.len() ==> (#[trigger] ps[i]).0 == ProblemSeverity::Error
}

proof fn lemma_all_errors_concat(a: Seq<ProblemV>, b: Seq<ProblemV>)
    requires
        all_errors(a),
        all_errors(b),
    ensures
        all_errors(a + b),
{
    assert forall|i: int| 0 <= i < (a + b).len() implies (#[trigger] (a + b)[i]).0 == ProblemSeverity::Error by {
        if i >= a.len() {
            assert((a + b)[i] == b[i - a.len()]);
        }
    }
}

proof fn lemma_outside_problems(bays: Seq<BayV>, rows: u16, cols: u16, m: int)
    requires
        0 <= m <= bays.len(),
    ensures
        all_errors(outside_problems(bays, rows, cols, m)),
        outside_problems(bays, rows, cols, m).len() == 0 <==> forall|j: int| 0 <= j < m ==> !outside_grid(#[trigger] bays[j], rows, cols),
    decreases m,
{
    if m > 0 {
        lemma_outside_problems(bays, rows, cols, m - 1);
        let prev = outside_problems(bays, rows, cols, m - 1);
        if outside_grid(bays[m - 1], rows, cols) {
            assert forall|i: int| 0 <= i < prev.len() + 1 implies (#[trigger] outside_problems(bays, rows, cols, m)[i]).0 == ProblemSeverity::Error by {
                if i < prev.len() {
                    assert(outside_problems(bays, rows, cols, m)[i] == prev[i]);
                }
            }
        }
    }
}

proof fn lemma_label_problems(bays: Seq<BayV>, m: int)
    requires
        0 <= m <= bays.len(),
    ensures
        all_errors(label_problems(bays, m)),
        label_problems(bays, m).len() == 0 <==> forall|i: int, j: int| 0 <= i < j < m ==> (#[trigger] bays[i]).label != (#[trigger] bays[j]).label,
    decreases m,
{
    if m > 0 {
        lemma_label_problems(bays, m - 1);
        let prev = label_problems(bays, m - 1);
        if label_seen_before(bays, m - 1) {
            assert forall|i: int| 0 <= i < prev.len() + 1 implies (#[trigger] label_problems(bays, m)[i]).0 == ProblemSeverity::Error by {
                if i < prev.len() {
                    assert(label_problems(bays, m)[i] == prev[i]);
                }
            }
            let a = choose|a: int| 0 <= a < m - 1 && (#[trigger] bays[a]).label == bays[m - 1].label;
            assert(bays[a].label == bays[m - 1].label);
        } else if forall|i: int, j: int| 0 <= i < j < m - 1 ==> (#[trigger] bays[i]).label != (#[trigger] bays[j]).label {
            assert forall|i: int, j: int| 0 <= i < j < m implies (#[trigger] bays[i]).label != (#[trigger] bays[j]).label by {
                if j == m - 1 {
                    if bays[i].label == bays[j].label {
                        assert(label_seen_before(bays, m - 1));
                    }
                }
            }
        }
    }
}

/// A bank that can be saved: a non-empty grid holding all of its bays,
/// each label used once.
pub open spec fn bank_ok(b: BankV) -> bool {
    &&& b.rows > 0
    &&& b.cols > 0
    &&& forall|j: int| 0 <= j < b.bays.len() ==> !outside_grid(#[trigger] b.bays[j], b.rows, b.cols)
    &&& forall|i: int, j: int| 0 <= i < j < b.bays.len() ==> (#[trigger] b.bays[i]).label != (#[trigger] b.bays[j]).label
}

proof fn lemma_bank_problems(b: BankV)
    ensures
        all_errors(bank_problems(b)),
        bank_problems(b).len() == 0 <==> bank_ok(b),
{
    lemma_outside_problems(b.bays, b.rows, b.cols, b.bays.len() as int);
    lemma_label_problems(b.bays, b.bays.len() as int);
    lemma_all_errors_concat(grid_problems(b), outside_problems(b.bays, b.rows, b.cols, b.bays.len() as int));
    lemma_all_errors_concat(
        grid_problems(b) + outside_problems(b.bays, b.rows, b.cols, b.bays.len() as int),
        label_problems(b.bays, b.bays.len() as int),
    );
}

proof fn lemma_banks_problems(banks: Seq<BankV>)
    ensures
        all_errors(banks_problems(banks)),
        banks_problems(banks).len() == 0 <==> forall|i: int| 0 <= i < banks.len() ==> bank_ok(#[trigger] banks[i]),
    decreases banks.len(),
{
    if banks.len() > 0 {
        lemma_banks_problems(banks.drop_last());
        lemma_bank_problems(banks.last());
        lemma_all_errors_concat(banks_problems(banks.drop_last()), bank_problems(banks.last()));
        if forall|i: int| 0 <= i < banks.len() ==> bank_ok(#[trigger] banks[i]) {
            assert(bank_ok(banks[banks.len() - 1]));
            assert forall|i: int| 0 <= i < banks.drop_last().len() implies bank_ok(#[trigger] banks.drop_last()[i]) by {
                assert(bank_ok(banks[i]));
            }
        }
        if banks_problems(banks).len() == 0 {
            assert forall|i: int| 0 <= i < banks.len() implies bank_ok(#[trigger] banks[i]) by {
                if i < banks.len() - 1 {
                    assert(bank_ok(banks.drop_last()[i]));
                }
            }
        }
    }
}

/// Every bank of every enclosure can be saved.
pub open spec fn banks_all_ok(encs: Seq<EnclosureV>) -> bool {
    forall|e: int, b: int| 0 <= e < encs.len() && 0 <= b < encs[e].banks.len() ==> bank_ok(#[trigger] encs[e].banks[b])
}

proof fn lemma_enclosures_problems(encs: Seq<EnclosureV>)
    ensures
        all_errors(enclosures_problems(encs)),
        enclosures_problems(encs).len() == 0 <==> banks_all_ok(encs),
    decreases encs.len(),
{
    if encs.len() > 0 {
        let init = encs.drop_last();
        lemma_enclosures_problems(init);
        lemma_banks_problems(encs.last().banks);
        lemma_all_errors_concat(enclosures_problems(init), banks_problems(encs.last().banks));
        if banks_all_ok(encs) {
            assert forall|e: int, b: int| 0 <= e < init.len() && 0 <= b < init[e].banks.len() implies bank_ok(#[trigger] init[e].banks[b]) by {
                assert(init[e] == encs[e]);
                assert(bank_ok(encs[e].banks[b]));
            }
            assert forall|b: int| 0 <= b < encs.last().banks.len() implies bank_ok(#[trigger] encs.last().banks[b]) by {
                assert(bank_ok(encs[encs.len() - 1].banks[b]));
            }
        }
        if enclosures_problems(encs).len() == 0 {
            assert forall|e: int, b: int| 0 <= e < encs.len() && 0 <= b < encs[e].banks.len() implies bank_ok(#[trigger] encs[e].banks[b]) by {
                if e < encs.len() - 1 {
                    assert(init[e] == encs[e]);
                    assert(bank_ok(init[e].banks[b]));
                } else {
                    assert(bank_ok(encs.last().banks[b]));
                }
            }
        }
    }
}

/// The repeated-id list holds exactly the ids used by two or more bays, in
/// string order.
pub proof fn law_duplicate_ids_are_exactly_the_repeats(t: TopologyV)
    ensures
        ids_sorted(spec_duplicate_ids(t)),
        forall|x: Seq<char>| spec_duplicate_ids(t).contains(x) <==> is_duplicate_id(t, x),
{
    lemma_sorted_repeats(bay_ids(topology_bays(t)));
    assert(bay_ids(topology_bays(t)).len() == topology_bays(t).len());
}

/// A topology can be saved exactly when every bank has a non-empty grid
/// that holds all of its bays, no label repeats within a bank, and no bay
/// id repeats across the bench. Warnings never block saving.
pub proof fn law_savable_iff_well_formed(t: TopologyV)
    ensures
        no_errors(spec_problems(t)) <==> (banks_all_ok(t.enclosures) && forall|x: Seq<char>| !is_duplicate_id(t, x)),
{
    law_duplicate_ids_are_exactly_the_repeats(t);
    lemma_enclosures_problems(t.enclosures);
    let ep = enclosures_problems(t.enclosures);
    let dp = duplicate_id_problems(spec_duplicate_ids(t));
    let w = bench_warnings(t);
    let all = spec_problems(t);
    assert(all == ep + dp + w);
    assert(all_errors(dp));
    if no_errors(all) {
        if ep.len() > 0 {
            assert(all[0] == ep[0]);
        }
        if dp.len() > 0 {
            assert(all[ep.len() as int] == dp[0]);
        }
        assert forall|x: Seq<char>| !is_duplicate_id(t, x) by {
            if is_duplicate_id(t, x) {
                assert(spec_duplicate_ids(t).contains(x));
            }
        }
    }
    if banks_all_ok(t.enclosures) && forall|x: Seq<char>| !is_duplicate_id(t, x) {
        let q = spec_duplicate_ids(t);
        if q.len() > 0 {
            let x = q[0];
            assert(q.contains(x));
            assert(is_duplicate_id(t, x));
            assert(!is_duplicate_id(t, x));
        }
        assert(dp.len() == spec_duplicate_ids(t).len());
        assert(dp.len() == 0);
        assert forall|i: int| 0 <= i < all.len() implies (#[trigger] all[i]).0 != ProblemSeverity::Error by {
            assert(all[i] == w[i]);
        }
    }
}

/// The names joined with `, `.
pub open spec fn joined(names: Seq<Seq<char>>) -> Seq<char>
    decreases names.len(),
{
    if names.len() == 0 {
        Seq::empty()
    } else if names.len() == 1 {
        names[0]
    } else {
        joined(names.drop_last()) + ", "@ + names.last()
    }
}

/// Why a topology read from a configuration file is refused, if it is: a
/// schema this build does not understand, or repeated bay ids.
pub open spec fn load_problem(path: Seq<char>, t: TopologyV) -> Option<Seq<char>> {
    if t.schema_version != BAY_TOPOLOGY_SCHEMA_VERSION {
        Some("bay topology "@ + path + " declares schema_version "@ + decimal(t.schema_version as nat)
            + ", but this build understands "@ + decimal(BAY_TOPOLOGY_SCHEMA_VERSION as nat))
    } else if spec_duplicate_ids(t).len() > 0 {
        Some("bay topology "@ + path + " has duplicate bay ids: "@ + joined(spec_duplicate_ids(t)))
    } else {
        None
    }
}

/// Check a topology read from a configuration file.
pub fn check_loaded_topology(path: &str, t: &BayTopology) -> (r: Result<(), String>)
    ensures
        match load_problem(path@, t@) {
            Some(m) => r matches Err(e) && e@ == m,
            None => r is Ok,
        },
{
    if t.schema_version != BAY_TOPOLOGY_SCHEMA_VERSION {
        let mut m = String::from_str("bay topology ");
        append_str(&mut m, path);
        append_str(&mut m, " declares schema_version ");
        let v = decimal_string(t.schema_version as u64);
        append_str(&mut m, v.as_str());
        append_str(&mut m, ", but this build understands ");
        let w = decimal_string(BAY_TOPOLOGY_SCHEMA_VERSION as u64);
        append_str(&mut m, w.as_str());
        return Err(m);
    }
    let dupes = t.duplicate_bay_ids();
    if dupes.len() == 0 {
        return Ok(());
    }
    let mut m = String::from_str("bay topology ");
    append_str(&mut m, path);
    append_str(&mut m, " has duplicate bay ids: ");
    let ghost start = m@;
    for i in 0..dupes.len()
        invariant
            dupes@.len() > 0,
            m@ == start + joined(ids_view(dupes@).subrange(0, i as int)),
    {
        proof {
            let s = ids_view(dupes@).subrange(0, i + 1);
            assert(s.drop_last() =~= ids_view(dupes@).subrange(0, i as int));
            assert(s.last() == dupes@[i as int]@);
            if i == 0 {
                assert(s.len() == 1);
            }
        }
        if i > 0 {
            append_str(&mut m, ", ");
        }
        append_str(&mut m, dupes[i].as_str());
    }
    assert(ids_view(dupes@).subrange(0, dupes@.len() as int) =~= ids_view(dupes@));
    Err(m)
}

/// The message for a preset name that does not exist, listing the ones
/// that do.
pub fn unknown_profile_message(name: &str) -> (r: String)
    ensures
        r@ == "unknown bay profile `"@ + name@ + "` — known presets: "@
            + joined(seq!["arma-4u-32"@, "dock-2bay"@, "nvme-carrier-8"@]),
{
    let names = crate::bay_build::preset_names();
    let ghost nv = names@.map_values(|n: &'static str| n@);
    assert(nv =~= seq!["arma-4u-32"@, "dock-2bay"@, "nvme-carrier-8"@]);
    let mut m = String::from_str("unknown bay profile `");
    append_str(&mut m, name);
    append_str(&mut m, "` — known presets: ");
    let ghost start = m@;
    for i in 0..names.len()
        invariant
            names@.len() == 3,
            nv == names@.map_values(|n: &'static str| n@),
            m@ == start + joined(nv.subrange(0, i as int)),
    {
        proof {
            let s = nv.subrange(0, i + 1);
            assert(s.drop_last() =~= nv.subrange(0, i as int));
            assert(s.last() == names@[i as int]@);
        }
        if i > 0 {
            append_str(&mut m, ", ");
        }
        append_str(&mut m, names[i]);
    }
    assert(nv.subrange(0, 3) =~= nv);
    m
}

} // verus!
