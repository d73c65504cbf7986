//! Matching hardware identity against the catalog. Conservative by
//! construction: exact ids and full inquiries rank high, a revision mismatch
//! drops to medium, product-string similarity is only ever low, and only a
//! single high-confidence match is ever pre-selected.

use vstd::prelude::*;

use crate::catalog::{Catalog, EnclosureIdentity, EnclosureModel, Inquiry, MatchConfidence, ModelId, ModelMatch, ModelV, MatchV, PciId, UsbId, confidence_rank, inquiry_matches, models_view, revision_matches};
use crate::text::{append_str, chars_eq, chars_of, lemma_seq_lt_irreflexive, lemma_seq_lt_total, lemma_seq_lt_transitive, norm, norm_seq, seq_lt, str_lt, string_of, trim_chars, trim_seq};

verus! {

/// Same USB id once trimmed and case-folded.
pub open spec fn usb_same(a: UsbId, b: UsbId) -> bool {
    norm_seq(a.vid@) == norm_seq(b.vid@) && norm_seq(a.pid@) == norm_seq(b.pid@)
}

/// Same PCI id once trimmed and case-folded.
pub open spec fn pci_same(a: PciId, b: PciId) -> bool {
    norm_seq(a.vendor@) == norm_seq(b.vendor@) && norm_seq(a.device@) == norm_seq(b.device@)
}

/// First listed USB id equal to `found`, searching from `j`.
pub open spec fn first_usb_hit(list: Seq<UsbId>, found: UsbId, j: int) -> Option<int>
    decreases list.len() - j,
{
    if j < 0 || j >= list.len() {
        None
    } else if usb_same(list[j], found) {
        Some(j)
    } else {
        first_usb_hit(list, found, j + 1)
    }
}

/// First listed PCI id equal to `found`, searching from `j`.
pub open spec fn first_pci_hit(list: Seq<PciId>, found: PciId, j: int) -> Option<int>
    decreases list.len() - j,
{
    if j < 0 || j >= list.len() {
        None
    } else if pci_same(list[j], found) {
        Some(j)
    } else {
        first_pci_hit(list, found, j + 1)
    }
}

/// First listed inquiry naming the same vendor and product, from `j`.
pub open spec fn first_inquiry_hit(list: Seq<Inquiry>, found: Inquiry, j: int) -> Option<int>
    decreases list.len() - j,
{
    if j < 0 || j >= list.len() {
        None
    } else if inquiry_matches(list[j], found) {
        Some(j)
    } else {
        first_inquiry_hit(list, found, j + 1)
    }
}

/// First listed inquiry naming the same vendor, product and revision (an
/// entry without a revision accepts any), from `j`.
pub open spec fn first_full_inquiry_hit(list: Seq<Inquiry>, found: Inquiry, j: int) -> Option<int>
    decreases list.len() - j,
{
    if j < 0 || j >= list.len() {
        None
    } else if inquiry_matches(list[j], found) && revision_matches(list[j], found) {
        Some(j)
    } else {
        first_full_inquiry_hit(list, found, j + 1)
    }
}

/// Evidence text for a USB hit.
pub open spec fn usb_evidence(hit: UsbId) -> Seq<char> {
    "USB "@ + hit.vid@ + ":"@ + hit.pid@
}

/// Evidence text for a PCI hit.
pub open spec fn pci_evidence(hit: PciId) -> Seq<char> {
    "PCI "@ + hit.vendor@ + ":"@ + hit.device@
}

/// Evidence text for an inquiry hit.
pub open spec fn inquiry_evidence(hit: Inquiry, full: bool) -> Seq<char> {
    "SCSI INQUIRY "@ + trim_seq(hit.vendor@) + " "@ + trim_seq(hit.product@)
        + (if full { Seq::empty() } else { " (revision differs)"@ })
}

/// Evidence text for a product-string suggestion.
pub open spec fn product_evidence(found: Inquiry) -> Seq<char> {
    "product string \""@ + trim_seq(found.product@) + "\""@
}

/// The model's product or one of its aliases normalises to `p`.
pub open spec fn names_product(m: ModelV, p: Seq<char>) -> bool {
    norm_seq(m.product) == p || exists|i: int| 0 <= i < m.aliases.len() && norm_seq(#[trigger] m.aliases[i]) == p
}

/// How one model fits an identity, if at all: USB first, then PCI, then
/// the inquiry, then (for an inquiry that names no listed entry) a
/// product-string suggestion.
pub open spec fn match_of(m: ModelV, ident: EnclosureIdentity) -> Option<MatchV> {
    let usb = match ident.usb {
        Some(f) => first_usb_hit(m.identity.usb, f, 0),
        None => None,
    };
    let pci = match ident.pci {
        Some(f) => first_pci_hit(m.identity.pci, f, 0),
        None => None,
    };
    if usb is Some {
        Some((m.id, MatchConfidence::High, usb_evidence(m.identity.usb[usb->0])))
    } else if pci is Some {
        Some((m.id, MatchConfidence::High, pci_evidence(m.identity.pci[pci->0])))
    } else {
        match ident.scsi_inquiry {
            Some(f) => match first_full_inquiry_hit(m.identity.scsi_inquiry, f, 0) {
                Some(i) => Some((m.id, MatchConfidence::High, inquiry_evidence(m.identity.scsi_inquiry[i], true))),
                None => match first_inquiry_hit(m.identity.scsi_inquiry, f, 0) {
                Some(i) => Some((m.id, MatchConfidence::Medium, inquiry_evidence(m.identity.scsi_inquiry[i], false))),
                None => {
                    let p = norm_seq(f.product@);
                    if p.len() > 0 && names_product(m, p) {
                        Some((m.id, MatchConfidence::Low, product_evidence(f)))
                    } else {
                        None
                    }
                },
                },
            },
            None => None,
        }
    }
}

/// The matches of the first `k` models, in catalog order.
pub open spec fn raw_matches(ms: Seq<ModelV>, ident: EnclosureIdentity, k: int) -> Seq<MatchV>
    decreases k,
{
    if k <= 0 {
        Seq::empty()
    } else {
        match match_of(ms[k - 1], ident) {
            Some(x) => raw_matches(ms, ident, k - 1).push(x),
            None => raw_matches(ms, ident, k - 1),
        }
    }
}

/// Every match of a catalog, in catalog order.
pub open spec fn catalog_matches(c: Seq<ModelV>, ident: EnclosureIdentity) -> Seq<MatchV> {
    raw_matches(c, ident, c.len() as int)
}

/// `a` ranks strictly before `b`: higher confidence first, then model id.
pub open spec fn rank_before(a: MatchV, b: MatchV) -> bool {
    confidence_rank(a.1) > confidence_rank(b.1) || (a.1 == b.1 && seq_lt(a.0, b.0))
}

/// Same confidence and same model id.
pub open spec fn same_rank(a: MatchV, b: MatchV) -> bool {
    a.1 == b.1 && a.0 == b.0
}

/// Some position of `idx` holds `r`.
pub open spec fn taken(idx: Seq<int>, r: int) -> bool {
    exists|i: int| 0 <= i < idx.len() && idx[i] == r
}

/// `out` is `raw` reordered best first, then by model id, entries of equal
/// rank keeping their order in `raw`; `idx` says where each came from.
pub open spec fn is_ranking(raw: Seq<MatchV>, out: Seq<MatchV>, idx: Seq<int>) -> bool {
    &&& idx.len() == raw.len()
    &&& out.len() == raw.len()
    &&& forall|i: int| 0 <= i < out.len() ==> 0 <= #[trigger] idx[i] < raw.len() && out[i] == raw[idx[i]]
    &&& forall|i: int, j: int| 0 <= i < j < out.len() ==> #[trigger] idx[i] != #[trigger] idx[j]
    &&& forall|r: int| 0 <= r < raw.len() ==> #[trigger] taken(idx, r)
    &&& forall|i: int, j: int| 0 <= i < j < out.len() ==> rank_before(#[trigger] out[i], #[trigger] out[j])
        || (same_rank(out[i], out[j]) && idx[i] < idx[j])
}

proof fn lemma_rank_total(a: MatchV, b: MatchV)
    ensures
        rank_before(a, b) || rank_before(b, a) || same_rank(a, b),
{
    if a.1 == b.1 && a.0 != b.0 {
        lemma_seq_lt_total(a.0, b.0);
    }
}

proof fn lemma_rank_trans(a: MatchV, b: MatchV, c: MatchV)
    requires
        rank_before(a, b),
        rank_before(b, c) || same_rank(b, c),
    ensures
        rank_before(a, c),
{
    if same_rank(b, c) {
    } else if a.1 == b.1 && b.1 == c.1 {
        lemma_seq_lt_transitive(a.0, b.0, c.0);
    }
}

/// Text of a string slice with whitespace trimmed from both ends.
fn trim_string(s: &str) -> (r: String)
    ensures
        r@ == trim_seq(s@),
{
    let cs = chars_of(s);
    let t = trim_chars(&cs);
    string_of(&t)
}

fn same_norm(a: &str, b: &str) -> (r: bool)
    ensures
        r == (norm_seq(a@) == norm_seq(b@)),
{
    let x = norm(a);
    let y = norm(b);
    chars_eq(&x, &y)
}

fn find_usb(list: &Vec<UsbId>, found: &UsbId) -> (r: Option<usize>)
    ensures
        r matches Some(i) ==> i < list@.len() && first_usb_hit(list@, *found, 0) == Some(i as int),
        r is None ==> first_usb_hit(list@, *found, 0) is None,
{
    for j in 0..list.len()
        invariant
            first_usb_hit(list@, *found, 0) == first_usb_hit(list@, *found, j as int),
    {
        let u = &list[j];
        if same_norm(u.vid.as_str(), found.vid.as_str()) && same_norm(u.pid.as_str(), found.pid.as_str()) {
            return Some(j);
        }
    }
    None
}

fn find_pci(list: &Vec<PciId>, found: &PciId) -> (r: Option<usize>)
    ensures
        r matches Some(i) ==> i < list@.len() && first_pci_hit(list@, *found, 0) == Some(i as int),
        r is None ==> first_pci_hit(list@, *found, 0) is None,
{
    for j in 0..list.len()
        invariant
            first_pci_hit(list@, *found, 0) == first_pci_hit(list@, *found, j as int),
    {
        let p = &list[j];
        if same_norm(p.vendor.as_str(), found.vendor.as_str()) && same_norm(p.device.as_str(), found.device.as_str()) {
            return Some(j);
        }
    }
    None
}

fn find_inquiry(list: &Vec<Inquiry>, found: &Inquiry) -> (r: Option<usize>)
    ensures
        r matches Some(i) ==> i < list@.len() && first_inquiry_hit(list@, *found, 0) == Some(i as int),
        r is None ==> first_inquiry_hit(list@, *found, 0) is None,
{
    for j in 0..list.len()
        invariant
            first_inquiry_hit(list@, *found, 0) == first_inquiry_hit(list@, *found, j as int),
    {
        if list[j].matches(found) {
            return Some(j);
        }
    }
    None
}

fn find_full_inquiry(list: &Vec<Inquiry>, found: &Inquiry) -> (r: Option<usize>)
    ensures
        r matches Some(i) ==> i < list@.len() && first_full_inquiry_hit(list@, *found, 0) == Some(i as int),
        r is None ==> first_full_inquiry_hit(list@, *found, 0) is None,
{
    for j in 0..list.len()
        invariant
            first_full_inquiry_hit(list@, *found, 0) == first_full_inquiry_hit(list@, *found, j as int),
    {
        if list[j].matches(found) && list[j].revision_matches(found) {
            return Some(j);
        }
    }
    None
}

fn inquiry_evidence_text(hit: &Inquiry, full: bool) -> (r: String)
    ensures
        r@ == inquiry_evidence(*hit, full),
{
    let mut ev = String::from_str("SCSI INQUIRY ");
    let tv = trim_string(hit.vendor.as_str());
    let tp = trim_string(hit.product.as_str());
    append_str(&mut ev, tv.as_str());
    append_str(&mut ev, " ");
    append_str(&mut ev, tp.as_str());
    if !full {
        append_str(&mut ev, " (revision differs)");
    }
    proof {
        assert(ev@ =~= inquiry_evidence(*hit, full));
    }
    ev
}

fn names_product_exec(m: &EnclosureModel, p: &Vec<char>) -> (r: bool)
    ensures
        r == names_product(m@, p@),
{
    let np = norm(m.product.as_str());
    if chars_eq(&np, p) {
        return true;
    }
    let ghost av = m@.aliases;
    for i in 0..m.aliases.len()
        invariant
            av == m@.aliases,
            norm_seq(m@.product) != p@,
            forall|j: int| 0 <= j < i ==> norm_seq(#[trigger] av[j]) != p@,
    {
        assert(av[i as int] == m.aliases@[i as int]@);
        let na = norm(m.aliases[i].as_str());
        if chars_eq(&na, p) {
            return true;
        }
    }
    false
}

/// How one model fits an identity.
fn match_of_exec(m: &EnclosureModel, ident: &EnclosureIdentity) -> (r: Option<ModelMatch>)
    ensures
        match r {
            Some(x) => match_of(m@, *ident) == Some(x@),
            None => match_of(m@, *ident) is None,
        },
{
    if let Some(found) = &ident.usb {
        if let Some(i) = find_usb(&m.identity.usb, found) {
            let hit = &m.identity.usb[i];
            let mut ev = String::from_str("USB ");
            append_str(&mut ev, hit.vid.as_str());
            append_str(&mut ev, ":");
            append_str(&mut ev, hit.pid.as_str());
            return Some(ModelMatch { model_id: m.id.clone(), confidence: MatchConfidence::High, evidence: ev });
        }
    }
    if let Some(found) = &ident.pci {
        if let Some(i) = find_pci(&m.identity.pci, found) {
            let hit = &m.identity.pci[i];
            let mut ev = String::from_str("PCI ");
            append_str(&mut ev, hit.vendor.as_str());
            append_str(&mut ev, ":");
            append_str(&mut ev, hit.device.as_str());
            return Some(ModelMatch { model_id: m.id.clone(), confidence: MatchConfidence::High, evidence: ev });
        }
    }
    if let Some(found) = &ident.scsi_inquiry {
        if let Some(i) = find_full_inquiry(&m.identity.scsi_inquiry, found) {
            let ev = inquiry_evidence_text(&m.identity.scsi_inquiry[i], true);
            return Some(ModelMatch { model_id: m.id.clone(), confidence: MatchConfidence::High, evidence: ev });
        }
        if let Some(i) = find_inquiry(&m.identity.scsi_inquiry, found) {
            let ev = inquiry_evidence_text(&m.identity.scsi_inquiry[i], false);
            return Some(ModelMatch { model_id: m.id.clone(), confidence: MatchConfidence::Medium, evidence: ev });
        }
        let p = norm(found.product.as_str());
        if p.len() > 0 && names_product_exec(m, &p) {
            let mut ev = String::from_str("product string \"");
            let tp = trim_string(found.product.as_str());
            append_str(&mut ev, tp.as_str());
            append_str(&mut ev, "\"");
            return Some(ModelMatch { model_id: m.id.clone(), confidence: MatchConfidence::Low, evidence: ev });
        }
    }
    None
}

fn confidence_value(c: MatchConfidence) -> (r: u8)
    ensures
        r == confidence_rank(c),
{
    match c {
        MatchConfidence::Low => 0,
        MatchConfidence::Medium => 1,
        MatchConfidence::High => 2,
    }
}

fn rank_before_exec(a: &ModelMatch, b: &ModelMatch) -> (r: bool)
    ensures
        r == rank_before(a@, b@),
{
    let ca = confidence_value(a.confidence);
    let cb = confidence_value(b.confidence);
    if ca != cb {
        proof {
            if a.confidence == b.confidence {
                assert(ca == cb);
            }
        }
        ca > cb
    } else {
        proof {
            if a.confidence != b.confidence {
                assert(confidence_rank(a.confidence) != confidence_rank(b.confidence));
            }
        }
        str_lt(a.model_id.as_str(), b.model_id.as_str())
    }
}

/// Matches seen through their views.
pub open spec fn matches_view(v: Seq<ModelMatch>) -> Seq<MatchV> {
    v.map_values(|m: ModelMatch| m@)
}

/// The single high-confidence entry, if exactly one exists.
pub open spec fn sole_high(s: Seq<MatchV>, i: int) -> bool {
    &&& 0 <= i < s.len()
    &&& s[i].1 == MatchConfidence::High
    &&& forall|j: int| 0 <= j < s.len() && j != i ==> (#[trigger] s[j]).1 != MatchConfidence::High
}

/// What pre-selection picks: the match when exactly one is high-confidence,
/// nothing otherwise.
pub open spec fn spec_best(s: Seq<MatchV>) -> Option<MatchV> {
    if exists|i: int| sole_high(s, i) {
        Some(s[choose|i: int| sole_high(s, i)])
    } else {
        None
    }
}

/// Ranking does not change what pre-selection picks: the best match of the
/// ranked list is the best match of the catalog-order list.
pub proof fn law_ranking_keeps_the_best_match(raw: Seq<MatchV>, out: Seq<MatchV>, idx: Seq<int>)
    requires
        is_ranking(raw, out, idx),
    ensures
        spec_best(out) == spec_best(raw),
{
    if exists|i: int| sole_high(out, i) {
        let i = choose|i: int| sole_high(out, i);
        let r = idx[i];
        assert forall|j: int| 0 <= j < raw.len() && j != r implies (#[trigger] raw[j]).1 != MatchConfidence::High by {
            assert(taken(idx, j));
            let a = choose|a: int| 0 <= a < idx.len() && idx[a] == j;
            assert(a != i);
            assert(out[a] == raw[j]);
        }
        assert(sole_high(raw, r));
        let r2 = choose|r2: int| sole_high(raw, r2);
        assert(r2 == r);
    } else if exists|r: int| sole_high(raw, r) {
        let r = choose|r: int| sole_high(raw, r);
        assert(taken(idx, r));
        let i = choose|i: int| 0 <= i < idx.len() && idx[i] == r;
        assert forall|j: int| 0 <= j < out.len() && j != i implies (#[trigger] out[j]).1 != MatchConfidence::High by {
            if j < i {
                assert(idx[j] != idx[i]);
            } else {
                assert(idx[i] != idx[j]);
            }
            assert(out[j] == raw[idx[j]]);
        }
        assert(sole_high(out, i));
    }
}

impl Catalog {
    /// Rank catalog entries against a hardware identity: best first, then
    /// by model id, so the order is stable for a given input.
    pub fn match_identity(&self, identity: &EnclosureIdentity) -> (r: Vec<ModelMatch>)
        ensures
            exists|idx: Seq<int>| is_ranking(catalog_matches(self@.models, *identity), matches_view(r@), idx),
    {
        let ghost mv = self@.models;
        let mut raw: Vec<ModelMatch> = Vec::new();
        for k in 0..self.models.len()
            invariant
                mv == models_view(self.models@),
                matches_view(raw@) == raw_matches(mv, *identity, k as int),
        {
            assert(mv[k as int] == self.models@[k as int]@);
            let ghost before = matches_view(raw@);
            match match_of_exec(&self.models[k], identity) {
                Some(x) => {
                    raw.push(x);
                    assert(matches_view(raw@) =~= before.push(x@));
                },
                None => {},
            }
        }
        let ghost rv = matches_view(raw@);
        let mut out: Vec<ModelMatch> = Vec::new();
        let ghost mut idx: Seq<int> = Seq::empty();
        for k in 0..raw.len()
            invariant
                rv == matches_view(raw@),
                rv == catalog_matches(self@.models, *identity),
                is_ranking(rv.subrange(0, k as int), matches_view(out@), idx),
        {
            let m = raw[k].clone();
            assert(m@ == rv[k as int]);
            let ghost ov = matches_view(out@);
            let ghost pre = rv.subrange(0, k as int);
            let mut p: usize = 0;
            while p < out.len() && !rank_before_exec(&m, &out[p])
                invariant
                    p <= out@.len(),
                    ov == matches_view(out@),
                    forall|a: int| 0 <= a < p ==> !rank_before(m@, #[trigger] ov[a]),
                decreases out.len() - p,
            {
                assert(ov[p as int] == out@[p as int]@);
                p = p + 1;
            }
            proof {
                if p < ov.len() {
                    assert(ov[p as int] == out@[p as int]@);
                }
            }
            out.insert(p, m);
            proof {
                let nv = matches_view(out@);
                let nidx = idx.insert(p as int, k as int);
                let post = rv.subrange(0, k + 1);
                assert(nv =~= ov.insert(p as int, rv[k as int]));
                assert forall|i: int| 0 <= i < nv.len() implies 0 <= #[trigger] nidx[i] < post.len() && nv[i] == post[nidx[i]] by {
                    if i < p {
                        assert(nidx[i] == idx[i] && nv[i] == ov[i]);
                    } else if i > p {
                        assert(nidx[i] == idx[i - 1] && nv[i] == ov[i - 1]);
                    }
                }
                assert forall|i: int, j: int| 0 <= i < j < nv.len() implies #[trigger] nidx[i] != #[trigger] nidx[j] by {
                    if i < p && j < p {
                    } else if i < p && j == p {
                        assert(idx[i] < k);
                    } else if i < p {
                        assert(nidx[j] == idx[j - 1]);
                    } else if i == p {
                        assert(idx[j - 1] < k);
                    } else {
                        assert(nidx[i] == idx[i - 1] && nidx[j] == idx[j - 1]);
                    }
                }
                assert forall|r: int| 0 <= r < post.len() implies #[trigger] taken(nidx, r) by {
                    if r == k {
                        assert(nidx[p as int] == r);
                    } else {
                        assert(taken(idx, r));
                        let a = choose|a: int| 0 <= a < idx.len() && idx[a] == r;
                        if a < p {
                            assert(nidx[a] == r);
                        } else {
                            assert(nidx[a + 1] == r);
                        }
                    }
                }
                assert forall|i: int, j: int| 0 <= i < j < nv.len() implies rank_before(#[trigger] nv[i], #[trigger] nv[j])
                    || (same_rank(nv[i], nv[j]) && nidx[i] < nidx[j]) by {
                    if j < p {
                        assert(nv[i] == ov[i] && nv[j] == ov[j]);
                    } else if j == p {
                        assert(nv[i] == ov[i]);
                        assert(!rank_before(m@, ov[i]));
                        lemma_rank_total(ov[i], m@);
                        assert(idx[i] < k);
                    } else if i < p {
                        assert(nv[i] == ov[i] && nv[j] == ov[j - 1]);
                        assert(nidx[i] == idx[i] && nidx[j] == idx[j - 1]);
                    } else if i == p {
                        assert(nv[j] == ov[j - 1]);
                        assert(rank_before(m@, ov[p as int]));
                        if j - 1 > p {
                            lemma_rank_trans(m@, ov[p as int], ov[j - 1]);
                        }
                    } else {
                        assert(nv[i] == ov[i - 1] && nv[j] == ov[j - 1]);
                        assert(nidx[i] == idx[i - 1] && nidx[j] == idx[j - 1]);
                    }
                }
                idx = nidx;
            }
        }
        proof {
            assert(rv.subrange(0, rv.len() as int) =~= rv);
            assert(is_ranking(catalog_matches(self@.models, *identity), matches_view(out@), idx));
        }
        out
    }

    /// The single model to pre-select, if any: only a high-confidence match
    /// pre-selects, and two entries claiming the same hardware select
    /// nothing.
    pub fn best_match(&self, identity: &EnclosureIdentity) -> (r: Option<ModelMatch>)
        ensures
            match r {
                Some(x) => spec_best(catalog_matches(self@.models, *identity)) == Some(x@),
                None => spec_best(catalog_matches(self@.models, *identity)) is None,
            },
    {
        let matches = self.match_identity(identity);
        let ghost raw = catalog_matches(self@.models, *identity);
        let ghost mv = matches_view(matches@);
        proof {
            let idx = choose|idx: Seq<int>| is_ranking(raw, mv, idx);
            law_ranking_keeps_the_best_match(raw, mv, idx);
        }
        let mut first: Option<usize> = None;
        let mut two = false;
        for i in 0..matches.len()
            invariant
                mv == matches_view(matches@),
                two ==> exists|a: int, b: int| 0 <= a < b < i && (#[trigger] mv[a]).1 == MatchConfidence::High
                    && (#[trigger] mv[b]).1 == MatchConfidence::High,
                !two ==> match first {
                    None => forall|j: int| 0 <= j < i ==> (#[trigger] mv[j]).1 != MatchConfidence::High,
                    Some(f) => f < i && mv[f as int].1 == MatchConfidence::High
                        && forall|j: int| 0 <= j < i && j != f ==> (#[trigger] mv[j]).1 != MatchConfidence::High,
                },
        {
            assert(mv[i as int] == matches@[i as int]@);
            if matches[i].confidence == MatchConfidence::High && !two {
                match first {
                    None => {
                        first = Some(i);
                    },
                    Some(f) => {
                        assert(mv[f as int].1 == MatchConfidence::High && mv[i as int].1 == MatchConfidence::High);
                        two = true;
                    },
                }
            }
        }
        if two {
            proof {
                let (a, b) = choose|a: int, b: int| 0 <= a < b < mv.len() && (#[trigger] mv[a]).1 == MatchConfidence::High
                    && (#[trigger] mv[b]).1 == MatchConfidence::High;
                if exists|i: int| sole_high(mv, i) {
                    let i = choose|i: int| sole_high(mv, i);
                    assert(a == i || mv[a].1 != MatchConfidence::High);
                    assert(b == i || mv[b].1 != MatchConfidence::High);
                }
            }
            return None;
        }
        match first {
            Some(f) => {
                proof {
                    assert(sole_high(mv, f as int));
                    let c = choose|i: int| sole_high(mv, i);
                    assert(c == f);
                }
                Some(matches[f].clone())
            },
            None => None,
        }
    }
}

/// Pre-selection only ever picks a high-confidence match.
pub proof fn law_only_high_confidence_preselects(s: Seq<MatchV>)
    ensures
        spec_best(s) matches Some(x) ==> x.1 == MatchConfidence::High,
{
}

/// Two entries claiming the same hardware with high confidence select
/// nothing: a catalog bug must not silently pick a winner.
pub proof fn law_ambiguous_high_selects_nothing(s: Seq<MatchV>, a: int, b: int)
    requires
        0 <= a < b < s.len(),
        s[a].1 == MatchConfidence::High,
        s[b].1 == MatchConfidence::High,
    ensures
        spec_best(s) is None,
{
    if exists|i: int| sole_high(s, i) {
        let i = choose|i: int| sole_high(s, i);
        assert(a == i || s[a].1 != MatchConfidence::High);
        assert(b == i || s[b].1 != MatchConfidence::High);
    }
}

/// An identity that reports nothing matches no model.
pub proof fn law_empty_identity_matches_nothing(ms: Seq<ModelV>, ident: EnclosureIdentity, k: int)
    requires
        ident.usb is None,
        ident.pci is None,
        ident.scsi_inquiry is None,
    ensures
        raw_matches(ms, ident, k).len() == 0,
    decreases k,
{
    if k > 0 {
        law_empty_identity_matches_nothing(ms, ident, k - 1);
    }
}

proof fn lemma_rank_asymmetric(a: MatchV, b: MatchV)
    ensures
        !(rank_before(a, b) && rank_before(b, a)),
        same_rank(a, b) ==> !rank_before(a, b),
{
    lemma_seq_lt_irreflexive(a.0);
    if a.1 == b.1 && seq_lt(a.0, b.0) && seq_lt(b.0, a.0) {
        lemma_seq_lt_transitive(a.0, b.0, a.0);
    }
}

proof fn lemma_rankings_agree_upto(raw: Seq<MatchV>, o1: Seq<MatchV>, i1: Seq<int>, o2: Seq<MatchV>, i2: Seq<int>, n: int)
    requires
        is_ranking(raw, o1, i1),
        is_ranking(raw, o2, i2),
        0 <= n <= raw.len(),
    ensures
        forall|j: int| 0 <= j < n ==> i1[j] == i2[j],
    decreases n,
{
    if n > 0 {
        lemma_rankings_agree_upto(raw, o1, i1, o2, i2, n - 1);
        let q = n - 1;
        let a = i1[q];
        let b = i2[q];
        if a != b {
            assert(taken(i1, b));
            let p1 = choose|p: int| 0 <= p < i1.len() && i1[p] == b;
            if p1 < q {
                assert(i2[p1] == b);
                assert(i2[p1] != i2[q]);
            }
            assert(taken(i2, a));
            let p2 = choose|p: int| 0 <= p < i2.len() && i2[p] == a;
            if p2 < q {
                assert(i1[p2] == a);
                assert(i1[p2] != i1[q]);
            }
            assert(p1 > q && p2 > q);
            assert(o1[q] == raw[a] && o1[p1] == raw[b]);
            assert(o2[q] == raw[b] && o2[p2] == raw[a]);
            assert(rank_before(o1[q], o1[p1]) || (same_rank(o1[q], o1[p1]) && i1[q] < i1[p1]));
            assert(rank_before(o2[q], o2[p2]) || (same_rank(o2[q], o2[p2]) && i2[q] < i2[p2]));
            lemma_rank_asymmetric(raw[a], raw[b]);
            lemma_rank_asymmetric(raw[b], raw[a]);
        }
    }
}

/// Ranking is deterministic: the catalog-order matches have exactly one
/// ranked order, so matching the same identity against the same catalog
/// always lists the same entries in the same order.
pub proof fn law_ranking_is_unique(raw: Seq<MatchV>, o1: Seq<MatchV>, i1: Seq<int>, o2: Seq<MatchV>, i2: Seq<int>)
    requires
        is_ranking(raw, o1, i1),
        is_ranking(raw, o2, i2),
    ensures
        o1 == o2,
{
    lemma_rankings_agree_upto(raw, o1, i1, o2, i2, raw.len() as int);
    assert forall|j: int| 0 <= j < o1.len() implies o1[j] == o2[j] by {
        assert(o1[j] == raw[i1[j]] && o2[j] == raw[i2[j]]);
    }
    assert(o1 =~= o2);
}

/// Model ids that occur once each.
pub open spec fn unique_model_ids(ms: Seq<ModelV>) -> bool {
    forall|a: int, b: int| 0 <= a < b < ms.len() ==> (#[trigger] ms[a]).id != (#[trigger] ms[b]).id
}

proof fn lemma_match_names_model(m: ModelV, ident: EnclosureIdentity)
    ensures
        match_of(m, ident) matches Some(x) ==> x.0 == m.id,
{
}

/// The present values of `f(0..k)`, in order.
pub open spec fn somes_upto(f: spec_fn(int) -> Option<MatchV>, k: int) -> Seq<MatchV>
    decreases k,
{
    if k <= 0 {
        Seq::empty()
    } else {
        match f(k - 1) {
            Some(x) => somes_upto(f, k - 1).push(x),
            None => somes_upto(f, k - 1),
        }
    }
}

proof fn lemma_raw_matches_are_somes(ms: Seq<ModelV>, ident: EnclosureIdentity, k: int)
    ensures
        raw_matches(ms, ident, k) == somes_upto(|kk: int| match_of(ms[kk], ident), k),
    decreases k,
{
    if k > 0 {
        lemma_raw_matches_are_somes(ms, ident, k - 1);
    }
}

proof fn lemma_somes_sources(f: spec_fn(int) -> Option<MatchV>, k: int)
    requires
        0 <= k,
    ensures
        forall|j: int| #![trigger somes_upto(f, k)[j]] 0 <= j < somes_upto(f, k).len() ==> exists|kk: int| 0 <= kk < k
            && #[trigger] f(kk) == Some(somes_upto(f, k)[j]),
        forall|kk: int| 0 <= kk < k && (#[trigger] f(kk)) is Some ==> exists|j: int|
            0 <= j < somes_upto(f, k).len() && somes_upto(f, k)[j] == f(kk)->0,
    decreases k,
{
    if k > 0 {
        lemma_somes_sources(f, k - 1);
        let prev = somes_upto(f, k - 1);
        let cur = somes_upto(f, k);
        if f(k - 1) is Some {
            assert(cur == prev.push(f(k - 1)->0));
            assert forall|j: int| #![trigger cur[j]] 0 <= j < cur.len() implies exists|kk: int| 0 <= kk < k
                && #[trigger] f(kk) == Some(cur[j]) by {
                if j < prev.len() {
                    assert(cur[j] == prev[j]);
                } else {
                    assert(f(k - 1) == Some(cur[j]));
                }
            }
            assert forall|kk: int| 0 <= kk < k && (#[trigger] f(kk)) is Some implies exists|j: int|
                0 <= j < cur.len() && cur[j] == f(kk)->0 by {
                if kk < k - 1 {
                    let j = choose|j: int| 0 <= j < prev.len() && prev[j] == f(kk)->0;
                    assert(cur[j] == prev[j]);
                } else {
                    assert(cur[prev.len() as int] == f(kk)->0);
                }
            }
        }
    }
}

proof fn lemma_somes_distinct(f: spec_fn(int) -> Option<MatchV>, k: int)
    requires
        0 <= k,
        forall|a: int, b: int| 0 <= a < b < k && (#[trigger] f(a)) is Some && (#[trigger] f(b)) is Some
            ==> (f(a)->0).0 != (f(b)->0).0,
    ensures
        forall|j1: int, j2: int| 0 <= j1 < j2 < somes_upto(f, k).len()
            ==> (#[trigger] somes_upto(f, k)[j1]).0 != (#[trigger] somes_upto(f, k)[j2]).0,
    decreases k,
{
    if k > 0 {
        lemma_somes_distinct(f, k - 1);
        lemma_somes_sources(f, k - 1);
        let prev = somes_upto(f, k - 1);
        let cur = somes_upto(f, k);
        if f(k - 1) is Some {
            assert(cur == prev.push(f(k - 1)->0));
            assert forall|j1: int, j2: int| 0 <= j1 < j2 < cur.len() implies (#[trigger] cur[j1]).0 != (#[trigger] cur[j2]).0 by {
                assert(cur[j1] == prev[j1]);
                if j2 < prev.len() {
                    assert(cur[j2] == prev[j2]);
                } else {
                    let kk = choose|kk: int| 0 <= kk < k - 1 && #[trigger] f(kk) == Some(prev[j1]);
                    assert(f(kk) is Some && f(k - 1) is Some);
                }
            }
        }
    }
}

proof fn lemma_ranked_somes(f: spec_fn(int) -> Option<MatchV>, n: int, raw: Seq<MatchV>, out: Seq<MatchV>, idx: Seq<int>)
    requires
        0 <= n,
        raw == somes_upto(f, n),
        idx.len() == raw.len(),
        out.len() == raw.len(),
        forall|i: int| 0 <= i < out.len() ==> 0 <= #[trigger] idx[i] < raw.len() && out[i] == raw[idx[i]],
        forall|i: int, j: int| 0 <= i < j < out.len() ==> #[trigger] idx[i] != #[trigger] idx[j],
        forall|r: int| 0 <= r < raw.len() ==> #[trigger] taken(idx, r),
    ensures
        forall|i: int| #![trigger out[i]] 0 <= i < out.len() ==> exists|k: int| 0 <= k < n && #[trigger] f(k) == Some(out[i]),
        forall|k: int| 0 <= k < n && (#[trigger] f(k)) is Some ==> exists|i: int| 0 <= i < out.len() && out[i] == f(k)->0,
        (forall|a: int, b: int| 0 <= a < b < n && (#[trigger] f(a)) is Some && (#[trigger] f(b)) is Some
            ==> (f(a)->0).0 != (f(b)->0).0) ==> forall|i: int, j: int| 0 <= i < j < out.len()
            ==> (#[trigger] out[i]).0 != (#[trigger] out[j]).0,
{
    assert forall|i: int| #![trigger out[i]] 0 <= i < out.len() implies exists|k: int| 0 <= k < n
        && #[trigger] f(k) == Some(out[i]) by {
        lemma_somes_sources(f, n);
        let r = idx[i];
        assert(out[i] == raw[r]);
        assert(raw[r] == somes_upto(f, n)[r]);
    }
    assert forall|k: int| 0 <= k < n && (#[trigger] f(k)) is Some implies exists|i: int|
        0 <= i < out.len() && out[i] == f(k)->0 by {
        lemma_somes_sources(f, n);
        let r = choose|r: int| 0 <= r < raw.len() && raw[r] == f(k)->0;
        assert(taken(idx, r));
        let i = choose|i: int| 0 <= i < idx.len() && idx[i] == r;
        assert(out[i] == raw[r]);
    }
    if forall|a: int, b: int| 0 <= a < b < n && (#[trigger] f(a)) is Some && (#[trigger] f(b)) is Some
        ==> (f(a)->0).0 != (f(b)->0).0 {
        lemma_somes_distinct(f, n);
        assert forall|i: int, j: int| 0 <= i < j < out.len() implies (#[trigger] out[i]).0 != (#[trigger] out[j]).0 by {
            assert(idx[i] != idx[j]);
            assert(out[i] == raw[idx[i]] && out[j] == raw[idx[j]]);
            if idx[i] < idx[j] {
                assert(raw[idx[i]].0 != raw[idx[j]].0);
            } else {
                assert(raw[idx[j]].0 != raw[idx[i]].0);
            }
        }
    }
}

/// One entry per matching model: every entry of the ranked matches is how
/// some catalog model fits the identity, every model that fits has its
/// entry, and where model ids are unique no model appears twice.
pub proof fn law_one_entry_per_model(ms: Seq<ModelV>, ident: EnclosureIdentity, out: Seq<MatchV>, idx: Seq<int>)
    requires
        is_ranking(catalog_matches(ms, ident), out, idx),
    ensures
        forall|i: int| #![trigger out[i]] 0 <= i < out.len() ==> exists|k: int| 0 <= k < ms.len()
            && #[trigger] match_of(ms[k], ident) == Some(out[i]),
        forall|k: int| 0 <= k < ms.len() && (#[trigger] match_of(ms[k], ident)) is Some ==> exists|i: int|
            0 <= i < out.len() && out[i] == match_of(ms[k], ident)->0,
        unique_model_ids(ms) ==> forall|i: int, j: int| 0 <= i < j < out.len() ==> (#[trigger] out[i]).0 != (#[trigger] out[j]).0,
{
    let f = |kk: int| match_of(ms[kk], ident);
    lemma_raw_matches_are_somes(ms, ident, ms.len() as int);
    lemma_ranked_somes(f, ms.len() as int, catalog_matches(ms, ident), out, idx);
    assert forall|i: int| #![trigger out[i]] 0 <= i < out.len() implies exists|k: int| 0 <= k < ms.len()
        && #[trigger] match_of(ms[k], ident) == Some(out[i]) by {
        let k = choose|k: int| 0 <= k < ms.len() && #[trigger] f(k) == Some(out[i]);
        assert(f(k) == match_of(ms[k], ident));
    }
    assert forall|k: int| 0 <= k < ms.len() && (#[trigger] match_of(ms[k], ident)) is Some implies exists|i: int|
        0 <= i < out.len() && out[i] == match_of(ms[k], ident)->0 by {
        assert(f(k) == match_of(ms[k], ident));
    }
    if unique_model_ids(ms) {
        assert forall|a: int, b: int| 0 <= a < b < ms.len() && (#[trigger] f(a)) is Some && (#[trigger] f(b)) is Some
            implies (f(a)->0).0 != (f(b)->0).0 by {
            lemma_match_names_model(ms[a], ident);
            lemma_match_names_model(ms[b], ident);
        }
    }
}

/// A full inquiry hit is in particular a vendor-and-product hit.
proof fn lemma_full_hit_is_hit(list: Seq<Inquiry>, found: Inquiry, j: int)
    ensures
        first_full_inquiry_hit(list, found, j) is Some ==> first_inquiry_hit(list, found, j) is Some,
    decreases list.len() - j,
{
    if 0 <= j < list.len() && !inquiry_matches(list[j], found) {
        lemma_full_hit_is_hit(list, found, j + 1);
    }
}

/// Confidence reflects the evidence: high exactly for an exact USB or PCI
/// id or a listed inquiry matching vendor, product and revision, medium for
/// a vendor-and-product inquiry whose revision differs from every listed
/// one, and low only for a product-string suggestion. A match always names
/// the model it came from.
pub proof fn law_confidence_reflects_evidence(m: ModelV, ident: EnclosureIdentity)
    ensures
        match_of(m, ident) matches Some(x) ==> {
            let usb = ident.usb is Some && first_usb_hit(m.identity.usb, ident.usb->0, 0) is Some;
            let pci = ident.pci is Some && first_pci_hit(m.identity.pci, ident.pci->0, 0) is Some;
            let inq = ident.scsi_inquiry is Some && first_inquiry_hit(m.identity.scsi_inquiry, ident.scsi_inquiry->0, 0) is Some;
            let full = ident.scsi_inquiry is Some && first_full_inquiry_hit(m.identity.scsi_inquiry, ident.scsi_inquiry->0, 0) is Some;
            &&& x.0 == m.id
            &&& (x.1 == MatchConfidence::High) == (usb || pci || full)
            &&& (x.1 == MatchConfidence::Medium) == (!usb && !pci && inq && !full)
            &&& (x.1 == MatchConfidence::Low) == (!usb && !pci && !inq)
        },
{
    if ident.scsi_inquiry is Some {
        lemma_full_hit_is_hit(m.identity.scsi_inquiry, ident.scsi_inquiry->0, 0);
    }
}

/// A full inquiry ranks high whichever listed entry carries it: a model
/// that lists the reported vendor, product and revision anywhere among its
/// inquiries is a high-confidence match.
pub proof fn law_full_inquiry_anywhere_ranks_high(m: ModelV, ident: EnclosureIdentity, k: int)
    requires
        ident.usb is None,
        ident.pci is None,
        ident.scsi_inquiry is Some,
        0 <= k < m.identity.scsi_inquiry.len(),
        inquiry_matches(m.identity.scsi_inquiry[k], ident.scsi_inquiry->0),
        revision_matches(m.identity.scsi_inquiry[k], ident.scsi_inquiry->0),
    ensures
        match_of(m, ident) matches Some(x) && x.1 == MatchConfidence::High,
{
    lemma_full_hit_found(m.identity.scsi_inquiry, ident.scsi_inquiry->0, 0, k);
}

proof fn lemma_full_hit_found(list: Seq<Inquiry>, found: Inquiry, j: int, k: int)
    requires
        0 <= j <= k < list.len(),
        inquiry_matches(list[k], found),
        revision_matches(list[k], found),
    ensures
        first_full_inquiry_hit(list, found, j) is Some,
    decreases k - j,
{
    if j < k && !(inquiry_matches(list[j], found) && revision_matches(list[j], found)) {
        lemma_full_hit_found(list, found, j + 1, k);
    }
}

} // verus!
