//! The enclosure model catalog: a source of defaults and artwork for
//! hardware we recognise, never the source of truth for a live layout.
//! Picking a model expands it into ordinary banks and bays, which are then
//! the operator's to edit.

use vstd::prelude::*;

use crate::bay::{Bank, BankV, BayFormFactor, BayOrder, BayOrigin, Enclosure, EnclosureKind, EnclosureV, NumberingRun, TrayOrientation, opt_view};
use crate::bay_build::{grid_bank, grid_bank_view};
use crate::device::clone_opt_string;
use crate::sorted_ids::{sorted_repeats, spec_sorted_repeats, strings_view};
use crate::text::{append_str, chars_contain, chars_eq, decimal, decimal_string, norm, norm_seq, seq_contains};

verus! {

/// Bumped when the catalog document shape changes incompatibly.
pub const CATALOG_SCHEMA_VERSION: u32 = 1;

/// Stable identifier of a catalog model, such as `vendor/product`.
#[derive(Debug, PartialEq, Eq, PartialOrd, Ord, Hash)]
pub struct ModelId(pub String);

impl Clone for ModelId {
    fn clone(&self) -> (r: Self)
        ensures
            r == *self,
    {
        ModelId(self.0.clone())
    }
}

impl View for ModelId {
    type V = Seq<char>;

    open spec fn view(&self) -> Seq<char> {
        self.0@
    }
}

impl ModelId {
    /// Build an id from its text.
    pub fn from(s: &str) -> (r: ModelId)
        ensures
            r@ == s@,
    {
        ModelId(s.to_string())
    }

    /// The id's text.
    pub fn as_str(&self) -> (r: &str)
        ensures
            r@ == self@,
    {
        self.0.as_str()
    }
}

/// A USB vendor/product id pair, as hex text.
#[derive(Debug, PartialEq, Eq)]
pub struct UsbId {
    pub vid: String,
    pub pid: String,
}

impl Clone for UsbId {
    fn clone(&self) -> (r: Self)
        ensures
            r == *self,
    {
        UsbId { vid: self.vid.clone(), pid: self.pid.clone() }
    }
}

/// A PCI vendor/device id pair, as hex text.
#[derive(Debug, PartialEq, Eq)]
pub struct PciId {
    pub vendor: String,
    pub device: String,
}

impl Clone for PciId {
    fn clone(&self) -> (r: Self)
        ensures
            r == *self,
    {
        PciId { vendor: self.vendor.clone(), device: self.device.clone() }
    }
}

/// SCSI/SES INQUIRY strings. Vendors pad these to fixed widths, so matching
/// trims and case-folds.
#[derive(Debug, PartialEq, Eq)]
pub struct Inquiry {
    pub vendor: String,
    pub product: String,
    pub revision: Option<String>,
}

impl Clone for Inquiry {
    fn clone(&self) -> (r: Self)
        ensures
            r == *self,
    {
        Inquiry { vendor: self.vendor.clone(), product: self.product.clone(), revision: clone_opt_string(&self.revision) }
    }
}

/// Vendor and product agree once trimmed and case-folded.
pub open spec fn inquiry_matches(a: Inquiry, b: Inquiry) -> bool {
    norm_seq(a.vendor@) == norm_seq(b.vendor@) && norm_seq(a.product@) == norm_seq(b.product@)
}

/// Revisions agree; an entry without a revision accepts any.
pub open spec fn revision_matches(a: Inquiry, b: Inquiry) -> bool {
    match (a.revision, b.revision) {
        (Some(x), Some(y)) => norm_seq(x@) == norm_seq(y@),
        (None, _) => true,
        (Some(_), None) => false,
    }
}

/// Two strings equal once trimmed and case-folded.
fn same_norm(a: &str, b: &str) -> (r: bool)
    ensures
        r == (norm_seq(a@) == norm_seq(b@)),
{
    let x = norm(a);
    let y = norm(b);
    chars_eq(&x, &y)
}

impl Inquiry {
    /// Does this entry name the same vendor and product as `other`?
    pub fn matches(&self, other: &Inquiry) -> (r: bool)
        ensures
            r == inquiry_matches(*self, *other),
    {
        same_norm(self.vendor.as_str(), other.vendor.as_str()) && same_norm(self.product.as_str(), other.product.as_str())
    }

    /// Does this entry's revision accept `other`'s?
    pub fn revision_matches(&self, other: &Inquiry) -> (r: bool)
        ensures
            r == revision_matches(*self, *other),
    {
        match (&self.revision, &other.revision) {
            (Some(a), Some(b)) => same_norm(a.as_str(), b.as_str()),
            (None, _) => true,
            (Some(_), None) => false,
        }
    }
}

/// How a catalog entry recognises its hardware.
#[derive(Debug, PartialEq, Eq)]
pub struct ModelIdentity {
    pub usb: Vec<UsbId>,
    pub pci: Vec<PciId>,
    pub scsi_inquiry: Vec<Inquiry>,
}

/// Spec-level image of a model identity.
pub struct ModelIdentityV {
    pub usb: Seq<UsbId>,
    pub pci: Seq<PciId>,
    pub scsi_inquiry: Seq<Inquiry>,
}

impl View for ModelIdentity {
    type V = ModelIdentityV;

    open spec fn view(&self) -> ModelIdentityV {
        ModelIdentityV { usb: self.usb@, pci: self.pci@, scsi_inquiry: self.scsi_inquiry@ }
    }
}

impl Clone for ModelIdentity {
    fn clone(&self) -> (r: Self)
        ensures
            r@ == self@,
    {
        let usb = self.usb.clone();
        let pci = self.pci.clone();
        let scsi_inquiry = self.scsi_inquiry.clone();
        assert(usb@ =~= self.usb@) by {
            assert forall|i: int| 0 <= i < usb@.len() implies usb@[i] == self.usb@[i] by {
                assert(cloned(self.usb[i], usb[i]));
            }
        }
        assert(pci@ =~= self.pci@) by {
            assert forall|i: int| 0 <= i < pci@.len() implies pci@[i] == self.pci@[i] by {
                assert(cloned(self.pci[i], pci[i]));
            }
        }
        assert(scsi_inquiry@ =~= self.scsi_inquiry@) by {
            assert forall|i: int| 0 <= i < scsi_inquiry@.len() implies scsi_inquiry@[i] == self.scsi_inquiry@[i] by {
                assert(cloned(self.scsi_inquiry[i], scsi_inquiry[i]));
            }
        }
        ModelIdentity { usb, pci, scsi_inquiry }
    }
}

impl Default for ModelIdentity {
    fn default() -> (r: Self)
        ensures
            r@.usb.len() == 0,
            r@.pci.len() == 0,
            r@.scsi_inquiry.len() == 0,
    {
        ModelIdentity { usb: Vec::new(), pci: Vec::new(), scsi_inquiry: Vec::new() }
    }
}

/// What a backend can report about an enclosure it can see.
#[derive(Debug, PartialEq, Eq)]
pub struct EnclosureIdentity {
    pub usb: Option<UsbId>,
    pub pci: Option<PciId>,
    pub scsi_inquiry: Option<Inquiry>,
    pub ses_enclosure_id: Option<String>,
}

impl Clone for EnclosureIdentity {
    fn clone(&self) -> (r: Self)
        ensures
            r == *self,
    {
        EnclosureIdentity {
            usb: match &self.usb {
                Some(u) => Some(u.clone()),
                None => None,
            },
            pci: match &self.pci {
                Some(p) => Some(p.clone()),
                None => None,
            },
            scsi_inquiry: match &self.scsi_inquiry {
                Some(i) => Some(i.clone()),
                None => None,
            },
            ses_enclosure_id: clone_opt_string(&self.ses_enclosure_id),
        }
    }
}

impl Default for EnclosureIdentity {
    fn default() -> (r: Self)
        ensures
            r.usb is None,
            r.pci is None,
            r.scsi_inquiry is None,
            r.ses_enclosure_id is None,
    {
        EnclosureIdentity { usb: None, pci: None, scsi_inquiry: None, ses_enclosure_id: None }
    }
}

/// How much a match is trusted: a fuzzy hit suggests, it never decides.
#[derive(Debug, Clone, Copy, PartialEq, Eq, Structural, PartialOrd, Ord)]
pub enum MatchConfidence {
    /// Product-string similarity only.
    Low,
    /// Inquiry vendor and product agree but the revision differs.
    Medium,
    /// Exact USB or PCI id, or a full inquiry including revision.
    High,
}

/// Rank of a confidence: higher is more trusted.
pub open spec fn confidence_rank(c: MatchConfidence) -> int {
    match c {
        MatchConfidence::Low => 0,
        MatchConfidence::Medium => 1,
        MatchConfidence::High => 2,
    }
}

/// One catalog entry that fits an identity.
#[derive(Debug, PartialEq, Eq)]
pub struct ModelMatch {
    pub model_id: ModelId,
    pub confidence: MatchConfidence,
    /// Why it matched, shown to the operator: "USB 174c:55aa".
    pub evidence: String,
}

impl Clone for ModelMatch {
    fn clone(&self) -> (r: Self)
        ensures
            r == *self,
    {
        ModelMatch { model_id: self.model_id.clone(), confidence: self.confidence, evidence: self.evidence.clone() }
    }
}

/// Spec-level image of a match: model id, confidence, evidence.
pub type MatchV = (Seq<char>, MatchConfidence, Seq<char>);

impl View for ModelMatch {
    type V = MatchV;

    open spec fn view(&self) -> MatchV {
        (self.model_id@, self.confidence, self.evidence@)
    }
}

/// One bank of a model, as a numbering run over a grid.
#[derive(Debug, PartialEq, Eq)]
pub struct BankSpec {
    pub label: Option<String>,
    pub rows: u16,
    pub cols: u16,
    pub form_factor: BayFormFactor,
    pub orientation: TrayOrientation,
    pub order: BayOrder,
    pub origin: BayOrigin,
    pub label_start: u16,
}

impl Clone for BankSpec {
    fn clone(&self) -> (r: Self)
        ensures
            r == *self,
    {
        BankSpec {
            label: clone_opt_string(&self.label),
            rows: self.rows,
            cols: self.cols,
            form_factor: self.form_factor,
            orientation: self.orientation,
            order: self.order,
            origin: self.origin,
            label_start: self.label_start,
        }
    }
}

/// The physical layout of a model.
#[derive(Debug, PartialEq, Eq)]
pub struct ModelSpec {
    pub banks: Vec<BankSpec>,
    pub connectors: Vec<String>,
    pub notes: Option<String>,
}

/// Spec-level image of a model layout.
pub struct ModelSpecV {
    pub banks: Seq<BankSpec>,
    pub connectors: Seq<String>,
    pub notes: Option<String>,
}

impl View for ModelSpec {
    type V = ModelSpecV;

    open spec fn view(&self) -> ModelSpecV {
        ModelSpecV { banks: self.banks@, connectors: self.connectors@, notes: self.notes }
    }
}

impl Clone for ModelSpec {
    fn clone(&self) -> (r: Self)
        ensures
            r@ == self@,
    {
        let banks = self.banks.clone();
        let connectors = self.connectors.clone();
        assert(banks@ =~= self.banks@) by {
            assert forall|i: int| 0 <= i < banks@.len() implies banks@[i] == self.banks@[i] by {
                assert(cloned(self.banks[i], banks[i]));
            }
        }
        assert(connectors@ =~= self.connectors@) by {
            assert forall|i: int| 0 <= i < connectors@.len() implies connectors@[i] == self.connectors@[i] by {
                assert(cloned(self.connectors[i], connectors[i]));
            }
        }
        ModelSpec { banks, connectors, notes: clone_opt_string(&self.notes) }
    }
}

/// What a known model can do. Absent unless verified: "we do not know"
/// must not read as "no".
#[derive(Debug, Clone, Copy, PartialEq, Eq, Structural)]
pub struct ModelCapabilities {
    pub locate_led: bool,
    pub per_bay_power: bool,
    pub hotswap_notify: bool,
    pub ses_slot_addressing: bool,
}

impl Default for ModelCapabilities {
    fn default() -> (r: Self)
        ensures
            !r.locate_led && !r.per_bay_power && !r.hotswap_notify && !r.ses_slot_addressing,
    {
        ModelCapabilities { locate_led: false, per_bay_power: false, hotswap_notify: false, ses_slot_addressing: false }
    }
}

/// One catalog entry.
#[derive(Debug, PartialEq, Eq)]
pub struct EnclosureModel {
    pub id: ModelId,
    pub vendor: String,
    pub product: String,
    pub aliases: Vec<String>,
    pub kind: EnclosureKind,
    pub identity: ModelIdentity,
    pub spec: ModelSpec,
    /// Key into the renderer's artwork; `None` draws the generic shell.
    pub art: Option<String>,
    /// Present only for models whose capabilities were verified.
    pub capabilities: Option<ModelCapabilities>,
    /// Who verified this entry against real hardware.
    pub verified_by: Option<String>,
}

/// Spec-level image of a catalog entry.
pub struct ModelV {
    pub id: Seq<char>,
    pub vendor: Seq<char>,
    pub product: Seq<char>,
    pub aliases: Seq<Seq<char>>,
    pub kind: EnclosureKind,
    pub identity: ModelIdentityV,
    pub spec: ModelSpecV,
    pub art: Option<Seq<char>>,
    pub capabilities: Option<ModelCapabilities>,
    pub verified_by: Option<Seq<char>>,
}

impl View for EnclosureModel {
    type V = ModelV;

    open spec fn view(&self) -> ModelV {
        ModelV {
            id: self.id@,
            vendor: self.vendor@,
            product: self.product@,
            aliases: strings_view(self.aliases@),
            kind: self.kind,
            identity: self.identity@,
            spec: self.spec@,
            art: opt_view(self.art),
            capabilities: self.capabilities,
            verified_by: opt_view(self.verified_by),
        }
    }
}

impl Clone for EnclosureModel {
    fn clone(&self) -> (r: Self)
        ensures
            r@ == self@,
    {
        let aliases = self.aliases.clone();
        assert(aliases@ =~= self.aliases@) by {
            assert forall|i: int| 0 <= i < aliases@.len() implies aliases@[i] == self.aliases@[i] by {
                assert(cloned(self.aliases[i], aliases[i]));
            }
        }
        EnclosureModel {
            id: self.id.clone(),
            vendor: self.vendor.clone(),
            product: self.product.clone(),
            aliases,
            kind: self.kind,
            identity: self.identity.clone(),
            spec: self.spec.clone(),
            art: clone_opt_string(&self.art),
            capabilities: self.capabilities,
            verified_by: clone_opt_string(&self.verified_by),
        }
    }
}

/// "Vendor Product".
pub open spec fn display_name_of(m: ModelV) -> Seq<char> {
    m.vendor + " "@ + m.product
}

/// Bays in a run of banks: the sum of their grid sizes.
pub open spec fn spec_capacity(banks: Seq<BankSpec>) -> int
    decreases banks.len(),
{
    if banks.len() == 0 {
        0
    } else {
        spec_capacity(banks.drop_last()) + banks.last().rows * banks.last().cols
    }
}

/// Every bank's labels fit in `u16`.
pub open spec fn labels_fit(banks: Seq<BankSpec>) -> bool {
    forall|i: int| 0 <= i < banks.len() ==> (#[trigger] banks[i]).label_start + banks[i].rows * banks[i].cols <= u16::MAX
}

/// The label of a bank spec as text.
pub open spec fn spec_label_view(b: BankSpec) -> Option<Seq<char>> {
    opt_view(b.label)
}

/// The `i`-th bank of an expanded model: bank ids are `b1`, `b2`, ….
pub open spec fn expanded_bank(enclosure_id: Seq<char>, b: BankSpec, i: int) -> BankV {
    grid_bank_view(
        enclosure_id,
        "b"@ + decimal((i + 1) as nat),
        spec_label_view(b),
        b.rows,
        b.cols,
        b.form_factor,
        b.orientation,
        b.order,
        b.origin,
        b.label_start,
    )
}

/// A model expanded into an ordinary enclosure.
pub open spec fn expand_view(m: ModelV, enclosure_id: Seq<char>) -> EnclosureV {
    EnclosureV {
        id: enclosure_id,
        label: display_name_of(m),
        kind: m.kind,
        banks: Seq::new(m.spec.banks.len(), |i: int| expanded_bank(enclosure_id, m.spec.banks[i], i)),
        note: opt_view(m.spec.notes),
        model_ref: Some(m.id),
    }
}

impl EnclosureModel {
    /// "Vendor Product".
    pub fn display_name(&self) -> (r: String)
        ensures
            r@ == display_name_of(self@),
    {
        let mut s = self.vendor.clone();
        append_str(&mut s, " ");
        append_str(&mut s, self.product.as_str());
        s
    }

    /// Number of bays across all banks.
    pub fn bay_count(&self) -> (r: usize)
        requires
            spec_capacity(self@.spec.banks) <= usize::MAX,
        ensures
            r == spec_capacity(self@.spec.banks),
    {
        let ghost bs = self@.spec.banks;
        let mut total: usize = 0;
        for i in 0..self.spec.banks.len()
            invariant
                bs == self@.spec.banks,
                spec_capacity(bs) <= usize::MAX,
                total == spec_capacity(bs.subrange(0, i as int)),
        {
            proof {
                let s = bs.subrange(0, i + 1);
                assert(s.drop_last() =~= bs.subrange(0, i as int));
                lemma_capacity_prefix(bs, i + 1);
            }
            let b = &self.spec.banks[i];
            total = total + (b.rows as usize) * (b.cols as usize);
        }
        assert(bs.subrange(0, bs.len() as int) =~= bs);
        total
    }

    /// Expand into an ordinary enclosure, the same shape a preset or a
    /// hand-written configuration produces. Every bay starts unbound: the
    /// catalog knows the shape of a chassis, never which drive is where.
    pub fn expand(&self, enclosure_id: &str) -> (r: Enclosure)
        requires
            labels_fit(self@.spec.banks),
        ensures
            r@ == expand_view(self@, enclosure_id@),
    {
        let ghost target = expand_view(self@, enclosure_id@);
        let mut banks: Vec<Bank> = Vec::new();
        for i in 0..self.spec.banks.len()
            invariant
                target == expand_view(self@, enclosure_id@),
                labels_fit(self@.spec.banks),
                banks@.len() == i,
                forall|j: int| 0 <= j < i ==> (#[trigger] banks@[j])@ == target.banks[j],
        {
            let b = &self.spec.banks[i];
            assert(*b == self@.spec.banks[i as int]);
            let mut bank_id = String::from_str("b");
            let num = decimal_string((i as u64) + 1);
            append_str(&mut bank_id, num.as_str());
            let label: Option<&str> = match &b.label {
                Some(l) => Some(l.as_str()),
                None => None,
            };
            let bank = grid_bank(
                enclosure_id,
                bank_id.as_str(),
                label,
                b.rows,
                b.cols,
                b.form_factor,
                b.orientation,
                b.order,
                b.origin,
                b.label_start,
            );
            assert(bank@ == target.banks[i as int]);
            banks.push(bank);
        }
        let e = Enclosure {
            id: String::from_str(enclosure_id),
            label: self.display_name(),
            kind: self.kind,
            banks,
            note: clone_opt_string(&self.spec.notes),
            model_ref: Some(self.id.clone()),
        };
        assert(e@.banks =~= target.banks);
        e
    }

    /// The numbering run each bank was generated with, for the editor.
    pub fn numbering_runs(&self) -> (r: Vec<NumberingRun>)
        ensures
            r@.len() == self@.spec.banks.len(),
            forall|i: int| 0 <= i < r@.len() ==> (#[trigger] r@[i]) == (NumberingRun {
                order: self@.spec.banks[i].order,
                origin: self@.spec.banks[i].origin,
                label_start: self@.spec.banks[i].label_start,
            }),
    {
        let mut out: Vec<NumberingRun> = Vec::new();
        for i in 0..self.spec.banks.len()
            invariant
                out@.len() == i,
                forall|j: int| 0 <= j < i ==> (#[trigger] out@[j]) == (NumberingRun {
                    order: self@.spec.banks[j].order,
                    origin: self@.spec.banks[j].origin,
                    label_start: self@.spec.banks[j].label_start,
                }),
        {
            let b = &self.spec.banks[i];
            out.push(NumberingRun { order: b.order, origin: b.origin, label_start: b.label_start });
        }
        out
    }
}

proof fn lemma_capacity_prefix(bs: Seq<BankSpec>, k: int)
    requires
        0 <= k <= bs.len(),
    ensures
        0 <= spec_capacity(bs.subrange(0, k)) <= spec_capacity(bs),
    decreases bs.len() - k,
{
    lemma_capacity_nonneg(bs.subrange(0, k));
    if k < bs.len() {
        lemma_capacity_prefix(bs, k + 1);
        let s = bs.subrange(0, k + 1);
        assert(s.drop_last() =~= bs.subrange(0, k));
        assert(s.last().rows * s.last().cols >= 0) by (nonlinear_arith)
            requires
                s.last().rows >= 0,
                s.last().cols >= 0;
    } else {
        assert(bs.subrange(0, k) =~= bs);
    }
}

proof fn lemma_capacity_nonneg(bs: Seq<BankSpec>)
    ensures
        spec_capacity(bs) >= 0,
    decreases bs.len(),
{
    if bs.len() > 0 {
        lemma_capacity_nonneg(bs.drop_last());
        assert(bs.last().rows * bs.last().cols >= 0) by (nonlinear_arith)
            requires
                bs.last().rows >= 0,
                bs.last().cols >= 0;
    }
}

/// A set of models.
#[derive(Debug, PartialEq, Eq)]
pub struct Catalog {
    pub schema_version: u32,
    pub models: Vec<EnclosureModel>,
}

/// Spec-level image of a catalog.
pub struct CatalogV {
    pub schema_version: u32,
    pub models: Seq<ModelV>,
}

/// Models seen through their views.
pub open spec fn models_view(ms: Seq<EnclosureModel>) -> Seq<ModelV> {
    ms.map_values(|m: EnclosureModel| m@)
}

impl View for Catalog {
    type V = CatalogV;

    open spec fn view(&self) -> CatalogV {
        CatalogV { schema_version: self.schema_version, models: models_view(self.models@) }
    }
}

impl Clone for Catalog {
    fn clone(&self) -> (r: Self)
        ensures
            r@ == self@,
    {
        let models = clone_models(&self.models);
        Catalog { schema_version: self.schema_version, models }
    }
}

fn clone_models(ms: &Vec<EnclosureModel>) -> (r: Vec<EnclosureModel>)
    ensures
        models_view(r@) == models_view(ms@),
{
    let mut out: Vec<EnclosureModel> = Vec::new();
    for i in 0..ms.len()
        invariant
            models_view(out@) == models_view(ms@).subrange(0, i as int),
    {
        let m = ms[i].clone();
        let ghost before = out@;
        out.push(m);
        assert(models_view(out@) =~= models_view(before).push(ms@[i as int]@));
        assert(models_view(out@) =~= models_view(ms@).subrange(0, i + 1));
    }
    assert(models_view(ms@).subrange(0, ms@.len() as int) =~= models_view(ms@));
    out
}

/// Index of the first model with id `id`.
pub open spec fn first_model_with(ms: Seq<ModelV>, id: Seq<char>) -> Option<int>
    decreases ms.len(),
{
    if ms.len() == 0 {
        None
    } else {
        match first_model_with(ms.drop_last(), id) {
            Some(i) => Some(i),
            None => if ms.last().id == id { Some(ms.len() - 1) } else { None },
        }
    }
}

proof fn lemma_first_model_with(ms: Seq<ModelV>, id: Seq<char>)
    ensures
        first_model_with(ms, id) matches Some(i) ==> 0 <= i < ms.len() && ms[i].id == id
            && forall|j: int| 0 <= j < i ==> (#[trigger] ms[j]).id != id,
        first_model_with(ms, id) is None ==> forall|j: int| 0 <= j < ms.len() ==> (#[trigger] ms[j]).id != id,
    decreases ms.len(),
{
    if ms.len() > 0 {
        lemma_first_model_with(ms.drop_last(), id);
        assert forall|j: int| 0 <= j < ms.len() - 1 implies ms.drop_last()[j] == ms[j] by {}
    }
}

/// Overlay one entry: it replaces the first entry with its id, or is
/// appended.
pub open spec fn overlay_step(acc: Seq<ModelV>, m: ModelV) -> Seq<ModelV> {
    match first_model_with(acc, m.id) {
        Some(i) => acc.update(i, m),
        None => acc.push(m),
    }
}

/// Overlay the first `k` entries of `other`, in order.
pub open spec fn overlay_upto(base: Seq<ModelV>, other: Seq<ModelV>, k: int) -> Seq<ModelV>
    decreases k,
{
    if k <= 0 {
        base
    } else {
        overlay_step(overlay_upto(base, other, k - 1), other[k - 1])
    }
}

/// Entries among the first `k` whose text matches the search.
pub open spec fn search_upto(ms: Seq<ModelV>, q: Seq<char>, k: int) -> Seq<ModelV>
    decreases k,
{
    if k <= 0 {
        Seq::empty()
    } else if model_matches_query(ms[k - 1], q) {
        search_upto(ms, q, k - 1).push(ms[k - 1])
    } else {
        search_upto(ms, q, k - 1)
    }
}

/// Vendor, product, display name or an alias contains the normalised query.
pub open spec fn model_matches_query(m: ModelV, q: Seq<char>) -> bool {
    ||| seq_contains(norm_seq(m.vendor), q)
    ||| seq_contains(norm_seq(m.product), q)
    ||| seq_contains(norm_seq(display_name_of(m)), q)
    ||| exists|i: int| 0 <= i < m.aliases.len() && seq_contains(norm_seq(#[trigger] m.aliases[i]), q)
}

/// The search result for a query: every model when it normalises to
/// nothing, else the matching ones in catalog order.
pub open spec fn spec_search(ms: Seq<ModelV>, query: Seq<char>) -> Seq<ModelV> {
    let q = norm_seq(query);
    if q.len() == 0 {
        ms
    } else {
        search_upto(ms, q, ms.len() as int)
    }
}

/// Model ids in catalog order.
pub open spec fn model_ids(ms: Seq<ModelV>) -> Seq<Seq<char>> {
    ms.map_values(|m: ModelV| m.id)
}

fn contains_norm(hay: &str, q: &Vec<char>) -> (r: bool)
    ensures
        r == seq_contains(norm_seq(hay@), q@),
{
    let h = norm(hay);
    chars_contain(&h, q)
}

fn model_matches_query_exec(m: &EnclosureModel, q: &Vec<char>) -> (r: bool)
    ensures
        r == model_matches_query(m@, q@),
{
    if contains_norm(m.vendor.as_str(), q) || contains_norm(m.product.as_str(), q) {
        return true;
    }
    let d = m.display_name();
    if contains_norm(d.as_str(), q) {
        return true;
    }
    let ghost av = m@.aliases;
    for i in 0..m.aliases.len()
        invariant
            av == m@.aliases,
            av == strings_view(m.aliases@),
            forall|j: int| 0 <= j < i ==> !seq_contains(norm_seq(#[trigger] av[j]), q@),
            !seq_contains(norm_seq(m@.vendor), q@),
            !seq_contains(norm_seq(m@.product), q@),
            !seq_contains(norm_seq(display_name_of(m@)), q@),
    {
        assert(av[i as int] == m.aliases@[i as int]@);
        if contains_norm(m.aliases[i].as_str(), q) {
            return true;
        }
    }
    false
}

/// Position of the first model with id `id`.
fn find_model(models: &Vec<EnclosureModel>, idx: &String) -> (r: Option<usize>)
    ensures
        r matches Some(i) ==> i < models@.len() && first_model_with(models_view(models@), idx@) == Some(i as int),
        r is None ==> first_model_with(models_view(models@), idx@) is None,
{
    let ghost mv = models_view(models@);
    proof {
        lemma_first_model_with(mv, idx@);
    }
    for i in 0..models.len()
        invariant
            mv == models_view(models@),
            first_model_with(mv, idx@) matches Some(f) ==> i <= f < mv.len() && mv[f].id == idx@
                && forall|j: int| 0 <= j < f ==> (#[trigger] mv[j]).id != idx@,
            first_model_with(mv, idx@) is None ==> forall|j: int| 0 <= j < mv.len() ==> (#[trigger] mv[j]).id != idx@,
            forall|j: int| 0 <= j < i ==> (#[trigger] mv[j]).id != idx@,
    {
        assert(mv[i as int] == models@[i as int]@);
        if models[i].id.0 == *idx {
            return Some(i);
        }
    }
    None
}

impl Catalog {
    /// A catalog with no models.
    pub fn empty() -> (r: Self)
        ensures
            r@.schema_version == CATALOG_SCHEMA_VERSION,
            r@.models.len() == 0,
    {
        Catalog { schema_version: CATALOG_SCHEMA_VERSION, models: Vec::new() }
    }

    /// The first model with this id.
    pub fn get(&self, id: &ModelId) -> (r: Option<&EnclosureModel>)
        ensures
            match first_model_with(self@.models, id@) {
                Some(i) => r is Some && r->0@ == self@.models[i],
                None => r is None,
            },
    {
        match find_model(&self.models, &id.0) {
            Some(i) => {
                assert(self@.models[i as int] == self.models@[i as int]@);
                Some(&self.models[i])
            },
            None => None,
        }
    }

    /// Overlay `other` on this catalog: an entry of `other` replaces the
    /// first entry with its id, or is appended. This is how a station-local
    /// catalog corrects bundled data without waiting for a release.
    pub fn overlay(&self, other: &Catalog) -> (r: Catalog)
        ensures
            r@.schema_version == CATALOG_SCHEMA_VERSION,
            r@.models == overlay_upto(self@.models, other@.models, other@.models.len() as int),
    {
        let mut models = clone_models(&self.models);
        let ghost ov = other@.models;
        for k in 0..other.models.len()
            invariant
                ov == other@.models,
                models_view(models@) == overlay_upto(self@.models, ov, k as int),
        {
            let m = &other.models[k];
            assert(m@ == ov[k as int]);
            let ghost acc = models_view(models@);
            proof {
                lemma_first_model_with(acc, m@.id);
            }
            let found = find_model(&models, &m.id.0);
            match found {
                Some(i) => {
                    let c = m.clone();
                    models.set(i, c);
                    assert(models_view(models@) =~= acc.update(i as int, m@));
                },
                None => {
                    let c = m.clone();
                    models.push(c);
                    assert(models_view(models@) =~= acc.push(m@));
                },
            }
        }
        Catalog { schema_version: CATALOG_SCHEMA_VERSION, models }
    }

    /// Free-text search over vendor, product, display name and aliases,
    /// trimmed and case-folded; an empty query lists every model.
    pub fn search(&self, query: &str) -> (r: Vec<&EnclosureModel>)
        ensures
            r@.map_values(|m: &EnclosureModel| m@) == spec_search(self@.models, query@),
    {
        let q = norm(query);
        let ghost mv = self@.models;
        let mut out: Vec<&EnclosureModel> = Vec::new();
        if q.len() == 0 {
            for i in 0..self.models.len()
                invariant
                    mv == models_view(self.models@),
                    out@.map_values(|m: &EnclosureModel| m@) == mv.subrange(0, i as int),
            {
                assert(mv[i as int] == self.models@[i as int]@);
                let ghost before = out@.map_values(|m: &EnclosureModel| m@);
                out.push(&self.models[i]);
                assert(out@.map_values(|m: &EnclosureModel| m@) =~= before.push(mv[i as int]));
                assert(out@.map_values(|m: &EnclosureModel| m@) =~= mv.subrange(0, i + 1));
            }
            assert(mv.subrange(0, mv.len() as int) =~= mv);
            return out;
        }
        for i in 0..self.models.len()
            invariant
                mv == models_view(self.models@),
                out@.map_values(|m: &EnclosureModel| m@) == search_upto(mv, q@, i as int),
        {
            assert(mv[i as int] == self.models@[i as int]@);
            let ghost before = out@.map_values(|m: &EnclosureModel| m@);
            if model_matches_query_exec(&self.models[i], &q) {
                out.push(&self.models[i]);
                assert(out@.map_values(|m: &EnclosureModel| m@) =~= before.push(mv[i as int]));
            }
        }
        out
    }

    /// Every model id that appears more than once, each once, in string
    /// order; such ids make `get` ambiguous.
    pub fn duplicate_ids(&self) -> (r: Vec<ModelId>)
        ensures
            r@.map_values(|m: ModelId| m@) == spec_sorted_repeats(model_ids(self@.models)),
    {
        let ghost mv = self@.models;
        let mut ids: Vec<String> = Vec::new();
        for k in 0..self.models.len()
            invariant
                mv == models_view(self.models@),
                strings_view(ids@) == model_ids(mv).subrange(0, k as int),
        {
            let ghost before = ids@;
            let s = self.models[k].id.0.clone();
            assert(s@ == mv[k as int].id);
            ids.push(s);
            assert(strings_view(ids@) =~= strings_view(before).push(s@));
            assert(strings_view(ids@) =~= model_ids(mv).subrange(0, k + 1));
        }
        assert(model_ids(mv).subrange(0, mv.len() as int) =~= model_ids(mv));
        let rep = sorted_repeats(&ids);
        let mut out: Vec<ModelId> = Vec::new();
        for k in 0..rep.len()
            invariant
                out@.map_values(|m: ModelId| m@) == strings_view(rep@).subrange(0, k as int),
        {
            let ghost before = out@;
            let s = rep[k].clone();
            assert(s@ == strings_view(rep@)[k as int]);
            out.push(ModelId(s));
            assert(out@.map_values(|m: ModelId| m@) =~= before.map_values(|m: ModelId| m@).push(s@));
            assert(out@.map_values(|m: ModelId| m@) =~= strings_view(rep@).subrange(0, k + 1));
        }
        assert(strings_view(rep@).subrange(0, rep@.len() as int) =~= strings_view(rep@));
        out
    }
}

proof fn lemma_search_upto_filters(ms: Seq<ModelV>, q: Seq<char>, k: int)
    requires
        0 <= k <= ms.len(),
    ensures
        search_upto(ms, q, k) == ms.subrange(0, k).filter(|m: ModelV| model_matches_query(m, q)),
    decreases k,
{
    reveal(Seq::filter);
    if k > 0 {
        lemma_search_upto_filters(ms, q, k - 1);
        assert(ms.subrange(0, k).drop_last() =~= ms.subrange(0, k - 1));
        assert(ms.subrange(0, k).last() == ms[k - 1]);
    } else {
        assert(ms.subrange(0, k).len() == 0);
    }
}

/// Search is a filter: for a query that normalises to some text, the
/// result is exactly the models that match it, in catalog order; a query
/// that normalises to nothing returns the whole catalog.
pub proof fn law_search_is_a_filter(ms: Seq<ModelV>, query: Seq<char>)
    ensures
        spec_search(ms, query) == (if norm_seq(query).len() == 0 {
            ms
        } else {
            ms.filter(|m: ModelV| model_matches_query(m, norm_seq(query)))
        }),
{
    if norm_seq(query).len() != 0 {
        lemma_search_upto_filters(ms, norm_seq(query), ms.len() as int);
        assert(ms.subrange(0, ms.len() as int) =~= ms);
    }
}

/// The text fields of a model that search looks in contain the normalised
/// query: its vendor, its product, its display name "vendor product", or
/// one of its aliases, each trimmed and case-folded.
pub open spec fn fields_contain(m: ModelV, q: Seq<char>) -> bool {
    ||| seq_contains(norm_seq(m.vendor), q)
    ||| seq_contains(norm_seq(m.product), q)
    ||| seq_contains(norm_seq(m.vendor + " "@ + m.product), q)
    ||| exists|a: int| 0 <= a < m.aliases.len() && seq_contains(norm_seq(#[trigger] m.aliases[a]), q)
}

proof fn lemma_search_upto_members(ms: Seq<ModelV>, q: Seq<char>, k: int)
    requires
        0 <= k <= ms.len(),
    ensures
        forall|i: int| 0 <= i < k && model_matches_query(#[trigger] ms[i], q) ==> search_upto(ms, q, k).contains(ms[i]),
        forall|j: int| #![trigger search_upto(ms, q, k)[j]] 0 <= j < search_upto(ms, q, k).len() ==>
            model_matches_query(search_upto(ms, q, k)[j], q) && ms.contains(search_upto(ms, q, k)[j]),
    decreases k,
{
    if k > 0 {
        lemma_search_upto_members(ms, q, k - 1);
        let prev = search_upto(ms, q, k - 1);
        let cur = search_upto(ms, q, k);
        if model_matches_query(ms[k - 1], q) {
            assert(cur == prev.push(ms[k - 1]));
            assert forall|i: int| 0 <= i < k && model_matches_query(#[trigger] ms[i], q) implies cur.contains(ms[i]) by {
                if i < k - 1 {
                    let j = choose|j: int| 0 <= j < prev.len() && prev[j] == ms[i];
                    assert(cur[j] == prev[j]);
                } else {
                    assert(cur[prev.len() as int] == ms[i]);
                }
            }
            assert forall|j: int| #![trigger cur[j]] 0 <= j < cur.len() implies
                model_matches_query(cur[j], q) && ms.contains(cur[j]) by {
                if j < prev.len() {
                    assert(cur[j] == prev[j]);
                } else {
                    assert(cur[j] == ms[k - 1]);
                }
            }
        } else {
            assert forall|i: int| 0 <= i < k && model_matches_query(#[trigger] ms[i], q) implies cur.contains(ms[i]) by {
                assert(i < k - 1);
            }
        }
    }
}

/// Search finds every model whose vendor, product, display name
/// "vendor product" or an alias contains the trimmed, case-folded query,
/// returns nothing else, and returns the whole catalog for a query that
/// normalises to nothing.
pub proof fn law_search_finds_matching_models(ms: Seq<ModelV>, query: Seq<char>, i: int)
    requires
        0 <= i < ms.len(),
    ensures
        norm_seq(query).len() == 0 ==> spec_search(ms, query) == ms,
        norm_seq(query).len() > 0 && fields_contain(ms[i], norm_seq(query)) ==> spec_search(ms, query).contains(ms[i]),
        norm_seq(query).len() > 0 ==> forall|j: int| 0 <= j < spec_search(ms, query).len()
            ==> fields_contain(#[trigger] spec_search(ms, query)[j], norm_seq(query)) && ms.contains(spec_search(ms, query)[j]),
{
    let q = norm_seq(query);
    if q.len() > 0 {
        lemma_search_upto_members(ms, q, ms.len() as int);
        if fields_contain(ms[i], q) {
            assert(display_name_of(ms[i]) == ms[i].vendor + " "@ + ms[i].product);
            assert(model_matches_query(ms[i], q));
        }
        let r = spec_search(ms, query);
        assert forall|j: int| 0 <= j < r.len() implies fields_contain(#[trigger] r[j], q) && ms.contains(r[j]) by {
            assert(model_matches_query(r[j], q));
            assert(display_name_of(r[j]) == r[j].vendor + " "@ + r[j].product);
        }
    }
}

/// The last of the first `k` entries with id `x`.
pub open spec fn last_model_with(ms: Seq<ModelV>, x: Seq<char>, k: int) -> Option<int>
    decreases k,
{
    if k <= 0 {
        None
    } else if ms[k - 1].id == x {
        Some(k - 1)
    } else {
        last_model_with(ms, x, k - 1)
    }
}

proof fn lemma_first_model_with_same_ids(a: Seq<ModelV>, b: Seq<ModelV>, x: Seq<char>)
    requires
        a.len() == b.len(),
        forall|i: int| 0 <= i < a.len() ==> (#[trigger] a[i]).id == b[i].id,
    ensures
        first_model_with(a, x) == first_model_with(b, x),
{
    lemma_first_model_with(a, x);
    lemma_first_model_with(b, x);
    match (first_model_with(a, x), first_model_with(b, x)) {
        (Some(f), Some(g)) => {
            if f < g {
                assert(b[f].id == a[f].id);
            } else if g < f {
                assert(a[g].id == b[g].id);
            }
        },
        (Some(f), None) => {
            assert(b[f].id == a[f].id);
        },
        (None, Some(g)) => {
            assert(a[g].id == b[g].id);
        },
        (None, None) => {},
    }
}

proof fn lemma_first_model_with_push(a: Seq<ModelV>, m: ModelV, x: Seq<char>)
    ensures
        first_model_with(a.push(m), x) == (match first_model_with(a, x) {
            Some(i) => Some(i),
            None => if m.id == x { Some(a.len() as int) } else { None },
        }),
{
    assert(a.push(m).drop_last() =~= a);
}

proof fn lemma_overlay_lookup(base: Seq<ModelV>, other: Seq<ModelV>, x: Seq<char>, k: int)
    requires
        0 <= k <= other.len(),
    ensures
        ({
            let r = overlay_upto(base, other, k);
            match last_model_with(other, x, k) {
                Some(j) => first_model_with(r, x) matches Some(i) && 0 <= i < r.len() && r[i] == other[j],
                None => first_model_with(r, x) == first_model_with(base, x)
                    && (first_model_with(base, x) matches Some(i) ==> 0 <= i < r.len() && i < base.len() && r[i] == base[i]),
            }
        }),
    decreases k,
{
    lemma_first_model_with(base, x);
    if k > 0 {
        lemma_overlay_lookup(base, other, x, k - 1);
        let acc = overlay_upto(base, other, k - 1);
        let m = other[k - 1];
        let r = overlay_upto(base, other, k);
        lemma_first_model_with(acc, m.id);
        lemma_first_model_with(acc, x);
        match first_model_with(acc, m.id) {
            Some(i) => {
                assert(r == acc.update(i, m));
                assert forall|j: int| 0 <= j < r.len() implies (#[trigger] r[j]).id == acc[j].id by {}
                lemma_first_model_with_same_ids(r, acc, x);
                if m.id == x {
                    assert(r[i] == m);
                } else {
                    match first_model_with(acc, x) {
                        Some(f) => {
                            assert(f != i);
                            assert(r[f] == acc[f]);
                        },
                        None => {},
                    }
                }
            },
            None => {
                assert(r == acc.push(m));
                lemma_first_model_with_push(acc, m, x);
                match first_model_with(acc, x) {
                    Some(f) => {
                        assert(r[f] == acc[f]);
                    },
                    None => {
                        if m.id == x {
                            assert(r[acc.len() as int] == m);
                        }
                    },
                }
            },
        }
    }
}

/// Some entry has id `x`.
pub open spec fn has_model(ms: Seq<ModelV>, x: Seq<char>) -> bool {
    exists|i: int| 0 <= i < ms.len() && ms[i].id == x
}

proof fn lemma_overlay_ids(base: Seq<ModelV>, other: Seq<ModelV>, k: int)
    requires
        0 <= k <= other.len(),
    ensures
        overlay_upto(base, other, k).len() >= base.len(),
        forall|i: int| 0 <= i < base.len() ==> (#[trigger] overlay_upto(base, other, k)[i]).id == base[i].id,
        forall|x: Seq<char>| #[trigger] has_model(overlay_upto(base, other, k), x)
            <==> has_model(base, x) || has_model(other.subrange(0, k), x),
    decreases k,
{
    if k > 0 {
        lemma_overlay_ids(base, other, k - 1);
        let acc = overlay_upto(base, other, k - 1);
        let m = other[k - 1];
        let r = overlay_upto(base, other, k);
        lemma_first_model_with(acc, m.id);
        let pre = other.subrange(0, k - 1);
        let cur = other.subrange(0, k);
        assert(cur =~= pre.push(m));
        match first_model_with(acc, m.id) {
            Some(i) => {
                assert(r == acc.update(i, m));
                assert forall|x: Seq<char>| #[trigger] has_model(r, x) <==> has_model(base, x) || has_model(cur, x) by {
                    if has_model(r, x) {
                        let j = choose|j: int| 0 <= j < r.len() && r[j].id == x;
                        assert(acc[j].id == x);
                        assert(has_model(acc, x));
                        if has_model(pre, x) {
                            let a = choose|a: int| 0 <= a < pre.len() && pre[a].id == x;
                            assert(cur[a] == pre[a]);
                        }
                    }
                    if has_model(base, x) || has_model(cur, x) {
                        if has_model(cur, x) && !has_model(pre, x) && !has_model(base, x) {
                            let a = choose|a: int| 0 <= a < cur.len() && cur[a].id == x;
                            if a < k - 1 {
                                assert(pre[a] == cur[a]);
                            }
                            assert(r[i].id == x);
                        } else {
                            if has_model(cur, x) && !has_model(base, x) {
                                assert(has_model(pre, x));
                            }
                            assert(has_model(acc, x));
                            let j = choose|j: int| 0 <= j < acc.len() && acc[j].id == x;
                            assert(r[j].id == x);
                        }
                    }
                }
            },
            None => {
                assert(r == acc.push(m));
                assert forall|x: Seq<char>| #[trigger] has_model(r, x) <==> has_model(base, x) || has_model(cur, x) by {
                    if has_model(r, x) {
                        let j = choose|j: int| 0 <= j < r.len() && r[j].id == x;
                        if j < acc.len() {
                            assert(acc[j].id == x);
                            assert(has_model(acc, x));
                            if has_model(pre, x) {
                                let a = choose|a: int| 0 <= a < pre.len() && pre[a].id == x;
                                assert(cur[a] == pre[a]);
                            }
                        } else {
                            assert(cur[k - 1].id == x);
                        }
                    }
                    if has_model(base, x) || has_model(cur, x) {
                        if has_model(cur, x) && !has_model(pre, x) && !has_model(base, x) {
                            let a = choose|a: int| 0 <= a < cur.len() && cur[a].id == x;
                            if a < k - 1 {
                                assert(pre[a] == cur[a]);
                            }
                            assert(r[acc.len() as int].id == x);
                        } else {
                            if has_model(cur, x) && !has_model(base, x) {
                                assert(has_model(pre, x));
                            }
                            assert(has_model(acc, x));
                            let j = choose|j: int| 0 <= j < acc.len() && acc[j].id == x;
                            assert(r[j].id == x);
                        }
                    }
                }
            },
        }
    } else {
        assert forall|x: Seq<char>| #[trigger] has_model(overlay_upto(base, other, k), x)
            <==> has_model(base, x) || has_model(other.subrange(0, k), x) by {
            assert(other.subrange(0, k).len() == 0);
        }
    }
}

/// An overlay keeps every base entry in its place (possibly replaced by an
/// entry with the same id), never shrinks the catalog, and holds exactly
/// the ids of the base and of the overlay.
pub proof fn law_overlay_keeps_and_adds_ids(base: Seq<ModelV>, other: Seq<ModelV>)
    ensures
        overlay_upto(base, other, other.len() as int).len() >= base.len(),
        forall|i: int| 0 <= i < base.len() ==> (#[trigger] overlay_upto(base, other, other.len() as int)[i]).id == base[i].id,
        forall|x: Seq<char>| #[trigger] has_model(overlay_upto(base, other, other.len() as int), x)
            <==> has_model(base, x) || has_model(other, x),
{
    lemma_overlay_ids(base, other, other.len() as int);
    assert(other.subrange(0, other.len() as int) =~= other);
}

/// After an overlay, looking an id up finds the overlaid entry when the
/// overlay has one (its last entry with that id), and otherwise the same
/// entry as before.
pub proof fn law_overlay_entries_win(base: Seq<ModelV>, other: Seq<ModelV>, x: Seq<char>)
    ensures
        ({
            let r = overlay_upto(base, other, other.len() as int);
            match last_model_with(other, x, other.len() as int) {
                Some(j) => first_model_with(r, x) matches Some(i) && r[i] == other[j],
                None => first_model_with(r, x) == first_model_with(base, x)
                    && (first_model_with(base, x) matches Some(i) ==> r[i] == base[i]),
            }
        }),
{
    lemma_overlay_lookup(base, other, x, other.len() as int);
}

} // verus!
