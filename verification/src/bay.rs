//! Bench topology: the physical drive bays at a station, declared as
//! configuration so a screen can mirror the hardware in front of the
//! operator. The hierarchy is `BayTopology → Enclosure → Bank → Bay`.

use vstd::prelude::*;

use crate::device::{Device, DeviceId};
use crate::device::clone_opt_string;
use crate::catalog::ModelId;

verus! {

/// Bumped when the shape of a topology document changes incompatibly.
pub const BAY_TOPOLOGY_SCHEMA_VERSION: u32 = 1;

/// Stable identifier of a bay, unique within a topology.
#[derive(Debug, PartialEq, Eq, PartialOrd, Ord, Hash)]
pub struct BayId(pub String);

impl Clone for BayId {
    fn clone(&self) -> (r: Self)
        ensures
            r == *self,
    {
        BayId(self.0.clone())
    }
}

impl View for BayId {
    type V = Seq<char>;

    open spec fn view(&self) -> Seq<char> {
        self.0@
    }
}

impl BayId {
    /// Build an id from its text.
    pub fn from(s: &str) -> (r: BayId)
        ensures
            r@ == s@,
    {
        BayId(s.to_string())
    }

    /// The id's text.
    pub fn as_str(&self) -> (r: &str)
        ensures
            r@ == self@,
    {
        self.0.as_str()
    }
}

/// What kind of physical housing an enclosure is.
#[derive(Debug, Clone, Copy, PartialEq, Eq, Structural)]
pub enum EnclosureKind {
    Rackmount,
    Duplicator,
    Dock,
    NvmeCarrier,
    UsbCaddy,
    Internal,
}

/// Drive form factor a bay accepts.
#[derive(Debug, Clone, Copy, PartialEq, Eq, Structural)]
pub enum BayFormFactor {
    /// 3.5" LFF tray.
    Lff35,
    /// 2.5" SFF tray.
    Sff25,
    /// M.2 socket.
    M2,
    /// U.2 / U.3.
    U2,
    /// Anything else.
    Other,
}

/// How trays sit in their bank.
#[derive(Debug, Clone, Copy, PartialEq, Eq, Structural)]
pub enum TrayOrientation {
    Horizontal,
    Vertical,
}

/// Direction bay numbers run through a bank's grid.
#[derive(Debug, Clone, Copy, PartialEq, Eq, Structural)]
pub enum BayOrder {
    /// Across each row before moving down.
    RowMajor,
    /// Down each column before moving right.
    ColumnMajor,
}

/// The grid corner numbering starts from.
#[derive(Debug, Clone, Copy, PartialEq, Eq, Structural)]
pub enum BayOrigin {
    TopLeft,
    TopRight,
    BottomLeft,
    BottomRight,
}

/// The numbering run a bank's labels were generated with.
#[derive(Debug, Clone, Copy, PartialEq, Eq, Structural)]
pub struct NumberingRun {
    pub order: BayOrder,
    pub origin: BayOrigin,
    pub label_start: u16,
}

/// How a bay resolves to a device.
#[derive(Debug, PartialEq, Eq)]
pub enum BayBinding {
    /// SES device slot number; nothing reports slots yet, so never matches.
    SesSlot { slot: u8, enclosure: Option<String> },
    /// Host device path, e.g. `/dev/sdb`: pins the port.
    Path { path: String },
    /// Drive serial number: pins the drive.
    Serial { serial: String },
    /// World-wide name: pins the drive.
    Wwn { wwn: String },
    /// Explicit backend device id.
    DeviceId { device_id: DeviceId },
    /// No rule; filled from enumeration order when the topology allows.
    Unbound,
}

/// Spec-level image of a binding.
pub enum BindingV {
    SesSlot { slot: u8, enclosure: Option<Seq<char>> },
    Path { path: Seq<char> },
    Serial { serial: Seq<char> },
    Wwn { wwn: Seq<char> },
    DeviceId { device_id: Seq<char> },
    Unbound,
}

pub open spec fn opt_view(o: Option<String>) -> Option<Seq<char>> {
    match o {
        Some(s) => Some(s@),
        None => None,
    }
}

impl View for BayBinding {
    type V = BindingV;

    open spec fn view(&self) -> BindingV {
        match self {
            BayBinding::SesSlot { slot, enclosure } => BindingV::SesSlot {
                slot: *slot,
                enclosure: opt_view(*enclosure),
            },
            BayBinding::Path { path } => BindingV::Path { path: path@ },
            BayBinding::Serial { serial } => BindingV::Serial { serial: serial@ },
            BayBinding::Wwn { wwn } => BindingV::Wwn { wwn: wwn@ },
            BayBinding::DeviceId { device_id } => BindingV::DeviceId { device_id: device_id.0@ },
            BayBinding::Unbound => BindingV::Unbound,
        }
    }
}

impl Clone for BayBinding {
    fn clone(&self) -> (r: Self)
        ensures
            r == *self,
    {
        match self {
            BayBinding::SesSlot { slot, enclosure } => BayBinding::SesSlot {
                slot: *slot,
                enclosure: clone_opt_string(enclosure),
            },
            BayBinding::Path { path } => BayBinding::Path { path: path.clone() },
            BayBinding::Serial { serial } => BayBinding::Serial { serial: serial.clone() },
            BayBinding::Wwn { wwn } => BayBinding::Wwn { wwn: wwn.clone() },
            BayBinding::DeviceId { device_id } => BayBinding::DeviceId { device_id: device_id.clone() },
            BayBinding::Unbound => BayBinding::Unbound,
        }
    }
}

/// Does a binding identify this device? `SesSlot` and `Unbound` never do.
pub open spec fn binding_matches(b: BindingV, d: Device) -> bool {
    match b {
        BindingV::DeviceId { device_id } => d.id.0@ == device_id,
        BindingV::Path { path } => d.path@ == path,
        BindingV::Serial { serial } => d.serial@ == serial,
        BindingV::Wwn { wwn } => d.wwn is Some && d.wwn->0@ == wwn,
        BindingV::SesSlot { .. } => false,
        BindingV::Unbound => false,
    }
}

impl BayBinding {
    /// Does this binding identify `device`? `Unbound` never matches:
    /// enumeration-order fill is the resolver's separate, later pass.
    pub fn matches(&self, device: &Device) -> (r: bool)
        ensures
            r == binding_matches(self@, *device),
    {
        match self {
            BayBinding::DeviceId { device_id } => device.id.0 == device_id.0,
            BayBinding::Path { path } => device.path == *path,
            BayBinding::Serial { serial } => device.serial == *serial,
            BayBinding::Wwn { wwn } => match &device.wwn {
                Some(w) => *w == *wwn,
                None => false,
            },
            BayBinding::SesSlot { .. } => false,
            BayBinding::Unbound => false,
        }
    }

    pub fn is_unbound(&self) -> (r: bool)
        ensures
            r == (self@ is Unbound),
    {
        match self {
            BayBinding::Unbound => true,
            _ => false,
        }
    }
}

/// One physical slot.
#[derive(Debug, PartialEq, Eq)]
pub struct Bay {
    /// Stable and unique within the topology.
    pub id: BayId,
    /// What the operator calls this bay — what is printed on the hardware.
    pub label: String,
    /// Zero-based grid position within the bank.
    pub row: u16,
    pub col: u16,
    /// Overrides the bank's form factor for mixed banks.
    pub form_factor: Option<BayFormFactor>,
    pub binding: BayBinding,
    /// Blanked off; never filled by enumeration order.
    pub disabled: bool,
    pub note: Option<String>,
}

/// Spec-level image of a bay.
pub struct BayV {
    pub id: Seq<char>,
    pub label: Seq<char>,
    pub row: u16,
    pub col: u16,
    pub form_factor: Option<BayFormFactor>,
    pub binding: BindingV,
    pub disabled: bool,
    pub note: Option<Seq<char>>,
}

impl View for Bay {
    type V = BayV;

    open spec fn view(&self) -> BayV {
        BayV {
            id: self.id@,
            label: self.label@,
            row: self.row,
            col: self.col,
            form_factor: self.form_factor,
            binding: self.binding@,
            disabled: self.disabled,
            note: opt_view(self.note),
        }
    }
}

impl Clone for Bay {
    fn clone(&self) -> (r: Self)
        ensures
            r == *self,
    {
        Bay {
            id: self.id.clone(),
            label: self.label.clone(),
            row: self.row,
            col: self.col,
            form_factor: self.form_factor,
            binding: self.binding.clone(),
            disabled: self.disabled,
            note: clone_opt_string(&self.note),
        }
    }
}

/// A contiguous grid of bays sharing a form factor, orientation and
/// numbering run.
#[derive(Debug, PartialEq, Eq)]
pub struct Bank {
    pub id: String,
    pub label: Option<String>,
    pub rows: u16,
    pub cols: u16,
    pub form_factor: BayFormFactor,
    pub orientation: TrayOrientation,
    /// The run the labels were generated with, when they were.
    pub numbering: Option<NumberingRun>,
    pub bays: Vec<Bay>,
}

/// Spec-level image of a bank.
pub struct BankV {
    pub id: Seq<char>,
    pub label: Option<Seq<char>>,
    pub rows: u16,
    pub cols: u16,
    pub form_factor: BayFormFactor,
    pub orientation: TrayOrientation,
    pub numbering: Option<NumberingRun>,
    pub bays: Seq<BayV>,
}

impl View for Bank {
    type V = BankV;

    open spec fn view(&self) -> BankV {
        BankV {
            id: self.id@,
            label: opt_view(self.label),
            rows: self.rows,
            cols: self.cols,
            form_factor: self.form_factor,
            orientation: self.orientation,
            numbering: self.numbering,
            bays: self.bays@.map_values(|b: Bay| b@),
        }
    }
}

impl Clone for Bank {
    fn clone(&self) -> (r: Self)
        ensures
            r@ == self@,
    {
        Bank {
            id: self.id.clone(),
            label: clone_opt_string(&self.label),
            rows: self.rows,
            cols: self.cols,
            form_factor: self.form_factor,
            orientation: self.orientation,
            numbering: self.numbering,
            bays: {
                let b = self.bays.clone();
                assert(b@ =~= self.bays@) by {
                    assert forall|i: int| 0 <= i < b@.len() implies b@[i] == self.bays@[i] by {
                        assert(cloned(self.bays[i], b[i]));
                    }
                }
                b
            },
        }
    }
}

/// Index of the first bay at a grid position, searching from `i`.
pub open spec fn first_bay_at_from(bays: Seq<BayV>, row: u16, col: u16, i: int) -> Option<int>
    decreases bays.len() - i,
{
    if i < 0 || i >= bays.len() {
        None
    } else if bays[i].row == row && bays[i].col == col {
        Some(i)
    } else {
        first_bay_at_from(bays, row, col, i + 1)
    }
}

pub(crate) proof fn lemma_first_bay_at_from(bays: Seq<BayV>, row: u16, col: u16, i: int)
    requires
        0 <= i <= bays.len(),
    ensures
        first_bay_at_from(bays, row, col, i) matches Some(j) ==> i <= j < bays.len()
            && bays[j].row == row && bays[j].col == col,
        first_bay_at_from(bays, row, col, i) is None ==> forall|j: int|
            i <= j < bays.len() ==> !(bays[j].row == row && bays[j].col == col),
    decreases bays.len() - i,
{
    if i < bays.len() {
        lemma_first_bay_at_from(bays, row, col, i + 1);
    }
}

impl Bank {
    /// The first bay declared at a grid position, if any.
    pub fn bay_at(&self, row: u16, col: u16) -> (r: Option<&Bay>)
        ensures
            match first_bay_at_from(self@.bays, row, col, 0) {
                Some(j) => r is Some && r->0@ == self@.bays[j],
                None => r is None,
            },
    {
        let mut i: usize = 0;
        while i < self.bays.len()
            invariant
                i <= self.bays@.len(),
                first_bay_at_from(self@.bays, row, col, 0) == first_bay_at_from(self@.bays, row, col, i as int),
            decreases self.bays.len() - i,
        {
            if self.bays[i].row == row && self.bays[i].col == col {
                return Some(&self.bays[i]);
            }
            i = i + 1;
        }
        None
    }

    /// The form factor a bay is drawn at: its own override, else the bank's.
    pub fn form_factor_of(&self, bay: &Bay) -> (r: BayFormFactor)
        ensures
            r == match bay.form_factor {
                Some(f) => f,
                None => self.form_factor,
            },
    {
        match bay.form_factor {
            Some(f) => f,
            None => self.form_factor,
        }
    }
}

/// One physical housing.
#[derive(Debug, PartialEq, Eq)]
pub struct Enclosure {
    pub id: String,
    pub label: String,
    pub kind: EnclosureKind,
    /// Banks in left-to-right visual order.
    pub banks: Vec<Bank>,
    pub note: Option<String>,
    /// The catalog model this enclosure was expanded from, if any.
    pub model_ref: Option<ModelId>,
}

/// Spec-level image of an enclosure.
pub struct EnclosureV {
    pub id: Seq<char>,
    pub label: Seq<char>,
    pub kind: EnclosureKind,
    pub banks: Seq<BankV>,
    pub note: Option<Seq<char>>,
    pub model_ref: Option<Seq<char>>,
}

impl View for Enclosure {
    type V = EnclosureV;

    open spec fn view(&self) -> EnclosureV {
        EnclosureV {
            id: self.id@,
            label: self.label@,
            kind: self.kind,
            banks: self.banks@.map_values(|b: Bank| b@),
            note: opt_view(self.note),
            model_ref: match self.model_ref {
                Some(m) => Some(m@),
                None => None,
            },
        }
    }
}

impl Clone for Enclosure {
    fn clone(&self) -> (r: Self)
        ensures
            r@ == self@,
    {
        Enclosure {
            id: self.id.clone(),
            label: self.label.clone(),
            kind: self.kind,
            banks: {
                let b = self.banks.clone();
                assert(b@.len() == self.banks@.len()) by {
                    assert forall|i: int| 0 <= i < b@.len() implies b@[i]@ == self.banks@[i]@ by {
                        assert(cloned(self.banks[i], b[i]));
                    }
                }
                assert(b@.map_values(|x: Bank| x@) =~= self.banks@.map_values(|x: Bank| x@));
                b
            },
            note: clone_opt_string(&self.note),
            model_ref: match &self.model_ref {
                Some(m) => Some(m.clone()),
                None => None,
            },
        }
    }
}

/// A station's declared physical layout.
#[derive(Debug, PartialEq, Eq)]
pub struct BayTopology {
    pub schema_version: u32,
    /// Human label for the bench as a whole.
    pub label: String,
    /// Set when generated for a station with no configuration.
    pub generated: bool,
    /// Bumped on every save; guards concurrent editors.
    pub revision: u32,
    /// Fill unbound, enabled bays from device-enumeration order.
    pub auto_fill_unbound: bool,
    pub enclosures: Vec<Enclosure>,
}

/// Spec-level image of a topology.
pub struct TopologyV {
    pub schema_version: u32,
    pub label: Seq<char>,
    pub generated: bool,
    pub revision: u32,
    pub auto_fill_unbound: bool,
    pub enclosures: Seq<EnclosureV>,
}

impl View for BayTopology {
    type V = TopologyV;

    open spec fn view(&self) -> TopologyV {
        TopologyV {
            schema_version: self.schema_version,
            label: self.label@,
            generated: self.generated,
            revision: self.revision,
            auto_fill_unbound: self.auto_fill_unbound,
            enclosures: self.enclosures@.map_values(|e: Enclosure| e@),
        }
    }
}

impl Clone for BayTopology {
    fn clone(&self) -> (r: Self)
        ensures
            r@ == self@,
    {
        BayTopology {
            schema_version: self.schema_version,
            label: self.label.clone(),
            generated: self.generated,
            revision: self.revision,
            auto_fill_unbound: self.auto_fill_unbound,
            enclosures: {
                let b = self.enclosures.clone();
                assert(b@.len() == self.enclosures@.len()) by {
                    assert forall|i: int| 0 <= i < b@.len() implies b@[i]@ == self.enclosures@[i]@ by {
                        assert(cloned(self.enclosures[i], b[i]));
                    }
                }
                assert(b@.map_values(|x: Enclosure| x@) =~= self.enclosures@.map_values(|x: Enclosure| x@));
                b
            },
        }
    }
}

/// All bays of a run of banks, in declaration order.
pub open spec fn banks_bays(banks: Seq<BankV>) -> Seq<BayV>
    decreases banks.len(),
{
    if banks.len() == 0 {
        Seq::empty()
    } else {
        banks_bays(banks.drop_last()) + banks.last().bays
    }
}

/// All bays of a run of enclosures, in declaration order.
pub open spec fn enclosures_bays(encs: Seq<EnclosureV>) -> Seq<BayV>
    decreases encs.len(),
{
    if encs.len() == 0 {
        Seq::empty()
    } else {
        enclosures_bays(encs.drop_last()) + banks_bays(encs.last().banks)
    }
}

/// Every bay of a topology in declaration order.
pub open spec fn topology_bays(t: TopologyV) -> Seq<BayV> {
    enclosures_bays(t.enclosures)
}

/// References to every bay of an enclosure, in order.
fn enclosure_bay_refs<'a>(e: &'a Enclosure, out: &mut Vec<&'a Bay>)
    ensures
        final(out)@.map_values(|b: &Bay| b@) == old(out)@.map_values(|b: &Bay| b@) + banks_bays(e@.banks),
{
    let ghost start = out@.map_values(|b: &Bay| b@);
    for k in 0..e.banks.len()
        invariant
            out@.map_values(|b: &Bay| b@) == start + banks_bays(e@.banks.subrange(0, k as int)),
    {
        let bank = &e.banks[k];
        let ghost before = out@.map_values(|b: &Bay| b@);
        for j in 0..bank.bays.len()
            invariant
                k < e@.banks.len(),
                bank@ == e@.banks[k as int],
                out@.map_values(|b: &Bay| b@) == before + bank@.bays.subrange(0, j as int),
        {
            let ghost old_out = out@;
            out.push(&bank.bays[j]);
            proof {
                assert(bank@.bays[j as int] == bank.bays@[j as int]@);
                assert(out@.map_values(|b: &Bay| b@) =~= old_out.map_values(|b: &Bay| b@).push(bank@.bays[j as int]));
                assert(out@.map_values(|b: &Bay| b@) =~= before + bank@.bays.subrange(0, j + 1));
            }
        }
        proof {
            assert(bank@.bays.subrange(0, bank@.bays.len() as int) =~= bank@.bays);
            let s = e@.banks.subrange(0, k + 1);
            assert(s.drop_last() =~= e@.banks.subrange(0, k as int));
            assert(s.last() == bank@);
            assert(out@.map_values(|b: &Bay| b@) =~= start + banks_bays(s));
        }
    }
    proof {
        assert(e@.banks.subrange(0, e@.banks.len() as int) =~= e@.banks);
    }
}

impl Enclosure {
    /// Number of bays across all banks.
    pub fn bay_count(&self) -> (r: usize)
        ensures
            r == banks_bays(self@.banks).len(),
    {
        let mut v: Vec<&Bay> = Vec::new();
        enclosure_bay_refs(self, &mut v);
        proof {
            assert(v@.map_values(|b: &Bay| b@).len() == v@.len());
        }
        v.len()
    }
}

impl BayTopology {
    /// Every bay, in declaration order: enclosures, then banks, then bays.
    pub fn bays(&self) -> (r: Vec<&Bay>)
        ensures
            r@.map_values(|b: &Bay| b@) == topology_bays(self@),
    {
        let mut v: Vec<&Bay> = Vec::new();
        for k in 0..self.enclosures.len()
            invariant
                v@.map_values(|b: &Bay| b@) == enclosures_bays(self@.enclosures.subrange(0, k as int)),
        {
            enclosure_bay_refs(&self.enclosures[k], &mut v);
            proof {
                let s = self@.enclosures.subrange(0, k + 1);
                assert(s.drop_last() =~= self@.enclosures.subrange(0, k as int));
                assert(s.last() == self.enclosures@[k as int]@);
            }
        }
        proof {
            assert(self@.enclosures.subrange(0, self@.enclosures.len() as int) =~= self@.enclosures);
        }
        v
    }

    /// Number of bays across the whole bench.
    pub fn bay_count(&self) -> (r: usize)
        ensures
            r == topology_bays(self@).len(),
    {
        let v = self.bays();
        proof {
            assert(v@.map_values(|b: &Bay| b@).len() == v@.len());
        }
        v.len()
    }
}

} // verus!
