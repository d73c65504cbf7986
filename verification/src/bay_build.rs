//! Building bay topologies: numbered grids, the honest generated fallback,
//! built-in presets, and renumbering a bank without losing operator edits.

use vstd::prelude::*;
use vstd::string::*;

use crate::bay::{BayTopology, Enclosure, EnclosureKind, EnclosureV, TopologyV, BAY_TOPOLOGY_SCHEMA_VERSION, first_bay_at_from, lemma_first_bay_at_from, Bank, BankV, Bay, BayBinding, BayFormFactor, BayId, BayOrder, BayOrigin, BayV, BindingV, NumberingRun, TrayOrientation, opt_view};
use crate::text::{decimal, decimal_string, chars_of, chars_eq, lemma_decimal_injective};

verus! {

/// Grid position of the `k`-th bay in numbering order.
pub open spec fn grid_cell(rows: u16, cols: u16, order: BayOrder, origin: BayOrigin, k: int) -> (int, int) {
    let inner: int = if order is RowMajor { cols as int } else { rows as int };
    let o = k / inner;
    let i = k % inner;
    let r0 = if order is RowMajor { o } else { i };
    let c0 = if order is RowMajor { i } else { o };
    let c1 = if origin is TopRight || origin is BottomRight { cols - 1 - c0 } else { c0 };
    let r1 = if origin is BottomLeft || origin is BottomRight { rows - 1 - r0 } else { r0 };
    (r1, c1)
}

/// Bay id convention: `<enclosure>.<bank>.<label>`.
pub open spec fn bay_id_text(enc: Seq<char>, bank: Seq<char>, label: Seq<char>) -> Seq<char> {
    enc + "."@ + bank + "."@ + label
}

/// The `k`-th bay of a generated grid.
pub open spec fn grid_bay(
    enc: Seq<char>,
    bank: Seq<char>,
    rows: u16,
    cols: u16,
    order: BayOrder,
    origin: BayOrigin,
    label_start: u16,
    k: int,
) -> BayV {
    let label = decimal((label_start + k) as nat);
    let cell = grid_cell(rows, cols, order, origin, k);
    BayV {
        id: bay_id_text(enc, bank, label),
        label: label,
        row: cell.0 as u16,
        col: cell.1 as u16,
        form_factor: None,
        binding: BindingV::Unbound,
        disabled: false,
        note: None,
    }
}

/// A generated grid bank: `rows × cols` unbound bays numbered along the run.
pub open spec fn grid_bank_view(
    enc: Seq<char>,
    bank: Seq<char>,
    label: Option<Seq<char>>,
    rows: u16,
    cols: u16,
    form_factor: BayFormFactor,
    orientation: TrayOrientation,
    order: BayOrder,
    origin: BayOrigin,
    label_start: u16,
) -> BankV {
    BankV {
        id: bank,
        label: label,
        rows: rows,
        cols: cols,
        form_factor: form_factor,
        orientation: orientation,
        numbering: Some(NumberingRun { order, origin, label_start }),
        bays: Seq::new(
            (rows * cols) as nat,
            |k: int| grid_bay(enc, bank, rows, cols, order, origin, label_start, k),
        ),
    }
}

/// `<enclosure>.<bank>.<label>`
fn bay_id_string(enc: &str, bank: &str, label: &str) -> (r: String)
    ensures
        r@ == bay_id_text(enc@, bank@, label@),
{
    let mut s = String::from_str(enc);
    s.append(".");
    s.append(bank);
    s.append(".");
    s.append(label);
    s
}

fn opt_str_to_string(s: Option<&str>) -> (r: Option<String>)
    ensures
        opt_view(r) == match s {
            Some(x) => Some(x@),
            None => None::<Seq<char>>,
        },
{
    match s {
        Some(x) => Some(String::from_str(x)),
        None => None,
    }
}

proof fn lemma_grid_cell_in_range(rows: u16, cols: u16, order: BayOrder, origin: BayOrigin, k: int)
    requires
        0 <= k < rows * cols,
    ensures
        0 <= grid_cell(rows, cols, order, origin, k).0 < rows,
        0 <= grid_cell(rows, cols, order, origin, k).1 < cols,
{
    let inner: int = if order is RowMajor { cols as int } else { rows as int };
    let outer: int = if order is RowMajor { rows as int } else { cols as int };
    assert(outer * inner == rows * cols) by (nonlinear_arith)
        requires
            (outer == rows && inner == cols) || (outer == cols && inner == rows);
    assert(inner > 0 && 0 <= k / inner < outer && 0 <= k % inner < inner) by (nonlinear_arith)
        requires
            0 <= k < outer * inner,
            inner >= 0,
            outer >= 0;
}

/// Build a bank as a plain grid, numbering bays along `order` from
/// `origin`, starting at `label_start`. Every bay starts unbound.
pub fn grid_bank(
    enclosure_id: &str,
    bank_id: &str,
    label: Option<&str>,
    rows: u16,
    cols: u16,
    form_factor: BayFormFactor,
    orientation: TrayOrientation,
    order: BayOrder,
    origin: BayOrigin,
    label_start: u16,
) -> (r: Bank)
    requires
        label_start + rows * cols <= u16::MAX,
    ensures
        r@ == grid_bank_view(
            enclosure_id@,
            bank_id@,
            match label {
                Some(x) => Some(x@),
                None => None::<Seq<char>>,
            },
            rows,
            cols,
            form_factor,
            orientation,
            order,
            origin,
            label_start,
        ),
{
    let total: usize = (rows as usize) * (cols as usize);
    let inner: usize = match order {
        BayOrder::RowMajor => cols as usize,
        BayOrder::ColumnMajor => rows as usize,
    };
    let ghost target = grid_bank_view(
        enclosure_id@,
        bank_id@,
        match label {
            Some(x) => Some(x@),
            None => None::<Seq<char>>,
        },
        rows,
        cols,
        form_factor,
        orientation,
        order,
        origin,
        label_start,
    );
    let mut bays: Vec<Bay> = Vec::new();
    for k in 0..total
        invariant
            total == rows * cols,
            inner == (if order is RowMajor { cols as int } else { rows as int }),
            label_start + rows * cols <= u16::MAX,
            target.bays == Seq::new(
                (rows * cols) as nat,
                |k: int| grid_bay(enclosure_id@, bank_id@, rows, cols, order, origin, label_start, k),
            ),
            target.bays.len() == total,
            bays@.len() == k,
            forall|j: int| 0 <= j < k ==> (#[trigger] bays@[j])@ == target.bays[j],
    {
        proof {
            lemma_grid_cell_in_range(rows, cols, order, origin, k as int);
            assert(inner > 0) by (nonlinear_arith)
                requires
                    k < total,
                    total == rows * cols,
                    inner == rows || inner == cols;
        }
        let o = k / inner;
        let i = k % inner;
        let (r0, c0) = match order {
            BayOrder::RowMajor => (o, i),
            BayOrder::ColumnMajor => (i, o),
        };
        let c1 = match origin {
            BayOrigin::TopRight | BayOrigin::BottomRight => (cols as usize) - 1 - c0,
            _ => c0,
        };
        let r1 = match origin {
            BayOrigin::BottomLeft | BayOrigin::BottomRight => (rows as usize) - 1 - r0,
            _ => r0,
        };
        let n: u64 = (label_start as u64) + (k as u64);
        let label_text = decimal_string(n);
        let id = bay_id_string(enclosure_id, bank_id, label_text.as_str());
        let bay = Bay {
            id: BayId(id),
            label: label_text,
            row: r1 as u16,
            col: c1 as u16,
            form_factor: None,
            binding: BayBinding::Unbound,
            disabled: false,
            note: None,
        };
        proof {
            let g = grid_bay(enclosure_id@, bank_id@, rows, cols, order, origin, label_start, k as int);
            assert(bay@ == g);
            assert(target.bays[k as int] == g);
        }
        bays.push(bay);
    }
    let bank = Bank {
        id: String::from_str(bank_id),
        label: opt_str_to_string(label),
        rows,
        cols,
        form_factor,
        orientation,
        numbering: Some(NumberingRun { order, origin, label_start }),
        bays,
    };
    assert(bank@.bays =~= target.bays);
    bank
}


/// Smallest `c >= start` with `c * c >= n`.
pub open spec fn ceil_sqrt_from(n: int, c: int) -> int
    decreases n - c,
    when 0 <= c <= n
{
    if c * c >= n {
        c
    } else {
        proof {
            assert(c + 1 <= n) by (nonlinear_arith)
                requires
                    0 <= c <= n,
                    c * c < n;
        }
        ceil_sqrt_from(n, c + 1)
    }
}

/// The device count the generated bench is sized for, after `as u16`.
pub open spec fn bench_n(device_count: nat) -> int {
    (if device_count == 0 { 1 } else { device_count as int }) % 65536
}

/// Columns of the generated bench: one row up to four bays, then a
/// square-ish grid `ceil(sqrt(n))` wide.
pub open spec fn bench_cols(n: int) -> int {
    if n <= 4 { n } else { ceil_sqrt_from(n, 0) }
}

/// Rows of the generated bench: `n` bays divided into rows, rounding up.
pub open spec fn bench_rows(n: int) -> int {
    (n + bench_cols(n) - 1) / bench_cols(n)
}

/// The generated fallback topology for `device_count` devices.
pub open spec fn generated_view(device_count: nat) -> TopologyV {
    let n = bench_n(device_count);
    TopologyV {
        schema_version: 1,
        label: "Unconfigured bench"@,
        generated: true,
        revision: 0,
        auto_fill_unbound: true,
        enclosures: seq![
            EnclosureV {
                id: "bench"@,
                label: "Attached devices"@,
                kind: EnclosureKind::Internal,
                model_ref: None,
                banks: seq![
                    grid_bank_view(
                        "bench"@,
                        "a"@,
                        None,
                        bench_rows(n) as u16,
                        bench_cols(n) as u16,
                        BayFormFactor::Other,
                        TrayOrientation::Horizontal,
                        BayOrder::RowMajor,
                        BayOrigin::TopLeft,
                        1,
                    ),
                ],
                note: Some(GENERATED_NOTE@),
            },
        ],
    }
}

/// What the generated bench tells the operator about itself.
pub const GENERATED_NOTE: &'static str = "No bay topology configured — devices are shown in enumeration order and these positions do not reflect physical bays. Point --bay-topology at a config file, or pick a preset with --bay-profile.";

pub(crate) proof fn lemma_ceil_sqrt(n: int, c: int)
    requires
        0 <= c <= n,
        c == 0 || (c - 1) * (c - 1) < n,
    ensures
        0 <= ceil_sqrt_from(n, c) <= n,
        ceil_sqrt_from(n, c) * ceil_sqrt_from(n, c) >= n,
        ceil_sqrt_from(n, c) == 0 || (ceil_sqrt_from(n, c) - 1) * (ceil_sqrt_from(n, c) - 1) < n,
    decreases n - c,
{
    if c * c < n {
        assert(c + 1 <= n) by (nonlinear_arith)
            requires
                0 <= c <= n,
                c * c < n;
        lemma_ceil_sqrt(n, c + 1);
    }
}

/// The generated bench holds at least one bay per device.
pub proof fn law_generated_bench_fits(device_count: nat)
    requires
        1 <= device_count <= 65535,
    ensures
        bench_rows(bench_n(device_count)) * bench_cols(bench_n(device_count)) >= device_count,
{
    let n = bench_n(device_count);
    assert(n == device_count) by {
        vstd::arithmetic::div_mod::lemma_small_mod(device_count, 65536);
    }
    if n > 4 {
        lemma_ceil_sqrt(n, 0);
        let c = ceil_sqrt_from(n, 0);
        assert(c >= 1) by (nonlinear_arith)
            requires
                c * c >= n,
                n > 4,
                c >= 0;
    }
    let c = bench_cols(n);
    assert(c >= 1);
    assert(((n + c - 1) / c) * c >= n) by (nonlinear_arith)
        requires
            c >= 1,
            n >= 1;
}

/// The honest default for a station with no bay configuration: one
/// auto-sized bank, marked generated, filled in enumeration order.
pub fn generated_bench(device_count: usize) -> (r: BayTopology)
    requires
        bench_n(device_count as nat) != 0,
        1 + bench_rows(bench_n(device_count as nat)) * bench_cols(bench_n(device_count as nat)) <= u16::MAX,
    ensures
        r@ == generated_view(device_count as nat),
{
    let m: usize = if device_count == 0 { 1 } else { device_count };
    let n: u32 = (m % 65536) as u32;
    let ghost gn = bench_n(device_count as nat);
    assert(n == gn);
    let cols: u32 = if n <= 4 {
        n
    } else {
        let mut c: u32 = 0;
        while c * c < n
            invariant
                n == gn,
                4 < n <= 65535,
                c <= 256,
                c <= n,
                c * c <= 65536,
                c == 0 || (c - 1) * (c - 1) < n,
                ceil_sqrt_from(n as int, 0) == ceil_sqrt_from(n as int, c as int),
            decreases 256 - c,
        {
            assert(c < 256 && (c + 1) * (c + 1) <= 65536 && c + 1 <= n) by (nonlinear_arith)
                requires
                    c <= 256,
                    c * c < n,
                    n <= 65535;
            c = c + 1;
        }
        assert(ceil_sqrt_from(n as int, c as int) == c);
        c
    };
    proof {
        if n > 4 {
            lemma_ceil_sqrt(n as int, 0);
        }
    }
    assert(cols == bench_cols(gn));
    assert(cols >= 1) by {
        if n > 4 {
            assert(cols * cols >= n);
            assert(cols >= 1) by (nonlinear_arith)
                requires
                    cols * cols >= n,
                    n > 4;
        }
    }
    assert(cols <= n);
    let rows: u32 = (n + cols - 1) / cols;
    assert(rows == bench_rows(gn));
    assert(rows >= 1) by (nonlinear_arith)
        requires
            rows as int == (n + cols - 1) as int / cols as int,
            1 <= cols <= n;
    assert(rows * cols <= 65534);
    assert(rows <= 65534 && cols <= 65534) by (nonlinear_arith)
        requires
            rows * cols <= 65534,
            cols >= 1,
            rows >= 1;
    let bank = grid_bank(
        "bench",
        "a",
        None,
        rows as u16,
        cols as u16,
        BayFormFactor::Other,
        TrayOrientation::Horizontal,
        BayOrder::RowMajor,
        BayOrigin::TopLeft,
        1,
    );
    let enclosure = Enclosure {
        id: String::from_str("bench"),
        label: String::from_str("Attached devices"),
        kind: EnclosureKind::Internal,
        banks: vec![bank],
        note: Some(String::from_str(GENERATED_NOTE)),
        model_ref: None,
    };
    let t = BayTopology {
        schema_version: BAY_TOPOLOGY_SCHEMA_VERSION,
        label: String::from_str("Unconfigured bench"),
        generated: true,
        revision: 0,
        auto_fill_unbound: true,
        enclosures: vec![enclosure],
    };
    proof {
        let v = generated_view(device_count as nat);
        assert(t@.enclosures[0].banks =~= v.enclosures[0].banks);
        assert(t@.enclosures =~= v.enclosures);
    }
    t
}


/// A one-enclosure, non-generated topology labelled "Bench 1".
pub open spec fn single_enclosure_view(
    id: Seq<char>,
    label: Seq<char>,
    kind: EnclosureKind,
    banks: Seq<BankV>,
) -> TopologyV {
    TopologyV {
        schema_version: 1,
        label: "Bench 1"@,
        generated: false,
        revision: 0,
        auto_fill_unbound: true,
        enclosures: seq![EnclosureV { id, label, kind, banks, note: None, model_ref: None }],
    }
}

/// The reference 4U chassis: two banks of two columns of eight 3.5" trays,
/// numbered down each column, bank B continuing from 17.
pub open spec fn arma_4u_32_view() -> TopologyV {
    single_enclosure_view(
        "chassis"@,
        "ARMA Industrial 4U — 32 bay"@,
        EnclosureKind::Rackmount,
        seq![
            grid_bank_view("chassis"@, "left"@, Some("Bank A"@), 8, 2, BayFormFactor::Lff35,
                TrayOrientation::Horizontal, BayOrder::ColumnMajor, BayOrigin::TopLeft, 1),
            grid_bank_view("chassis"@, "right"@, Some("Bank B"@), 8, 2, BayFormFactor::Lff35,
                TrayOrientation::Horizontal, BayOrder::ColumnMajor, BayOrigin::TopLeft, 17),
        ],
    )
}

/// A two-bay top-loading dock.
pub open spec fn dock_2bay_view() -> TopologyV {
    single_enclosure_view(
        "dock"@,
        "2-bay hot-swap dock"@,
        EnclosureKind::Dock,
        seq![
            grid_bank_view("dock"@, "a"@, None, 1, 2, BayFormFactor::Lff35,
                TrayOrientation::Vertical, BayOrder::RowMajor, BayOrigin::TopLeft, 1),
        ],
    )
}

/// An eight-socket M.2 carrier.
pub open spec fn nvme_carrier_8_view() -> TopologyV {
    single_enclosure_view(
        "carrier"@,
        "NVMe carrier — 8 socket"@,
        EnclosureKind::NvmeCarrier,
        seq![
            grid_bank_view("carrier"@, "a"@, None, 8, 1, BayFormFactor::M2,
                TrayOrientation::Horizontal, BayOrder::RowMajor, BayOrigin::TopLeft, 1),
        ],
    )
}

fn single_enclosure(id: &str, label: &str, kind: EnclosureKind, banks: Vec<Bank>) -> (r: BayTopology)
    ensures
        r@ == single_enclosure_view(id@, label@, kind, banks@.map_values(|b: Bank| b@)),
{
    let enclosure = Enclosure {
        id: String::from_str(id),
        label: String::from_str(label),
        kind,
        banks,
        note: None,
        model_ref: None,
    };
    let t = BayTopology {
        schema_version: BAY_TOPOLOGY_SCHEMA_VERSION,
        label: String::from_str("Bench 1"),
        generated: false,
        revision: 0,
        auto_fill_unbound: true,
        enclosures: vec![enclosure],
    };
    assert(t@.enclosures =~= single_enclosure_view(id@, label@, kind, banks@.map_values(|b: Bank| b@)).enclosures);
    t
}

/// The reference bench: a 4U chassis with two banks of trays either side of
/// a ventilation column.
pub fn arma_4u_32() -> (r: BayTopology)
    ensures
        r@ == arma_4u_32_view(),
{
    let left = grid_bank("chassis", "left", Some("Bank A"), 8, 2, BayFormFactor::Lff35,
        TrayOrientation::Horizontal, BayOrder::ColumnMajor, BayOrigin::TopLeft, 1);
    let right = grid_bank("chassis", "right", Some("Bank B"), 8, 2, BayFormFactor::Lff35,
        TrayOrientation::Horizontal, BayOrder::ColumnMajor, BayOrigin::TopLeft, 17);
    let banks = vec![left, right];
    let t = single_enclosure("chassis", "ARMA Industrial 4U — 32 bay", EnclosureKind::Rackmount, banks);
    assert(t@.enclosures[0].banks =~= arma_4u_32_view().enclosures[0].banks);
    t
}

/// Two-bay top-loading hot-swap dock.
pub fn dock_2bay() -> (r: BayTopology)
    ensures
        r@ == dock_2bay_view(),
{
    let bank = grid_bank("dock", "a", None, 1, 2, BayFormFactor::Lff35,
        TrayOrientation::Vertical, BayOrder::RowMajor, BayOrigin::TopLeft, 1);
    let banks = vec![bank];
    let t = single_enclosure("dock", "2-bay hot-swap dock", EnclosureKind::Dock, banks);
    assert(t@.enclosures[0].banks =~= dock_2bay_view().enclosures[0].banks);
    t
}

/// Eight-socket M.2 NVMe carrier.
pub fn nvme_carrier_8() -> (r: BayTopology)
    ensures
        r@ == nvme_carrier_8_view(),
{
    let bank = grid_bank("carrier", "a", None, 8, 1, BayFormFactor::M2,
        TrayOrientation::Horizontal, BayOrder::RowMajor, BayOrigin::TopLeft, 1);
    let banks = vec![bank];
    let t = single_enclosure("carrier", "NVMe carrier — 8 socket", EnclosureKind::NvmeCarrier, banks);
    assert(t@.enclosures[0].banks =~= nvme_carrier_8_view().enclosures[0].banks);
    t
}

/// The built-in preset names, in menu order.
pub fn preset_names() -> (r: Vec<&'static str>)
    ensures
        r@.len() == 3,
        r@[0]@ == "arma-4u-32"@,
        r@[1]@ == "dock-2bay"@,
        r@[2]@ == "nvme-carrier-8"@,
{
    vec!["arma-4u-32", "dock-2bay", "nvme-carrier-8"]
}

/// A named starting point; unknown names are `None`.
pub fn preset(name: &str) -> (r: Option<BayTopology>)
    ensures
        name@ == "arma-4u-32"@ ==> r is Some && r->0@ == arma_4u_32_view(),
        name@ == "dock-2bay"@ ==> r is Some && r->0@ == dock_2bay_view(),
        name@ == "nvme-carrier-8"@ ==> r is Some && r->0@ == nvme_carrier_8_view(),
        name@ != "arma-4u-32"@ && name@ != "dock-2bay"@ && name@ != "nvme-carrier-8"@ ==> r is None,
{
    proof {
        reveal_strlit("arma-4u-32");
        reveal_strlit("dock-2bay");
        reveal_strlit("nvme-carrier-8");
        assert("arma-4u-32"@.len() == 10);
        assert("dock-2bay"@.len() == 9);
        assert("nvme-carrier-8"@.len() == 14);
    }
    let n = chars_of(name);
    let a = chars_of("arma-4u-32");
    let d = chars_of("dock-2bay");
    let c = chars_of("nvme-carrier-8");
    if chars_eq(&n, &a) {
        Some(arma_4u_32())
    } else if chars_eq(&n, &d) {
        Some(dock_2bay())
    } else if chars_eq(&n, &c) {
        Some(nvme_carrier_8())
    } else {
        None
    }
}

/// A renumbered bay: the new run's label at this position, with everything
/// the operator set on the bay that was already there kept.
pub open spec fn renumbered_bay(old: Seq<BayV>, g: BayV) -> BayV {
    match first_bay_at_from(old, g.row, g.col, 0) {
        Some(j) => BayV {
            id: old[j].id,
            label: g.label,
            row: g.row,
            col: g.col,
            form_factor: old[j].form_factor,
            binding: old[j].binding,
            disabled: old[j].disabled,
            note: old[j].note,
        },
        None => g,
    }
}

/// A bank relabelled along `run`.
pub open spec fn renumber_view(bank: BankV, enclosure_id: Seq<char>, run: NumberingRun) -> BankV {
    let g = grid_bank_view(enclosure_id, bank.id, bank.label, bank.rows, bank.cols, bank.form_factor,
        bank.orientation, run.order, run.origin, run.label_start);
    BankV { bays: g.bays.map_values(|b: BayV| renumbered_bay(bank.bays, b)), ..g }
}

/// Relabel a bank along a new numbering run. Labels follow the run; each
/// bay's id, binding, blanking, form-factor override and note stay with its
/// grid position.
pub fn renumber_bank(bank: &Bank, enclosure_id: &str, run: NumberingRun) -> (r: Bank)
    requires
        run.label_start + bank.rows * bank.cols <= u16::MAX,
    ensures
        r@ == renumber_view(bank@, enclosure_id@, run),
{
    let label: Option<&str> = match &bank.label {
        Some(l) => Some(l.as_str()),
        None => None,
    };
    let fresh = grid_bank(enclosure_id, bank.id.as_str(), label, bank.rows, bank.cols,
        bank.form_factor, bank.orientation, run.order, run.origin, run.label_start);
    let ghost target = renumber_view(bank@, enclosure_id@, run);
    let mut bays: Vec<Bay> = Vec::new();
    for k in 0..fresh.bays.len()
        invariant
            target == renumber_view(bank@, enclosure_id@, run),
            fresh@.bays.len() == target.bays.len(),
            target.bays == fresh@.bays.map_values(|b: BayV| renumbered_bay(bank@.bays, b)),
            bays@.len() == k,
            forall|j: int| 0 <= j < k ==> (#[trigger] bays@[j])@ == target.bays[j],
    {
        let g = &fresh.bays[k];
        let ghost gv = fresh@.bays[k as int];
        assert(g@ == gv);
        let nb = match bank.bay_at(g.row, g.col) {
            Some(old) => Bay {
                id: old.id.clone(),
                label: g.label.clone(),
                row: g.row,
                col: g.col,
                form_factor: old.form_factor,
                binding: old.binding.clone(),
                disabled: old.disabled,
                note: crate::device::clone_opt_string(&old.note),
            },
            None => g.clone(),
        };
        assert(nb@ == renumbered_bay(bank@.bays, gv));
        bays.push(nb);
    }
    let r = Bank {
        id: fresh.id,
        label: fresh.label,
        rows: fresh.rows,
        cols: fresh.cols,
        form_factor: fresh.form_factor,
        orientation: fresh.orientation,
        numbering: fresh.numbering,
        bays,
    };
    assert(r@.bays =~= target.bays);
    r
}

/// The numbering position that lands on grid cell (`row`, `col`).
pub open spec fn cell_index(rows: u16, cols: u16, order: BayOrder, origin: BayOrigin, row: int, col: int) -> int {
    let r0 = if origin is BottomLeft || origin is BottomRight { rows - 1 - row } else { row };
    let c0 = if origin is TopRight || origin is BottomRight { cols - 1 - col } else { col };
    if order is RowMajor { r0 * cols + c0 } else { c0 * rows + r0 }
}

/// Every cell of a grid is reached by some position of its numbering run.
pub proof fn lemma_every_cell_is_numbered(rows: u16, cols: u16, order: BayOrder, origin: BayOrigin, row: int, col: int)
    requires
        0 <= row < rows,
        0 <= col < cols,
    ensures
        0 <= cell_index(rows, cols, order, origin, row, col) < rows * cols,
        grid_cell(rows, cols, order, origin, cell_index(rows, cols, order, origin, row, col)) == (row, col),
{
    let r0: int = if origin is BottomLeft || origin is BottomRight { rows - 1 - row } else { row };
    let c0: int = if origin is TopRight || origin is BottomRight { cols - 1 - col } else { col };
    let k = cell_index(rows, cols, order, origin, row, col);
    if order is RowMajor {
        vstd::arithmetic::div_mod::lemma_fundamental_div_mod_converse(k, cols as int, r0, c0);
        assert(0 <= r0 * cols + c0 < rows * cols) by (nonlinear_arith)
            requires 0 <= r0 <= rows - 1, 0 <= c0 < cols;
    } else {
        vstd::arithmetic::div_mod::lemma_fundamental_div_mod_converse(k, rows as int, c0, r0);
        assert(0 <= c0 * rows + r0 < cols * rows) by (nonlinear_arith)
            requires 0 <= c0 <= cols - 1, 0 <= r0 < rows;
        assert(cols * rows == rows * cols) by (nonlinear_arith);
    }
}

proof fn lemma_grid_cell_parts(rows: u16, cols: u16, order: BayOrder, k: int)
    requires
        0 <= k < rows * cols,
    ensures
        ({
            let inner: int = if order is RowMajor { cols as int } else { rows as int };
            let outer: int = if order is RowMajor { rows as int } else { cols as int };
            &&& inner > 0
            &&& 0 <= k / inner < outer
            &&& 0 <= k % inner < inner
            &&& k == inner * (k / inner) + k % inner
        }),
{
    let inner: int = if order is RowMajor { cols as int } else { rows as int };
    let outer: int = if order is RowMajor { rows as int } else { cols as int };
    assert(inner * outer == rows * cols) by (nonlinear_arith)
        requires
            (inner == cols && outer == rows) || (inner == rows && outer == cols);
    assert(inner > 0 && k < outer * inner) by (nonlinear_arith)
        requires
            0 <= k < rows * cols,
            0 <= inner,
            0 <= outer,
            inner * outer == rows * cols;
    vstd::arithmetic::div_mod::lemma_fundamental_div_mod(k, inner);
    vstd::arithmetic::div_mod::lemma_mod_pos_bound(k, inner);
    vstd::arithmetic::div_mod::lemma_div_pos_is_pos(k, inner);
    let o = k / inner;
    assert(o < outer) by (nonlinear_arith)
        requires
            k == inner * o + k % inner,
            0 <= k % inner,
            k < outer * inner,
            inner > 0;
}

/// A numbered grid puts each position of its run on its own cell inside
/// the grid: no two positions share a cell, and every cell lies within the
/// rows and columns.
pub proof fn law_grid_cells_are_distinct_and_inside(rows: u16, cols: u16, order: BayOrder, origin: BayOrigin, k1: int, k2: int)
    requires
        0 <= k1 < rows * cols,
        0 <= k2 < rows * cols,
    ensures
        0 <= grid_cell(rows, cols, order, origin, k1).0 < rows,
        0 <= grid_cell(rows, cols, order, origin, k1).1 < cols,
        k1 != k2 ==> grid_cell(rows, cols, order, origin, k1) != grid_cell(rows, cols, order, origin, k2),
{
    lemma_grid_cell_parts(rows, cols, order, k1);
    lemma_grid_cell_parts(rows, cols, order, k2);
}

/// Renumbering keeps every operator edit on its physical slot: for a cell
/// inside the grid, the renumbered bank's bay there carries the id,
/// binding, blanking, form-factor override and note of the bay that was
/// there before.
pub proof fn law_renumbering_keeps_edits_in_place(bank: BankV, enclosure_id: Seq<char>, run: NumberingRun, row: u16, col: u16, j: int)
    requires
        row < bank.rows,
        col < bank.cols,
        first_bay_at_from(bank.bays, row, col, 0) == Some(j),
    ensures
        ({
            let nb = renumber_view(bank, enclosure_id, run).bays;
            first_bay_at_from(nb, row, col, 0) matches Some(k)
                && nb[k].id == bank.bays[j].id
                && nb[k].binding == bank.bays[j].binding
                && nb[k].disabled == bank.bays[j].disabled
                && nb[k].form_factor == bank.bays[j].form_factor
                && nb[k].note == bank.bays[j].note
        }),
{
    let g = grid_bank_view(enclosure_id, bank.id, bank.label, bank.rows, bank.cols, bank.form_factor,
        bank.orientation, run.order, run.origin, run.label_start);
    let nb = renumber_view(bank, enclosure_id, run).bays;
    lemma_every_cell_is_numbered(bank.rows, bank.cols, run.order, run.origin, row as int, col as int);
    let k = cell_index(bank.rows, bank.cols, run.order, run.origin, row as int, col as int);
    assert(g.bays[k].row == row && g.bays[k].col == col);
    assert(nb[k] == renumbered_bay(bank.bays, g.bays[k]));
    assert(nb[k].row == row && nb[k].col == col);
    lemma_first_bay_at_from(nb, row, col, 0);
    let k2 = first_bay_at_from(nb, row, col, 0)->0;
    assert(nb[k2] == renumbered_bay(bank.bays, g.bays[k2]));
}

/// A numbered grid never repeats a bay id: each position of the run gets
/// its own label, and the id embeds the label after the enclosure and bank.
pub proof fn law_grid_bay_ids_are_distinct(
    enc: Seq<char>,
    bank: Seq<char>,
    rows: u16,
    cols: u16,
    order: BayOrder,
    origin: BayOrigin,
    label_start: u16,
    i: int,
    j: int,
)
    requires
        0 <= i < j,
    ensures
        grid_bay(enc, bank, rows, cols, order, origin, label_start, i).id
            != grid_bay(enc, bank, rows, cols, order, origin, label_start, j).id,
{
    let li = decimal((label_start + i) as nat);
    let lj = decimal((label_start + j) as nat);
    let p = enc + "."@ + bank + "."@;
    if bay_id_text(enc, bank, li) == bay_id_text(enc, bank, lj) {
        assert((p + li).skip(p.len() as int) =~= li);
        assert((p + lj).skip(p.len() as int) =~= lj);
        lemma_decimal_injective((label_start + i) as nat, (label_start + j) as nat);
    }
}

} // verus!
