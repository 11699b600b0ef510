//! Placement of signals into columns and rotations.
use vstd::prelude::*;

use crate::ast::Circuit;
use crate::ir::{Column, ColumnType};

verus! {

/// Where a signal lives: a column and a rotation relative to the base row of
/// the step instance.
#[derive(Clone, Copy, Debug, PartialEq, Eq, Structural)]
pub struct SignalPlacement {
    pub column: usize,
    pub rotation: i32,
}

/// The placement of one step type: its height in rows and where each of its
/// internal signals lives.
#[derive(Debug)]
pub struct StepPlacement {
    pub height: u32,
    pub signals: Vec<(u128, SignalPlacement)>,
}

/// The placement of every signal and imported column of a circuit.
#[derive(Debug)]
pub struct Placement {
    pub forward: Vec<(u128, SignalPlacement)>,
    pub shared: Vec<(u128, SignalPlacement)>,
    pub fixed: Vec<(u128, SignalPlacement)>,
    pub halo2_advice: Vec<(u128, SignalPlacement)>,
    pub halo2_fixed: Vec<(u128, SignalPlacement)>,
    pub steps: Vec<(u128, StepPlacement)>,
    pub columns: Vec<Column>,
}

/// `i` is the first position of `s` whose key is `k`.
pub open spec fn is_first_key<V>(s: Seq<(u128, V)>, k: u128, i: int) -> bool {
    &&& 0 <= i < s.len()
    &&& s[i].0 == k
    &&& forall|j: int| 0 <= j < i ==> s[j].0 != k
}

pub open spec fn has_key<V>(s: Seq<(u128, V)>, k: u128) -> bool {
    exists|i: int| 0 <= i < s.len() && s[i].0 == k
}

/// The value stored under the first occurrence of `k`, if any.
pub open spec fn lookup<V>(s: Seq<(u128, V)>, k: u128) -> Option<V> {
    if has_key(s, k) {
        Some(s[choose|i: int| is_first_key(s, k, i)].1)
    } else {
        None
    }
}

/// There is exactly one first position of a key that occurs.
pub proof fn lemma_first_key<V>(s: Seq<(u128, V)>, k: u128, i: int)
    requires
        0 <= i < s.len(),
        s[i].0 == k,
    ensures
        has_key(s, k),
        exists|f: int| is_first_key(s, k, f) && f <= i,
        forall|f: int, g: int| is_first_key(s, k, f) && is_first_key(s, k, g) ==> f == g,
    decreases i,
{
    if exists|j: int| 0 <= j < i && s[j].0 == k {
        let j = choose|j: int| 0 <= j < i && s[j].0 == k;
        lemma_first_key(s, k, j);
    } else {
        assert(is_first_key(s, k, i));
    }
}

/// The value under the first occurrence is `lookup`'s result.
pub proof fn lemma_lookup_at<V>(s: Seq<(u128, V)>, k: u128, i: int)
    requires
        is_first_key(s, k, i),
    ensures
        lookup(s, k) == Some(s[i].1),
{
    lemma_first_key(s, k, i);
}

/// A value found by `lookup` is stored at some position under its key.
pub proof fn lemma_lookup_some<V>(s: Seq<(u128, V)>, k: u128)
    requires
        lookup(s, k) is Some,
    ensures
        exists|i: int| is_first_key(s, k, i) && s[i].1 == lookup(s, k)->Some_0,
{
    let i = choose|i: int| 0 <= i < s.len() && s[i].0 == k;
    lemma_first_key(s, k, i);
    let f = choose|f: int| is_first_key(s, k, f);
    assert(is_first_key(s, k, f) && s[f].1 == lookup(s, k)->Some_0);
}

/// The position of the first occurrence of `k` in `s`, if any.
pub fn find_key<V>(s: &Vec<(u128, V)>, k: u128) -> (r: Option<usize>)
    ensures
        match r {
            Some(i) => is_first_key(s@, k, i as int) && lookup(s@, k) == Some(s@[i as int].1),
            None => !has_key(s@, k) && lookup(s@, k) is None,
        },
{
    let mut i: usize = 0;
    while i < s.len()
        invariant
            i <= s@.len(),
            forall|j: int| 0 <= j < i ==> s@[j].0 != k,
        decreases s@.len() - i,
    {
        if s[i].0 == k {
            proof { lemma_lookup_at(s@, k, i as int); }
            return Some(i);
        }
        i = i + 1;
    }
    None
}

/// The placement stored under `k` in a catalog of signal placements.
pub fn find_signal(s: &Vec<(u128, SignalPlacement)>, k: u128) -> (r: Option<SignalPlacement>)
    ensures
        r == lookup(s@, k),
{
    match find_key(s, k) {
        Some(i) => Some(s[i].1),
        None => None,
    }
}

/// The first column of the internal-signal pool: after the forward, shared,
/// fixed and imported columns.
pub open spec fn pool_base(c: Circuit) -> int {
    (c.forward_signals@.len() + c.shared_signals@.len() + c.fixed_signals@.len() + c.halo2_advice@.len()
        + c.halo2_fixed@.len()) as int
}

/// The column at position `k` before the pool is the one that the single-row
/// placement gives the `k`-th catalog entry: forward, shared, fixed, imported
/// advice and imported fixed, in this order.
pub open spec fn catalog_column(c: Circuit, k: int, col: Column) -> bool {
    let nf = c.forward_signals@.len() as int;
    let ns = c.shared_signals@.len() as int;
    let nx = c.fixed_signals@.len() as int;
    let na = c.halo2_advice@.len() as int;
    if k < nf {
        col.ctype == ColumnType::Advice && col.phase == c.forward_signals@[k].phase
    } else if k < nf + ns {
        col.ctype == ColumnType::Advice && col.phase == c.shared_signals@[k - nf].phase
    } else if k < nf + ns + nx {
        col.ctype == ColumnType::Fixed
    } else if k < nf + ns + nx + na {
        col.ctype == ColumnType::Halo2Advice(c.halo2_advice@[k - nf - ns - nx].column)
    } else {
        col.ctype == ColumnType::Halo2Fixed(c.halo2_fixed@[k - nf - ns - nx - na].column)
    }
}

/// The column counts of a circuit fit in `usize`, with room for the selector
/// and boundary columns.
pub open spec fn fits_columns(c: Circuit) -> bool {
    &&& pool_base(c) + c.step_types@.len() + 3 <= usize::MAX
    &&& forall|t: int|
        0 <= t < c.step_types@.len() ==> pool_base(c) + (#[trigger] c.step_types@[t]).signals@.len()
            + c.step_types@.len() + 3 <= usize::MAX
}

/// Whether the column counts of `c` fit in `usize`.
pub fn check_fits_columns(c: &Circuit) -> (r: bool)
    ensures
        r == fits_columns(*c),
{
    let nf = c.forward_signals.len();
    let ns = c.shared_signals.len();
    let nx = c.fixed_signals.len();
    let na = c.halo2_advice.len();
    let nh = c.halo2_fixed.len();
    let nt = c.step_types.len();
    if nf > usize::MAX - ns || nf + ns > usize::MAX - nx || nf + ns + nx > usize::MAX - na || nf + ns + nx
        + na > usize::MAX - nh {
        return false;
    }
    let base = nf + ns + nx + na + nh;
    if nt > usize::MAX - 3 || base > usize::MAX - 3 - nt {
        return false;
    }
    let room = usize::MAX - 3 - nt - base;
    let mut t: usize = 0;
    while t < nt
        invariant
            nt == c.step_types@.len(),
            base == pool_base(*c),
            room == usize::MAX - 3 - nt - base,
            pool_base(*c) + c.step_types@.len() + 3 <= usize::MAX,
            t <= nt,
            forall|u: int|
                0 <= u < t ==> pool_base(*c) + (#[trigger] c.step_types@[u]).signals@.len()
                    + c.step_types@.len() + 3 <= usize::MAX,
        decreases nt - t,
    {
        if c.step_types[t].signals.len() > room {
            return false;
        }
        t = t + 1;
    }
    true
}

/// The single-row placement of a circuit: every forward, shared and fixed
/// signal and every imported column has a column of its own, the `j`-th
/// internal signal of every step type lives in the `j`-th column of a pool
/// shared by all step types, every rotation is zero and every step type is
/// one row high.
pub open spec fn single_row_placement(c: Circuit, p: Placement) -> bool {
    let nf = c.forward_signals@.len();
    let ns = c.shared_signals@.len();
    let nx = c.fixed_signals@.len();
    let na = c.halo2_advice@.len();
    let nh = c.halo2_fixed@.len();
    let base = pool_base(c);
    &&& p.forward@.len() == nf
    &&& forall|k: int|
        0 <= k < nf ==> #[trigger] p.forward@[k] == (
        c.forward_signals@[k].id,
        SignalPlacement { column: k as usize, rotation: 0 },
        )
    &&& p.shared@.len() == ns
    &&& forall|k: int|
        0 <= k < ns ==> #[trigger] p.shared@[k] == (
        c.shared_signals@[k].id,
        SignalPlacement { column: (nf + k) as usize, rotation: 0 },
        )
    &&& p.fixed@.len() == nx
    &&& forall|k: int|
        0 <= k < nx ==> #[trigger] p.fixed@[k] == (
        c.fixed_signals@[k].id,
        SignalPlacement { column: (nf + ns + k) as usize, rotation: 0 },
        )
    &&& p.halo2_advice@.len() == na
    &&& forall|k: int|
        0 <= k < na ==> #[trigger] p.halo2_advice@[k] == (
        c.halo2_advice@[k].id,
        SignalPlacement { column: (nf + ns + nx + k) as usize, rotation: 0 },
        )
    &&& p.halo2_fixed@.len() == nh
    &&& forall|k: int|
        0 <= k < nh ==> #[trigger] p.halo2_fixed@[k] == (
        c.halo2_fixed@[k].id,
        SignalPlacement { column: (nf + ns + nx + na + k) as usize, rotation: 0 },
        )
    &&& p.steps@.len() == c.step_types@.len()
    &&& forall|t: int|
        0 <= t < c.step_types@.len() ==> {
            &&& (#[trigger] p.steps@[t]).0 == c.step_types@[t].id
            &&& p.steps@[t].1.height == 1
            &&& p.steps@[t].1.signals@.len() == c.step_types@[t].signals@.len()
            &&& forall|j: int|
                0 <= j < c.step_types@[t].signals@.len() ==> #[trigger] p.steps@[t].1.signals@[j]
                    == (
                    c.step_types@[t].signals@[j].id,
                    SignalPlacement { column: (base + j) as usize, rotation: 0 },
                )
            &&& base + c.step_types@[t].signals@.len() <= p.columns@.len()
        }
    &&& base <= p.columns@.len()
    &&& p.columns@.len() + c.step_types@.len() + 3 <= usize::MAX
    &&& forall|k: int| 0 <= k < base ==> catalog_column(c, k, #[trigger] p.columns@[k])
    &&& forall|k: int| base <= k < p.columns@.len() ==> (#[trigger] p.columns@[k]).ctype
        == ColumnType::Advice && p.columns@[k].phase == 0
}

/// The placement strategy that keeps every step type one row high.
pub struct SingleRowCellManager {}

impl SingleRowCellManager {
    /// Places every signal of the circuit, one column per forward, shared and
    /// fixed signal and per imported column, and a pool of columns shared by
    /// the step types for their internal signals.
    pub fn place(c: &Circuit) -> (r: Placement)
        requires
            fits_columns(*c),
        ensures
            single_row_placement(*c, r),
    {
        let nf = c.forward_signals.len();
        let ns = c.shared_signals.len();
        let nx = c.fixed_signals.len();
        let na = c.halo2_advice.len();
        let nh = c.halo2_fixed.len();
        let mut columns: Vec<Column> = Vec::new();
        let mut forward: Vec<(u128, SignalPlacement)> = Vec::new();
        let mut k: usize = 0;
        while k < nf
            invariant
                nf == c.forward_signals@.len(),
                fits_columns(*c),
                k <= nf,
                columns@.len() == k,
                forward@.len() == k,
                forall|i: int|
                    0 <= i < k ==> #[trigger] forward@[i] == (
                    c.forward_signals@[i].id,
                    SignalPlacement { column: i as usize, rotation: 0 },
                    ),
                forall|i: int| 0 <= i < columns@.len() ==> catalog_column(*c, i, #[trigger] columns@[i]),
            decreases nf - k,
        {
            let s = &c.forward_signals[k];
            columns.push(Column { annotation: s.annotation.clone(), ctype: ColumnType::Advice, phase: s.phase });
            forward.push((s.id, SignalPlacement { column: k, rotation: 0 }));
            k = k + 1;
        }
        let mut shared: Vec<(u128, SignalPlacement)> = Vec::new();
        let mut k: usize = 0;
        while k < ns
            invariant
                nf == c.forward_signals@.len(),
                ns == c.shared_signals@.len(),
                fits_columns(*c),
                k <= ns,
                columns@.len() == nf + k,
                shared@.len() == k,
                forall|i: int|
                    0 <= i < k ==> #[trigger] shared@[i] == (
                    c.shared_signals@[i].id,
                    SignalPlacement { column: (nf + i) as usize, rotation: 0 },
                    ),
                forall|i: int| 0 <= i < columns@.len() ==> catalog_column(*c, i, #[trigger] columns@[i]),
            decreases ns - k,
        {
            let s = &c.shared_signals[k];
            columns.push(Column { annotation: s.annotation.clone(), ctype: ColumnType::Advice, phase: s.phase });
            shared.push((s.id, SignalPlacement { column: nf + k, rotation: 0 }));
            k = k + 1;
        }
        let mut fixed: Vec<(u128, SignalPlacement)> = Vec::new();
        let mut k: usize = 0;
        while k < nx
            invariant
                nf == c.forward_signals@.len(),
                ns == c.shared_signals@.len(),
                nx == c.fixed_signals@.len(),
                fits_columns(*c),
                k <= nx,
                columns@.len() == nf + ns + k,
                fixed@.len() == k,
                forall|i: int|
                    0 <= i < k ==> #[trigger] fixed@[i] == (
                    c.fixed_signals@[i].id,
                    SignalPlacement { column: (nf + ns + i) as usize, rotation: 0 },
                    ),
                forall|i: int| 0 <= i < columns@.len() ==> catalog_column(*c, i, #[trigger] columns@[i]),
            decreases nx - k,
        {
            let s = &c.fixed_signals[k];
            columns.push(Column { annotation: s.annotation.clone(), ctype: ColumnType::Fixed, phase: 0 });
            fixed.push((s.id, SignalPlacement { column: nf + ns + k, rotation: 0 }));
            k = k + 1;
        }
        let mut halo2_advice: Vec<(u128, SignalPlacement)> = Vec::new();
        let mut k: usize = 0;
        while k < na
            invariant
                nf == c.forward_signals@.len(),
                ns == c.shared_signals@.len(),
                nx == c.fixed_signals@.len(),
                na == c.halo2_advice@.len(),
                fits_columns(*c),
                k <= na,
                columns@.len() == nf + ns + nx + k,
                halo2_advice@.len() == k,
                forall|i: int|
                    0 <= i < k ==> #[trigger] halo2_advice@[i] == (
                    c.halo2_advice@[i].id,
                    SignalPlacement { column: (nf + ns + nx + i) as usize, rotation: 0 },
                    ),
                forall|i: int| 0 <= i < columns@.len() ==> catalog_column(*c, i, #[trigger] columns@[i]),
            decreases na - k,
        {
            let s = &c.halo2_advice[k];
            columns.push(Column { annotation: s.annotation.clone(), ctype: ColumnType::Halo2Advice(s.column), phase: 0 });
            halo2_advice.push((s.id, SignalPlacement { column: nf + ns + nx + k, rotation: 0 }));
            k = k + 1;
        }
        let mut halo2_fixed: Vec<(u128, SignalPlacement)> = Vec::new();
        let mut k: usize = 0;
        while k < nh
            invariant
                nf == c.forward_signals@.len(),
                ns == c.shared_signals@.len(),
                nx == c.fixed_signals@.len(),
                na == c.halo2_advice@.len(),
                nh == c.halo2_fixed@.len(),
                fits_columns(*c),
                k <= nh,
                columns@.len() == nf + ns + nx + na + k,
                halo2_fixed@.len() == k,
                forall|i: int|
                    0 <= i < k ==> #[trigger] halo2_fixed@[i] == (
                    c.halo2_fixed@[i].id,
                    SignalPlacement { column: (nf + ns + nx + na + i) as usize, rotation: 0 },
                    ),
                forall|i: int| 0 <= i < columns@.len() ==> catalog_column(*c, i, #[trigger] columns@[i]),
            decreases nh - k,
        {
            let s = &c.halo2_fixed[k];
            columns.push(Column { annotation: s.annotation.clone(), ctype: ColumnType::Halo2Fixed(s.column), phase: 0 });
            halo2_fixed.push((s.id, SignalPlacement { column: nf + ns + nx + na + k, rotation: 0 }));
            k = k + 1;
        }
        let base: usize = nf + ns + nx + na + nh;
        let nt = c.step_types.len();
        let mut steps: Vec<(u128, StepPlacement)> = Vec::new();
        let mut t: usize = 0;
        while t < nt
            invariant
                nt == c.step_types@.len(),
                base == pool_base(*c),
                fits_columns(*c),
                t <= nt,
                base <= columns@.len(),
                columns@.len() + nt + 3 <= usize::MAX,
                steps@.len() == t,
                forall|u: int|
                    0 <= u < t ==> base + (#[trigger] c.step_types@[u]).signals@.len()
                        <= columns@.len(),
                forall|u: int|
                    0 <= u < t ==> {
                        &&& (#[trigger] steps@[u]).0 == c.step_types@[u].id
                        &&& steps@[u].1.height == 1
                        &&& steps@[u].1.signals@.len() == c.step_types@[u].signals@.len()
                        &&& forall|j: int|
                            0 <= j < c.step_types@[u].signals@.len() ==> #[trigger] steps@[u].1.signals@[j]
                                == (
                                c.step_types@[u].signals@[j].id,
                                SignalPlacement { column: (base + j) as usize, rotation: 0 },
                            )
                        &&& base + c.step_types@[u].signals@.len() <= columns@.len()
                    },
                forall|i: int| 0 <= i < base ==> catalog_column(*c, i, #[trigger] columns@[i]),
                forall|i: int| base <= i < columns@.len() ==> (#[trigger] columns@[i]).ctype
                    == ColumnType::Advice && columns@[i].phase == 0,
            decreases nt - t,
        {
            let st = &c.step_types[t];
            let n = st.signals.len();
            let mut signals: Vec<(u128, SignalPlacement)> = Vec::new();
            let mut j: usize = 0;
            while j < n
                invariant
                    nt == c.step_types@.len(),
                    base == pool_base(*c),
                    fits_columns(*c),
                    t < nt,
                    *st == c.step_types@[t as int],
                    n == st.signals@.len(),
                    j <= n,
                    base <= columns@.len(),
                    columns@.len() + nt + 3 <= usize::MAX,
                    base + j <= columns@.len(),
                    signals@.len() == j,
                    forall|i: int|
                        0 <= i < j ==> #[trigger] signals@[i] == (
                        st.signals@[i].id,
                        SignalPlacement { column: (base + i) as usize, rotation: 0 },
                        ),
                    forall|u: int|
                        0 <= u < t ==> base + (#[trigger] c.step_types@[u]).signals@.len()
                            <= columns@.len(),
                    forall|i: int| 0 <= i < base ==> catalog_column(*c, i, #[trigger] columns@[i]),
                    forall|i: int| base <= i < columns@.len() ==> (#[trigger] columns@[i]).ctype
                        == ColumnType::Advice && columns@[i].phase == 0,
                decreases n - j,
            {
                let s = &st.signals[j];
                if base + j == columns.len() {
                    assert(base + st.signals@.len() + nt + 3 <= usize::MAX);
                    columns.push(Column { annotation: s.annotation.clone(), ctype: ColumnType::Advice, phase: 0 });
                }
                signals.push((s.id, SignalPlacement { column: base + j, rotation: 0 }));
                j = j + 1;
            }
            steps.push((st.id, StepPlacement { height: 1, signals }));
            t = t + 1;
        }
        Placement { forward, shared, fixed, halo2_advice, halo2_fixed, steps, columns }
    }
}

/// The catalogs a step type reads signals from.
#[derive(Clone, Copy, Debug, PartialEq, Eq, Structural)]
pub enum SignalKind {
    Internal,
    Forward,
    Shared,
    Fixed,
    Halo2Advice,
    Halo2Fixed,
}

/// Where the step type at position `t` reads the signal `id` of kind `kind`.
pub open spec fn placed(p: Placement, t: int, kind: SignalKind, id: u128) -> Option<SignalPlacement> {
    match kind {
        SignalKind::Internal => lookup(p.steps@[t].1.signals@, id),
        SignalKind::Forward => lookup(p.forward@, id),
        SignalKind::Shared => lookup(p.shared@, id),
        SignalKind::Fixed => lookup(p.fixed@, id),
        SignalKind::Halo2Advice => lookup(p.halo2_advice@, id),
        SignalKind::Halo2Fixed => lookup(p.halo2_fixed@, id),
    }
}

/// The first column of a catalog under the single-row placement.
pub open spec fn kind_start(c: Circuit, kind: SignalKind) -> int {
    match kind {
        SignalKind::Forward => 0,
        SignalKind::Shared => c.forward_signals@.len() as int,
        SignalKind::Fixed => (c.forward_signals@.len() + c.shared_signals@.len()) as int,
        SignalKind::Halo2Advice => (c.forward_signals@.len() + c.shared_signals@.len()
            + c.fixed_signals@.len()) as int,
        SignalKind::Halo2Fixed => (c.forward_signals@.len() + c.shared_signals@.len() + c.fixed_signals@.len()
            + c.halo2_advice@.len()) as int,
        SignalKind::Internal => pool_base(c),
    }
}

/// The number of entries of a catalog, as the step type at position `t` sees it.
pub open spec fn kind_len(c: Circuit, t: int, kind: SignalKind) -> int {
    match kind {
        SignalKind::Forward => c.forward_signals@.len() as int,
        SignalKind::Shared => c.shared_signals@.len() as int,
        SignalKind::Fixed => c.fixed_signals@.len() as int,
        SignalKind::Halo2Advice => c.halo2_advice@.len() as int,
        SignalKind::Halo2Fixed => c.halo2_fixed@.len() as int,
        SignalKind::Internal => c.step_types@[t].signals@.len() as int,
    }
}

proof fn lemma_placed_column(c: Circuit, p: Placement, t: int, kind: SignalKind, id: u128) -> (i: int)
    requires
        single_row_placement(c, p),
        0 <= t < c.step_types@.len(),
        placed(p, t, kind, id) is Some,
    ensures
        0 <= i < kind_len(c, t, kind),
        placed(p, t, kind, id) == Some(
            SignalPlacement { column: (kind_start(c, kind) + i) as usize, rotation: 0 },
        ),
        match kind {
            SignalKind::Internal => p.steps@[t].1.signals@[i].0 == id,
            SignalKind::Forward => p.forward@[i].0 == id,
            SignalKind::Shared => p.shared@[i].0 == id,
            SignalKind::Fixed => p.fixed@[i].0 == id,
            SignalKind::Halo2Advice => p.halo2_advice@[i].0 == id,
            SignalKind::Halo2Fixed => p.halo2_fixed@[i].0 == id,
        },
{
    match kind {
        SignalKind::Internal => {
            let s = p.steps@[t].1.signals@;
            lemma_lookup_some(s, id);
            let i = choose|i: int| is_first_key(s, id, i) && s[i].1 == lookup(s, id)->Some_0;
            assert(s[i] == p.steps@[t].1.signals@[i]);
            i
        },
        SignalKind::Forward => {
            lemma_lookup_some(p.forward@, id);
            let i = choose|i: int|
                is_first_key(p.forward@, id, i) && p.forward@[i].1 == lookup(p.forward@, id)->Some_0;
            i
        },
        SignalKind::Shared => {
            lemma_lookup_some(p.shared@, id);
            let i = choose|i: int|
                is_first_key(p.shared@, id, i) && p.shared@[i].1 == lookup(p.shared@, id)->Some_0;
            i
        },
        SignalKind::Fixed => {
            lemma_lookup_some(p.fixed@, id);
            let i = choose|i: int|
                is_first_key(p.fixed@, id, i) && p.fixed@[i].1 == lookup(p.fixed@, id)->Some_0;
            i
        },
        SignalKind::Halo2Advice => {
            lemma_lookup_some(p.halo2_advice@, id);
            let i = choose|i: int|
                is_first_key(p.halo2_advice@, id, i) && p.halo2_advice@[i].1 == lookup(p.halo2_advice@, id)->Some_0;
            i
        },
        SignalKind::Halo2Fixed => {
            lemma_lookup_some(p.halo2_fixed@, id);
            let i = choose|i: int|
                is_first_key(p.halo2_fixed@, id, i) && p.halo2_fixed@[i].1 == lookup(p.halo2_fixed@, id)->Some_0;
            i
        },
    }
}

/// Placement injectivity: under the single-row placement, two different
/// signals or imported columns that a step type reads (different in kind or
/// in identifier) never share a column and rotation.
pub proof fn lemma_placement_injective(
    c: Circuit,
    p: Placement,
    t: int,
    kind1: SignalKind,
    id1: u128,
    kind2: SignalKind,
    id2: u128,
)
    requires
        single_row_placement(c, p),
        0 <= t < c.step_types@.len(),
        kind1 != kind2 || id1 != id2,
        placed(p, t, kind1, id1) is Some,
        placed(p, t, kind2, id2) is Some,
    ensures
        placed(p, t, kind1, id1) != placed(p, t, kind2, id2),
{
    let i1 = lemma_placed_column(c, p, t, kind1, id1);
    let i2 = lemma_placed_column(c, p, t, kind2, id2);
    if kind1 == kind2 {
        assert(i1 != i2);
    }
}

} // verus!
