//! Versioned schema-migration engine.
//!
//! A plan is a list of steps, each carrying a version number and the
//! table definitions it provisions. The engine applies, in ascending
//! version order and regardless of the plan's list order, every step
//! whose version is greater than the current marker. A step is atomic:
//! either all of its tables are created (those already present with the
//! same shape are skipped, so a retried step is a no-op) and the marker
//! advances to the step's version, or the step fails on a conflicting
//! table shape and the schema and marker stay exactly at the state the
//! previously completed steps left behind.
//!
//! The meaning of a whole run is the spec function [`run_plan`]; it picks
//! the least pending version at each turn, so it depends only on which
//! steps the plan holds, not on their order.

use vstd::prelude::*;
use crate::errors::Error;
use crate::schema::TableDef;
use crate::schema::TableDefV;
use crate::schema::clone_table_def;
use crate::schema::distinct_table_names;
use crate::schema::has_table;
use crate::schema::lemma_table_named_at;
use crate::schema::table_def_eq;
use crate::schema::table_named;

verus! {

/// One migration step: a versioned, atomic, idempotent structural
/// transformation (here: create the listed tables if absent).
pub struct Step {
    pub version: u64,
    pub description: String,
    pub tables: Vec<TableDef>,
}

/// Mathematical view of a `Step`.
#[verifier::ext_equal]
pub struct StepV {
    pub version: u64,
    pub description: Seq<char>,
    pub tables: Seq<TableDefV>,
}

impl View for Step {
    type V = StepV;

    open spec fn view(&self) -> StepV {
        StepV {
            version: self.version,
            description: self.description@,
            tables: self.tables@.map_values(|t: TableDef| t@),
        }
    }
}

/// The views of a list of steps.
pub open spec fn steps_view(s: Seq<Step>) -> Seq<StepV> {
    s.map_values(|st: Step| st@)
}

/// The views of a list of table definitions.
pub open spec fn defs_view(s: Seq<TableDef>) -> Seq<TableDefV> {
    s.map_values(|t: TableDef| t@)
}

/// No two steps of the plan share a version number.
pub open spec fn distinct_versions(sv: Seq<StepV>) -> bool {
    forall|i: int, j: int|
        0 <= i < j < sv.len() ==> (#[trigger] sv[i]).version != (#[trigger] sv[j]).version
}

/// Some step still has a version above `cur`.
pub open spec fn pending(sv: Seq<StepV>, cur: u64) -> bool {
    exists|i: int| 0 <= i < sv.len() && (#[trigger] sv[i]).version > cur
}

/// `s` is a pending step of least version.
pub open spec fn is_next_step(sv: Seq<StepV>, cur: u64, s: StepV) -> bool {
    &&& sv.contains(s)
    &&& s.version > cur
    &&& forall|j: int|
        0 <= j < sv.len() && (#[trigger] sv[j]).version > cur ==> s.version <= sv[j].version
}

/// The pending step of least version (meaningful under `pending`, unique
/// under `distinct_versions`).
pub open spec fn next_step(sv: Seq<StepV>, cur: u64) -> StepV {
    choose|s: StepV| is_next_step(sv, cur, s)
}

/// How many steps have a version above `cur`.
pub open spec fn count_pending(sv: Seq<StepV>, cur: u64) -> nat
    decreases sv.len(),
{
    if sv.len() == 0 {
        0
    } else {
        count_pending(sv.drop_last(), cur) + if sv.last().version > cur {
            1nat
        } else {
            0nat
        }
    }
}

/// A nonempty set of pending steps has one of least version.
pub proof fn lemma_min_pending_exists(sv: Seq<StepV>, cur: u64)
    requires
        pending(sv, cur),
    ensures
        exists|s: StepV| is_next_step(sv, cur, s),
    decreases sv.len(),
{
    let w = choose|i: int| 0 <= i < sv.len() && (#[trigger] sv[i]).version > cur;
    let rest = sv.drop_last();
    assert(forall|i: int| 0 <= i < rest.len() ==> rest[i] == sv[i]);
    if pending(rest, cur) {
        lemma_min_pending_exists(rest, cur);
        let m = choose|s: StepV| is_next_step(rest, cur, s);
        let mi = choose|i: int| 0 <= i < rest.len() && rest[i] == m;
        assert(sv[mi] == m);
        if sv.last().version > cur && sv.last().version < m.version {
            assert(sv[sv.len() - 1] == sv.last());
            assert(is_next_step(sv, cur, sv.last()));
        } else {
            assert(is_next_step(sv, cur, m));
        }
    } else {
        if w < sv.len() - 1 {
            assert(rest[w] == sv[w]);
            assert(pending(rest, cur));
        }
        assert(sv[sv.len() - 1] == sv.last());
        assert(sv.last().version > cur);
        assert(forall|j: int|
            0 <= j < sv.len() - 1 && (#[trigger] sv[j]).version > cur ==> pending(rest, cur));
        assert(is_next_step(sv, cur, sv.last()));
    }
}

/// Under distinct versions the least pending step is unique.
pub proof fn lemma_next_step_unique(sv: Seq<StepV>, cur: u64, s1: StepV, s2: StepV)
    requires
        distinct_versions(sv),
        is_next_step(sv, cur, s1),
        is_next_step(sv, cur, s2),
    ensures
        s1 == s2,
{
    let i1 = choose|i: int| 0 <= i < sv.len() && sv[i] == s1;
    let i2 = choose|i: int| 0 <= i < sv.len() && sv[i] == s2;
    assert(s1.version <= s2.version);
    assert(s2.version <= s1.version);
    if i1 != i2 {
        if i1 < i2 {
            assert(sv[i1].version != sv[i2].version);
        } else {
            assert(sv[i2].version != sv[i1].version);
        }
    }
}

/// Raising the marker can only shrink the pending count.
pub proof fn lemma_count_pending_le(sv: Seq<StepV>, v: u64, w: u64)
    requires
        v <= w,
    ensures
        count_pending(sv, w) <= count_pending(sv, v),
    decreases sv.len(),
{
    if sv.len() > 0 {
        lemma_count_pending_le(sv.drop_last(), v, w);
    }
}

/// Raising the marker to the version of a pending step strictly shrinks
/// the pending count.
pub proof fn lemma_count_pending_lt(sv: Seq<StepV>, cur: u64, s: StepV)
    requires
        sv.contains(s),
        s.version > cur,
    ensures
        count_pending(sv, s.version) < count_pending(sv, cur),
    decreases sv.len(),
{
    let i = choose|i: int| 0 <= i < sv.len() && sv[i] == s;
    let rest = sv.drop_last();
    assert(forall|j: int| 0 <= j < rest.len() ==> rest[j] == sv[j]);
    if i == sv.len() - 1 {
        assert(sv.last() == s);
        lemma_count_pending_le(rest, cur, s.version);
    } else {
        assert(rest[i] == s);
        assert(rest.contains(s));
        lemma_count_pending_lt(rest, cur, s);
    }
}

/// Result of applying one step's table definitions, in list order, to an
/// existing set of tables: the new set, or the name of the first table
/// whose already-present shape conflicts.
pub open spec fn apply_defs(tables: Seq<TableDefV>, defs: Seq<TableDefV>) -> Result<
    Seq<TableDefV>,
    Seq<char>,
>
    decreases defs.len(),
{
    if defs.len() == 0 {
        Ok(tables)
    } else {
        let d = defs[0];
        if has_table(tables, d.name) {
            if table_named(tables, d.name) == d {
                apply_defs(tables, defs.drop_first())
            } else {
                Err(d.name)
            }
        } else {
            apply_defs(tables.push(d), defs.drop_first())
        }
    }
}

/// Why and where a run stopped early.
#[verifier::ext_equal]
pub struct StepFailureV {
    pub version: u64,
    pub table: Seq<char>,
}

/// What a run of the engine leaves behind: the version marker, the
/// tables, and the failure that stopped it, if any.
#[verifier::ext_equal]
pub struct RunOutcome {
    pub version: u64,
    pub tables: Seq<TableDefV>,
    pub failure: Option<StepFailureV>,
}

/// The meaning of applying a plan from marker `cur` over `tables`:
/// repeatedly take the pending step of least version; apply its table
/// definitions atomically; advance the marker on success, stop with the
/// failure and the pre-step state on conflict. Depends only on which
/// steps `sv` holds, never on their order.
pub open spec fn run_plan(cur: u64, tables: Seq<TableDefV>, sv: Seq<StepV>) -> RunOutcome
    decreases count_pending(sv, cur),
        via run_plan_decreases
{
    if !pending(sv, cur) {
        RunOutcome { version: cur, tables, failure: None }
    } else {
        let s = next_step(sv, cur);
        match apply_defs(tables, s.tables) {
            Ok(t2) => run_plan(s.version, t2, sv),
            Err(name) => RunOutcome {
                version: cur,
                tables,
                failure: Some(StepFailureV { version: s.version, table: name }),
            },
        }
    }
}

#[via_fn]
proof fn run_plan_decreases(cur: u64, tables: Seq<TableDefV>, sv: Seq<StepV>) {
    if pending(sv, cur) {
        lemma_min_pending_exists(sv, cur);
        let s = next_step(sv, cur);
        assert(is_next_step(sv, cur, s));
        lemma_count_pending_lt(sv, cur, s);
    }
}

/// The marker never decreases, and a finished run dominates every step
/// version of the plan.
pub proof fn lemma_run_plan_version_bounds(cur: u64, tables: Seq<TableDefV>, sv: Seq<StepV>)
    ensures
        run_plan(cur, tables, sv).version >= cur,
        run_plan(cur, tables, sv).failure is None ==> forall|i: int|
            0 <= i < sv.len() ==> (#[trigger] sv[i]).version <= run_plan(cur, tables, sv).version,
    decreases count_pending(sv, cur),
{
    if pending(sv, cur) {
        lemma_min_pending_exists(sv, cur);
        let s = next_step(sv, cur);
        assert(is_next_step(sv, cur, s));
        lemma_count_pending_lt(sv, cur, s);
        match apply_defs(tables, s.tables) {
            Ok(t2) => {
                lemma_run_plan_version_bounds(s.version, t2, sv);
                let out = run_plan(cur, tables, sv);
                if out.failure is None {
                    assert forall|i: int| 0 <= i < sv.len() implies (#[trigger] sv[i]).version
                        <= out.version by {
                        if sv[i].version > s.version {
                            assert(sv.contains(sv[i]));
                        }
                    }
                }
            },
            Err(name) => {},
        }
    }
}

/// Idempotent re-apply: once a plan has run to completion, running the
/// same plan again from the outcome's marker performs no structural
/// change and leaves the marker where it was.
pub proof fn lemma_reapply_is_noop(cur: u64, tables: Seq<TableDefV>, sv: Seq<StepV>)
    requires
        run_plan(cur, tables, sv).failure is None,
    ensures
        run_plan(
            run_plan(cur, tables, sv).version,
            run_plan(cur, tables, sv).tables,
            sv,
        ) == run_plan(cur, tables, sv),
{
    let out = run_plan(cur, tables, sv);
    lemma_run_plan_version_bounds(cur, tables, sv);
    assert(!pending(sv, out.version));
    assert(run_plan(out.version, out.tables, sv) =~= out);
}

/// Step atomicity, seen from a retry: a failed run leaves a state in
/// which running the same plan again finds no half-applied structure —
/// it reaches the same step and reproduces exactly the same failure,
/// changing nothing.
pub proof fn lemma_failed_run_is_stable(cur: u64, tables: Seq<TableDefV>, sv: Seq<StepV>)
    requires
        run_plan(cur, tables, sv).failure is Some,
    ensures
        run_plan(
            run_plan(cur, tables, sv).version,
            run_plan(cur, tables, sv).tables,
            sv,
        ) == run_plan(cur, tables, sv),
    decreases count_pending(sv, cur),
{
    assert(pending(sv, cur));
    lemma_min_pending_exists(sv, cur);
    let s = next_step(sv, cur);
    assert(is_next_step(sv, cur, s));
    lemma_count_pending_lt(sv, cur, s);
    match apply_defs(tables, s.tables) {
        Ok(t2) => {
            lemma_failed_run_is_stable(s.version, t2, sv);
        },
        Err(name) => {},
    }
}

/// Order invariance: two duplicate-free plans holding the same steps
/// (in any order) run to the same outcome from any starting state.
pub proof fn lemma_order_irrelevant(cur: u64, tables: Seq<TableDefV>, a: Seq<StepV>, b: Seq<StepV>)
    requires
        distinct_versions(a),
        distinct_versions(b),
        a.to_multiset() == b.to_multiset(),
    ensures
        run_plan(cur, tables, a) == run_plan(cur, tables, b),
    decreases count_pending(a, cur),
{
    broadcast use vstd::seq_lib::group_to_multiset_ensures;

    assert forall|s: StepV| a.contains(s) <==> b.contains(s) by {
        assert(a.contains(s) <==> a.to_multiset().count(s) > 0);
        assert(b.contains(s) <==> b.to_multiset().count(s) > 0);
    }
    if pending(a, cur) {
        let wi = choose|i: int| 0 <= i < a.len() && (#[trigger] a[i]).version > cur;
        assert(a.contains(a[wi]));
        assert(b.contains(a[wi]));
        let wj = choose|j: int| 0 <= j < b.len() && b[j] == a[wi];
        assert(pending(b, cur));
        lemma_min_pending_exists(a, cur);
        lemma_min_pending_exists(b, cur);
        let sa = next_step(a, cur);
        let sb = next_step(b, cur);
        assert(is_next_step(a, cur, sa));
        assert(is_next_step(b, cur, sb));
        assert(is_next_step(b, cur, sa)) by {
            assert forall|j: int| 0 <= j < b.len() && (#[trigger] b[j]).version > cur implies
                sa.version <= b[j].version by {
                assert(b.contains(b[j]));
                assert(a.contains(b[j]));
                let k = choose|k: int| 0 <= k < a.len() && a[k] == b[j];
                assert(a[k].version > cur);
            }
        }
        lemma_next_step_unique(b, cur, sa, sb);
        lemma_count_pending_lt(a, cur, sa);
        match apply_defs(tables, sa.tables) {
            Ok(t2) => {
                lemma_order_irrelevant(sa.version, t2, a, b);
            },
            Err(name) => {},
        }
    } else {
        assert(!pending(b, cur)) by {
            if pending(b, cur) {
                let j = choose|j: int| 0 <= j < b.len() && (#[trigger] b[j]).version > cur;
                assert(b.contains(b[j]));
                assert(a.contains(b[j]));
                let k = choose|k: int| 0 <= k < a.len() && a[k] == b[j];
                assert(a[k].version > cur);
                assert(pending(a, cur));
            }
        }
        assert(run_plan(cur, tables, a) =~= run_plan(cur, tables, b));
    }
}

/// Index of the table named `name`, if any.
fn find_table(tables: &Vec<TableDef>, name: &String) -> (r: Option<usize>)
    ensures
        match r {
            Some(i) => i < tables@.len() && defs_view(tables@)[i as int].name == name@,
            None => !has_table(defs_view(tables@), name@),
        },
{
    let mut i: usize = 0;
    while i < tables.len()
        invariant
            i <= tables@.len(),
            forall|j: int| 0 <= j < i ==> defs_view(tables@)[j].name != name@,
        decreases tables@.len() - i,
    {
        assert(defs_view(tables@)[i as int] == tables@[i as int]@);
        if tables[i].name == *name {
            return Some(i);
        }
        i += 1;
    }
    None
}

/// Applies one step's table definitions to `tables`: creates each listed
/// table unless one of the same name and shape is already there; on a
/// conflicting shape, rolls every addition of this step back and reports
/// the offending table's name. Exactly the spec function [`apply_defs`].
fn apply_step_tables(tables: &mut Vec<TableDef>, defs: &Vec<TableDef>) -> (r: Result<(), String>)
    requires
        distinct_table_names(defs_view(old(tables)@)),
    ensures
        distinct_table_names(defs_view(final(tables)@)),
        match apply_defs(defs_view(old(tables)@), defs_view(defs@)) {
            Ok(t) => r is Ok && defs_view(final(tables)@) == t,
            Err(n) => {
                &&& r matches Err(m) && m@ == n
                &&& final(tables)@ == old(tables)@
            },
        },
{
    let orig_len = tables.len();
    let ghost orig = defs_view(tables@);
    let ghost dv = defs_view(defs@);
    assert(dv.skip(0) =~= dv);
    let mut i: usize = 0;
    while i < defs.len()
        invariant
            i <= defs@.len(),
            dv == defs_view(defs@),
            orig == defs_view(old(tables)@),
            orig_len == old(tables)@.len(),
            orig_len <= tables@.len(),
            forall|j: int| 0 <= j < orig_len ==> tables@[j] == old(tables)@[j],
            distinct_table_names(orig),
            distinct_table_names(defs_view(tables@)),
            apply_defs(orig, dv) == apply_defs(defs_view(tables@), dv.skip(i as int)),
        decreases defs@.len() - i,
    {
        let ghost cur = defs_view(tables@);
        let d = &defs[i];
        proof {
            assert(dv[i as int] == defs@[i as int]@);
            assert(dv.skip(i as int)[0] == dv[i as int]);
            assert(dv.skip(i as int).drop_first() =~= dv.skip(i as int + 1));
        }
        match find_table(tables, &d.name) {
            Some(ti) => {
                proof {
                    lemma_table_named_at(cur, ti as int);
                }
                if table_def_eq(&tables[ti], d) {
                    assert(table_named(cur, d@.name) == d@);
                } else {
                    assert(apply_defs(orig, dv) == Err::<Seq<TableDefV>, Seq<char>>(d@.name));
                    tables.truncate(orig_len);
                    proof {
                        assert(tables@ =~= old(tables)@);
                    }
                    return Err(d.name.clone());
                }
            },
            None => {
                tables.push(clone_table_def(d));
                proof {
                    assert(defs_view(tables@) =~= cur.push(dv[i as int]));
                    assert forall|x: int, y: int|
                        0 <= x < y < defs_view(tables@).len() implies (#[trigger] defs_view(
                        tables@,
                    )[x]).name != (#[trigger] defs_view(tables@)[y]).name by {
                        if y == defs_view(tables@).len() - 1 {
                            assert(!has_table(cur, dv[i as int].name));
                            assert(cur[x].name != dv[i as int].name);
                        }
                    }
                }
            },
        }
        i += 1;
    }
    assert(dv.skip(i as int) =~= Seq::<TableDefV>::empty());
    Ok(())
}

/// The run-time schema state of the store file: the persisted version
/// marker and the tables currently present.
pub struct SchemaState {
    pub version: u64,
    pub tables: Vec<TableDef>,
}

/// Mathematical view of a `SchemaState`.
#[verifier::ext_equal]
pub struct SchemaStateV {
    pub version: u64,
    pub tables: Seq<TableDefV>,
}

impl View for SchemaState {
    type V = SchemaStateV;

    open spec fn view(&self) -> SchemaStateV {
        SchemaStateV { version: self.version, tables: defs_view(self.tables@) }
    }
}

impl SchemaState {
    /// Well-formedness: no two tables share a name.
    pub open spec fn wf(&self) -> bool {
        distinct_table_names(self@.tables)
    }

    /// A freshly created store: version marker 0, no tables yet.
    pub fn new() -> (s: SchemaState)
        ensures
            s.wf(),
            s@.version == 0,
            s@.tables == Seq::<TableDefV>::empty(),
    {
        let s = SchemaState { version: 0, tables: Vec::new() };
        proof {
            assert(s@.tables =~= Seq::<TableDefV>::empty());
        }
        s
    }

    /// The currently applied schema version.
    pub fn version(&self) -> (v: u64)
        ensures
            v == self@.version,
    {
        self.version
    }

    /// How many tables the schema currently holds.
    pub fn table_count(&self) -> (n: usize)
        ensures
            n == self@.tables.len(),
    {
        self.tables.len()
    }

    /// Whether a table named `name` is currently present.
    pub fn has_table(&self, name: &String) -> (r: bool)
        ensures
            r == has_table(self@.tables, name@),
    {
        match find_table(&self.tables, name) {
            Some(i) => {
                proof {
                    assert(self@.tables[i as int].name == name@);
                }
                true
            },
            None => false,
        }
    }

    /// Applies every step of `plan` whose version exceeds the current
    /// marker, in ascending version order regardless of the plan's list
    /// order. Each step is atomic; after a step completes, the marker
    /// advances to its version before the next step runs, so a failure
    /// leaves the marker at exactly the last completed step. The whole
    /// run is the spec function [`run_plan`]; duplicate versions are
    /// rejected before anything runs.
    pub fn apply(&mut self, plan: &Vec<Step>) -> (r: Result<u64, Error>)
        requires
            old(self).wf(),
        ensures
            final(self).wf(),
            final(self)@.version >= old(self)@.version,
            ({
                let pv = steps_view(plan@);
                let out = run_plan(old(self)@.version, old(self)@.tables, pv);
                match r {
                    Ok(v) => {
                        &&& distinct_versions(pv)
                        &&& out.failure is None
                        &&& v == out.version
                        &&& final(self)@.version == out.version
                        &&& final(self)@.tables == out.tables
                    },
                    Err(e) => match e {
                        Error::DuplicateVersion(v) => {
                            &&& !distinct_versions(pv)
                            &&& exists|i: int, j: int|
                                0 <= i < j < pv.len() && (#[trigger] pv[i]).version == v && (
                                #[trigger] pv[j]).version == v
                            &&& final(self)@ == old(self)@
                        },
                        Error::StepExecutionFailed { version, table } => {
                            &&& distinct_versions(pv)
                            &&& out.failure == Some(StepFailureV { version, table: table@ })
                            &&& final(self)@.version == out.version
                            &&& final(self)@.tables == out.tables
                        },
                        Error::ConstraintViolation { .. } => false,
                    },
                }
            }),
    {
        let ghost pv = steps_view(plan@);
        let n = plan.len();
        let mut i: usize = 0;
        while i < n
            invariant
                self@ == old(self)@,
                self.wf(),
                pv == steps_view(plan@),
                n == plan@.len(),
                i <= n,
                forall|x: int, y: int|
                    0 <= x < y < pv.len() && x < i ==> (#[trigger] pv[x]).version != (
                    #[trigger] pv[y]).version,
            decreases n - i,
        {
            let mut j: usize = i + 1;
            while j < n
                invariant
                    self@ == old(self)@,
                    self.wf(),
                    pv == steps_view(plan@),
                    n == plan@.len(),
                    i < n,
                    i < j <= n,
                    forall|y: int| i < y < j ==> pv[i as int].version != (#[trigger] pv[y]).version,
                decreases n - j,
            {
                proof {
                    assert(pv[i as int] == plan@[i as int]@);
                    assert(pv[j as int] == plan@[j as int]@);
                }
                if plan[i].version == plan[j].version {
                    return Err(Error::DuplicateVersion(plan[i].version));
                }
                j += 1;
            }
            i += 1;
        }
        assert(distinct_versions(pv));
        loop
            invariant
                pv == steps_view(plan@),
                n == plan@.len(),
                distinct_versions(pv),
                self.wf(),
                self@.version >= old(self)@.version,
                run_plan(old(self)@.version, old(self)@.tables, pv) == run_plan(
                    self@.version,
                    self@.tables,
                    pv,
                ),
            decreases count_pending(pv, self@.version),
        {
            let cur = self.version;
            let mut best: Option<usize> = None;
            let mut k: usize = 0;
            while k < n
                invariant
                    pv == steps_view(plan@),
                    n == plan@.len(),
                    k <= n,
                    cur == self@.version,
                    match best {
                        Some(b) => b < n && pv[b as int].version > cur && forall|j: int|
                            0 <= j < k && (#[trigger] pv[j]).version > cur ==> pv[b as int].version
                                <= pv[j].version,
                        None => forall|j: int| 0 <= j < k ==> (#[trigger] pv[j]).version <= cur,
                    },
                decreases n - k,
            {
                proof {
                    assert(pv[k as int] == plan@[k as int]@);
                }
                if plan[k].version > cur {
                    match best {
                        Some(b) => {
                            if plan[k].version < plan[b].version {
                                best = Some(k);
                            }
                        },
                        None => {
                            best = Some(k);
                        },
                    }
                }
                k += 1;
            }
            match best {
                None => {
                    proof {
                        assert(!pending(pv, cur));
                        assert(run_plan(cur, self@.tables, pv) =~= RunOutcome {
                            version: cur,
                            tables: self@.tables,
                            failure: None,
                        });
                    }
                    return Ok(cur);
                },
                Some(b) => {
                    proof {
                        assert(pv[b as int] == plan@[b as int]@);
                        assert(pv.contains(pv[b as int]));
                        assert(is_next_step(pv, cur, pv[b as int]));
                        lemma_min_pending_exists(pv, cur);
                        assert(is_next_step(pv, cur, next_step(pv, cur)));
                        lemma_next_step_unique(pv, cur, next_step(pv, cur), pv[b as int]);
                        lemma_count_pending_lt(pv, cur, pv[b as int]);
                    }
                    let step_version = plan[b].version;
                    let res = apply_step_tables(&mut self.tables, &plan[b].tables);
                    match res {
                        Ok(()) => {
                            self.version = step_version;
                        },
                        Err(name) => {
                            return Err(
                                Error::StepExecutionFailed { version: step_version, table: name },
                            );
                        },
                    }
                },
            }
        }
    }
}

/// View of the first shipped step: the initial user, message, contact
/// and token tables.
pub open spec fn step_one_v() -> StepV {
    StepV {
        version: 1,
        description: "create_initial_tables"@,
        tables: seq![
            crate::schema::users_table_v(),
            crate::schema::messages_table_v(),
            crate::schema::contacts_table_v(),
            crate::schema::auth_tokens_table_v(),
        ],
    }
}

/// View of the second shipped step: the group tables.
pub open spec fn step_two_v() -> StepV {
    StepV {
        version: 2,
        description: "create_group_tables"@,
        tables: seq![
            crate::schema::groups_table_v(),
            crate::schema::group_members_table_v(),
            crate::schema::group_contacts_table_v(),
            crate::schema::group_messages_table_v(),
        ],
    }
}

/// View of the shipped migration plan: both steps, in version order.
pub open spec fn plan_v() -> Seq<StepV> {
    seq![step_one_v(), step_two_v()]
}

/// The shipped migration plan. Shipped steps are immutable: any schema
/// correction must arrive as a new, higher-versioned step.
pub fn plan() -> (p: Vec<Step>)
    ensures
        steps_view(p@) == plan_v(),
{
    let mut t1: Vec<TableDef> = Vec::new();
    t1.push(crate::schema::users_table());
    t1.push(crate::schema::messages_table());
    t1.push(crate::schema::contacts_table());
    t1.push(crate::schema::auth_tokens_table());
    let s1 = Step { version: 1, description: "create_initial_tables".to_string(), tables: t1 };
    let mut t2: Vec<TableDef> = Vec::new();
    t2.push(crate::schema::groups_table());
    t2.push(crate::schema::group_members_table());
    t2.push(crate::schema::group_contacts_table());
    t2.push(crate::schema::group_messages_table());
    let s2 = Step { version: 2, description: "create_group_tables".to_string(), tables: t2 };
    let mut p: Vec<Step> = Vec::new();
    p.push(s1);
    p.push(s2);
    proof {
        assert(steps_view(p@)[0].tables =~= step_one_v().tables);
        assert(steps_view(p@)[1].tables =~= step_two_v().tables);
        assert(steps_view(p@)[0] =~= step_one_v());
        assert(steps_view(p@)[1] =~= step_two_v());
        assert(steps_view(p@) =~= plan_v());
    }
    p
}

/// The table set a fully migrated store holds: the eight shipped
/// tables, in creation order.
pub open spec fn shipped_tables_v() -> Seq<TableDefV> {
    seq![
        crate::schema::users_table_v(),
        crate::schema::messages_table_v(),
        crate::schema::contacts_table_v(),
        crate::schema::auth_tokens_table_v(),
        crate::schema::groups_table_v(),
        crate::schema::group_members_table_v(),
        crate::schema::group_contacts_table_v(),
        crate::schema::group_messages_table_v(),
    ]
}

/// Running the shipped plan on a fresh store succeeds, leaves the
/// marker at version 2, and provisions exactly the eight shipped
/// tables.
pub proof fn lemma_shipped_plan_succeeds()
    ensures
        run_plan(0, Seq::<TableDefV>::empty(), plan_v()).failure is None,
        run_plan(0, Seq::<TableDefV>::empty(), plan_v()).version == 2,
        run_plan(0, Seq::<TableDefV>::empty(), plan_v()).tables == shipped_tables_v(),
{
    reveal_strlit("users");
    reveal_strlit("messages");
    reveal_strlit("contacts");
    reveal_strlit("auth_tokens");
    reveal_strlit("groups");
    reveal_strlit("group_members");
    reveal_strlit("group_contacts");
    reveal_strlit("group_messages");
    let pv = plan_v();
    let s1 = step_one_v();
    let s2 = step_two_v();
    assert(distinct_versions(pv));

    // Step one is the least pending step at marker 0.
    assert(pv[0] == s1);
    assert(pv.contains(s1));
    assert(pending(pv, 0));
    assert(is_next_step(pv, 0, s1));
    lemma_min_pending_exists(pv, 0);
    lemma_next_step_unique(pv, 0, next_step(pv, 0), s1);
    assert(next_step(pv, 0) == s1);

    // The eight table names are pairwise distinct: all lengths differ
    // but two pairs, and those differ in an early character.
    assert("users"@.len() == 5);
    assert("messages"@.len() == 8);
    assert("contacts"@.len() == 8);
    assert("auth_tokens"@.len() == 11);
    assert("groups"@.len() == 6);
    assert("group_members"@.len() == 13);
    assert("group_contacts"@.len() == 14);
    assert("group_messages"@.len() == 14);
    assert("messages"@[0] == 'm');
    assert("contacts"@[0] == 'c');
    assert("group_contacts"@[6] == 'c');
    assert("group_messages"@[6] == 'm');

    // Its four tables go down on the empty set without conflict.
    let t0 = Seq::<TableDefV>::empty();
    let d1 = s1.tables;
    assert(d1[0].name == "users"@);
    assert(d1[1].name == "messages"@);
    assert(d1[2].name == "contacts"@);
    assert(d1[3].name == "auth_tokens"@);
    let ta = t0.push(d1[0]);
    let tb = ta.push(d1[1]);
    let tc = tb.push(d1[2]);
    let td = tc.push(d1[3]);
    assert(ta[0] == d1[0] && tb[0] == d1[0] && tc[0] == d1[0] && td[0] == d1[0]);
    assert(tb[1] == d1[1] && tc[1] == d1[1] && td[1] == d1[1]);
    assert(tc[2] == d1[2] && td[2] == d1[2]);
    assert(td[3] == d1[3]);
    assert(!has_table(t0, d1[0].name));
    assert(!has_table(ta, d1[1].name));
    assert(!has_table(tb, d1[2].name));
    assert(!has_table(tc, d1[3].name));
    assert(d1.len() == 4);
    assert(d1.drop_first().drop_first().drop_first().drop_first() =~= Seq::<TableDefV>::empty());
    assert(d1.drop_first().drop_first().drop_first()[0] == d1[3]);
    assert(d1.drop_first().drop_first()[0] == d1[2]);
    assert(d1.drop_first()[0] == d1[1]);
    assert(apply_defs(td, d1.drop_first().drop_first().drop_first().drop_first())
        == Ok::<Seq<TableDefV>, Seq<char>>(td));
    assert(apply_defs(tc, d1.drop_first().drop_first().drop_first()) == apply_defs(
        td,
        d1.drop_first().drop_first().drop_first().drop_first(),
    ));
    assert(apply_defs(tb, d1.drop_first().drop_first()) == apply_defs(
        tc,
        d1.drop_first().drop_first().drop_first(),
    ));
    assert(apply_defs(ta, d1.drop_first()) == apply_defs(tb, d1.drop_first().drop_first()));
    assert(apply_defs(t0, d1) == apply_defs(ta, d1.drop_first()));
    assert(apply_defs(t0, d1) == Ok::<Seq<TableDefV>, Seq<char>>(td));

    // Step two is the least pending step at marker 1.
    assert(pv[1] == s2);
    assert(pv.contains(s2));
    assert(pending(pv, 1));
    assert(is_next_step(pv, 1, s2));
    lemma_min_pending_exists(pv, 1);
    lemma_next_step_unique(pv, 1, next_step(pv, 1), s2);
    assert(next_step(pv, 1) == s2);

    // Its four tables conflict with none of the first four.
    let d2 = s2.tables;
    assert(d2[0].name == "groups"@);
    assert(d2[1].name == "group_members"@);
    assert(d2[2].name == "group_contacts"@);
    assert(d2[3].name == "group_messages"@);
    let te = td.push(d2[0]);
    let tf = te.push(d2[1]);
    let tg = tf.push(d2[2]);
    let th = tg.push(d2[3]);
    assert(te[0] == d1[0] && te[1] == d1[1] && te[2] == d1[2] && te[3] == d1[3] && te[4] == d2[0]);
    assert(tf[0] == d1[0] && tf[1] == d1[1] && tf[2] == d1[2] && tf[3] == d1[3] && tf[4] == d2[0]
        && tf[5] == d2[1]);
    assert(tg[0] == d1[0] && tg[1] == d1[1] && tg[2] == d1[2] && tg[3] == d1[3] && tg[4] == d2[0]
        && tg[5] == d2[1] && tg[6] == d2[2]);
    assert(th[0] == d1[0] && th[1] == d1[1] && th[2] == d1[2] && th[3] == d1[3] && th[4] == d2[0]
        && th[5] == d2[1] && th[6] == d2[2] && th[7] == d2[3]);
    assert(!has_table(td, d2[0].name));
    assert(!has_table(te, d2[1].name));
    assert(!has_table(tf, d2[2].name));
    assert(!has_table(tg, d2[3].name));
    assert(d2.len() == 4);
    assert(d2.drop_first().drop_first().drop_first().drop_first() =~= Seq::<TableDefV>::empty());
    assert(d2.drop_first().drop_first().drop_first()[0] == d2[3]);
    assert(d2.drop_first().drop_first()[0] == d2[2]);
    assert(d2.drop_first()[0] == d2[1]);
    assert(apply_defs(th, d2.drop_first().drop_first().drop_first().drop_first())
        == Ok::<Seq<TableDefV>, Seq<char>>(th));
    assert(apply_defs(tg, d2.drop_first().drop_first().drop_first()) == apply_defs(
        th,
        d2.drop_first().drop_first().drop_first().drop_first(),
    ));
    assert(apply_defs(tf, d2.drop_first().drop_first()) == apply_defs(
        tg,
        d2.drop_first().drop_first().drop_first(),
    ));
    assert(apply_defs(te, d2.drop_first()) == apply_defs(tf, d2.drop_first().drop_first()));
    assert(apply_defs(td, d2) == apply_defs(te, d2.drop_first()));
    assert(apply_defs(td, d2) == Ok::<Seq<TableDefV>, Seq<char>>(th));

    // Nothing is pending at marker 2, so the run ends there.
    assert(!pending(pv, 2));
    assert(run_plan(2, th, pv) == RunOutcome { version: 2, tables: th, failure: None });
    assert(run_plan(1, td, pv) == run_plan(2, th, pv));
    assert(run_plan(0, t0, pv) == run_plan(1, td, pv));
    assert(th =~= shipped_tables_v());
}

} // verus!
