//! The usage filter: partitions the export graph into the used view and the
//! unused-identifier set against a read-only usage oracle snapshot.

use vstd::prelude::*;

use crate::export_graph::CssExport;
use crate::export_graph::CssExportView;
use crate::export_graph::CssExports;
use crate::export_graph::ExportEntry;
use crate::export_graph::ExportEntryView;
use crate::export_graph::GraphView;
use crate::text::unescape;
use crate::text::unescape_seq;

verus! {

/// Export-usage states the whole-program analysis reports.
#[derive(Debug, Clone, Copy, PartialEq, Eq, Structural)]
pub enum UsageState {
    Unused,
    OnlyPropertiesUsed,
    NoInfo,
    Unknown,
    Used,
}

/// A read-only snapshot of the usage oracle's answers for one module under
/// one requested runtime: export name to usage state.  A name without an
/// entry has no usage information and is conservatively treated as used.
#[derive(Debug)]
pub struct UsageOracle {
    pub entries: Vec<(String, UsageState)>,
}

/// View of an oracle snapshot.
pub type OracleView = Seq<(String, UsageState)>;

impl View for UsageOracle {
    type V = OracleView;

    open spec fn view(&self) -> OracleView {
        self.entries@
    }
}

/// The state the oracle reports for `name`, if any: the first entry wins.
pub open spec fn oracle_lookup(o: OracleView, name: Seq<char>) -> Option<UsageState>
    decreases o.len(),
{
    if o.len() == 0 {
        None
    } else if o[0].0@ == name {
        Some(o[0].1)
    } else {
        oracle_lookup(o.skip(1), name)
    }
}

/// Whether the oracle positively reports `name` as unused.  Missing
/// information counts as used.
pub open spec fn oracle_unused(o: OracleView, name: Seq<char>) -> bool {
    oracle_lookup(o, name) == Some(UsageState::Unused)
}

impl UsageOracle {
    /// Looks up the usage state recorded for `name`.
    pub fn lookup(&self, name: &String) -> (r: Option<UsageState>)
        ensures
            r == oracle_lookup(self@, name@),
    {
        let n = self.entries.len();
        let ghost o = self@;
        let mut i: usize = 0;
        proof {
            assert(o.skip(0) =~= o);
        }
        while i < n
            invariant
                i <= n,
                n == self@.len(),
                o == self@,
                oracle_lookup(o, name@) == oracle_lookup(o.skip(i as int), name@),
            decreases n - i,
        {
            proof {
                assert(o.skip(i as int)[0] == o[i as int]);
                assert(o.skip(i as int).skip(1) =~= o.skip(i as int + 1));
            }
            if self.entries[i].0 == *name {
                return Some(self.entries[i].1);
            }
            i = i + 1;
        }
        proof {
            assert(o.skip(n as int) =~= Seq::<(String, UsageState)>::empty());
        }
        None
    }
}

/// The used view of the graph: the entries whose names the oracle does not
/// report as unused, in graph order.
pub open spec fn spec_used(g: GraphView, o: OracleView) -> GraphView
    decreases g.len(),
{
    if g.len() == 0 {
        Seq::empty()
    } else {
        let rest = spec_used(g.skip(1), o);
        if !oracle_unused(o, g[0].name) {
            seq![g[0]] + rest
        } else {
            rest
        }
    }
}

/// Keeps the `(name, set)` pairs whose export name the oracle does not
/// report `Unused` (missing information counts as used); graph order is
/// preserved.
pub fn get_used_exports(exports: &CssExports, oracle: &UsageOracle) -> (r: Vec<ExportEntry>)
    ensures
        r@.map_values(|e: ExportEntry| e@) == spec_used(exports@, oracle@),
{
    let ghost g = exports@;
    let n = exports.len();
    let mut r: Vec<ExportEntry> = Vec::new();
    let mut i: usize = 0;
    proof {
        assert(g.skip(0) =~= g);
        assert(Seq::<ExportEntryView>::empty() + spec_used(g, oracle@) =~= spec_used(g, oracle@));
    }
    while i < n
        invariant
            i <= n,
            n == exports@.len(),
            g == exports@,
            spec_used(g, oracle@) == r@.map_values(|e: ExportEntry| e@) + spec_used(
                g.skip(i as int),
                oracle@,
            ),
        decreases n - i,
    {
        proof {
            assert(g.skip(i as int)[0] == g[i as int]);
            assert(g.skip(i as int).skip(1) =~= g.skip(i as int + 1));
        }
        let name = exports.name_at(i);
        let unused = match oracle.lookup(&name) {
            Some(UsageState::Unused) => true,
            _ => false,
        };
        if !unused {
            let records = exports.records_snapshot(i);
            let entry = ExportEntry { name, records };
            proof {
                assert(entry@ =~~= g[i as int]);
                assert((r@.map_values(|e: ExportEntry| e@)).push(entry@) + spec_used(
                    g.skip(i as int + 1),
                    oracle@,
                ) =~= r@.map_values(|e: ExportEntry| e@) + (seq![g[i as int]] + spec_used(
                    g.skip(i as int + 1),
                    oracle@,
                )));
            }
            let ghost rprev = r@.map_values(|e: ExportEntry| e@);
            r.push(entry);
            proof {
                assert(r@.map_values(|e: ExportEntry| e@) =~= rprev.push(g[i as int]));
            }
        }
        i = i + 1;
    }
    proof {
        assert(g.skip(n as int) =~= Seq::<ExportEntryView>::empty());
        assert(r@.map_values(|e: ExportEntry| e@) + Seq::<ExportEntryView>::empty()
            =~= r@.map_values(|e: ExportEntry| e@));
    }
    r
}

/// The raw identifier strings handed to the dead-code consumer.
#[derive(Debug)]
pub struct CodeGenerationDataUnusedLocalIdent {
    pub idents: Vec<String>,
}

/// Adds a string to an ordered set unless it is already present.
pub open spec fn seq_insert_unique(s: Seq<Seq<char>>, x: Seq<char>) -> Seq<Seq<char>> {
    if s.contains(x) {
        s
    } else {
        s.push(x)
    }
}

/// Folds the unescaped identifiers of a record set into the accumulator.
pub open spec fn unused_idents_of_records(
    acc: Seq<Seq<char>>,
    recs: Seq<CssExportView>,
) -> Seq<Seq<char>>
    decreases recs.len(),
{
    if recs.len() == 0 {
        acc
    } else {
        unused_idents_of_records(seq_insert_unique(acc, unescape_seq(recs[0].ident)), recs.skip(1))
    }
}

/// The deduplicated, unescaped identifiers of every record whose export
/// name the oracle reports unused, in first-seen order.
pub open spec fn spec_unused_idents(acc: Seq<Seq<char>>, g: GraphView, o: OracleView) -> Seq<
    Seq<char>,
>
    decreases g.len(),
{
    if g.len() == 0 {
        acc
    } else {
        let acc2 = if oracle_unused(o, g[0].name) {
            unused_idents_of_records(acc, g[0].records)
        } else {
            acc
        };
        spec_unused_idents(acc2, g.skip(1), o)
    }
}

/// Whether the string set already holds `x`.
fn vec_contains_string(v: &Vec<String>, x: &String) -> (r: bool)
    ensures
        r == v@.map_values(|s: String| s@).contains(x@),
{
    let n = v.len();
    let mut i: usize = 0;
    while i < n
        invariant
            i <= n,
            n == v@.len(),
            forall|k: int| 0 <= k < i ==> (#[trigger] v@[k])@ != x@,
        decreases n - i,
    {
        if v[i] == *x {
            assert(v@.map_values(|s: String| s@)[i as int] == x@);
            return true;
        }
        i = i + 1;
    }
    proof {
        let m = v@.map_values(|s: String| s@);
        if m.contains(x@) {
            let k = choose|k: int| 0 <= k < m.len() && #[trigger] m[k] == x@;
            assert(m[k] == v@[k]@);
            assert(false);
        }
    }
    false
}

/// Collects, de-escaped and deduplicated, the raw identifier strings of
/// every record whose export name the oracle reports `Unused`.
pub fn get_unused_local_ident(
    exports: &CssExports,
    oracle: &UsageOracle,
) -> (r: CodeGenerationDataUnusedLocalIdent)
    ensures
        r.idents@.map_values(|s: String| s@) == spec_unused_idents(
            Seq::empty(),
            exports@,
            oracle@,
        ),
{
    let ghost g = exports@;
    let n = exports.len();
    let mut idents: Vec<String> = Vec::new();
    let mut i: usize = 0;
    proof {
        assert(g.skip(0) =~= g);
        assert(idents@.map_values(|s: String| s@) =~= Seq::<Seq<char>>::empty());
    }
    while i < n
        invariant
            i <= n,
            n == exports@.len(),
            g == exports@,
            spec_unused_idents(Seq::empty(), g, oracle@) == spec_unused_idents(
                idents@.map_values(|s: String| s@),
                g.skip(i as int),
                oracle@,
            ),
        decreases n - i,
    {
        proof {
            assert(g.skip(i as int)[0] == g[i as int]);
            assert(g.skip(i as int).skip(1) =~= g.skip(i as int + 1));
        }
        let name = exports.name_at(i);
        let unused = match oracle.lookup(&name) {
            Some(UsageState::Unused) => true,
            _ => false,
        };
        if unused {
            let m = exports.records_len(i);
            let ghost recs = g[i as int].records;
            let mut j: usize = 0;
            proof {
                assert(recs.skip(0) =~= recs);
            }
            while j < m
                invariant
                    j <= m,
                    i < n,
                    n == exports@.len(),
                    g == exports@,
                    m == g[i as int].records.len(),
                    recs == g[i as int].records,
                    spec_unused_idents(Seq::empty(), g, oracle@) == spec_unused_idents(
                        unused_idents_of_records(
                            idents@.map_values(|s: String| s@),
                            recs.skip(j as int),
                        ),
                        g.skip(i as int + 1),
                        oracle@,
                    ),
                decreases m - j,
            {
                proof {
                    assert(recs.skip(j as int)[0] == recs[j as int]);
                    assert(recs.skip(j as int).skip(1) =~= recs.skip(j as int + 1));
                }
                let rec = exports.record_at(i, j);
                let un = unescape(rec.ident.as_str());
                let dup = vec_contains_string(&idents, &un);
                let ghost before = idents@.map_values(|s: String| s@);
                if !dup {
                    idents.push(un);
                    proof {
                        assert(idents@.map_values(|s: String| s@) =~= before.push(
                            unescape_seq(recs[j as int].ident),
                        ));
                    }
                }
                proof {
                    assert(idents@.map_values(|s: String| s@) =~= seq_insert_unique(
                        before,
                        unescape_seq(recs[j as int].ident),
                    ));
                }
                j = j + 1;
            }
            proof {
                assert(recs.skip(m as int) =~= Seq::<CssExportView>::empty());
            }
        }
        i = i + 1;
    }
    proof {
        assert(g.skip(n as int) =~= Seq::<ExportEntryView>::empty());
    }
    CodeGenerationDataUnusedLocalIdent { idents }
}

} // verus!
