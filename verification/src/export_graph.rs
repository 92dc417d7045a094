//! The per-module export graph: an insertion-ordered mapping from export
//! names to ordered, deduplicated sets of contributing identifier records.
//!
//! Order matters for deterministic output, so the graph is a list of entries
//! with equality-based uniqueness checks rather than a hashed container.

use vstd::prelude::*;
use vstd::string::StringExecFns;

use crate::DependencyId;
use crate::text::camel_case;
use crate::text::camel_case_seq;
use crate::text::dashes_camel;
use crate::text::dashes_camel_seq;

verus! {

/// One underlying identifier contributing to an exported name.  A non-empty
/// `from` means the identifier must be resolved through another module at
/// generation time; `id` then references the compose dependency recorded for
/// that module request.
#[derive(Debug, Clone)]
pub struct CssExport {
    pub ident: String,
    pub from: Option<String>,
    pub id: Option<DependencyId>,
}

/// Character-level view of a [`CssExport`].
#[verifier::ext_equal]
pub struct CssExportView {
    pub ident: Seq<char>,
    pub from: Option<Seq<char>>,
    pub id: Option<DependencyId>,
}

impl View for CssExport {
    type V = CssExportView;

    open spec fn view(&self) -> CssExportView {
        CssExportView {
            ident: self.ident@,
            from: match self.from {
                Some(f) => Some(f@),
                None => None,
            },
            id: self.id,
        }
    }
}

/// One export name together with its ordered set of records.
#[derive(Debug, Clone)]
pub struct ExportEntry {
    pub name: String,
    pub records: Vec<CssExport>,
}

/// View of an entry: the name and the record views, both in order.
#[verifier::ext_equal]
pub struct ExportEntryView {
    pub name: Seq<char>,
    pub records: Seq<CssExportView>,
}

impl View for ExportEntry {
    type V = ExportEntryView;

    open spec fn view(&self) -> ExportEntryView {
        ExportEntryView {
            name: self.name@,
            records: self.records@.map_values(|e: CssExport| e@),
        }
    }
}

/// The export graph: export names in first-seen order, each with its
/// insertion-ordered, deduplicated record set.
#[derive(Debug, Clone)]
pub struct CssExports {
    pub entries: Vec<ExportEntry>,
}

/// View of the whole graph.
pub type GraphView = Seq<ExportEntryView>;

impl View for CssExports {
    type V = GraphView;

    open spec fn view(&self) -> GraphView {
        self.entries@.map_values(|e: ExportEntry| e@)
    }
}

/// Index of the first entry named `name`, or `-1` when there is none.
pub open spec fn key_index(g: GraphView, name: Seq<char>) -> int
    decreases g.len(),
{
    if g.len() == 0 {
        -1
    } else if g[0].name == name {
        0
    } else {
        let r = key_index(g.skip(1), name);
        if r < 0 {
            -1
        } else {
            r + 1
        }
    }
}

/// Whether `name` is a key of the graph.
pub open spec fn graph_has_key(g: GraphView, name: Seq<char>) -> bool {
    key_index(g, name) >= 0
}

/// If the first occurrence of `name` is at `i`, then `key_index` is `i`.
pub proof fn lemma_key_index_is_first(g: GraphView, name: Seq<char>, i: int)
    requires
        0 <= i < g.len(),
        g[i].name == name,
        forall|j: int| 0 <= j < i ==> g[j].name != name,
    ensures
        key_index(g, name) == i,
    decreases g.len(),
{
    if i > 0 {
        assert(g[0].name != name);
        assert(g.skip(1)[i - 1] == g[i]);
        assert forall|j: int| 0 <= j < i - 1 implies g.skip(1)[j].name != name by {
            assert(g.skip(1)[j] == g[j + 1]);
        }
        lemma_key_index_is_first(g.skip(1), name, i - 1);
    }
}

/// If no entry is named `name`, `key_index` is `-1`.
pub proof fn lemma_key_index_absent(g: GraphView, name: Seq<char>)
    requires
        forall|j: int| 0 <= j < g.len() ==> g[j].name != name,
    ensures
        key_index(g, name) == -1,
    decreases g.len(),
{
    if g.len() > 0 {
        assert forall|j: int| 0 <= j < g.skip(1).len() implies g.skip(1)[j].name != name by {
            assert(g.skip(1)[j] == g[j + 1]);
        }
        lemma_key_index_absent(g.skip(1), name);
    }
}

/// Adds a record to an ordered set unless an equal record is already there.
pub open spec fn set_insert(s: Seq<CssExportView>, e: CssExportView) -> Seq<CssExportView> {
    if s.contains(e) {
        s
    } else {
        s.push(e)
    }
}

/// Inserts `e` under `name`: a new singleton entry is appended when `name`
/// is absent, otherwise the existing entry's set is extended.
pub open spec fn graph_insert(g: GraphView, name: Seq<char>, e: CssExportView) -> GraphView {
    let ki = key_index(g, name);
    if ki >= 0 {
        g.update(ki, ExportEntryView { name: g[ki].name, records: set_insert(g[ki].records, e) })
    } else {
        g.push(ExportEntryView { name: name, records: seq![e] })
    }
}

/// Decides view equality of two records.
pub fn export_eq(a: &CssExport, b: &CssExport) -> (r: bool)
    ensures
        r == (a@ == b@),
{
    let ident_eq = a.ident == b.ident;
    let from_eq = match (&a.from, &b.from) {
        (Some(x), Some(y)) => *x == *y,
        (None, None) => true,
        _ => false,
    };
    let id_eq = match (&a.id, &b.id) {
        (Some(x), Some(y)) => x.0 == y.0,
        (None, None) => true,
        _ => false,
    };
    proof {
        if a@ == b@ {
            assert(a@.ident == b@.ident && a@.from == b@.from && a@.id == b@.id);
        }
        if ident_eq && from_eq && id_eq {
            assert(a@ =~= b@);
        }
    }
    ident_eq && from_eq && id_eq
}

impl CssExports {
    /// The empty graph.
    pub fn new() -> (r: CssExports)
        ensures
            r@ == Seq::<ExportEntryView>::empty(),
    {
        let r = CssExports { entries: Vec::new() };
        proof {
            assert(r@ =~= Seq::<ExportEntryView>::empty());
        }
        r
    }

    /// Number of export names in the graph.
    pub fn len(&self) -> (n: usize)
        ensures
            n == self@.len(),
    {
        self.entries.len()
    }

    /// Index of the first entry named `name`, if any.
    pub fn find_key(&self, name: &String) -> (r: Option<usize>)
        ensures
            match r {
                Some(i) => key_index(self@, name@) == i && i < self@.len(),
                None => key_index(self@, name@) == -1,
            },
    {
        let n = self.entries.len();
        let mut i: usize = 0;
        while i < n
            invariant
                i <= n,
                n == self.entries.len(),
                forall|j: int| 0 <= j < i ==> self@[j].name != name@,
            decreases n - i,
        {
            if self.entries[i].name == *name {
                proof {
                    lemma_key_index_is_first(self@, name@, i as int);
                }
                return Some(i);
            }
            i = i + 1;
        }
        proof {
            lemma_key_index_absent(self@, name@);
        }
        None
    }

    /// The export name at graph position `i`.
    pub fn name_at(&self, i: usize) -> (r: String)
        requires
            i < self@.len(),
        ensures
            r@ == self@[i as int].name,
    {
        self.entries[i].name.clone()
    }

    /// The number of records under the entry at position `i`.
    pub fn records_len(&self, i: usize) -> (m: usize)
        requires
            i < self@.len(),
        ensures
            m == self@[i as int].records.len(),
    {
        self.entries[i].records.len()
    }

    /// The record at position `j` of the entry at position `i`.
    pub fn record_at(&self, i: usize, j: usize) -> (r: &CssExport)
        requires
            i < self@.len(),
            j < self@[i as int].records.len(),
        ensures
            r@ == self@[i as int].records[j as int],
    {
        &self.entries[i].records[j]
    }

    /// Whether the ordered set at entry `ki` contains a record equal to `e`.
    fn set_contains(&self, ki: usize, e: &CssExport) -> (r: bool)
        requires
            ki < self@.len(),
        ensures
            r == self@[ki as int].records.contains(e@),
    {
        let m = self.entries[ki].records.len();
        let mut j: usize = 0;
        while j < m
            invariant
                j <= m,
                ki < self.entries@.len(),
                m == self.entries@[ki as int].records.len(),
                forall|k: int| 0 <= k < j ==> self@[ki as int].records[k] != e@,
            decreases m - j,
        {
            if export_eq(&self.entries[ki].records[j], e) {
                assert(self@[ki as int].records[j as int] == e@);
                return true;
            }
            j = j + 1;
        }
        assert(!self@[ki as int].records.contains(e@));
        false
    }
}

/// How a raw declared name expands to exported names.
#[derive(Debug, Clone, Copy, PartialEq, Eq, Structural)]
pub enum CssExportsConvention {
    /// The raw name only.
    AsIs,
    /// The raw name and, when different, its camel-cased form.
    CamelCase,
    /// The camel-cased form only.
    CamelCaseOnly,
    /// The raw name and, when different, its dash-only camel-cased form.
    Dashes,
    /// The dash-only camel-cased form only.
    DashesOnly,
}

/// The exported names that a raw declared name expands to, in output order.
pub open spec fn convention_names_seq(n: Seq<char>, c: CssExportsConvention) -> Seq<Seq<char>> {
    match c {
        CssExportsConvention::AsIs => seq![n],
        CssExportsConvention::CamelCase => if camel_case_seq(n) == n {
            seq![n]
        } else {
            seq![n, camel_case_seq(n)]
        },
        CssExportsConvention::CamelCaseOnly => seq![camel_case_seq(n)],
        CssExportsConvention::Dashes => if dashes_camel_seq(n) == n {
            seq![n]
        } else {
            seq![n, dashes_camel_seq(n)]
        },
        CssExportsConvention::DashesOnly => seq![dashes_camel_seq(n)],
    }
}

/// Expands a raw declared name according to the convention.  Every expanded
/// name is later inserted independently, pointing at the same record.
pub fn export_locals_convention(name: &str, convention: &CssExportsConvention) -> (r: Vec<String>)
    ensures
        r@.map_values(|s: String| s@) == convention_names_seq(name@, *convention),
{
    let mut r: Vec<String> = Vec::new();
    match convention {
        CssExportsConvention::AsIs => {
            r.push(String::from_str(name));
        },
        CssExportsConvention::CamelCase => {
            let camel = camel_case(name);
            let raw = String::from_str(name);
            let same = camel == raw;
            r.push(raw);
            if !same {
                r.push(camel);
            }
        },
        CssExportsConvention::CamelCaseOnly => {
            r.push(camel_case(name));
        },
        CssExportsConvention::Dashes => {
            let dashes = dashes_camel(name);
            let raw = String::from_str(name);
            let same = dashes == raw;
            r.push(raw);
            if !same {
                r.push(dashes);
            }
        },
        CssExportsConvention::DashesOnly => {
            r.push(dashes_camel(name));
        },
    }
    proof {
        assert(r@.map_values(|s: String| s@) =~= convention_names_seq(name@, *convention));
    }
    r
}

/// Inserts one record under each of several names, in order.
pub open spec fn graph_insert_names(
    g: GraphView,
    names: Seq<Seq<char>>,
    e: CssExportView,
) -> GraphView
    decreases names.len(),
{
    if names.len() == 0 {
        g
    } else {
        graph_insert_names(graph_insert(g, names[0], e), names.skip(1), e)
    }
}

/// Adds each of `t`'s records to `s` in order, skipping duplicates.
pub open spec fn set_extend(s: Seq<CssExportView>, t: Seq<CssExportView>) -> Seq<CssExportView>
    decreases t.len(),
{
    if t.len() == 0 {
        s
    } else {
        set_extend(set_insert(s, t[0]), t.skip(1))
    }
}

/// Extends the record set of the entry at `ki` with `t`, deduplicated.
pub open spec fn graph_extend_at(g: GraphView, ki: int, t: Seq<CssExportView>) -> GraphView {
    g.update(ki, ExportEntryView { name: g[ki].name, records: set_extend(g[ki].records, t) })
}

/// Builds a fresh record with the same content.
pub fn clone_export(e: &CssExport) -> (r: CssExport)
    ensures
        r@ == e@,
{
    let from = match &e.from {
        Some(f) => Some(f.clone()),
        None => None,
    };
    let r = CssExport { ident: e.ident.clone(), from, id: e.id };
    proof {
        assert(r@ =~~= e@);
    }
    r
}

impl CssExports {
    /// Clones the ordered record set of the entry at `ki`.
    pub fn records_snapshot(&self, ki: usize) -> (r: Vec<CssExport>)
        requires
            ki < self@.len(),
        ensures
            r@.map_values(|e: CssExport| e@) == self@[ki as int].records,
    {
        let m = self.entries[ki].records.len();
        let mut r: Vec<CssExport> = Vec::new();
        let mut j: usize = 0;
        while j < m
            invariant
                j <= m,
                ki < self.entries@.len(),
                m == self.entries@[ki as int].records.len(),
                r@.len() == j,
                forall|k: int| 0 <= k < j ==> r@[k]@ == self@[ki as int].records[k],
            decreases m - j,
        {
            let e = clone_export(&self.entries[ki].records[j]);
            proof {
                assert(self@[ki as int] == self.entries@[ki as int]@);
                assert(e@ == self@[ki as int].records[j as int]);
            }
            r.push(e);
            j = j + 1;
        }
        proof {
            assert(r@.map_values(|e: CssExport| e@) =~= self@[ki as int].records);
        }
        r
    }

    /// Extends the record set of the entry at `ki` with `recs`, skipping
    /// records already present.
    pub fn extend_entry(&mut self, ki: usize, recs: Vec<CssExport>)
        requires
            ki < old(self)@.len(),
        ensures
            final(self)@ == graph_extend_at(
                old(self)@,
                ki as int,
                recs@.map_values(|e: CssExport| e@),
            ),
    {
        let m = recs.len();
        let ghost t = recs@.map_values(|e: CssExport| e@);
        let mut j: usize = 0;
        proof {
            assert(t.skip(0) =~= t);
            assert(graph_extend_at(old(self)@, ki as int, t) =~= graph_extend_at(
                self@,
                ki as int,
                t.skip(0),
            ));
        }
        while j < m
            invariant
                j <= m,
                m == recs@.len(),
                ki < self@.len(),
                t == recs@.map_values(|e: CssExport| e@),
                graph_extend_at(old(self)@, ki as int, t) == graph_extend_at(
                    self@,
                    ki as int,
                    t.skip(j as int),
                ),
            decreases m - j,
        {
            proof {
                assert(t.skip(j as int)[0] == t[j as int]);
                assert(t.skip(j as int).skip(1) =~= t.skip(j as int + 1));
            }
            let ghost gprev = self@;
            let e = clone_export(&recs[j]);
            let dup = self.set_contains(ki, &e);
            if !dup {
                self.entries[ki].records.push(e);
            }
            proof {
                assert(e@ == t[j as int]);
                if dup {
                    assert(set_insert(gprev[ki as int].records, t[j as int]) == gprev[ki
                        as int].records);
                    assert(self@ =~~= gprev.update(
                        ki as int,
                        ExportEntryView {
                            name: gprev[ki as int].name,
                            records: set_insert(gprev[ki as int].records, t[j as int]),
                        },
                    ));
                } else {
                    assert(self@[ki as int].records =~= gprev[ki as int].records.push(
                        t[j as int],
                    ));
                    assert(self@ =~~= gprev.update(
                        ki as int,
                        ExportEntryView {
                            name: gprev[ki as int].name,
                            records: set_insert(gprev[ki as int].records, t[j as int]),
                        },
                    ));
                }
                assert(set_extend(gprev[ki as int].records, t.skip(j as int)) == set_extend(
                    set_insert(gprev[ki as int].records, t[j as int]),
                    t.skip(j as int + 1),
                ));
                assert(graph_extend_at(gprev, ki as int, t.skip(j as int)) =~~= graph_extend_at(
                    self@,
                    ki as int,
                    t.skip(j as int + 1),
                ));
            }
            j = j + 1;
        }
        proof {
            assert(t.skip(m as int) =~= Seq::<CssExportView>::empty());
            assert(graph_extend_at(self@, ki as int, t.skip(m as int)) =~~= self@);
        }
    }
}

/// Inserts a copy of `proto` under each name in `names`, in order.
pub fn insert_under_names(exports: &mut CssExports, names: &Vec<String>, proto: &CssExport)
    ensures
        final(exports)@ == graph_insert_names(
            old(exports)@,
            names@.map_values(|s: String| s@),
            proto@,
        ),
{
    let n = names.len();
    let ghost ns = names@.map_values(|s: String| s@);
    let mut i: usize = 0;
    proof {
        assert(ns.skip(0) =~= ns);
    }
    while i < n
        invariant
            i <= n,
            n == names@.len(),
            ns == names@.map_values(|s: String| s@),
            graph_insert_names(old(exports)@, ns, proto@) == graph_insert_names(
                exports@,
                ns.skip(i as int),
                proto@,
            ),
        decreases n - i,
    {
        proof {
            assert(ns.skip(i as int)[0] == ns[i as int]);
            assert(ns.skip(i as int).skip(1) =~= ns.skip(i as int + 1));
        }
        update_css_exports(exports, names[i].clone(), clone_export(proto));
        i = i + 1;
    }
    proof {
        assert(ns.skip(n as int) =~= Seq::<Seq<char>>::empty());
    }
}

/// Inserts a record for `name` into the graph: a new singleton entry when
/// `name` is new, otherwise an equality-deduplicated append.  Returns
/// whether anything was added.
pub fn update_css_exports(exports: &mut CssExports, name: String, css_export: CssExport) -> (inserted:
    bool)
    ensures
        final(exports)@ == graph_insert(old(exports)@, name@, css_export@),
        inserted == !(graph_has_key(old(exports)@, name@) && old(exports)@[key_index(
            old(exports)@,
            name@,
        )].records.contains(css_export@)),
{
    let found = exports.find_key(&name);
    match found {
        Some(ki) => {
            let dup = exports.set_contains(ki, &css_export);
            if dup {
                proof {
                    assert(exports@ =~~= graph_insert(old(exports)@, name@, css_export@));
                }
                false
            } else {
                exports.entries[ki].records.push(css_export);
                proof {
                    assert(exports@ =~~= graph_insert(old(exports)@, name@, css_export@));
                }
                true
            }
        },
        None => {
            let mut records: Vec<CssExport> = Vec::new();
            records.push(css_export);
            exports.entries.push(ExportEntry { name, records });
            proof {
                assert(exports@ =~~= graph_insert(old(exports)@, name@, css_export@));
            }
            true
        },
    }
}

} // verus!
