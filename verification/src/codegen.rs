//! The code generator: produces the rewritten CSS text (with its metadata
//! side channel) or the JavaScript export table from the parsed module
//! state, always through the usage filter.

use vstd::prelude::*;
use vstd::string::StrSliceExecFns;
use vstd::string::StringExecFns;
use vstd::string::StringSliceAdditionalSpecFns;
use vstd::utf8::encode_utf8;

use crate::export_graph::CssExportView;
use crate::export_graph::ExportEntry;
use crate::export_graph::ExportEntryView;
use crate::export_graph::GraphView;
use crate::parser::CssDependencyView;
use crate::parser::CssParserAndGenerator;
use crate::parser::InternalError;
use crate::parser::ParseResult;
use crate::parser::PresentationalDependencyView;
use crate::parser::exports_view;
use crate::text::escape_css;
use crate::text::escape_css_seq;
use crate::text::js_escape;
use crate::text::js_escape_seq;
use crate::text::normalize_separators;
use crate::text::normalize_separators_seq;
use crate::usage::CodeGenerationDataUnusedLocalIdent;
use crate::usage::OracleView;
use crate::usage::UsageOracle;
use crate::usage::get_unused_local_ident;
use crate::usage::get_used_exports;
use crate::usage::spec_unused_idents;
use crate::usage::spec_used;

verus! {

/// The output kinds a module can be asked to generate.  This component
/// declares support for `Css` and `JavaScript` only; any other request is
/// an internal error.
#[derive(Debug, Clone, Copy, PartialEq, Eq, Structural)]
pub enum SourceType {
    JavaScript,
    Css,
    Asset,
    Unknown,
}

/// Named runtime-support flags that generation can require of the bundle.
#[derive(Debug, Clone, Copy, PartialEq, Eq, Structural)]
pub struct RuntimeRequirements {
    pub has_css_modules: bool,
    pub module: bool,
    pub make_namespace_object: bool,
}

impl RuntimeRequirements {
    /// No requirement recorded yet.
    pub fn new() -> (r: RuntimeRequirements)
        ensures
            !r.has_css_modules && !r.module && !r.make_namespace_object,
    {
        RuntimeRequirements { has_css_modules: false, module: false, make_namespace_object: false }
    }
}

/// The generation-time metadata string consumed by the CSS-modules runtime
/// helper for cross-module composition and hot reload.
#[derive(Debug)]
pub struct CssUsedExports(pub String);

/// Per-generation side-channel data.
#[derive(Debug)]
pub struct GenerationData {
    pub css_used_exports: Option<CssUsedExports>,
    pub unused_local_idents: Option<CodeGenerationDataUnusedLocalIdent>,
}

/// A read-only view of the module graph after module ids were assigned:
/// compose dependency id to the target module's id string.
#[derive(Debug)]
pub struct ModuleGraphView {
    pub resolved: Vec<(u64, String)>,
}

/// View of the resolution table.
pub type MgView = Seq<(u64, String)>;

impl View for ModuleGraphView {
    type V = MgView;

    open spec fn view(&self) -> MgView {
        self.resolved@
    }
}

/// The module id assigned to the target of compose dependency `d`, if any.
pub open spec fn mg_lookup(mg: MgView, d: u64) -> Option<Seq<char>>
    decreases mg.len(),
{
    if mg.len() == 0 {
        None
    } else if mg[0].0 == d {
        Some(mg[0].1@)
    } else {
        mg_lookup(mg.skip(1), d)
    }
}

impl ModuleGraphView {
    /// Looks up the module id assigned to compose dependency `d`.
    pub fn lookup(&self, d: u64) -> (r: Option<String>)
        ensures
            match r {
                Some(s) => mg_lookup(self@, d) == Some(s@),
                None => mg_lookup(self@, d) is None,
            },
    {
        let n = self.resolved.len();
        let ghost mg = self@;
        let mut i: usize = 0;
        proof {
            assert(mg.skip(0) =~= mg);
        }
        while i < n
            invariant
                i <= n,
                n == self@.len(),
                mg == self@,
                mg_lookup(mg, d) == mg_lookup(mg.skip(i as int), d),
            decreases n - i,
        {
            proof {
                assert(mg.skip(i as int)[0] == mg[i as int]);
                assert(mg.skip(i as int).skip(1) =~= mg.skip(i as int + 1));
            }
            if self.resolved[i].0 == d {
                return Some(self.resolved[i].1.clone());
            }
            i = i + 1;
        }
        proof {
            assert(mg.skip(n as int) =~= Seq::<(u64, String)>::empty());
        }
        None
    }
}

/// One text splice: the byte range `[start, end)` is replaced by `content`.
#[derive(Debug)]
pub struct Splice {
    pub start: u32,
    pub end: u32,
    pub content: Vec<u8>,
}

/// View of a splice.
#[verifier::ext_equal]
pub struct SpliceView {
    pub start: u32,
    pub end: u32,
    pub content: Seq<u8>,
}

impl View for Splice {
    type V = SpliceView;

    open spec fn view(&self) -> SpliceView {
        SpliceView { start: self.start, end: self.end, content: self.content@ }
    }
}

/// The splice a recorded dependency contributes to the CSS output: a local
/// ident replaces its selector text with the escaped generated identifier,
/// an import is removed; url, compose and ICSS-export dependencies splice
/// nothing (composes and `:export` text is erased by the lexer's replace
/// events, and url rewriting belongs to the referenced asset).
pub open spec fn splice_of_dep(d: CssDependencyView) -> Option<SpliceView> {
    match d {
        CssDependencyView::LocalIdent { local_ident, start, end, .. } => Some(
            SpliceView { start, end, content: encode_utf8(escape_css_seq(local_ident)) },
        ),
        CssDependencyView::Import { start, end, .. } => Some(
            SpliceView { start, end, content: Seq::empty() },
        ),
        _ => None,
    }
}

/// The splices of the ordinary dependencies, in list order.
pub open spec fn dep_splices(deps: Seq<CssDependencyView>) -> Seq<SpliceView>
    decreases deps.len(),
{
    if deps.len() == 0 {
        Seq::empty()
    } else {
        (match splice_of_dep(deps[0]) {
            Some(s) => seq![s],
            None => Seq::empty(),
        }) + dep_splices(deps.skip(1))
    }
}

/// The splices of the presentational dependencies, in list order.
pub open spec fn pres_splices(pres: Seq<PresentationalDependencyView>) -> Seq<SpliceView> {
    pres.map_values(
        |p: PresentationalDependencyView| SpliceView {
            start: p.start,
            end: p.end,
            content: encode_utf8(p.content),
        },
    )
}

/// Every splice of the module, ordinary dependencies first.
pub open spec fn all_splices(
    deps: Seq<CssDependencyView>,
    pres: Seq<PresentationalDependencyView>,
) -> Seq<SpliceView> {
    dep_splices(deps) + pres_splices(pres)
}

/// Inserts a splice before the first splice with an equal or greater start.
pub open spec fn insert_sorted(s: SpliceView, ss: Seq<SpliceView>) -> Seq<SpliceView>
    decreases ss.len(),
{
    if ss.len() == 0 {
        seq![s]
    } else if s.start <= ss[0].start {
        seq![s] + ss
    } else {
        seq![ss[0]] + insert_sorted(s, ss.skip(1))
    }
}

/// The splices in ascending range order; equal starts keep list order.
pub open spec fn sort_splices(ss: Seq<SpliceView>) -> Seq<SpliceView>
    decreases ss.len(),
{
    if ss.len() == 0 {
        Seq::empty()
    } else {
        insert_sorted(ss[0], sort_splices(ss.skip(1)))
    }
}

/// Every range is well-formed, in bounds, and the ranges do not overlap.
pub open spec fn splices_valid(ss: Seq<SpliceView>, src_len: int) -> bool {
    (forall|k: int|
        0 <= k < ss.len() ==> (#[trigger] ss[k]).start <= ss[k].end && ss[k].end <= src_len)
        && (forall|k: int| 0 <= k < ss.len() - 1 ==> (#[trigger] ss[k]).end <= ss[k + 1].start)
}

/// The spliced output from position `from` on: the kept segments of the
/// source interleaved with the splices' replacement text.
pub open spec fn apply_splices(src: Seq<u8>, ss: Seq<SpliceView>, from: int) -> Seq<u8>
    decreases ss.len(),
{
    if ss.len() == 0 {
        src.subrange(from, src.len() as int)
    } else {
        src.subrange(from, ss[0].start as int) + ss[0].content + apply_splices(
            src,
            ss.skip(1),
            ss[0].end as int,
        )
    }
}

/// Collects the splices of the parsed module, ordinary dependencies first.
fn collect_splices(parsed: &ParseResult) -> (r: Vec<Splice>)
    ensures
        r@.map_values(|s: Splice| s@) == all_splices(
            parsed@.dependencies,
            parsed@.presentational_dependencies,
        ),
{
    let ghost dv = parsed@.dependencies;
    let ghost pv = parsed@.presentational_dependencies;
    let mut r: Vec<Splice> = Vec::new();
    let n = parsed.dependencies.len();
    let mut i: usize = 0;
    proof {
        assert(dv.skip(0) =~= dv);
        assert(Seq::<SpliceView>::empty() + dep_splices(dv) =~= dep_splices(dv));
    }
    while i < n
        invariant
            i <= n,
            n == parsed.dependencies@.len(),
            dv == parsed@.dependencies,
            dep_splices(dv) == r@.map_values(|s: Splice| s@) + dep_splices(dv.skip(i as int)),
        decreases n - i,
    {
        proof {
            assert(dv.skip(i as int)[0] == dv[i as int]);
            assert(dv.skip(i as int).skip(1) =~= dv.skip(i as int + 1));
        }
        let ghost before = r@.map_values(|s: Splice| s@);
        match &parsed.dependencies[i] {
            crate::parser::CssDependency::LocalIdent { local_ident, start, end, .. } => {
                let esc = escape_css(local_ident.as_str());
                let content = esc.as_str().as_bytes_vec();
                r.push(Splice { start: *start, end: *end, content });
                proof {
                    assert(r@.map_values(|s: Splice| s@) =~= before.push(
                        splice_of_dep(dv[i as int])->0,
                    ));
                    assert(before.push(splice_of_dep(dv[i as int])->0) + dep_splices(
                        dv.skip(i as int + 1),
                    ) =~= before + (seq![splice_of_dep(dv[i as int])->0] + dep_splices(
                        dv.skip(i as int + 1),
                    )));
                }
            },
            crate::parser::CssDependency::Import { start, end, .. } => {
                r.push(Splice { start: *start, end: *end, content: Vec::new() });
                proof {
                    assert(r@.map_values(|s: Splice| s@) =~= before.push(
                        splice_of_dep(dv[i as int])->0,
                    ));
                    assert(before.push(splice_of_dep(dv[i as int])->0) + dep_splices(
                        dv.skip(i as int + 1),
                    ) =~= before + (seq![splice_of_dep(dv[i as int])->0] + dep_splices(
                        dv.skip(i as int + 1),
                    )));
                }
            },
            _ => {
                proof {
                    assert(before + (Seq::<SpliceView>::empty() + dep_splices(
                        dv.skip(i as int + 1),
                    )) =~= before + dep_splices(dv.skip(i as int + 1)));
                }
            },
        }
        i = i + 1;
    }
    proof {
        assert(dv.skip(n as int) =~= Seq::<CssDependencyView>::empty());
        assert(r@.map_values(|s: Splice| s@) + Seq::<SpliceView>::empty() =~= r@.map_values(
            |s: Splice| s@,
        ));
    }
    let ghost base = r@.map_values(|s: Splice| s@);
    let m = parsed.presentational_dependencies.len();
    let mut j: usize = 0;
    while j < m
        invariant
            j <= m,
            m == parsed.presentational_dependencies@.len(),
            pv == parsed@.presentational_dependencies,
            base == dep_splices(dv),
            dv == parsed@.dependencies,
            r@.map_values(|s: Splice| s@) == base + pres_splices(pv.subrange(0, j as int)),
        decreases m - j,
    {
        let p = &parsed.presentational_dependencies[j];
        let content = p.content.as_str().as_bytes_vec();
        let ghost before = r@.map_values(|s: Splice| s@);
        r.push(Splice { start: p.start, end: p.end, content });
        j = j + 1;
        proof {
            assert(r@.map_values(|s: Splice| s@) =~= before.push(
                SpliceView {
                    start: pv[j as int - 1].start,
                    end: pv[j as int - 1].end,
                    content: encode_utf8(pv[j as int - 1].content),
                },
            ));
            assert(base + pres_splices(pv.subrange(0, j as int)) =~= before.push(
                SpliceView {
                    start: pv[j as int - 1].start,
                    end: pv[j as int - 1].end,
                    content: encode_utf8(pv[j as int - 1].content),
                },
            ));
        }
    }
    proof {
        assert(pv.subrange(0, m as int) =~= pv);
    }
    r
}

/// Inserts one splice into an already sorted list.
fn insert_splice(s: Splice, sorted: &mut Vec<Splice>)
    ensures
        final(sorted)@.map_values(|x: Splice| x@) == insert_sorted(
            s@,
            old(sorted)@.map_values(|x: Splice| x@),
        ),
{
    let ghost ss = sorted@.map_values(|x: Splice| x@);
    let n = sorted.len();
    let mut i: usize = 0;
    proof {
        assert(ss.skip(0) =~= ss);
        assert(ss.subrange(0, 0) =~= Seq::<SpliceView>::empty());
        assert(Seq::<SpliceView>::empty() + insert_sorted(s@, ss) =~= insert_sorted(s@, ss));
    }
    while i < n && sorted[i].start < s.start
        invariant
            i <= n,
            n == sorted@.len(),
            ss == sorted@.map_values(|x: Splice| x@),
            insert_sorted(s@, ss) == ss.subrange(0, i as int) + insert_sorted(
                s@,
                ss.skip(i as int),
            ),
        decreases n - i,
    {
        proof {
            assert(ss.skip(i as int)[0] == ss[i as int]);
            assert(ss.skip(i as int).skip(1) =~= ss.skip(i as int + 1));
            assert(ss.subrange(0, i as int).push(ss[i as int]) =~= ss.subrange(0, i as int + 1));
            assert(ss.subrange(0, i as int) + (seq![ss[i as int]] + insert_sorted(
                s@,
                ss.skip(i as int + 1),
            )) =~= ss.subrange(0, i as int + 1) + insert_sorted(s@, ss.skip(i as int + 1)));
        }
        i = i + 1;
    }
    proof {
        if i < n {
            assert(ss.skip(i as int)[0] == ss[i as int]);
            assert(insert_sorted(s@, ss.skip(i as int)) == seq![s@] + ss.skip(i as int));
        } else {
            assert(ss.skip(i as int) =~= Seq::<SpliceView>::empty());
            assert(insert_sorted(s@, ss.skip(i as int)) == seq![s@]);
        }
    }
    sorted.insert(i, s);
    proof {
        assert(sorted@.map_values(|x: Splice| x@) =~= ss.subrange(0, i as int) + (seq![s@]
            + ss.skip(i as int)));
        assert(ss.subrange(0, i as int) + (seq![s@] + ss.skip(i as int)) =~= insert_sorted(s@, ss));
    }
}

/// Sorts the splices into ascending range order, keeping list order for
/// equal starts.
fn sort_splices_exec(mut v: Vec<Splice>) -> (r: Vec<Splice>)
    ensures
        r@.map_values(|x: Splice| x@) == sort_splices(v@.map_values(|x: Splice| x@)),
{
    let ghost orig = v@.map_values(|x: Splice| x@);
    let mut sorted: Vec<Splice> = Vec::new();
    proof {
        assert(orig.skip(orig.len() as int) =~= Seq::<SpliceView>::empty());
        assert(sorted@.map_values(|x: Splice| x@) =~= Seq::<SpliceView>::empty());
    }
    loop
        invariant
            v@.map_values(|x: Splice| x@) == orig.subrange(0, v@.len() as int),
            v@.len() <= orig.len(),
            sorted@.map_values(|x: Splice| x@) == sort_splices(orig.skip(v@.len() as int)),
        ensures
            v@.len() == 0,
            sorted@.map_values(|x: Splice| x@) == sort_splices(orig),
        decreases v@.len(),
    {
        let ghost k = v@.len() as int;
        let ghost vseq = v@;
        match v.pop() {
            Some(s) => {
                proof {
                    assert(v@.map_values(|x: Splice| x@) =~= orig.subrange(0, k - 1));
                    assert(s == vseq.last());
                    assert(vseq.map_values(|x: Splice| x@)[k - 1] == vseq[k - 1]@);
                    assert(s@ == orig[k - 1]);
                    assert(orig.skip(k - 1)[0] == orig[k - 1]);
                    assert(orig.skip(k - 1).skip(1) =~= orig.skip(k));
                }
                insert_splice(s, &mut sorted);
            },
            None => {
                proof {
                    assert(orig.skip(0) =~= orig);
                }
                break ;
            },
        }
    }
    sorted
}

/// Checks that the sorted splices have well-formed, in-bounds,
/// non-overlapping ranges.
fn check_splices(ss: &Vec<Splice>, src_len: usize) -> (r: bool)
    ensures
        r == splices_valid(ss@.map_values(|x: Splice| x@), src_len as int),
{
    let ghost sv = ss@.map_values(|x: Splice| x@);
    let n = ss.len();
    let mut i: usize = 0;
    while i < n
        invariant
            i <= n,
            n == ss@.len(),
            sv == ss@.map_values(|x: Splice| x@),
            forall|k: int|
                0 <= k < i ==> (#[trigger] sv[k]).start <= sv[k].end && sv[k].end <= src_len,
            forall|k: int| 0 <= k < i - 1 ==> (#[trigger] sv[k]).end <= sv[k + 1].start,
        decreases n - i,
    {
        if !(ss[i].start <= ss[i].end && (ss[i].end as usize) <= src_len) {
            proof {
                assert(!((#[trigger] sv[i as int]).start <= sv[i as int].end && sv[i as int].end
                    <= src_len));
            }
            return false;
        }
        if i > 0 && ss[i - 1].end > ss[i].start {
            proof {
                assert(!((#[trigger] sv[i as int - 1]).end <= sv[i as int].start));
            }
            return false;
        }
        i = i + 1;
    }
    true
}

/// Applies sorted, non-overlapping splices to the source bytes.
#[verifier::rlimit(60)]
fn apply_splices_exec(src: &Vec<u8>, ss: &Vec<Splice>) -> (r: Vec<u8>)
    requires
        splices_valid(ss@.map_values(|x: Splice| x@), src@.len() as int),
    ensures
        r@ == apply_splices(src@, ss@.map_values(|x: Splice| x@), 0),
{
    let ghost sv = ss@.map_values(|x: Splice| x@);
    let n = ss.len();
    let mut out: Vec<u8> = Vec::new();
    let mut from: usize = 0;
    let mut i: usize = 0;
    proof {
        assert(sv.skip(0) =~= sv);
        assert(Seq::<u8>::empty() + apply_splices(src@, sv, 0) =~= apply_splices(src@, sv, 0));
    }
    while i < n
        invariant
            i <= n,
            n == ss@.len(),
            sv == ss@.map_values(|x: Splice| x@),
            splices_valid(sv, src@.len() as int),
            from <= src@.len(),
            i < n ==> from <= sv[i as int].start,
            apply_splices(src@, sv, 0) == out@ + apply_splices(src@, sv.skip(i as int), from as int),
        decreases n - i,
    {
        proof {
            assert(sv.skip(i as int)[0] == sv[i as int]);
            assert(sv.skip(i as int).skip(1) =~= sv.skip(i as int + 1));
        }
        let start = ss[i].start as usize;
        let end = ss[i].end as usize;
        let ghost out0 = out@;
        let mut p: usize = from;
        while p < start
            invariant
                from <= p <= start,
                start <= src@.len(),
                out@ == out0 + src@.subrange(from as int, p as int),
            decreases start - p,
        {
            out.push(src[p]);
            p = p + 1;
            assert(out@ =~= out0 + src@.subrange(from as int, p as int));
        }
        let ghost out1 = out@;
        let m = ss[i].content.len();
        let mut q: usize = 0;
        while q < m
            invariant
                q <= m,
                i < n,
                n == ss@.len(),
                sv == ss@.map_values(|x: Splice| x@),
                m == sv[i as int].content.len(),
                out@ == out1 + sv[i as int].content.subrange(0, q as int),
            decreases m - q,
        {
            out.push(ss[i].content[q]);
            q = q + 1;
            assert(out@ =~= out1 + sv[i as int].content.subrange(0, q as int));
        }
        proof {
            assert(sv[i as int].content.subrange(0, m as int) =~= sv[i as int].content);
            assert(out@ =~= out0 + (src@.subrange(from as int, sv[i as int].start as int)
                + sv[i as int].content));
        }
        from = end;
        i = i + 1;
        proof {
            assert(apply_splices(src@, sv, 0) =~= out@ + apply_splices(
                src@,
                sv.skip(i as int),
                from as int,
            ));
        }
    }
    let ghost out2 = out@;
    let mut p: usize = from;
    while p < src.len()
        invariant
            from <= p <= src@.len(),
            out@ == out2 + src@.subrange(from as int, p as int),
        decreases src@.len() - p,
    {
        out.push(src[p]);
        p = p + 1;
        assert(out@ =~= out2 + src@.subrange(from as int, p as int));
    }
    proof {
        assert(sv.skip(n as int) =~= Seq::<SpliceView>::empty());
        assert(out@ =~= out2 + src@.subrange(from as int, src@.len() as int));
    }
    out
}

/// The metadata fragment one record contributes:
/// `name:targetModuleId@ident/` when the record composes from another
/// module (whose id must already be assigned), else `name:ident/`, all
/// parts CSS-escaped.
pub open spec fn meta_record(
    esc_name: Seq<char>,
    rec: CssExportView,
    mg: MgView,
) -> Result<Seq<char>, InternalError> {
    match rec.id {
        Some(d) => match mg_lookup(mg, d.0) {
            Some(mid) => Ok(
                esc_name + ":"@ + escape_css_seq(mid) + "@"@ + escape_css_seq(rec.ident) + "/"@,
            ),
            None => Err(InternalError::UnresolvedComposeDependency),
        },
        None => Ok(esc_name + ":"@ + escape_css_seq(rec.ident) + "/"@),
    }
}

/// The concatenated metadata fragments of one entry's records, in order.
pub open spec fn meta_records(
    esc_name: Seq<char>,
    recs: Seq<CssExportView>,
    mg: MgView,
) -> Result<Seq<char>, InternalError>
    decreases recs.len(),
{
    if recs.len() == 0 {
        Ok(Seq::empty())
    } else {
        match meta_record(esc_name, recs[0], mg) {
            Ok(h) => match meta_records(esc_name, recs.skip(1), mg) {
                Ok(t) => Ok(h + t),
                Err(e) => Err(e),
            },
            Err(e) => Err(e),
        }
    }
}

/// The concatenated metadata fragments of the used entries, in graph order.
pub open spec fn meta_entries(used: GraphView, mg: MgView) -> Result<Seq<char>, InternalError>
    decreases used.len(),
{
    if used.len() == 0 {
        Ok(Seq::empty())
    } else {
        match meta_records(escape_css_seq(used[0].name), used[0].records, mg) {
            Ok(h) => match meta_entries(used.skip(1), mg) {
                Ok(t) => Ok(h + t),
                Err(e) => Err(e),
            },
            Err(e) => Err(e),
        }
    }
}

/// Builds the metadata string for the used entries.
fn build_meta(used: &Vec<ExportEntry>, mg: &ModuleGraphView) -> (r: Result<String, InternalError>)
    ensures
        match r {
            Ok(s) => meta_entries(used@.map_values(|e: ExportEntry| e@), mg@) == Ok::<
                Seq<char>,
                InternalError,
            >(s@),
            Err(e) => meta_entries(used@.map_values(|e: ExportEntry| e@), mg@) == Err::<
                Seq<char>,
                InternalError,
            >(e),
        },
{
    let ghost g = used@.map_values(|e: ExportEntry| e@);
    let mut out = String::new();
    let n = used.len();
    let mut i: usize = 0;
    proof {
        assert(g.skip(0) =~= g);
    }
    while i < n
        invariant
            i <= n,
            n == used@.len(),
            g == used@.map_values(|e: ExportEntry| e@),
            meta_entries(g, mg@) == (match meta_entries(g.skip(i as int), mg@) {
                Ok(t) => Ok::<Seq<char>, InternalError>(out@ + t),
                Err(e) => Err::<Seq<char>, InternalError>(e),
            }),
        decreases n - i,
    {
        proof {
            assert(g.skip(i as int)[0] == g[i as int]);
            assert(g.skip(i as int).skip(1) =~= g.skip(i as int + 1));
        }
        let esc_name = escape_css(used[i].name.as_str());
        let ghost recs = g[i as int].records;
        let m = used[i].records.len();
        let mut j: usize = 0;
        proof {
            assert(recs.skip(0) =~= recs);
            assert(used[i as int]@ == g[i as int]);
        }
        while j < m
            invariant
                j <= m,
                i < n,
                n == used@.len(),
                g == used@.map_values(|e: ExportEntry| e@),
                m == g[i as int].records.len(),
                recs == g[i as int].records,
                esc_name@ == escape_css_seq(g[i as int].name),
                meta_entries(g, mg@) == (match (match meta_records(
                    esc_name@,
                    recs.skip(j as int),
                    mg@,
                ) {
                    Ok(h) => match meta_entries(g.skip(i as int + 1), mg@) {
                        Ok(t) => Ok::<Seq<char>, InternalError>(h + t),
                        Err(e) => Err::<Seq<char>, InternalError>(e),
                    },
                    Err(e) => Err::<Seq<char>, InternalError>(e),
                }) {
                    Ok(t2) => Ok::<Seq<char>, InternalError>(out@ + t2),
                    Err(e) => Err::<Seq<char>, InternalError>(e),
                }),
            decreases m - j,
        {
            proof {
                assert(recs.skip(j as int)[0] == recs[j as int]);
                assert(recs.skip(j as int).skip(1) =~= recs.skip(j as int + 1));
            }
            let rec = &used[i].records[j];
            proof {
                assert(used@.map_values(|e: ExportEntry| e@)[i as int] == used@[i as int]@);
                assert(rec@ == recs[j as int]);
            }
            let ghost out0 = out@;
            match rec.id {
                Some(d) => {
                    match mg.lookup(d.0) {
                        Some(mid) => {
                            out.append(esc_name.as_str());
                            out.append(":");
                            let esc_mid = escape_css(mid.as_str());
                            out.append(esc_mid.as_str());
                            out.append("@");
                            let esc_ident = escape_css(rec.ident.as_str());
                            out.append(esc_ident.as_str());
                            out.append("/");
                            proof {
                                assert(out@ =~= out0 + (esc_name@ + ":"@ + escape_css_seq(mid@)
                                    + "@"@ + escape_css_seq(recs[j as int].ident) + "/"@));
                            }
                        },
                        None => {
                            return Err(InternalError::UnresolvedComposeDependency);
                        },
                    }
                },
                None => {
                    out.append(esc_name.as_str());
                    out.append(":");
                    let esc_ident = escape_css(rec.ident.as_str());
                    out.append(esc_ident.as_str());
                    out.append("/");
                    proof {
                        assert(out@ =~= out0 + (esc_name@ + ":"@ + escape_css_seq(
                            recs[j as int].ident,
                        ) + "/"@));
                    }
                },
            }
            j = j + 1;
            proof {
                let h = meta_record(esc_name@, recs[j as int - 1], mg@)->Ok_0;
                let rest = meta_records(esc_name@, recs.skip(j as int), mg@);
                let tail = meta_entries(g.skip(i as int + 1), mg@);
                if rest is Ok && tail is Ok {
                    assert((out0 + h) + (rest->Ok_0 + tail->Ok_0) =~= out0 + ((h + rest->Ok_0)
                        + tail->Ok_0));
                }
            }
        }
        proof {
            assert(recs.skip(m as int) =~= Seq::<CssExportView>::empty());
        }
        i = i + 1;
    }
    proof {
        assert(g.skip(n as int) =~= Seq::<ExportEntryView>::empty());
        assert(out@ + Seq::<char>::empty() =~= out@);
    }
    Ok(out)
}

/// What a successful CSS generation produces: the spliced text, the
/// metadata string, and (when the module has an export graph) the
/// unused-identifier set.
#[verifier::ext_equal]
pub struct CssGenView {
    pub css: Seq<u8>,
    pub meta: Seq<char>,
    pub unused: Option<Seq<Seq<char>>>,
}

/// The CSS target's outcome.  With an export graph, the metadata string is
/// built from the used view (path separators of the module id normalized
/// to `/`) and the unused-identifier set is recorded; without one, the
/// metadata is the module's own escaped id alone.  Either way the output
/// is the source with every dependency's splice applied in range order,
/// and an `&` marks an ECMAScript module in front of the module id.
pub open spec fn spec_generate_css(
    exports: Option<GraphView>,
    es_module: bool,
    src: Seq<u8>,
    deps: Seq<CssDependencyView>,
    pres: Seq<PresentationalDependencyView>,
    module_id: Seq<char>,
    mg: MgView,
    o: OracleView,
) -> Result<CssGenView, InternalError> {
    let splices = sort_splices(all_splices(deps, pres));
    let marker: Seq<char> = if es_module {
        "&"@
    } else {
        Seq::empty()
    };
    match exports {
        Some(g) => {
            let mid = normalize_separators_seq(module_id);
            match meta_entries(spec_used(g, o), mg) {
                Ok(m) => if splices_valid(splices, src.len() as int) {
                    Ok(
                        CssGenView {
                            css: apply_splices(src, splices, 0),
                            meta: m + marker + escape_css_seq(mid),
                            unused: Some(spec_unused_idents(Seq::empty(), g, o)),
                        },
                    )
                } else {
                    Err(InternalError::InvalidSpliceRanges)
                },
                Err(e) => Err(e),
            }
        },
        None => if splices_valid(splices, src.len() as int) {
            Ok(
                CssGenView {
                    css: apply_splices(src, splices, 0),
                    meta: marker + escape_css_seq(module_id),
                    unused: None,
                },
            )
        } else {
            Err(InternalError::InvalidSpliceRanges)
        },
    }
}

impl CssParserAndGenerator {
    /// CSS target: computes the used and unused views against the oracle,
    /// builds the metadata side channel, applies every dependency's text
    /// splice in range order, and requires the CSS-modules runtime.
    ///
    /// Fails fast when a compose dependency has no assigned target module
    /// id, or when the recorded splice ranges are not well-formed.
    pub fn generate_css(
        &self,
        source: &str,
        parsed: &ParseResult,
        module_id: &str,
        mg: &ModuleGraphView,
        oracle: &UsageOracle,
        runtime_requirements: &mut RuntimeRequirements,
        data: &mut GenerationData,
    ) -> (r: Result<Vec<u8>, InternalError>)
        ensures
            final(runtime_requirements).has_css_modules,
            final(runtime_requirements).module == old(runtime_requirements).module,
            final(runtime_requirements).make_namespace_object == old(
                runtime_requirements,
            ).make_namespace_object,
            match spec_generate_css(
                exports_view(self.exports),
                self.es_module,
                source.spec_bytes(),
                parsed@.dependencies,
                parsed@.presentational_dependencies,
                module_id@,
                mg@,
                oracle@,
            ) {
                Ok(gen) => r is Ok && r->Ok_0@ == gen.css && (match final(data).css_used_exports {
                    Some(m) => m.0@ == gen.meta,
                    None => false,
                }) && (match (final(data).unused_local_idents, gen.unused) {
                    (Some(u), Some(su)) => u.idents@.map_values(|s: String| s@) == su,
                    (None, None) => true,
                    _ => false,
                }),
                Err(e) => r == Err::<Vec<u8>, InternalError>(e),
            },
    {
        runtime_requirements.has_css_modules = true;
        let splices = sort_splices_exec(collect_splices(parsed));
        let marker: &str = if self.es_module {
            "&"
        } else {
            ""
        };
        proof {
            if !self.es_module {
                reveal_strlit("");
                assert(""@ =~= Seq::<char>::empty());
            }
        }
        match &self.exports {
            Some(g) => {
                let unused = get_unused_local_ident(g, oracle);
                data.unused_local_idents = Some(unused);
                let used = get_used_exports(g, oracle);
                let mid = normalize_separators(module_id);
                let meta = match build_meta(&used, mg) {
                    Ok(m) => m,
                    Err(e) => {
                        return Err(e);
                    },
                };
                let mut full = meta;
                full.append(marker);
                let esc_mid = escape_css(mid.as_str());
                full.append(esc_mid.as_str());
                data.css_used_exports = Some(CssUsedExports(full));
            },
            None => {
                data.unused_local_idents = None;
                let mut full = String::from_str(marker);
                let esc_mid = escape_css(module_id);
                full.append(esc_mid.as_str());
                data.css_used_exports = Some(CssUsedExports(full));
            },
        }
        let src = source.as_bytes_vec();
        if !check_splices(&splices, src.len()) {
            return Err(InternalError::InvalidSpliceRanges);
        }
        let out = apply_splices_exec(&src, &splices);
        Ok(out)
    }
}

/// The JavaScript expression for one record: a quoted identifier string
/// for a local record; for a record composed from another module, a
/// runtime lookup of the target module's exports (the module id must
/// already be assigned).
pub open spec fn js_record_expr(rec: CssExportView, mg: MgView) -> Result<Seq<char>, InternalError> {
    match rec.id {
        Some(d) => match mg_lookup(mg, d.0) {
            Some(mid) => Ok(
                "moduleCssExports(\""@ + js_escape_seq(mid) + "\")[\""@ + js_escape_seq(rec.ident)
                    + "\"]"@,
            ),
            None => Err(InternalError::UnresolvedComposeDependency),
        },
        None => Ok("\""@ + js_escape_seq(rec.ident) + "\""@),
    }
}

/// The rest of a value expression: each further record joined on with
/// `+ " " +`, so composed classes form a space-separated class list.
pub open spec fn js_value_rest(recs: Seq<CssExportView>, mg: MgView) -> Result<
    Seq<char>,
    InternalError,
>
    decreases recs.len(),
{
    if recs.len() == 0 {
        Ok(Seq::empty())
    } else {
        match js_record_expr(recs[0], mg) {
            Ok(h) => match js_value_rest(recs.skip(1), mg) {
                Ok(t) => Ok((" + \" \" + "@ + h) + t),
                Err(e) => Err(e),
            },
            Err(e) => Err(e),
        }
    }
}

/// The whole value expression of one export name.
pub open spec fn js_value_expr(recs: Seq<CssExportView>, mg: MgView) -> Result<
    Seq<char>,
    InternalError,
> {
    if recs.len() == 0 {
        Ok(Seq::empty())
    } else {
        match js_record_expr(recs[0], mg) {
            Ok(h) => match js_value_rest(recs.skip(1), mg) {
                Ok(t) => Ok(h + t),
                Err(e) => Err(e),
            },
            Err(e) => Err(e),
        }
    }
}

/// One line of the export table.
pub open spec fn js_entry_line(e: ExportEntryView, mg: MgView) -> Result<Seq<char>, InternalError> {
    match js_value_expr(e.records, mg) {
        Ok(v) => Ok("  \""@ + js_escape_seq(e.name) + "\": "@ + v + ",\n"@),
        Err(e) => Err(e),
    }
}

/// The lines of the export table for the used entries, in graph order.
pub open spec fn js_entry_lines(used: GraphView, mg: MgView) -> Result<Seq<char>, InternalError>
    decreases used.len(),
{
    if used.len() == 0 {
        Ok(Seq::empty())
    } else {
        match js_entry_line(used[0], mg) {
            Ok(h) => match js_entry_lines(used.skip(1), mg) {
                Ok(t) => Ok(h + t),
                Err(e) => Err(e),
            },
            Err(e) => Err(e),
        }
    }
}

/// The standalone JavaScript output: an exports object holding only the
/// used export names, wrapped as a namespace object when the module is an
/// ECMAScript module whose non-map exports are used; with no export graph
/// at all, an empty exports object, preceded by a hot-reload acceptance
/// call when the dev server's hot reload is on.
pub open spec fn spec_js_standalone(
    exports: Option<GraphView>,
    es_module: bool,
    other_exports_used: bool,
    hot: bool,
    mg: MgView,
    o: OracleView,
) -> Result<Seq<char>, InternalError> {
    let ns = es_module && other_exports_used;
    let nso: Seq<char> = if ns {
        "__webpack_require__.r"@
    } else {
        Seq::empty()
    };
    let l: Seq<char> = if ns {
        "("@
    } else {
        Seq::empty()
    };
    let rr: Seq<char> = if ns {
        ")"@
    } else {
        Seq::empty()
    };
    match exports {
        Some(g) => match js_entry_lines(spec_used(g, o), mg) {
            Ok(lines) => Ok(nso + l + "module.exports = {\n"@ + lines + "}"@ + rr + ";\n"@),
            Err(e) => Err(e),
        },
        None => {
            let accept: Seq<char> = if hot {
                "module.hot.accept();\n"@
            } else {
                Seq::empty()
            };
            Ok(accept + nso + l + "module.exports = {}"@ + rr + ";\n"@)
        },
    }
}

/// The concatenation-aware JavaScript output: only the used-exports
/// binding table, for direct splicing into the surrounding merged scope;
/// never a full exports object.
pub open spec fn spec_js_concat(exports: Option<GraphView>, mg: MgView, o: OracleView) -> Result<
    Seq<char>,
    InternalError,
> {
    match exports {
        Some(g) => js_entry_lines(spec_used(g, o), mg),
        None => Ok(Seq::empty()),
    }
}

/// Builds the export-table lines for the used entries.
fn build_js_lines(used: &Vec<ExportEntry>, mg: &ModuleGraphView) -> (r: Result<
    String,
    InternalError,
>)
    ensures
        match r {
            Ok(s) => js_entry_lines(used@.map_values(|e: ExportEntry| e@), mg@) == Ok::<
                Seq<char>,
                InternalError,
            >(s@),
            Err(e) => js_entry_lines(used@.map_values(|e: ExportEntry| e@), mg@) == Err::<
                Seq<char>,
                InternalError,
            >(e),
        },
{
    let ghost g = used@.map_values(|e: ExportEntry| e@);
    let mut out = String::new();
    let n = used.len();
    let mut i: usize = 0;
    proof {
        assert(g.skip(0) =~= g);
    }
    while i < n
        invariant
            i <= n,
            n == used@.len(),
            g == used@.map_values(|e: ExportEntry| e@),
            js_entry_lines(g, mg@) == (match js_entry_lines(g.skip(i as int), mg@) {
                Ok(t) => Ok::<Seq<char>, InternalError>(out@ + t),
                Err(e) => Err::<Seq<char>, InternalError>(e),
            }),
        decreases n - i,
    {
        proof {
            assert(g.skip(i as int)[0] == g[i as int]);
            assert(g.skip(i as int).skip(1) =~= g.skip(i as int + 1));
            assert(used@.map_values(|e: ExportEntry| e@)[i as int] == used@[i as int]@);
        }
        let value = match build_js_value(&used[i].records, mg) {
            Ok(v) => v,
            Err(e) => {
                return Err(e);
            },
        };
        let ghost out0 = out@;
        out.append("  \"");
        let esc_name = js_escape(used[i].name.as_str());
        out.append(esc_name.as_str());
        out.append("\": ");
        out.append(value.as_str());
        out.append(",\n");
        i = i + 1;
        proof {
            let h = js_entry_line(g[i as int - 1], mg@)->Ok_0;
            assert(out@ =~= out0 + h);
            let tail = js_entry_lines(g.skip(i as int), mg@);
            if tail is Ok {
                assert(out0 + (h + tail->Ok_0) =~= (out0 + h) + tail->Ok_0);
            }
        }
    }
    proof {
        assert(g.skip(n as int) =~= Seq::<ExportEntryView>::empty());
        assert(out@ + Seq::<char>::empty() =~= out@);
    }
    Ok(out)
}

/// Builds the value expression of one export name.
fn build_js_value(recs: &Vec<crate::export_graph::CssExport>, mg: &ModuleGraphView) -> (r: Result<
    String,
    InternalError,
>)
    ensures
        match r {
            Ok(s) => js_value_expr(recs@.map_values(|e: crate::export_graph::CssExport| e@), mg@)
                == Ok::<Seq<char>, InternalError>(s@),
            Err(e) => js_value_expr(recs@.map_values(|e: crate::export_graph::CssExport| e@), mg@)
                == Err::<Seq<char>, InternalError>(e),
        },
{
    let ghost rv = recs@.map_values(|e: crate::export_graph::CssExport| e@);
    let mut out = String::new();
    let n = recs.len();
    if n == 0 {
        return Ok(out);
    }
    let mut i: usize = 0;
    proof {
        assert(rv.skip(0) =~= rv);
    }
    while i < n
        invariant
            0 < n,
            i <= n,
            n == recs@.len(),
            rv == recs@.map_values(|e: crate::export_graph::CssExport| e@),
            i == 0 ==> out@ == Seq::<char>::empty(),
            i > 0 ==> js_value_expr(rv, mg@) == (match js_value_rest(rv.skip(i as int), mg@) {
                Ok(t) => Ok::<Seq<char>, InternalError>(out@ + t),
                Err(e) => Err::<Seq<char>, InternalError>(e),
            }),
        decreases n - i,
    {
        proof {
            assert(rv.skip(i as int)[0] == rv[i as int]);
            assert(rv.skip(i as int).skip(1) =~= rv.skip(i as int + 1));
            assert(recs@.map_values(|e: crate::export_graph::CssExport| e@)[i as int]
                == recs@[i as int]@);
        }
        let rec = &recs[i];
        let ghost out0 = out@;
        if i > 0 {
            out.append(" + \" \" + ");
        }
        match rec.id {
            Some(d) => {
                match mg.lookup(d.0) {
                    Some(mid) => {
                        out.append("moduleCssExports(\"");
                        let esc_mid = js_escape(mid.as_str());
                        out.append(esc_mid.as_str());
                        out.append("\")[\"");
                        let esc_ident = js_escape(rec.ident.as_str());
                        out.append(esc_ident.as_str());
                        out.append("\"]");
                    },
                    None => {
                        return Err(InternalError::UnresolvedComposeDependency);
                    },
                }
            },
            None => {
                out.append("\"");
                let esc_ident = js_escape(rec.ident.as_str());
                out.append(esc_ident.as_str());
                out.append("\"");
            },
        }
        i = i + 1;
        proof {
            let h = js_record_expr(rv[i as int - 1], mg@)->Ok_0;
            if i == 1 {
                assert(out@ =~= h);
            } else {
                assert(out@ =~= out0 + (" + \" \" + "@ + h));
            }
            let tail = js_value_rest(rv.skip(i as int), mg@);
            if tail is Ok {
                if i == 1 {
                    assert(h + tail->Ok_0 =~= out@ + tail->Ok_0);
                } else {
                    assert(out0 + ((" + \" \" + "@ + h) + tail->Ok_0) =~= out@ + tail->Ok_0);
                }
            }
        }
    }
    proof {
        assert(rv.skip(n as int) =~= Seq::<CssExportView>::empty());
        assert(out@ + Seq::<char>::empty() =~= out@);
    }
    Ok(out)
}

impl CssParserAndGenerator {
    /// JavaScript target.  Inside a scope-merge context only the minimal
    /// used-exports binding table is emitted, never a full exports object;
    /// standalone, an exports object over the used names is emitted and an
    /// ECMAScript module additionally requires (and, when its other
    /// exports are used, is wrapped in) the namespace-object runtime.
    /// Both paths register the `module` runtime requirement.
    pub fn generate_js(
        &self,
        in_concatenation_scope: bool,
        other_exports_used: bool,
        hot: bool,
        mg: &ModuleGraphView,
        oracle: &UsageOracle,
        runtime_requirements: &mut RuntimeRequirements,
    ) -> (r: Result<String, InternalError>)
        ensures
            in_concatenation_scope ==> (match spec_js_concat(
                exports_view(self.exports),
                mg@,
                oracle@,
            ) {
                Ok(s) => r is Ok && r->Ok_0@ == s && final(runtime_requirements).module
                    && final(runtime_requirements).make_namespace_object == old(
                    runtime_requirements).make_namespace_object
                    && final(runtime_requirements).has_css_modules == old(
                    runtime_requirements).has_css_modules,
                Err(e) => r == Err::<String, InternalError>(e) && *final(runtime_requirements)
                    == *old(runtime_requirements),
            }),
            !in_concatenation_scope ==> (match spec_js_standalone(
                exports_view(self.exports),
                self.es_module,
                other_exports_used,
                hot,
                mg@,
                oracle@,
            ) {
                Ok(s) => r is Ok && r->Ok_0@ == s && final(runtime_requirements).module
                    && final(runtime_requirements).make_namespace_object == (old(
                    runtime_requirements).make_namespace_object || self.es_module)
                    && final(runtime_requirements).has_css_modules == old(
                    runtime_requirements).has_css_modules,
                Err(e) => r == Err::<String, InternalError>(e) && *final(runtime_requirements)
                    == *old(runtime_requirements),
            }),
    {
        if in_concatenation_scope {
            let out = match &self.exports {
                Some(g) => {
                    let used = get_used_exports(g, oracle);
                    match build_js_lines(&used, mg) {
                        Ok(l) => l,
                        Err(e) => {
                            return Err(e);
                        },
                    }
                },
                None => String::new(),
            };
            runtime_requirements.module = true;
            Ok(out)
        } else {
            let ns = self.es_module && other_exports_used;
            let mut out = String::new();
            match &self.exports {
                Some(g) => {
                    let used = get_used_exports(g, oracle);
                    let lines = match build_js_lines(&used, mg) {
                        Ok(l) => l,
                        Err(e) => {
                            return Err(e);
                        },
                    };
                    if ns {
                        out.append("__webpack_require__.r");
                        out.append("(");
                    }
                    out.append("module.exports = {\n");
                    out.append(lines.as_str());
                    out.append("}");
                    if ns {
                        out.append(")");
                    }
                    out.append(";\n");
                },
                None => {
                    if hot {
                        out.append("module.hot.accept();\n");
                    }
                    if ns {
                        out.append("__webpack_require__.r");
                        out.append("(");
                    }
                    out.append("module.exports = {}");
                    if ns {
                        out.append(")");
                    }
                    out.append(";\n");
                },
            }
            runtime_requirements.module = true;
            if self.es_module {
                runtime_requirements.make_namespace_object = true;
            }
            proof {
                let expected = spec_js_standalone(
                    exports_view(self.exports),
                    self.es_module,
                    other_exports_used,
                    hot,
                    mg@,
                    oracle@,
                );
                assert(expected is Ok);
                assert(out@ =~= expected->Ok_0);
            }
            Ok(out)
        }
    }
}

/// One generated output: rewritten CSS bytes or JavaScript text.
#[derive(Debug)]
pub enum GeneratedOutput {
    Css(Vec<u8>),
    JavaScript(String),
}

/// The module's build-cache hash contribution, as the bytes folded into it.
#[derive(Debug)]
pub struct BuildHash {
    pub bytes: Vec<u8>,
}

impl CssParserAndGenerator {
    /// The source types this module contributes: JavaScript only when the
    /// module is configured exports-only, else CSS.
    pub fn source_types(&self) -> (r: Vec<SourceType>)
        ensures
            r@ == (if self.exports_only {
                seq![SourceType::JavaScript]
            } else {
                seq![SourceType::Css]
            }),
    {
        let mut v: Vec<SourceType> = Vec::new();
        if self.exports_only {
            v.push(SourceType::JavaScript);
            proof {
                assert(v@ =~= seq![SourceType::JavaScript]);
            }
        } else {
            v.push(SourceType::Css);
            proof {
                assert(v@ =~= seq![SourceType::Css]);
            }
        }
        v
    }

    /// The size this module reports for an output kind: a fixed small cost
    /// for the JavaScript table, the source size for CSS.  An absent kind
    /// counts as CSS.
    pub fn size(&self, source_type: Option<SourceType>, source_size: u64) -> (r: u64)
        requires
            match source_type {
                Some(t) => t is JavaScript || t is Css,
                None => true,
            },
        ensures
            r == (match source_type {
                Some(SourceType::JavaScript) => 42u64,
                _ => source_size,
            }),
    {
        match source_type {
            Some(SourceType::JavaScript) => 42,
            _ => source_size,
        }
    }

    /// Module-scope concatenation of this component is declared
    /// unsupported: a deterministic bailout reason, never a silent merge.
    pub fn get_concatenation_bailout_reason(&self) -> (r: Option<String>)
        ensures
            match r {
                Some(s) => s@ == "Module Concatenation is not implemented for CssParserAndGenerator"@,
                None => false,
            },
    {
        Some(String::from_str("Module Concatenation is not implemented for CssParserAndGenerator"))
    }

    /// Folds exactly one configuration bit into the module's build-cache
    /// hash: whether the module is treated as an ECMAScript module.
    pub fn update_hash(&self, hasher: &mut BuildHash)
        ensures
            final(hasher).bytes@ == old(hasher).bytes@.push(
                if self.es_module {
                    1u8
                } else {
                    0u8
                },
            ),
    {
        if self.es_module {
            hasher.bytes.push(1);
        } else {
            hasher.bytes.push(0);
        }
    }

    /// Dispatches on the requested output kind; anything outside CSS and
    /// JavaScript is an internal error, reported and never silently
    /// accepted.
    pub fn generate(
        &self,
        requested_source_type: SourceType,
        source: &str,
        parsed: &ParseResult,
        module_id: &str,
        in_concatenation_scope: bool,
        other_exports_used: bool,
        hot: bool,
        mg: &ModuleGraphView,
        oracle: &UsageOracle,
        runtime_requirements: &mut RuntimeRequirements,
        data: &mut GenerationData,
    ) -> (r: Result<GeneratedOutput, InternalError>)
        ensures
            requested_source_type is Css ==> final(runtime_requirements).has_css_modules && final(
                runtime_requirements).module == old(runtime_requirements).module && final(
                runtime_requirements).make_namespace_object == old(
                runtime_requirements).make_namespace_object && (match spec_generate_css(
                exports_view(self.exports),
                self.es_module,
                source.spec_bytes(),
                parsed@.dependencies,
                parsed@.presentational_dependencies,
                module_id@,
                mg@,
                oracle@,
            ) {
                Ok(gen) => (r matches Ok(GeneratedOutput::Css(b)) && b@ == gen.css) && (match final(
                    data).css_used_exports {
                    Some(m) => m.0@ == gen.meta,
                    None => false,
                }),
                Err(e) => r == Err::<GeneratedOutput, InternalError>(e),
            }),
            requested_source_type is JavaScript && in_concatenation_scope ==> (match spec_js_concat(
                exports_view(self.exports),
                mg@,
                oracle@,
            ) {
                Ok(s) => (r matches Ok(GeneratedOutput::JavaScript(t)) && t@ == s) && final(
                    runtime_requirements).module && final(
                    runtime_requirements).make_namespace_object == old(
                    runtime_requirements).make_namespace_object && final(
                    runtime_requirements).has_css_modules == old(
                    runtime_requirements).has_css_modules,
                Err(e) => r == Err::<GeneratedOutput, InternalError>(e) && *final(
                    runtime_requirements) == *old(runtime_requirements),
            }),
            requested_source_type is JavaScript && !in_concatenation_scope ==> (
            match spec_js_standalone(
                exports_view(self.exports),
                self.es_module,
                other_exports_used,
                hot,
                mg@,
                oracle@,
            ) {
                Ok(s) => (r matches Ok(GeneratedOutput::JavaScript(t)) && t@ == s) && final(
                    runtime_requirements).module && final(
                    runtime_requirements).make_namespace_object == (old(
                    runtime_requirements).make_namespace_object || self.es_module) && final(
                    runtime_requirements).has_css_modules == old(
                    runtime_requirements).has_css_modules,
                Err(e) => r == Err::<GeneratedOutput, InternalError>(e) && *final(
                    runtime_requirements) == *old(runtime_requirements),
            }),
            !(requested_source_type is Css) && !(requested_source_type is JavaScript) ==> r == Err::<
                GeneratedOutput,
                InternalError,
            >(InternalError::UnsupportedSourceType) && *final(runtime_requirements) == *old(
                runtime_requirements),
    {
        match requested_source_type {
            SourceType::Css => {
                match self.generate_css(
                    source,
                    parsed,
                    module_id,
                    mg,
                    oracle,
                    runtime_requirements,
                    data,
                ) {
                    Ok(b) => Ok(GeneratedOutput::Css(b)),
                    Err(e) => Err(e),
                }
            },
            SourceType::JavaScript => {
                match self.generate_js(
                    in_concatenation_scope,
                    other_exports_used,
                    hot,
                    mg,
                    oracle,
                    runtime_requirements,
                ) {
                    Ok(s) => Ok(GeneratedOutput::JavaScript(s)),
                    Err(e) => Err(e),
                }
            },
            _ => Err(InternalError::UnsupportedSourceType),
        }
    }
}

} // verus!
