//! Library-wide laws: determinism of generation, order preservation of
//! composition, totality of usage filtering, and convention expansion,
//! each proved against the specification functions the public contracts
//! are stated in.

use vstd::prelude::*;

use crate::DependencyId;
use crate::events::DependencyEvent;
use crate::export_graph::CssExportView;
use crate::export_graph::CssExportsConvention;
use crate::export_graph::ExportEntryView;
use crate::export_graph::GraphView;
use crate::export_graph::convention_names_seq;
use crate::export_graph::graph_insert;
use crate::export_graph::graph_insert_names;
use crate::export_graph::key_index;
use crate::export_graph::lemma_key_index_absent;
use crate::export_graph::set_extend;
use crate::export_graph::set_insert;
use crate::codegen::CssGenView;
use crate::codegen::MgView;
use crate::codegen::spec_generate_css;
use crate::parser::CssDependencyView;
use crate::parser::ExtractCfg;
use crate::parser::ExtractView;
use crate::parser::InternalError;
use crate::parser::PresentationalDependencyView;
use crate::parser::compose_classes;
use crate::parser::compose_names;
use crate::parser::compose_one;
use crate::parser::extract_events;
use crate::parser::extract_step;
use crate::parser::graph_of;
use crate::parser::resolve_local_ident;
use crate::parser::scoped_step;
use crate::parser::strip_sigil;
use crate::text::camel_case_seq;
use crate::text::unescape_seq;
use crate::usage::OracleView;
use crate::usage::oracle_unused;
use crate::usage::seq_insert_unique;
use crate::usage::spec_unused_idents;
use crate::usage::spec_used;
use crate::usage::unused_idents_of_records;

verus! {

/// Idempotence of CSS generation: with an identical export graph, oracle
/// snapshot, module-graph view, source and configuration, two generations
/// yield byte-identical output.
pub proof fn lemma_generate_css_deterministic(
    exports: Option<GraphView>,
    es_module: bool,
    src: Seq<u8>,
    deps: Seq<CssDependencyView>,
    pres: Seq<PresentationalDependencyView>,
    module_id: Seq<char>,
    mg: MgView,
    o: OracleView,
    r1: Result<CssGenView, InternalError>,
    r2: Result<CssGenView, InternalError>,
)
    requires
        r1 == spec_generate_css(exports, es_module, src, deps, pres, module_id, mg, o),
        r2 == spec_generate_css(exports, es_module, src, deps, pres, module_id, mg, o),
    ensures
        r1 == r2,
{
}

/// Idempotence of JavaScript generation: with an identical export graph,
/// oracle snapshot, module-graph view and configuration, two standalone
/// generations yield byte-identical output.
pub proof fn lemma_generate_js_deterministic(
    exports: Option<GraphView>,
    es_module: bool,
    other_exports_used: bool,
    hot: bool,
    mg: MgView,
    o: OracleView,
    r1: Result<Seq<char>, InternalError>,
    r2: Result<Seq<char>, InternalError>,
)
    requires
        r1 == crate::codegen::spec_js_standalone(exports, es_module, other_exports_used, hot, mg, o),
        r2 == crate::codegen::spec_js_standalone(exports, es_module, other_exports_used, hot, mg, o),
    ensures
        r1 == r2,
{
}

/// Order preservation: with classes `a` then `b` declared in that order
/// (each contributing its own record), locally composing `b` into `a`
/// leaves export `a` with `a`'s record followed by `b`'s, in that order.
pub proof fn lemma_compose_order(a: Seq<char>, b: Seq<char>, ra: CssExportView, rb: CssExportView)
    requires
        a != b,
        ra != rb,
    ensures
        ({
            let g2 = graph_insert(graph_insert(Seq::empty(), a, ra), b, rb);
            match compose_one(g2, b, a, None, None) {
                Ok(g3) => g3 == seq![
                    ExportEntryView { name: a, records: seq![ra, rb] },
                    ExportEntryView { name: b, records: seq![rb] },
                ],
                Err(_) => false,
            }
        }),
{
    let g0 = Seq::<ExportEntryView>::empty();
    let g1 = graph_insert(g0, a, ra);
    assert(key_index(g0, a) == -1);
    assert(g1 =~= seq![ExportEntryView { name: a, records: seq![ra] }]);
    let g2 = graph_insert(g1, b, rb);
    assert(g1.skip(1) =~= Seq::<ExportEntryView>::empty());
    assert(key_index(g1.skip(1), b) == -1);
    assert(g1[0].name == a);
    assert(key_index(g1, b) == -1);
    assert(g2 =~= seq![
        ExportEntryView { name: a, records: seq![ra] },
        ExportEntryView { name: b, records: seq![rb] },
    ]);
    assert(key_index(g2, a) == 0);
    assert(g2.skip(1) =~= seq![ExportEntryView { name: b, records: seq![rb] }]);
    assert(g2.skip(1).skip(1) =~= Seq::<ExportEntryView>::empty());
    assert(key_index(g2.skip(1).skip(1), b) == -1);
    assert(g2.skip(1)[0].name == b);
    assert(key_index(g2.skip(1), b) == 0);
    assert(g2[0].name == a);
    assert(key_index(g2, b) == 1);
    let merged = set_extend(seq![ra], seq![rb]);
    assert(seq![rb].skip(1) =~= Seq::<CssExportView>::empty());
    assert(seq![rb][0] == rb);
    assert(seq![ra][0] == ra);
    assert(!seq![ra].contains(rb));
    assert(set_extend(set_insert(seq![ra], rb), seq![rb].skip(1)) == set_insert(seq![ra], rb));
    assert(merged == set_insert(seq![ra], rb));
    assert(merged =~= seq![ra, rb]);
    match compose_one(g2, b, a, None, None) {
        Ok(g3) => {
            assert(g3[0] == ExportEntryView { name: a, records: merged });
            assert(g3 =~= seq![
                ExportEntryView { name: a, records: seq![ra, rb] },
                ExportEntryView { name: b, records: seq![rb] },
            ]);
        },
        Err(_) => {
            assert(false);
        },
    }
}

/// Convention expansion under the camel-case convention: a raw name whose
/// camel-cased form is itself expands to exactly that one name, and any
/// other raw name to exactly the raw and camel-cased pair; every expanded
/// name is inserted pointing at the same record.
pub proof fn lemma_convention_expansion(n: Seq<char>)
    ensures
        camel_case_seq(n) == n ==> convention_names_seq(n, CssExportsConvention::CamelCase)
            == seq![n],
        camel_case_seq(n) != n ==> convention_names_seq(n, CssExportsConvention::CamelCase)
            == seq![n, camel_case_seq(n)],
{
}

/// Inserting a record under a name no entry carries appends a singleton
/// entry.
proof fn lemma_insert_fresh(g: GraphView, name: Seq<char>, rec: CssExportView)
    requires
        forall|i: int| 0 <= i < g.len() ==> (#[trigger] g[i]).name != name,
    ensures
        graph_insert(g, name, rec) == g.push(ExportEntryView { name, records: seq![rec] }),
{
    lemma_key_index_absent(g, name);
}

/// Convention expansion at extraction: one scoped-name declaration on an
/// empty graph under the camel-case convention adds exactly one export
/// name when the raw name is its own camel-cased form, and exactly the
/// raw and camel-cased pair otherwise; every added entry holds the same
/// single record with the resolved identifier, and the one recorded
/// dependency carries all expanded names.
pub proof fn lemma_scoped_step_expansion(
    st: ExtractView,
    raw: Seq<char>,
    dep_start: u32,
    dep_end: u32,
    cfg: ExtractCfg,
)
    requires
        graph_of(st.exports).len() == 0,
        cfg.convention == Some(CssExportsConvention::CamelCase),
        cfg.template is Some,
    ensures
        ({
            let ident = resolve_local_ident(cfg.resource_path, raw, cfg.template->0);
            let rec = CssExportView { ident, from: None, id: None };
            match scoped_step(st, raw, dep_start, dep_end, cfg) {
                Ok(st2) => (if camel_case_seq(raw) == raw {
                    graph_of(st2.exports) == seq![ExportEntryView { name: raw, records: seq![rec] }]
                } else {
                    graph_of(st2.exports) == seq![
                        ExportEntryView { name: raw, records: seq![rec] },
                        ExportEntryView { name: camel_case_seq(raw), records: seq![rec] },
                    ]
                }) && st2.deps == st.deps.push(
                    CssDependencyView::LocalIdent {
                        local_ident: ident,
                        convention_names: convention_names_seq(
                            raw,
                            CssExportsConvention::CamelCase,
                        ),
                        start: dep_start,
                        end: dep_end,
                        id: DependencyId(st.deps.len() as u64),
                    },
                ),
                Err(_) => false,
            }
        }),
{
    let ident = resolve_local_ident(cfg.resource_path, raw, cfg.template->0);
    let rec = CssExportView { ident, from: None, id: None };
    let names = convention_names_seq(raw, CssExportsConvention::CamelCase);
    let g0 = graph_of(st.exports);
    assert(g0 =~= Seq::<ExportEntryView>::empty());
    lemma_insert_fresh(g0, raw, rec);
    let g1 = graph_insert(g0, raw, rec);
    assert(g1 =~= seq![ExportEntryView { name: raw, records: seq![rec] }]);
    if camel_case_seq(raw) == raw {
        assert(names == seq![raw]);
        assert(names.skip(1) =~= Seq::<Seq<char>>::empty());
        assert(names[0] == raw);
        assert(graph_insert_names(g1, names.skip(1), rec) == g1);
        assert(graph_insert_names(g0, names, rec) == g1);
    } else {
        assert(names == seq![raw, camel_case_seq(raw)]);
        assert(names[0] == raw && names[1] == camel_case_seq(raw));
        assert(names.skip(1) =~= seq![camel_case_seq(raw)]);
        assert(names.skip(1).skip(1) =~= Seq::<Seq<char>>::empty());
        assert(g1[0].name == raw);
        lemma_insert_fresh(g1, camel_case_seq(raw), rec);
        let g2 = graph_insert(g1, camel_case_seq(raw), rec);
        assert(g2 =~= seq![
            ExportEntryView { name: raw, records: seq![rec] },
            ExportEntryView { name: camel_case_seq(raw), records: seq![rec] },
        ]);
        assert(names.skip(1)[0] == camel_case_seq(raw));
        assert(graph_insert_names(g2, names.skip(1).skip(1), rec) == g2);
        assert(graph_insert_names(g1, names.skip(1), rec) == g2);
        assert(graph_insert_names(g0, names, rec) == g2);
    }
}

/// One scoped-name declaration under the verbatim convention inserts the
/// resolved record under exactly the raw name.
proof fn lemma_scoped_step_as_is(
    st: ExtractView,
    raw: Seq<char>,
    dep_start: u32,
    dep_end: u32,
    cfg: ExtractCfg,
)
    requires
        cfg.convention == Some(CssExportsConvention::AsIs),
        cfg.template is Some,
    ensures
        ({
            let rec = CssExportView {
                ident: resolve_local_ident(cfg.resource_path, raw, cfg.template->0),
                from: None,
                id: None,
            };
            match scoped_step(st, raw, dep_start, dep_end, cfg) {
                Ok(st2) => st2.exports == Some(graph_insert(graph_of(st.exports), raw, rec)),
                Err(_) => false,
            }
        }),
{
    let rec = CssExportView {
        ident: resolve_local_ident(cfg.resource_path, raw, cfg.template->0),
        from: None,
        id: None,
    };
    let names = convention_names_seq(raw, CssExportsConvention::AsIs);
    assert(names == seq![raw]);
    assert(names[0] == raw);
    assert(names.skip(1) =~= Seq::<Seq<char>>::empty());
    let g1 = graph_insert(graph_of(st.exports), raw, rec);
    assert(graph_insert_names(g1, names.skip(1), rec) == g1);
    assert(graph_insert_names(graph_of(st.exports), names, rec) == g1);
}

/// Order preservation at extraction: on an empty graph, under the
/// verbatim convention, declaring class `.a`, then class `.b`, then
/// applying `composes: b` to `a` leaves export `a` with `a`'s resolved
/// identifier first and `b`'s second, and export `b` after it.  The two
/// resolved identifiers are assumed distinct, as a usable naming template
/// keeps distinct names apart.
pub proof fn lemma_extract_compose_order(
    st0: ExtractView,
    e1: DependencyEvent,
    e2: DependencyEvent,
    e3: DependencyEvent,
    cfg: ExtractCfg,
    a: Seq<char>,
    b: Seq<char>,
)
    requires
        graph_of(st0.exports).len() == 0,
        cfg.convention == Some(CssExportsConvention::AsIs),
        cfg.template is Some,
        a != b,
        resolve_local_ident(cfg.resource_path, a, cfg.template->0) != resolve_local_ident(
            cfg.resource_path,
            b,
            cfg.template->0,
        ),
        e1 matches DependencyEvent::LocalClass { name, .. } && name@ == seq!['.'] + a,
        e2 matches DependencyEvent::LocalClass { name, .. } && name@ == seq!['.'] + b,
        e3 matches DependencyEvent::Composes { local_classes, names, from, .. }
            && local_classes@.map_values(|s: String| s@) == seq![a] && names@.map_values(
            |s: String| s@,
        ) == seq![b] && from is None,
    ensures
        ({
            let ra = CssExportView {
                ident: resolve_local_ident(cfg.resource_path, a, cfg.template->0),
                from: None,
                id: None,
            };
            let rb = CssExportView {
                ident: resolve_local_ident(cfg.resource_path, b, cfg.template->0),
                from: None,
                id: None,
            };
            match extract_events(st0, seq![e1, e2, e3], cfg) {
                Ok(st3) => graph_of(st3.exports) == seq![
                    ExportEntryView { name: a, records: seq![ra, rb] },
                    ExportEntryView { name: b, records: seq![rb] },
                ],
                Err(_) => false,
            }
        }),
{
    let ra = CssExportView {
        ident: resolve_local_ident(cfg.resource_path, a, cfg.template->0),
        from: None,
        id: None,
    };
    let rb = CssExportView {
        ident: resolve_local_ident(cfg.resource_path, b, cfg.template->0),
        from: None,
        id: None,
    };
    let evs = seq![e1, e2, e3];
    assert(evs[0] == e1 && evs[1] == e2 && evs[2] == e3);
    assert(evs.skip(1) =~= seq![e2, e3]);
    assert(seq![e2, e3].skip(1) =~= seq![e3]);
    assert(seq![e3].skip(1) =~= Seq::<DependencyEvent>::empty());
    let g0 = graph_of(st0.exports);
    assert(g0 =~= Seq::<ExportEntryView>::empty());

    // Declaring `.a` appends the singleton entry for `a`.
    let r1 = extract_step(st0, e1, cfg);
    match e1 {
        DependencyEvent::LocalClass { name, start, end } => {
            assert(strip_sigil(name@) =~= a);
            lemma_scoped_step_as_is(st0, strip_sigil(name@), (start + 1) as u32, end, cfg);
        },
        _ => {
            assert(false);
        },
    }
    assert(r1 is Ok);
    let st1 = r1->Ok_0;
    let g1 = graph_insert(g0, a, ra);
    lemma_insert_fresh(g0, a, ra);
    assert(g1 =~= seq![ExportEntryView { name: a, records: seq![ra] }]);
    assert(st1.exports == Some(g1));

    // Declaring `.b` appends the singleton entry for `b` after it.
    let r2 = extract_step(st1, e2, cfg);
    match e2 {
        DependencyEvent::LocalClass { name, start, end } => {
            assert(strip_sigil(name@) =~= b);
            lemma_scoped_step_as_is(st1, strip_sigil(name@), (start + 1) as u32, end, cfg);
        },
        _ => {
            assert(false);
        },
    }
    assert(r2 is Ok);
    let st2 = r2->Ok_0;
    let g2 = graph_insert(g1, b, rb);
    assert(g1[0].name == a);
    lemma_insert_fresh(g1, b, rb);
    assert(g2 =~= seq![
        ExportEntryView { name: a, records: seq![ra] },
        ExportEntryView { name: b, records: seq![rb] },
    ]);
    assert(st2.exports == Some(g2));

    // The local composition merges `b`'s record after `a`'s own.
    lemma_compose_order(a, b, ra, rb);
    let g3 = compose_one(g2, b, a, None, None)->Ok_0;
    let r3 = extract_step(st2, e3, cfg);
    match e3 {
        DependencyEvent::Composes { local_classes, names, from, .. } => {
            let ns = names@.map_values(|s: String| s@);
            let cs = local_classes@.map_values(|s: String| s@);
            assert(ns == seq![b] && cs == seq![a]);
            assert(ns[0] == b && cs[0] == a);
            assert(cs.skip(1) =~= Seq::<Seq<char>>::empty());
            assert(ns.skip(1) =~= Seq::<Seq<char>>::empty());
            assert(compose_classes(g3, b, cs.skip(1), None, None) == Ok::<
                GraphView,
                InternalError,
            >(g3));
            assert(compose_classes(g2, b, cs, None, None) == Ok::<GraphView, InternalError>(g3));
            assert(compose_names(g3, ns.skip(1), cs, None, None) == Ok::<
                GraphView,
                InternalError,
            >(g3));
            assert(compose_names(g2, ns, cs, None, None) == Ok::<GraphView, InternalError>(g3));
        },
        _ => {
            assert(false);
        },
    }
    assert(r3 is Ok);
    assert(r3->Ok_0.exports == Some(g3));
    assert(extract_events(r3->Ok_0, Seq::<DependencyEvent>::empty(), cfg) == Ok::<
        ExtractView,
        InternalError,
    >(r3->Ok_0));
    assert(extract_events(st2, seq![e3], cfg) == Ok::<ExtractView, InternalError>(r3->Ok_0));
    assert(extract_events(st1, seq![e2, e3], cfg) == Ok::<ExtractView, InternalError>(r3->Ok_0));
    assert(extract_events(st0, evs, cfg) == Ok::<ExtractView, InternalError>(r3->Ok_0));
}

/// Membership in the accumulator survives folding further records in, and
/// every record's unescaped identifier is in the result.
proof fn lemma_uir_members(acc: Seq<Seq<char>>, recs: Seq<CssExportView>)
    ensures
        forall|x: Seq<char>|
            acc.contains(x) ==> #[trigger] unused_idents_of_records(acc, recs).contains(x),
        forall|j: int|
            0 <= j < recs.len() ==> unused_idents_of_records(acc, recs).contains(
                unescape_seq(#[trigger] recs[j].ident),
            ),
    decreases recs.len(),
{
    if recs.len() > 0 {
        let x0 = unescape_seq(recs[0].ident);
        let acc2 = seq_insert_unique(acc, x0);
        if !acc.contains(x0) {
            assert(acc.push(x0)[acc.len() as int] == x0);
        }
        assert(acc2.contains(x0));
        assert forall|x: Seq<char>| acc.contains(x) implies acc2.contains(x) by {
            let k = choose|k: int| 0 <= k < acc.len() && acc[k] == x;
            if !acc.contains(x0) {
                assert(acc.push(x0)[k] == x);
            }
        }
        lemma_uir_members(acc2, recs.skip(1));
        assert forall|j: int|
            0 <= j < recs.len() implies unused_idents_of_records(acc, recs).contains(
            unescape_seq(recs[j].ident),
        ) by {
            if j == 0 {
                assert(unused_idents_of_records(acc2, recs.skip(1)).contains(x0));
            } else {
                assert(recs.skip(1)[j - 1] == recs[j]);
            }
        }
    }
}

/// Membership in the accumulator survives the whole unused-idents fold.
proof fn lemma_sui_members(acc: Seq<Seq<char>>, g: GraphView, o: OracleView)
    ensures
        forall|x: Seq<char>|
            acc.contains(x) ==> #[trigger] spec_unused_idents(acc, g, o).contains(x),
    decreases g.len(),
{
    if g.len() > 0 {
        let acc2 = if oracle_unused(o, g[0].name) {
            unused_idents_of_records(acc, g[0].records)
        } else {
            acc
        };
        lemma_uir_members(acc, g[0].records);
        lemma_sui_members(acc2, g.skip(1), o);
        assert forall|x: Seq<char>| acc.contains(x) implies spec_unused_idents(
            acc,
            g,
            o,
        ).contains(x) by {
            assert(acc2.contains(x));
            assert(spec_unused_idents(acc2, g.skip(1), o).contains(x));
        }
    }
}

/// Whether some entry of the graph view carries this export name.
pub open spec fn graph_view_has_name(g: GraphView, name: Seq<char>) -> bool {
    exists|i: int| 0 <= i < g.len() && (#[trigger] g[i]).name == name
}

/// Totality of usage filtering: every export name of the graph appears in
/// the used view exactly when the oracle does not report it unused — never
/// both, never neither — and when it is reported unused, the unescaped
/// identifier of each of its records is contributed to the unused set.
pub proof fn lemma_usage_partition(g: GraphView, o: OracleView, name: Seq<char>)
    requires
        graph_view_has_name(g, name),
    ensures
        graph_view_has_name(spec_used(g, o), name) <==> !oracle_unused(o, name),
        oracle_unused(o, name) ==> forall|i: int, j: int|
            0 <= i < g.len() && (#[trigger] g[i]).name == name && 0 <= j < g[i].records.len()
                ==> spec_unused_idents(Seq::empty(), g, o).contains(
                unescape_seq(#[trigger] g[i].records[j].ident),
            ),
{
    lemma_used_names(g, o, name);
    if oracle_unused(o, name) {
        lemma_unused_contributes(Seq::empty(), g, o, name);
    }
}

/// The used view holds exactly the graph's not-reported-unused names.
proof fn lemma_used_names(g: GraphView, o: OracleView, name: Seq<char>)
    requires
        graph_view_has_name(g, name),
    ensures
        graph_view_has_name(spec_used(g, o), name) <==> !oracle_unused(o, name),
    decreases g.len(),
{
    let i = choose|i: int| 0 <= i < g.len() && (#[trigger] g[i]).name == name;
    let u = spec_used(g, o);
    let rest = spec_used(g.skip(1), o);
    if i == 0 {
        if !oracle_unused(o, name) {
            assert(u[0].name == name);
        } else {
            lemma_used_subset(g, o, name);
        }
    } else {
        assert(g.skip(1)[i - 1] == g[i]);
        lemma_used_names(g.skip(1), o, name);
        if !oracle_unused(o, name) {
            let k = choose|k: int| 0 <= k < rest.len() && (#[trigger] rest[k]).name == name;
            if !oracle_unused(o, g[0].name) {
                assert(u[k + 1].name == name);
            } else {
                assert(u[k].name == name);
            }
        } else {
            lemma_used_subset(g, o, name);
        }
    }
}

/// A name the oracle reports unused never reaches the used view.
proof fn lemma_used_subset(g: GraphView, o: OracleView, name: Seq<char>)
    requires
        oracle_unused(o, name),
    ensures
        !graph_view_has_name(spec_used(g, o), name),
    decreases g.len(),
{
    if g.len() > 0 {
        lemma_used_subset(g.skip(1), o, name);
        let u = spec_used(g, o);
        let rest = spec_used(g.skip(1), o);
        if graph_view_has_name(u, name) {
            let k = choose|k: int| 0 <= k < u.len() && (#[trigger] u[k]).name == name;
            if !oracle_unused(o, g[0].name) {
                if k == 0 {
                    assert(g[0].name == name);
                } else {
                    assert(rest[k - 1] == u[k]);
                }
            } else {
                assert(rest[k] == u[k]);
            }
            assert(false);
        }
    }
}

/// Every record of an unused entry contributes its unescaped identifier.
proof fn lemma_unused_contributes(acc: Seq<Seq<char>>, g: GraphView, o: OracleView, name: Seq<char>)
    requires
        oracle_unused(o, name),
    ensures
        forall|i: int, j: int|
            0 <= i < g.len() && (#[trigger] g[i]).name == name && 0 <= j < g[i].records.len()
                ==> spec_unused_idents(acc, g, o).contains(
                unescape_seq(#[trigger] g[i].records[j].ident),
            ),
    decreases g.len(),
{
    if g.len() > 0 {
        let acc2 = if oracle_unused(o, g[0].name) {
            unused_idents_of_records(acc, g[0].records)
        } else {
            acc
        };
        lemma_unused_contributes(acc2, g.skip(1), o, name);
        assert forall|i: int, j: int|
            0 <= i < g.len() && (#[trigger] g[i]).name == name && 0 <= j
                < g[i].records.len() implies spec_unused_idents(acc, g, o).contains(
            unescape_seq(#[trigger] g[i].records[j].ident),
        ) by {
            if i == 0 {
                lemma_uir_members(acc, g[0].records);
                assert(unused_idents_of_records(acc, g[0].records).contains(
                    unescape_seq(g[0].records[j].ident),
                ));
                lemma_sui_members(acc2, g.skip(1), o);
                assert(spec_unused_idents(acc2, g.skip(1), o).contains(
                    unescape_seq(g[0].records[j].ident),
                ));
            } else {
                assert(g.skip(1)[i - 1] == g[i]);
            }
        }
    }
}

/// Folding a record set adds nothing beyond the records' unescaped
/// identifiers.
proof fn lemma_uir_only(acc: Seq<Seq<char>>, recs: Seq<CssExportView>)
    ensures
        forall|x: Seq<char>|
            #[trigger] unused_idents_of_records(acc, recs).contains(x) ==> acc.contains(x) || (
            exists|j: int| 0 <= j < recs.len() && x == unescape_seq((#[trigger] recs[j]).ident)),
    decreases recs.len(),
{
    if recs.len() > 0 {
        let x0 = unescape_seq(recs[0].ident);
        let acc2 = seq_insert_unique(acc, x0);
        lemma_uir_only(acc2, recs.skip(1));
        assert forall|x: Seq<char>|
            #[trigger] unused_idents_of_records(acc, recs).contains(x) implies acc.contains(x) || (
        exists|j: int| 0 <= j < recs.len() && x == unescape_seq((#[trigger] recs[j]).ident)) by {
            assert(unused_idents_of_records(acc2, recs.skip(1)).contains(x));
            if acc2.contains(x) {
                if !acc.contains(x) {
                    let k = choose|k: int| 0 <= k < acc2.len() && acc2[k] == x;
                    if k < acc.len() {
                        assert(acc[k] == x);
                    } else {
                        assert(x == unescape_seq((recs[0]).ident));
                    }
                }
            } else {
                let j = choose|j: int|
                    0 <= j < recs.skip(1).len() && x == unescape_seq(
                        (#[trigger] recs.skip(1)[j]).ident,
                    );
                assert(recs.skip(1)[j] == recs[j + 1]);
                assert(x == unescape_seq((recs[j + 1]).ident));
            }
        }
    }
}

/// The unused-identifier fold adds nothing beyond the unescaped
/// identifiers of records whose export name is reported unused.
proof fn lemma_sui_only(acc: Seq<Seq<char>>, g: GraphView, o: OracleView)
    ensures
        forall|x: Seq<char>|
            #[trigger] spec_unused_idents(acc, g, o).contains(x) ==> acc.contains(x) || (exists|
                i: int,
                j: int,
            |
                0 <= i < g.len() && oracle_unused(o, (#[trigger] g[i]).name) && 0 <= j
                    < g[i].records.len() && x == unescape_seq(#[trigger] g[i].records[j].ident)),
    decreases g.len(),
{
    if g.len() > 0 {
        let acc2 = if oracle_unused(o, g[0].name) {
            unused_idents_of_records(acc, g[0].records)
        } else {
            acc
        };
        lemma_sui_only(acc2, g.skip(1), o);
        lemma_uir_only(acc, g[0].records);
        assert forall|x: Seq<char>|
            #[trigger] spec_unused_idents(acc, g, o).contains(x) implies acc.contains(x) || (exists|
            i: int,
            j: int,
        |
            0 <= i < g.len() && oracle_unused(o, (#[trigger] g[i]).name) && 0 <= j
                < g[i].records.len() && x == unescape_seq(#[trigger] g[i].records[j].ident)) by {
            assert(spec_unused_idents(acc2, g.skip(1), o).contains(x));
            if acc2.contains(x) {
                if !acc.contains(x) {
                    assert(oracle_unused(o, g[0].name));
                    assert(unused_idents_of_records(acc, g[0].records).contains(x));
                    let j = choose|j: int|
                        0 <= j < g[0].records.len() && x == unescape_seq(
                            (#[trigger] g[0].records[j]).ident,
                        );
                    assert(0 <= 0 < g.len() && oracle_unused(o, g[0].name) && 0 <= j
                        < g[0].records.len() && x == unescape_seq(g[0].records[j].ident));
                }
            } else {
                let (i, j) = choose|i: int, j: int|
                    0 <= i < g.skip(1).len() && oracle_unused(o, (#[trigger] g.skip(1)[i]).name)
                        && 0 <= j < g.skip(1)[i].records.len() && x == unescape_seq(
                        #[trigger] g.skip(1)[i].records[j].ident,
                    );
                assert(g.skip(1)[i] == g[i + 1]);
                assert(0 <= i + 1 < g.len() && oracle_unused(o, g[i + 1].name) && 0 <= j < g[i
                    + 1].records.len() && x == unescape_seq(g[i + 1].records[j].ident));
            }
        }
    }
}

/// When the oracle reports every export name of the graph unused, the
/// used view is empty and the unused-identifier set holds exactly the
/// unescaped identifiers of the graph's records: every record contributes,
/// and nothing else is in the set.
pub proof fn lemma_all_unused(g: GraphView, o: OracleView)
    requires
        forall|i: int| 0 <= i < g.len() ==> oracle_unused(o, (#[trigger] g[i]).name),
    ensures
        spec_used(g, o) == Seq::<ExportEntryView>::empty(),
        forall|i: int, j: int|
            0 <= i < g.len() && 0 <= j < (#[trigger] g[i]).records.len()
                ==> spec_unused_idents(Seq::empty(), g, o).contains(
                unescape_seq(#[trigger] g[i].records[j].ident),
            ),
        forall|x: Seq<char>|
            #[trigger] spec_unused_idents(Seq::empty(), g, o).contains(x) ==> exists|
                i: int,
                j: int,
            |
                0 <= i < g.len() && 0 <= j < (#[trigger] g[i]).records.len() && x == unescape_seq(
                    #[trigger] g[i].records[j].ident,
                ),
    decreases g.len(),
{
    lemma_sui_only(Seq::empty(), g, o);
    if g.len() > 0 {
        assert forall|i: int| 0 <= i < g.skip(1).len() implies oracle_unused(
            o,
            (#[trigger] g.skip(1)[i]).name,
        ) by {
            assert(g.skip(1)[i] == g[i + 1]);
        }
        lemma_all_unused(g.skip(1), o);
        assert(spec_used(g, o) =~= Seq::<ExportEntryView>::empty());
        assert forall|i: int, j: int|
            0 <= i < g.len() && 0 <= j < (#[trigger] g[i]).records.len() implies spec_unused_idents(
            Seq::empty(),
            g,
            o,
        ).contains(unescape_seq(#[trigger] g[i].records[j].ident)) by {
            lemma_unused_contributes(Seq::empty(), g, o, g[i].name);
        }
    }
}

} // verus!
