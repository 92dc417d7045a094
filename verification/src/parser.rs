//! The dependency extractor: one pass over the lexer's event stream that
//! records dependency objects, presentational text splices and diagnostics,
//! and builds the module's export graph.

use vstd::prelude::*;
use vstd::string::StrSliceExecFns;
use vstd::string::StringExecFns;

use crate::DependencyId;
use crate::events::DependencyEvent;
use crate::events::LexWarning;
use crate::events::lex_source;
use crate::events::lexed_events;
use crate::events::lexed_warnings;
use crate::export_graph::CssExport;
use crate::export_graph::CssExportView;
use crate::export_graph::CssExports;
use crate::export_graph::CssExportsConvention;
use crate::export_graph::GraphView;
use crate::export_graph::convention_names_seq;
use crate::export_graph::export_locals_convention;
use crate::export_graph::graph_extend_at;
use crate::export_graph::graph_has_key;
use crate::export_graph::graph_insert;
use crate::export_graph::graph_insert_names;
use crate::export_graph::insert_under_names;
use crate::export_graph::key_index;
use crate::export_graph::update_css_exports;
use crate::text::is_module_path;
use crate::text::is_module_path_seq;
use crate::text::strip_comments;
use crate::text::strip_comments_seq;
use crate::text::trim_chars;
use crate::text::trim_seq;

verus! {

/// The kind of stylesheet module being parsed; `CssModule` always scopes
/// names, `CssAuto` scopes them when the resource path names a module.
#[derive(Debug, Clone, Copy, PartialEq, Eq, Structural)]
pub enum ModuleType {
    CssModule,
    CssAuto,
    Css,
}

/// Diagnostic severity: warnings keep the build going, errors fail it.
#[derive(Debug, Clone, Copy, PartialEq, Eq, Structural)]
pub enum Severity {
    Warning,
    Error,
}

/// A user-facing diagnostic with its source range.
#[derive(Debug)]
pub struct Diagnostic {
    pub severity: Severity,
    pub message: String,
    pub start: u32,
    pub end: u32,
}

/// Character-level view of a diagnostic.
#[verifier::ext_equal]
pub struct DiagnosticView {
    pub severity: Severity,
    pub message: Seq<char>,
    pub start: u32,
    pub end: u32,
}

impl View for Diagnostic {
    type V = DiagnosticView;

    open spec fn view(&self) -> DiagnosticView {
        DiagnosticView {
            severity: self.severity,
            message: self.message@,
            start: self.start,
            end: self.end,
        }
    }
}

/// One piece of the naming template that turns a raw local name into its
/// generated identifier.
#[derive(Debug)]
pub enum IdentPiece {
    /// The raw declared name.
    LocalName,
    /// The module's resource path (empty when the module has none).
    ResourcePath,
    /// Literal text.
    Literal(String),
}

/// The naming template: the generated identifier is the concatenation of
/// the expanded pieces.  Identical inputs always expand identically, so
/// generated identifiers are stable across rebuilds.
#[derive(Debug)]
pub struct LocalIdentName {
    pub pieces: Vec<IdentPiece>,
}

/// The generated identifier for a raw name under a naming template.
pub open spec fn resolve_local_ident(
    path: Option<Seq<char>>,
    name: Seq<char>,
    pieces: Seq<IdentPiece>,
) -> Seq<char>
    decreases pieces.len(),
{
    if pieces.len() == 0 {
        Seq::empty()
    } else {
        (match pieces[0] {
            IdentPiece::LocalName => name,
            IdentPiece::ResourcePath => match path {
                Some(p) => p,
                None => Seq::empty(),
            },
            IdentPiece::Literal(s) => s@,
        }) + resolve_local_ident(path, name, pieces.skip(1))
    }
}

/// One recorded dependency object.  Every dependency carries its
/// [`DependencyId`]: its index in the module's dependency list.
#[derive(Debug)]
pub enum CssDependency {
    /// A `url(...)` reference to another asset.
    Url { request: String, start: u32, end: u32, is_function: bool, id: DependencyId },
    /// An `@import` of another stylesheet; its text is removed from the
    /// generated CSS.
    Import { request: String, start: u32, end: u32, id: DependencyId },
    /// A scoped local name: the selector text is replaced by the generated
    /// identifier.
    LocalIdent {
        local_ident: String,
        convention_names: Vec<String>,
        start: u32,
        end: u32,
        id: DependencyId,
    },
    /// A `composes ... from <request>` reference to another module,
    /// resolved against the module graph at generation time.
    Compose { request: String, start: u32, end: u32, id: DependencyId },
    /// An ICSS `:export` value declaration.
    IcssExport { convention_names: Vec<String>, id: DependencyId },
}

/// Character-level view of a recorded dependency.
#[verifier::ext_equal]
pub enum CssDependencyView {
    Url { request: Seq<char>, start: u32, end: u32, is_function: bool, id: DependencyId },
    Import { request: Seq<char>, start: u32, end: u32, id: DependencyId },
    LocalIdent {
        local_ident: Seq<char>,
        convention_names: Seq<Seq<char>>,
        start: u32,
        end: u32,
        id: DependencyId,
    },
    Compose { request: Seq<char>, start: u32, end: u32, id: DependencyId },
    IcssExport { convention_names: Seq<Seq<char>>, id: DependencyId },
}

impl View for CssDependency {
    type V = CssDependencyView;

    open spec fn view(&self) -> CssDependencyView {
        match self {
            CssDependency::Url { request, start, end, is_function, id } => CssDependencyView::Url {
                request: request@,
                start: *start,
                end: *end,
                is_function: *is_function,
                id: *id,
            },
            CssDependency::Import { request, start, end, id } => CssDependencyView::Import {
                request: request@,
                start: *start,
                end: *end,
                id: *id,
            },
            CssDependency::LocalIdent { local_ident, convention_names, start, end, id } => {
                CssDependencyView::LocalIdent {
                    local_ident: local_ident@,
                    convention_names: convention_names@.map_values(|s: String| s@),
                    start: *start,
                    end: *end,
                    id: *id,
                }
            },
            CssDependency::Compose { request, start, end, id } => CssDependencyView::Compose {
                request: request@,
                start: *start,
                end: *end,
                id: *id,
            },
            CssDependency::IcssExport { convention_names, id } => CssDependencyView::IcssExport {
                convention_names: convention_names@.map_values(|s: String| s@),
                id: *id,
            },
        }
    }
}

/// A presentational dependency: a constant text splice with no semantic
/// content of its own.
#[derive(Debug)]
pub struct PresentationalDependency {
    pub start: u32,
    pub end: u32,
    pub content: String,
}

/// Character-level view of a presentational dependency.
#[verifier::ext_equal]
pub struct PresentationalDependencyView {
    pub start: u32,
    pub end: u32,
    pub content: Seq<char>,
}

impl View for PresentationalDependency {
    type V = PresentationalDependencyView;

    open spec fn view(&self) -> PresentationalDependencyView {
        PresentationalDependencyView { start: self.start, end: self.end, content: self.content@ }
    }
}

/// An internal invariant failure: a bug in the surrounding pipeline or its
/// configuration, kept apart from user-facing diagnostics.
#[derive(Debug, Clone, Copy, PartialEq, Eq, Structural)]
pub enum InternalError {
    /// A scoped name arrived but the module was configured without a naming
    /// template.
    MissingLocalIdentName,
    /// A scoped name arrived but the module was configured without an
    /// export-name convention.
    MissingConvention,
    /// `composes` was applied to a local class that has not been declared.
    UndeclaredComposesTarget,
    /// A compose dependency had no resolved target module id at generation
    /// time.
    UnresolvedComposeDependency,
    /// The recorded text splices carry ranges that are out of bounds or
    /// overlap, which the extractor is required to prevent.
    InvalidSpliceRanges,
    /// Generation was requested for a source type the component does not
    /// declare.
    UnsupportedSourceType,
}

/// Everything one parse records besides the export graph, which lives on
/// the parser itself.
#[derive(Debug)]
pub struct ParseResult {
    pub dependencies: Vec<CssDependency>,
    pub presentational_dependencies: Vec<PresentationalDependency>,
    pub code_generation_dependencies: Vec<CssDependency>,
    pub diagnostics: Vec<Diagnostic>,
}

/// Spec-level state of one extraction pass.
#[verifier::ext_equal]
pub struct ExtractView {
    pub exports: Option<GraphView>,
    pub deps: Seq<CssDependencyView>,
    pub pres: Seq<PresentationalDependencyView>,
    pub code_gen: Seq<CssDependencyView>,
    pub diags: Seq<DiagnosticView>,
}

/// Spec-level extraction configuration.
#[verifier::ext_equal]
pub struct ExtractCfg {
    pub convention: Option<CssExportsConvention>,
    pub template: Option<Seq<IdentPiece>>,
    pub resource_path: Option<Seq<char>>,
}

/// The graph, with an absent graph read as empty.
pub open spec fn graph_of(exports: Option<GraphView>) -> GraphView {
    match exports {
        Some(g) => g,
        None => Seq::empty(),
    }
}

/// A selector name with its leading sigil (`.` or `#`) removed.
pub open spec fn strip_sigil(n: Seq<char>) -> Seq<char> {
    if n.len() > 0 {
        n.skip(1)
    } else {
        n
    }
}

/// Whether a request begins with the legacy `~` prefix.
pub open spec fn has_tilde(r: Seq<char>) -> bool {
    r.len() > 0 && r[0] == '~'
}

/// The request with a legacy `~` prefix removed.
pub open spec fn strip_tilde(r: Seq<char>) -> Seq<char> {
    if has_tilde(r) {
        r.skip(1)
    } else {
        r
    }
}

/// The deprecation warning recorded for a `~`-prefixed request.
pub open spec fn tilde_diag(start: u32, end: u32) -> DiagnosticView {
    DiagnosticView {
        severity: Severity::Warning,
        message: "'@import' or 'url()' with a request starting with '~' is deprecated"@,
        start,
        end,
    }
}

/// A URL request normalized for recording: surrounding whitespace removed.
pub open spec fn normalize_url_seq(r: Seq<char>) -> Seq<char> {
    trim_seq(r, false)
}

/// A compose source normalized for recording: surrounding quotes removed.
pub open spec fn trim_quotes_seq(r: Seq<char>) -> Seq<char> {
    trim_seq(r, true)
}

/// Handles one scoped-name event: the generated identifier is inserted
/// under every convention-expanded name and a local-ident dependency is
/// recorded.
pub open spec fn scoped_step(
    st: ExtractView,
    raw: Seq<char>,
    dep_start: u32,
    dep_end: u32,
    cfg: ExtractCfg,
) -> Result<ExtractView, InternalError> {
    if cfg.template is None {
        Err(InternalError::MissingLocalIdentName)
    } else if cfg.convention is None {
        Err(InternalError::MissingConvention)
    } else {
        let ident = resolve_local_ident(cfg.resource_path, raw, cfg.template->0);
        let names = convention_names_seq(raw, cfg.convention->0);
        let rec = CssExportView { ident, from: None, id: None };
        let g2 = graph_insert_names(graph_of(st.exports), names, rec);
        let id = DependencyId(st.deps.len() as u64);
        Ok(
            ExtractView {
                exports: Some(g2),
                deps: st.deps.push(
                    CssDependencyView::LocalIdent {
                        local_ident: ident,
                        convention_names: names,
                        start: dep_start,
                        end: dep_end,
                        id,
                    },
                ),
                ..st
            },
        )
    }
}

/// Applies one composed name to one local class.  The class must already
/// be a key of the graph.  A local composition (no source) merges the
/// composed name's current records; otherwise a literal record is inserted,
/// with `from` and the compose dependency id for a cross-module source.
pub open spec fn compose_one(
    g: GraphView,
    name: Seq<char>,
    class: Seq<char>,
    from: Option<Seq<char>>,
    dep_id: Option<DependencyId>,
) -> Result<GraphView, InternalError> {
    let cki = key_index(g, class);
    if cki < 0 {
        Err(InternalError::UndeclaredComposesTarget)
    } else if graph_has_key(g, name) && from is None {
        Ok(graph_extend_at(g, cki, g[key_index(g, name)].records))
    } else {
        let rec = CssExportView {
            ident: name,
            from: match from {
                Some(f) => if f == "global"@ {
                    None
                } else {
                    Some(trim_quotes_seq(f))
                },
                None => None,
            },
            id: dep_id,
        };
        Ok(graph_insert(g, class, rec))
    }
}

/// Applies one composed name to every listed local class, in order.
pub open spec fn compose_classes(
    g: GraphView,
    name: Seq<char>,
    classes: Seq<Seq<char>>,
    from: Option<Seq<char>>,
    dep_id: Option<DependencyId>,
) -> Result<GraphView, InternalError>
    decreases classes.len(),
{
    if classes.len() == 0 {
        Ok(g)
    } else {
        match compose_one(g, name, classes[0], from, dep_id) {
            Ok(g2) => compose_classes(g2, name, classes.skip(1), from, dep_id),
            Err(e) => Err(e),
        }
    }
}

/// Applies every composed name to every listed local class, names outermost.
pub open spec fn compose_names(
    g: GraphView,
    names: Seq<Seq<char>>,
    classes: Seq<Seq<char>>,
    from: Option<Seq<char>>,
    dep_id: Option<DependencyId>,
) -> Result<GraphView, InternalError>
    decreases names.len(),
{
    if names.len() == 0 {
        Ok(g)
    } else {
        match compose_classes(g, names[0], classes, from, dep_id) {
            Ok(g2) => compose_names(g2, names.skip(1), classes, from, dep_id),
            Err(e) => Err(e),
        }
    }
}

/// The effect of one lexer event on the extraction state.
pub open spec fn extract_step(
    st: ExtractView,
    e: DependencyEvent,
    cfg: ExtractCfg,
) -> Result<ExtractView, InternalError> {
    match e {
        DependencyEvent::Url { request, start, end, is_function } => {
            if request@.len() == 0 {
                Ok(st)
            } else {
                let diags = if has_tilde(request@) {
                    st.diags.push(tilde_diag(start, end))
                } else {
                    st.diags
                };
                let req = normalize_url_seq(strip_tilde(request@));
                let id = DependencyId(st.deps.len() as u64);
                let d = CssDependencyView::Url { request: req, start, end, is_function, id };
                Ok(
                    ExtractView {
                        deps: st.deps.push(d),
                        code_gen: st.code_gen.push(d),
                        diags,
                        ..st
                    },
                )
            }
        },
        DependencyEvent::Import { request, start, end } => {
            if request@.len() == 0 {
                Ok(
                    ExtractView {
                        pres: st.pres.push(
                            PresentationalDependencyView { start, end, content: Seq::empty() },
                        ),
                        ..st
                    },
                )
            } else {
                let diags = if has_tilde(request@) {
                    st.diags.push(tilde_diag(start, end))
                } else {
                    st.diags
                };
                let id = DependencyId(st.deps.len() as u64);
                Ok(
                    ExtractView {
                        deps: st.deps.push(
                            CssDependencyView::Import {
                                request: strip_tilde(request@),
                                start,
                                end,
                                id,
                            },
                        ),
                        diags,
                        ..st
                    },
                )
            }
        },
        DependencyEvent::Replace { content, start, end } => Ok(
            ExtractView {
                pres: st.pres.push(
                    PresentationalDependencyView { start, end, content: content@ },
                ),
                ..st
            },
        ),
        DependencyEvent::LocalClass { name, start, end } => scoped_step(
            st,
            strip_sigil(name@),
            (start + 1) as u32,
            end,
            cfg,
        ),
        DependencyEvent::LocalId { name, start, end } => scoped_step(
            st,
            strip_sigil(name@),
            (start + 1) as u32,
            end,
            cfg,
        ),
        DependencyEvent::LocalKeyframes { name, start, end } => scoped_step(
            st,
            name@,
            start,
            end,
            cfg,
        ),
        DependencyEvent::LocalKeyframesDecl { name, start, end } => scoped_step(
            st,
            name@,
            start,
            end,
            cfg,
        ),
        DependencyEvent::Composes { local_classes, names, from, start, end } => {
            let is_cross = from is Some && from->0@ != "global"@;
            let deps2 = if is_cross {
                st.deps.push(
                    CssDependencyView::Compose {
                        request: trim_quotes_seq(from->0@),
                        start,
                        end,
                        id: DependencyId(st.deps.len() as u64),
                    },
                )
            } else {
                st.deps
            };
            let dep_id = if is_cross {
                Some(DependencyId(st.deps.len() as u64))
            } else {
                None
            };
            let from_v = match from {
                Some(f) => Some(f@),
                None => None,
            };
            match compose_names(
                graph_of(st.exports),
                names@.map_values(|s: String| s@),
                local_classes@.map_values(|s: String| s@),
                from_v,
                dep_id,
            ) {
                Ok(g2) => Ok(ExtractView { exports: Some(g2), deps: deps2, ..st }),
                Err(err) => Err(err),
            }
        },
        DependencyEvent::IcssExportValue { prop, value } => {
            if cfg.convention is None {
                Err(InternalError::MissingConvention)
            } else {
                let names = convention_names_seq(prop@, cfg.convention->0);
                let rec = CssExportView {
                    ident: strip_comments_seq(value@),
                    from: None,
                    id: None,
                };
                let g2 = graph_insert_names(graph_of(st.exports), names, rec);
                let id = DependencyId(st.deps.len() as u64);
                Ok(
                    ExtractView {
                        exports: Some(g2),
                        deps: st.deps.push(
                            CssDependencyView::IcssExport { convention_names: names, id },
                        ),
                        ..st
                    },
                )
            }
        },
        DependencyEvent::Ignored => Ok(st),
    }
}

/// The extraction state after the whole event stream, or the first
/// internal failure.
pub open spec fn extract_events(
    st: ExtractView,
    events: Seq<DependencyEvent>,
    cfg: ExtractCfg,
) -> Result<ExtractView, InternalError>
    decreases events.len(),
{
    if events.len() == 0 {
        Ok(st)
    } else {
        match extract_step(st, events[0], cfg) {
            Ok(st2) => extract_events(st2, events.skip(1), cfg),
            Err(e) => Err(e),
        }
    }
}

/// The diagnostic recorded for one lexer warning: the misplaced-`@import`
/// warning is escalated to an error, all others stay warnings.
pub open spec fn warning_diag(w: LexWarning) -> DiagnosticView {
    DiagnosticView {
        severity: if w.not_preceded_at_import {
            Severity::Error
        } else {
            Severity::Warning
        },
        message: w.message@,
        start: w.start,
        end: w.end,
    }
}

/// The diagnostics for a warning list, in order.
pub open spec fn warnings_diags(ws: Seq<LexWarning>) -> Seq<DiagnosticView> {
    ws.map_values(|w: LexWarning| warning_diag(w))
}

/// The initial extraction state: the graph the parser already holds and
/// nothing recorded yet.
pub open spec fn init_extract(exports: Option<GraphView>) -> ExtractView {
    ExtractView {
        exports,
        deps: Seq::empty(),
        pres: Seq::empty(),
        code_gen: Seq::empty(),
        diags: Seq::empty(),
    }
}

/// View of an optional export graph.
pub open spec fn exports_view(e: Option<CssExports>) -> Option<GraphView> {
    match e {
        Some(g) => Some(g@),
        None => None,
    }
}

/// Spec-level view of the extraction configuration.
pub open spec fn cfg_view(
    convention: Option<CssExportsConvention>,
    template: Option<LocalIdentName>,
    resource_path: Option<String>,
) -> ExtractCfg {
    ExtractCfg {
        convention,
        template: match template {
            Some(t) => Some(t.pieces@),
            None => None,
        },
        resource_path: match resource_path {
            Some(p) => Some(p@),
            None => None,
        },
    }
}

/// Whether this module's names are scoped: always for `CssModule`, for
/// `CssAuto` when the resource path names a CSS module.
pub open spec fn spec_local_mode(t: ModuleType, path: Option<String>) -> bool {
    t is CssModule || (t is CssAuto && match path {
        Some(p) => is_module_path_seq(p@),
        None => false,
    })
}

/// View of a parse result.
#[verifier::ext_equal]
pub struct ParseResultView {
    pub dependencies: Seq<CssDependencyView>,
    pub presentational_dependencies: Seq<PresentationalDependencyView>,
    pub code_generation_dependencies: Seq<CssDependencyView>,
    pub diagnostics: Seq<DiagnosticView>,
}

impl View for ParseResult {
    type V = ParseResultView;

    open spec fn view(&self) -> ParseResultView {
        ParseResultView {
            dependencies: self.dependencies@.map_values(|d: CssDependency| d@),
            presentational_dependencies: self.presentational_dependencies@.map_values(
                |d: PresentationalDependency| d@,
            ),
            code_generation_dependencies: self.code_generation_dependencies@.map_values(
                |d: CssDependency| d@,
            ),
            diagnostics: self.diagnostics@.map_values(|d: Diagnostic| d@),
        }
    }
}

/// Execution state of one extraction pass.
struct ExtractState {
    exports: Option<CssExports>,
    deps: Vec<CssDependency>,
    pres: Vec<PresentationalDependency>,
    code_gen: Vec<CssDependency>,
    diags: Vec<Diagnostic>,
}

impl View for ExtractState {
    type V = ExtractView;

    closed spec fn view(&self) -> ExtractView {
        ExtractView {
            exports: exports_view(self.exports),
            deps: self.deps@.map_values(|d: CssDependency| d@),
            pres: self.pres@.map_values(|d: PresentationalDependency| d@),
            code_gen: self.code_gen@.map_values(|d: CssDependency| d@),
            diags: self.diags@.map_values(|d: Diagnostic| d@),
        }
    }
}

/// Expands the naming template for one raw name.
fn resolve_ident(
    resource_path: &Option<String>,
    raw: &str,
    template: &LocalIdentName,
) -> (r: String)
    ensures
        r@ == resolve_local_ident(
            match resource_path {
                Some(p) => Some(p@),
                None => None,
            },
            raw@,
            template.pieces@,
        ),
{
    let ghost pathv: Option<Seq<char>> = match resource_path {
        Some(p) => Some(p@),
        None => None,
    };
    let n = template.pieces.len();
    let mut out = String::new();
    let mut i: usize = 0;
    proof {
        assert(template.pieces@.skip(0) =~= template.pieces@);
        assert(Seq::<char>::empty() + resolve_local_ident(pathv, raw@, template.pieces@)
            =~= resolve_local_ident(pathv, raw@, template.pieces@));
    }
    while i < n
        invariant
            i <= n,
            n == template.pieces@.len(),
            pathv == match resource_path {
                Some(p) => Some(p@),
                None => None,
            },
            resolve_local_ident(pathv, raw@, template.pieces@) == out@ + resolve_local_ident(
                pathv,
                raw@,
                template.pieces@.skip(i as int),
            ),
        decreases n - i,
    {
        proof {
            assert(template.pieces@.skip(i as int)[0] == template.pieces@[i as int]);
            assert(template.pieces@.skip(i as int).skip(1) =~= template.pieces@.skip(i as int + 1));
        }
        match &template.pieces[i] {
            IdentPiece::LocalName => {
                out.append(raw);
            },
            IdentPiece::ResourcePath => {
                match resource_path {
                    Some(p) => {
                        out.append(p.as_str());
                    },
                    None => {
                        proof {
                            assert(out@ + Seq::<char>::empty() =~= out@);
                        }
                    },
                }
            },
            IdentPiece::Literal(s) => {
                out.append(s.as_str());
            },
        }
        i = i + 1;
    }
    proof {
        assert(template.pieces@.skip(n as int) =~= Seq::<IdentPiece>::empty());
        assert(out@ + Seq::<char>::empty() =~= out@);
    }
    out
}

/// Applies one composed name to one declared local class.
fn apply_compose_one(
    g: &mut CssExports,
    name: &String,
    class: &String,
    from: &Option<String>,
    dep_id: Option<DependencyId>,
) -> (r: Result<(), InternalError>)
    ensures
        match r {
            Ok(_) => compose_one(
                old(g)@,
                name@,
                class@,
                match from {
                    Some(f) => Some(f@),
                    None => None,
                },
                dep_id,
            ) == Ok::<GraphView, InternalError>(final(g)@),
            Err(e) => compose_one(
                old(g)@,
                name@,
                class@,
                match from {
                    Some(f) => Some(f@),
                    None => None,
                },
                dep_id,
            ) == Err::<GraphView, InternalError>(e),
        },
{
    let cki = match g.find_key(class) {
        Some(i) => i,
        None => {
            return Err(InternalError::UndeclaredComposesTarget);
        },
    };
    let nki = g.find_key(name);
    match (from, nki) {
        (None, Some(nki)) => {
            let snapshot = g.records_snapshot(nki);
            g.extend_entry(cki, snapshot);
            Ok(())
        },
        _ => {
            let from_rec: Option<String> = match from {
                Some(f) => {
                    let global = String::from_str("global");
                    if *f == global {
                        None
                    } else {
                        Some(trim_chars(f.as_str(), true))
                    }
                },
                None => None,
            };
            let rec = CssExport { ident: name.clone(), from: from_rec, id: dep_id };
            update_css_exports(g, class.clone(), rec);
            Ok(())
        },
    }
}

/// Applies every composed name to every listed local class, names outermost.
fn apply_compose_names(
    g: &mut CssExports,
    names: &Vec<String>,
    classes: &Vec<String>,
    from: &Option<String>,
    dep_id: Option<DependencyId>,
) -> (r: Result<(), InternalError>)
    ensures
        match r {
            Ok(_) => compose_names(
                old(g)@,
                names@.map_values(|s: String| s@),
                classes@.map_values(|s: String| s@),
                match from {
                    Some(f) => Some(f@),
                    None => None,
                },
                dep_id,
            ) == Ok::<GraphView, InternalError>(final(g)@),
            Err(e) => compose_names(
                old(g)@,
                names@.map_values(|s: String| s@),
                classes@.map_values(|s: String| s@),
                match from {
                    Some(f) => Some(f@),
                    None => None,
                },
                dep_id,
            ) == Err::<GraphView, InternalError>(e),
        },
{
    let ghost ns = names@.map_values(|s: String| s@);
    let ghost cs = classes@.map_values(|s: String| s@);
    let ghost fv: Option<Seq<char>> = match from {
        Some(f) => Some(f@),
        None => None,
    };
    let n = names.len();
    let mut i: usize = 0;
    proof {
        assert(ns.skip(0) =~= ns);
    }
    while i < n
        invariant
            i <= n,
            n == names@.len(),
            ns == names@.map_values(|s: String| s@),
            cs == classes@.map_values(|s: String| s@),
            fv == match from {
                Some(f) => Some(f@),
                None => None,
            },
            compose_names(old(g)@, ns, cs, fv, dep_id) == compose_names(
                g@,
                ns.skip(i as int),
                cs,
                fv,
                dep_id,
            ),
        decreases n - i,
    {
        proof {
            assert(ns.skip(i as int)[0] == ns[i as int]);
            assert(ns.skip(i as int).skip(1) =~= ns.skip(i as int + 1));
        }
        let m = classes.len();
        let mut j: usize = 0;
        proof {
            assert(cs.skip(0) =~= cs);
        }
        while j < m
            invariant
                j <= m,
                i < n,
                m == classes@.len(),
                n == names@.len(),
                ns == names@.map_values(|s: String| s@),
                cs == classes@.map_values(|s: String| s@),
                fv == match from {
                    Some(f) => Some(f@),
                    None => None,
                },
                compose_names(old(g)@, ns, cs, fv, dep_id) == (match compose_classes(
                    g@,
                    ns[i as int],
                    cs.skip(j as int),
                    fv,
                    dep_id,
                ) {
                    Ok(g2) => compose_names(g2, ns.skip(i as int + 1), cs, fv, dep_id),
                    Err(e) => Err(e),
                }),
            decreases m - j,
        {
            proof {
                assert(cs.skip(j as int)[0] == cs[j as int]);
                assert(cs.skip(j as int).skip(1) =~= cs.skip(j as int + 1));
            }
            match apply_compose_one(g, &names[i], &classes[j], from, dep_id) {
                Ok(_) => {},
                Err(e) => {
                    return Err(e);
                },
            }
            j = j + 1;
        }
        proof {
            assert(cs.skip(m as int) =~= Seq::<Seq<char>>::empty());
        }
        i = i + 1;
    }
    proof {
        assert(ns.skip(n as int) =~= Seq::<Seq<char>>::empty());
    }
    Ok(())
}

impl ExtractState {
    /// Handles one scoped-name event.
    fn apply_scoped(
        &mut self,
        raw: String,
        dep_start: u32,
        dep_end: u32,
        convention: Option<CssExportsConvention>,
        template: &Option<LocalIdentName>,
        resource_path: &Option<String>,
    ) -> (r: Result<(), InternalError>)
        ensures
            match r {
                Ok(_) => scoped_step(
                    old(self)@,
                    raw@,
                    dep_start,
                    dep_end,
                    cfg_view(convention, *template, *resource_path),
                ) == Ok::<ExtractView, InternalError>(final(self)@),
                Err(e) => scoped_step(
                    old(self)@,
                    raw@,
                    dep_start,
                    dep_end,
                    cfg_view(convention, *template, *resource_path),
                ) == Err::<ExtractView, InternalError>(e),
            },
    {
        let tmpl = match template {
            Some(t) => t,
            None => {
                return Err(InternalError::MissingLocalIdentName);
            },
        };
        let conv = match convention {
            Some(c) => c,
            None => {
                return Err(InternalError::MissingConvention);
            },
        };
        let ident = resolve_ident(resource_path, raw.as_str(), tmpl);
        let names = export_locals_convention(raw.as_str(), &conv);
        let mut g = match self.exports.take() {
            Some(g) => g,
            None => CssExports::new(),
        };
        insert_under_names(&mut g, &names, &CssExport { ident: ident.clone(), from: None, id: None });
        self.exports = Some(g);
        let id = DependencyId(self.deps.len() as u64);
        self.deps.push(
            CssDependency::LocalIdent {
                local_ident: ident,
                convention_names: names,
                start: dep_start,
                end: dep_end,
                id,
            },
        );
        proof {
            let stepped = scoped_step(
                old(self)@,
                raw@,
                dep_start,
                dep_end,
                cfg_view(convention, *template, *resource_path),
            );
            assert(stepped is Ok);
            assert(stepped->Ok_0 =~~= self@);
        }
        Ok(())
    }

    /// Applies one lexer event to the extraction state.
    fn apply_event(
        &mut self,
        e: &DependencyEvent,
        convention: Option<CssExportsConvention>,
        template: &Option<LocalIdentName>,
        resource_path: &Option<String>,
    ) -> (r: Result<(), InternalError>)
        ensures
            match r {
                Ok(_) => extract_step(
                    old(self)@,
                    *e,
                    cfg_view(convention, *template, *resource_path),
                ) == Ok::<ExtractView, InternalError>(final(self)@),
                Err(err) => extract_step(
                    old(self)@,
                    *e,
                    cfg_view(convention, *template, *resource_path),
                ) == Err::<ExtractView, InternalError>(err),
            },
    {
        let ghost cfg = cfg_view(convention, *template, *resource_path);
        match e {
            DependencyEvent::Url { request, start, end, is_function } => {
                if request.as_str().is_empty() {
                    return Ok(());
                }
                let tilde = request.as_str().get_char(0) == '~';
                if tilde {
                    self.diags.push(
                        Diagnostic {
                            severity: Severity::Warning,
                            message: String::from_str(
                                "'@import' or 'url()' with a request starting with '~' is deprecated",
                            ),
                            start: *start,
                            end: *end,
                        },
                    );
                }
                let stripped: String = if tilde {
                    let len = request.as_str().unicode_len();
                    String::from_str(request.as_str().substring_char(1, len))
                } else {
                    request.clone()
                };
                let req = trim_chars(stripped.as_str(), false);
                let id = DependencyId(self.deps.len() as u64);
                self.deps.push(
                    CssDependency::Url {
                        request: req.clone(),
                        start: *start,
                        end: *end,
                        is_function: *is_function,
                        id,
                    },
                );
                self.code_gen.push(
                    CssDependency::Url {
                        request: req,
                        start: *start,
                        end: *end,
                        is_function: *is_function,
                        id,
                    },
                );
                proof {
                    let stepped = extract_step(old(self)@, *e, cfg);
                    assert(stepped is Ok);
                    assert(stepped->Ok_0 =~~= self@);
                }
                Ok(())
            },
            DependencyEvent::Import { request, start, end } => {
                if request.as_str().is_empty() {
                    self.pres.push(
                        PresentationalDependency { start: *start, end: *end, content: String::new() },
                    );
                    proof {
                        let stepped = extract_step(old(self)@, *e, cfg);
                        assert(stepped is Ok);
                        assert(stepped->Ok_0 =~~= self@);
                    }
                    return Ok(());
                }
                let tilde = request.as_str().get_char(0) == '~';
                if tilde {
                    self.diags.push(
                        Diagnostic {
                            severity: Severity::Warning,
                            message: String::from_str(
                                "'@import' or 'url()' with a request starting with '~' is deprecated",
                            ),
                            start: *start,
                            end: *end,
                        },
                    );
                }
                let stripped: String = if tilde {
                    let len = request.as_str().unicode_len();
                    String::from_str(request.as_str().substring_char(1, len))
                } else {
                    request.clone()
                };
                let id = DependencyId(self.deps.len() as u64);
                self.deps.push(
                    CssDependency::Import { request: stripped, start: *start, end: *end, id },
                );
                proof {
                    let stepped = extract_step(old(self)@, *e, cfg);
                    assert(stepped is Ok);
                    assert(stepped->Ok_0 =~~= self@);
                }
                Ok(())
            },
            DependencyEvent::Replace { content, start, end } => {
                self.pres.push(
                    PresentationalDependency { start: *start, end: *end, content: content.clone() },
                );
                proof {
                    let stepped = extract_step(old(self)@, *e, cfg);
                    assert(stepped is Ok);
                    assert(stepped->Ok_0 =~~= self@);
                }
                Ok(())
            },
            DependencyEvent::LocalClass { name, start, end } => {
                let nlen = name.as_str().unicode_len();
                let raw: String = if nlen > 0 {
                    String::from_str(name.as_str().substring_char(1, nlen))
                } else {
                    name.clone()
                };
                let s2: u32 = if *start < u32::MAX {
                    *start + 1
                } else {
                    0
                };
                assert(s2 == (*start + 1) as u32) by (bit_vector)
                    requires
                        s2 == (if *start < u32::MAX {
                            (*start + 1) as u32
                        } else {
                            0u32
                        }),
                ;
                self.apply_scoped(raw, s2, *end, convention, template, resource_path)
            },
            DependencyEvent::LocalId { name, start, end } => {
                let nlen = name.as_str().unicode_len();
                let raw: String = if nlen > 0 {
                    String::from_str(name.as_str().substring_char(1, nlen))
                } else {
                    name.clone()
                };
                let s2: u32 = if *start < u32::MAX {
                    *start + 1
                } else {
                    0
                };
                assert(s2 == (*start + 1) as u32) by (bit_vector)
                    requires
                        s2 == (if *start < u32::MAX {
                            (*start + 1) as u32
                        } else {
                            0u32
                        }),
                ;
                self.apply_scoped(raw, s2, *end, convention, template, resource_path)
            },
            DependencyEvent::LocalKeyframes { name, start, end } => {
                self.apply_scoped(name.clone(), *start, *end, convention, template, resource_path)
            },
            DependencyEvent::LocalKeyframesDecl { name, start, end } => {
                self.apply_scoped(name.clone(), *start, *end, convention, template, resource_path)
            },
            DependencyEvent::Composes { local_classes, names, from, start, end } => {
                let dep_id: Option<DependencyId> = match from {
                    Some(f) => {
                        let gl = String::from_str("global");
                        if !(*f == gl) {
                            let id = DependencyId(self.deps.len() as u64);
                            self.deps.push(
                                CssDependency::Compose {
                                    request: trim_chars(f.as_str(), true),
                                    start: *start,
                                    end: *end,
                                    id,
                                },
                            );
                            Some(id)
                        } else {
                            None
                        }
                    },
                    None => None,
                };
                let mut g = match self.exports.take() {
                    Some(g) => g,
                    None => CssExports::new(),
                };
                let res = apply_compose_names(&mut g, names, local_classes, from, dep_id);
                self.exports = Some(g);
                match res {
                    Ok(_) => {
                        proof {
                            let stepped = extract_step(old(self)@, *e, cfg);
                            assert(stepped is Ok);
                            assert(stepped->Ok_0 =~~= self@);
                        }
                        Ok(())
                    },
                    Err(err) => Err(err),
                }
            },
            DependencyEvent::IcssExportValue { prop, value } => {
                let conv = match convention {
                    Some(c) => c,
                    None => {
                        return Err(InternalError::MissingConvention);
                    },
                };
                let names = export_locals_convention(prop.as_str(), &conv);
                let v = strip_comments(value.as_str());
                let mut g = match self.exports.take() {
                    Some(g) => g,
                    None => CssExports::new(),
                };
                insert_under_names(&mut g, &names, &CssExport { ident: v, from: None, id: None });
                self.exports = Some(g);
                let id = DependencyId(self.deps.len() as u64);
                self.deps.push(CssDependency::IcssExport { convention_names: names, id });
                proof {
                    let stepped = extract_step(old(self)@, *e, cfg);
                    assert(stepped is Ok);
                    assert(stepped->Ok_0 =~~= self@);
                }
                Ok(())
            },
            DependencyEvent::Ignored => Ok(()),
        }
    }
}

/// How the module's exports are presented to JavaScript importers.
#[derive(Debug, Clone, Copy, PartialEq, Eq, Structural)]
pub enum BuildMetaExportsType {
    Namespace,
    Default,
}

/// Whether a default-import of the module redirects to the named exports.
#[derive(Debug, Clone, Copy, PartialEq, Eq, Structural)]
pub enum BuildMetaDefaultObject {
    False,
    Redirect,
}

/// Build facts recorded while parsing.
#[derive(Debug, Clone, Copy, PartialEq, Eq, Structural)]
pub struct BuildInfo {
    pub strict: bool,
}

/// Export-shape facts recorded while parsing.
#[derive(Debug, Clone, Copy, PartialEq, Eq, Structural)]
pub struct BuildMeta {
    pub exports_type: BuildMetaExportsType,
    pub default_object: BuildMetaDefaultObject,
}

/// The per-module parser and code generator.  `parse` runs once per build
/// and fills `exports`; generation then treats the graph as read-only.
#[derive(Debug)]
pub struct CssParserAndGenerator {
    pub convention: Option<CssExportsConvention>,
    pub local_ident_name: Option<LocalIdentName>,
    pub exports_only: bool,
    pub named_exports: bool,
    pub es_module: bool,
    pub exports: Option<CssExports>,
}

/// The parse outcome for a module source: the extraction state after the
/// lexer's events, with the lexer's warnings appended as diagnostics.
pub open spec fn spec_parse(
    initial_exports: Option<GraphView>,
    source: Seq<char>,
    local: bool,
    cfg: ExtractCfg,
) -> Result<ExtractView, InternalError> {
    match extract_events(init_extract(initial_exports), lexed_events(source, local), cfg) {
        Ok(st) => Ok(
            ExtractView { diags: st.diags + warnings_diags(lexed_warnings(source, local)), ..st },
        ),
        Err(e) => Err(e),
    }
}

impl CssParserAndGenerator {
    /// Parses one module source: lexes it in the mode selected by the
    /// module type and resource path, folds every event into the export
    /// graph and the dependency lists, and turns lexer warnings into
    /// diagnostics (the misplaced-`@import` warning as an error).
    ///
    /// Internal invariant failures (a scoped name without a naming template
    /// or convention, `composes` on an undeclared class) are reported as
    /// [`InternalError`], never silently ignored.
    pub fn parse(
        &mut self,
        source: &str,
        module_type: ModuleType,
        resource_path: &Option<String>,
        build_info: &mut BuildInfo,
        build_meta: &mut BuildMeta,
    ) -> (r: Result<ParseResult, InternalError>)
        ensures
            final(build_info).strict,
            final(build_meta).exports_type == (if old(self).named_exports {
                BuildMetaExportsType::Namespace
            } else {
                BuildMetaExportsType::Default
            }),
            final(build_meta).default_object == (if old(self).named_exports {
                BuildMetaDefaultObject::False
            } else {
                BuildMetaDefaultObject::Redirect
            }),
            final(self).convention == old(self).convention,
            final(self).local_ident_name == old(self).local_ident_name,
            final(self).exports_only == old(self).exports_only,
            final(self).named_exports == old(self).named_exports,
            final(self).es_module == old(self).es_module,
            ({
                let local = spec_local_mode(module_type, *resource_path);
                let cfg = cfg_view(old(self).convention, old(self).local_ident_name, *resource_path);
                match spec_parse(exports_view(old(self).exports), source@, local, cfg) {
                    Ok(stv) => r is Ok && exports_view(final(self).exports) == stv.exports
                        && r->Ok_0@.dependencies == stv.deps && r->Ok_0@.presentational_dependencies
                        == stv.pres && r->Ok_0@.code_generation_dependencies == stv.code_gen
                        && r->Ok_0@.diagnostics == stv.diags,
                    Err(e) => r == Err::<ParseResult, InternalError>(e),
                }
            }),
    {
        build_info.strict = true;
        build_meta.exports_type = if self.named_exports {
            BuildMetaExportsType::Namespace
        } else {
            BuildMetaExportsType::Default
        };
        build_meta.default_object = if self.named_exports {
            BuildMetaDefaultObject::False
        } else {
            BuildMetaDefaultObject::Redirect
        };
        let local = match module_type {
            ModuleType::CssModule => true,
            ModuleType::CssAuto => match resource_path {
                Some(p) => is_module_path(p.as_str()),
                None => false,
            },
            ModuleType::Css => false,
        };
        let (events, warnings) = lex_source(source, local);
        let ghost cfg = cfg_view(self.convention, self.local_ident_name, *resource_path);
        let ghost evs = events@;
        let mut st = ExtractState {
            exports: self.exports.take(),
            deps: Vec::new(),
            pres: Vec::new(),
            code_gen: Vec::new(),
            diags: Vec::new(),
        };
        proof {
            assert(st@ =~~= init_extract(exports_view(old(self).exports)));
            assert(evs.skip(0) =~= evs);
        }
        let n = events.len();
        let mut i: usize = 0;
        while i < n
            invariant
                i <= n,
                n == events@.len(),
                evs == events@,
                build_info.strict,
                build_meta.exports_type == (if old(self).named_exports {
                    BuildMetaExportsType::Namespace
                } else {
                    BuildMetaExportsType::Default
                }),
                build_meta.default_object == (if old(self).named_exports {
                    BuildMetaDefaultObject::False
                } else {
                    BuildMetaDefaultObject::Redirect
                }),
                cfg == cfg_view(old(self).convention, old(self).local_ident_name, *resource_path),
                evs == lexed_events(source@, spec_local_mode(module_type, *resource_path)),
                self.convention == old(self).convention,
                self.local_ident_name == old(self).local_ident_name,
                self.exports_only == old(self).exports_only,
                self.named_exports == old(self).named_exports,
                self.es_module == old(self).es_module,
                extract_events(init_extract(exports_view(old(self).exports)), evs, cfg)
                    == extract_events(st@, evs.skip(i as int), cfg),
            decreases n - i,
        {
            proof {
                assert(evs.skip(i as int)[0] == evs[i as int]);
                assert(evs.skip(i as int).skip(1) =~= evs.skip(i as int + 1));
            }
            match st.apply_event(&events[i], self.convention, &self.local_ident_name, resource_path) {
                Ok(_) => {},
                Err(e) => {
                    proof {
                        assert(extract_events(
                            init_extract(exports_view(old(self).exports)),
                            evs,
                            cfg,
                        ) == Err::<ExtractView, InternalError>(e));
                    }
                    return Err(e);
                },
            }
            i = i + 1;
        }
        proof {
            assert(evs.skip(n as int) =~= Seq::<DependencyEvent>::empty());
        }
        let ghost stv0 = st@;
        let ghost ws = warnings@;
        let m = warnings.len();
        let mut j: usize = 0;
        proof {
            assert(stv0.diags + warnings_diags(ws.subrange(0, 0)) =~= stv0.diags);
        }
        while j < m
            invariant
                j <= m,
                m == warnings@.len(),
                ws == warnings@,
                st@.exports == stv0.exports,
                st@.deps == stv0.deps,
                st@.pres == stv0.pres,
                st@.code_gen == stv0.code_gen,
                st@.diags == stv0.diags + warnings_diags(ws.subrange(0, j as int)),
            decreases m - j,
        {
            let w = &warnings[j];
            let d = Diagnostic {
                severity: if w.not_preceded_at_import {
                    Severity::Error
                } else {
                    Severity::Warning
                },
                message: w.message.clone(),
                start: w.start,
                end: w.end,
            };
            proof {
                assert(d@ =~= warning_diag(ws[j as int]));
            }
            let ghost dprev = st@.diags;
            st.diags.push(d);
            j = j + 1;
            proof {
                assert(st@.diags =~= dprev.push(d@));
                assert(warnings_diags(ws.subrange(0, j as int)) =~= warnings_diags(
                    ws.subrange(0, j as int - 1),
                ).push(warning_diag(ws[j as int - 1])));
                assert(st@.diags =~= stv0.diags + warnings_diags(ws.subrange(0, j as int)));
            }
        }
        proof {
            assert(ws.subrange(0, m as int) =~= ws);
        }
        let ExtractState { exports, deps, pres, code_gen, diags } = st;
        self.exports = exports;
        let pr = ParseResult {
            dependencies: deps,
            presentational_dependencies: pres,
            code_generation_dependencies: code_gen,
            diagnostics: diags,
        };
        proof {
            let parsed = spec_parse(
                exports_view(old(self).exports),
                source@,
                spec_local_mode(module_type, *resource_path),
                cfg,
            );
            assert(parsed is Ok);
            assert(parsed->Ok_0.exports == exports_view(self.exports));
            assert(pr@.dependencies == parsed->Ok_0.deps);
            assert(pr@.presentational_dependencies == parsed->Ok_0.pres);
            assert(pr@.code_generation_dependencies == parsed->Ok_0.code_gen);
            assert(pr@.diagnostics == parsed->Ok_0.diags);
        }
        Ok(pr)
    }
}

} // verus!
