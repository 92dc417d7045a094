use css_module_exports::DependencyId;
use css_module_exports::codegen::BuildHash;
use css_module_exports::codegen::GenerationData;
use css_module_exports::codegen::GeneratedOutput;
use css_module_exports::codegen::ModuleGraphView;
use css_module_exports::codegen::RuntimeRequirements;
use css_module_exports::codegen::SourceType;
use css_module_exports::context_dependency::ContextMode;
use css_module_exports::context_dependency::ContextOptions;
use css_module_exports::context_dependency::DependencyCategory;
use css_module_exports::context_dependency::RealDependencyLocation;
use css_module_exports::context_dependency::RequireResolveContextDependency;
use css_module_exports::export_graph::CssExport;
use css_module_exports::export_graph::CssExports;
use css_module_exports::export_graph::CssExportsConvention;
use css_module_exports::export_graph::export_locals_convention;
use css_module_exports::export_graph::update_css_exports;
use css_module_exports::fs_meta::DirEntry;
use css_module_exports::fs_meta::Error;
use css_module_exports::fs_meta::Metadata;
use css_module_exports::parser::BuildInfo;
use css_module_exports::parser::BuildMeta;
use css_module_exports::parser::BuildMetaDefaultObject;
use css_module_exports::parser::BuildMetaExportsType;
use css_module_exports::parser::CssDependency;
use css_module_exports::parser::Severity;
use css_module_exports::parser::CssParserAndGenerator;
use css_module_exports::parser::IdentPiece;
use css_module_exports::parser::InternalError;
use css_module_exports::parser::LocalIdentName;
use css_module_exports::parser::ModuleType;
use css_module_exports::parser::ParseResult;
use css_module_exports::text::camel_case;
use css_module_exports::text::dashes_camel;
use css_module_exports::text::escape_css;
use css_module_exports::text::is_module_path;
use css_module_exports::text::js_escape;
use css_module_exports::text::normalize_separators;
use css_module_exports::text::strip_comments;
use css_module_exports::text::trim_chars;
use css_module_exports::text::unescape;
use css_module_exports::usage::UsageOracle;
use css_module_exports::usage::UsageState;
use css_module_exports::usage::get_unused_local_ident;
use css_module_exports::usage::get_used_exports;

fn identity_naming() -> LocalIdentName {
    LocalIdentName {
        pieces: vec![IdentPiece::LocalName, IdentPiece::Literal(String::from("_1a2b"))],
    }
}

fn parser(convention: CssExportsConvention, es_module: bool) -> CssParserAndGenerator {
    CssParserAndGenerator {
        convention: Some(convention),
        local_ident_name: Some(identity_naming()),
        exports_only: false,
        named_exports: false,
        es_module,
        exports: None,
    }
}

fn build_state() -> (BuildInfo, BuildMeta) {
    (
        BuildInfo { strict: false },
        BuildMeta {
            exports_type: BuildMetaExportsType::Default,
            default_object: BuildMetaDefaultObject::Redirect,
        },
    )
}

fn empty_oracle() -> UsageOracle {
    UsageOracle { entries: Vec::new() }
}

fn empty_mg() -> ModuleGraphView {
    ModuleGraphView { resolved: Vec::new() }
}

#[test]
fn escape_css_keeps_plain_and_escapes_rest() {
    assert_eq!(escape_css("foo-bar_9"), "foo-bar_9");
    assert_eq!(escape_css("a.b/c"), "a\\.b\\/c");
    assert_eq!(escape_css(""), "");
}

#[test]
fn js_escape_escapes_quotes_and_backslashes() {
    assert_eq!(js_escape("plain"), "plain");
    assert_eq!(js_escape("a\"b\\c"), "a\\\"b\\\\c");
}

#[test]
fn unescape_drops_backslashes() {
    assert_eq!(unescape("a\\.b"), "a.b");
    assert_eq!(unescape("\\\\x"), "\\x");
    assert_eq!(unescape("plain"), "plain");
}

#[test]
fn camel_case_folds_separators() {
    assert_eq!(camel_case("foo-bar"), "fooBar");
    assert_eq!(camel_case("foo_bar-baz"), "fooBarBaz");
    assert_eq!(camel_case("fooBar"), "fooBar");
    assert_eq!(dashes_camel("foo-bar_x"), "fooBar_x");
}

#[test]
fn strip_comments_removes_lazy_spans() {
    assert_eq!(strip_comments("a/* x */b/* y */c"), "abc");
    assert_eq!(strip_comments("no comments"), "no comments");
    assert_eq!(strip_comments("open/*unclosed"), "open/*unclosed");
}

#[test]
fn trim_chars_trims_both_ends() {
    assert_eq!(trim_chars("'\"quoted\"'", true), "quoted");
    assert_eq!(trim_chars("  spaced\t\n", false), "spaced");
    assert_eq!(trim_chars("", true), "");
}

#[test]
fn normalize_separators_replaces_backslashes() {
    assert_eq!(normalize_separators("a\\b\\c"), "a/b/c");
    assert_eq!(normalize_separators("a/b"), "a/b");
}

#[test]
fn module_path_pattern() {
    assert!(is_module_path("style.module.css"));
    assert!(is_module_path("dir/app.modules.scss"));
    assert!(!is_module_path("style.css"));
    assert!(!is_module_path("style.module."));
    assert!(!is_module_path("style.module.a.b"));
    assert!(!is_module_path("module.css"));
}

#[test]
fn convention_expansion_counts() {
    // A raw name already in camel case expands to exactly one name.
    let one = export_locals_convention("fooBar", &CssExportsConvention::CamelCase);
    assert_eq!(one, vec![String::from("fooBar")]);
    // A dashed raw name expands to the raw and the camel-cased form.
    let two = export_locals_convention("foo-bar", &CssExportsConvention::CamelCase);
    assert_eq!(two, vec![String::from("foo-bar"), String::from("fooBar")]);
    let only = export_locals_convention("foo-bar", &CssExportsConvention::CamelCaseOnly);
    assert_eq!(only, vec![String::from("fooBar")]);
    let as_is = export_locals_convention("foo-bar", &CssExportsConvention::AsIs);
    assert_eq!(as_is, vec![String::from("foo-bar")]);
}

#[test]
fn update_css_exports_deduplicates() {
    let mut exports = CssExports::new();
    let rec = CssExport { ident: String::from("x_1"), from: None, id: None };
    assert!(update_css_exports(&mut exports, String::from("x"), rec));
    let dup = CssExport { ident: String::from("x_1"), from: None, id: None };
    assert!(!update_css_exports(&mut exports, String::from("x"), dup));
    let other = CssExport { ident: String::from("x_2"), from: None, id: None };
    assert!(update_css_exports(&mut exports, String::from("x"), other));
    assert_eq!(exports.entries.len(), 1);
    assert_eq!(exports.entries[0].records.len(), 2);
    assert_eq!(exports.entries[0].records[0].ident, "x_1");
    assert_eq!(exports.entries[0].records[1].ident, "x_2");
}

#[test]
fn scenario_local_class_identity_naming() {
    // `.foo { color: red }` in local mode with identity naming.
    let mut p = parser(CssExportsConvention::AsIs, false);
    let (mut bi, mut bm) = build_state();
    let parsed = p
        .parse(".foo { color: red }", ModuleType::CssModule, &None, &mut bi, &mut bm)
        .unwrap();
    assert!(bi.strict);
    assert_eq!(bm.exports_type, BuildMetaExportsType::Default);
    let exports = p.exports.as_ref().unwrap();
    assert_eq!(exports.entries.len(), 1);
    assert_eq!(exports.entries[0].name, "foo");
    assert_eq!(exports.entries[0].records.len(), 1);
    assert_eq!(exports.entries[0].records[0].ident, "foo_1a2b");
    assert!(exports.entries[0].records[0].from.is_none());
    assert!(exports.entries[0].records[0].id.is_none());

    // The JavaScript standalone output is an exports object for `foo`.
    let mut rr = RuntimeRequirements::new();
    let js = p
        .generate_js(false, false, false, &empty_mg(), &empty_oracle(), &mut rr)
        .unwrap();
    assert_eq!(js, "module.exports = {\n  \"foo\": \"foo_1a2b\",\n};\n");
    assert!(rr.module);
    assert!(!rr.make_namespace_object);
    drop(parsed);
}

#[test]
fn scenario_compose_from_global() {
    // `composes: b from global` contributes a literal record and no
    // cross-module dependency object.
    let mut p = parser(CssExportsConvention::AsIs, false);
    let (mut bi, mut bm) = build_state();
    let source = ".b { color: blue }\n.a { composes: b from global; }";
    let parsed = p
        .parse(source, ModuleType::CssModule, &None, &mut bi, &mut bm)
        .unwrap();
    let exports = p.exports.as_ref().unwrap();
    let a = exports
        .entries
        .iter()
        .find(|e| e.name == "a")
        .expect("class a must be exported");
    assert_eq!(a.records.len(), 2);
    assert_eq!(a.records[0].ident, "a_1a2b");
    assert_eq!(a.records[1].ident, "b");
    assert!(a.records[1].from.is_none());
    assert!(a.records[1].id.is_none());
    for dep in &parsed.dependencies {
        assert!(!matches!(dep, CssDependency::Compose { .. }));
    }
}

#[test]
fn scenario_all_unused_oracle() {
    // The oracle reports every export unused: empty exports object, and
    // the unused-ident set holds every generated identifier.
    let mut p = parser(CssExportsConvention::AsIs, false);
    let (mut bi, mut bm) = build_state();
    p.parse(".a { color: red }\n.b { color: blue }", ModuleType::CssModule, &None, &mut bi, &mut bm)
        .unwrap();
    let oracle = UsageOracle {
        entries: vec![
            (String::from("a"), UsageState::Unused),
            (String::from("b"), UsageState::Unused),
        ],
    };
    let exports = p.exports.as_ref().unwrap();
    let used = get_used_exports(exports, &oracle);
    assert!(used.is_empty());
    let unused = get_unused_local_ident(exports, &oracle);
    assert_eq!(unused.idents, vec![String::from("a_1a2b"), String::from("b_1a2b")]);
    let mut rr = RuntimeRequirements::new();
    let js = p
        .generate_js(false, false, false, &empty_mg(), &oracle, &mut rr)
        .unwrap();
    assert_eq!(js, "module.exports = {\n};\n");
}

#[test]
fn usage_filter_partitions() {
    let mut p = parser(CssExportsConvention::AsIs, false);
    let (mut bi, mut bm) = build_state();
    p.parse(".a { color: red }\n.b { color: blue }", ModuleType::CssModule, &None, &mut bi, &mut bm)
        .unwrap();
    let oracle = UsageOracle { entries: vec![(String::from("a"), UsageState::Unused)] };
    let exports = p.exports.as_ref().unwrap();
    let used = get_used_exports(exports, &oracle);
    assert_eq!(used.len(), 1);
    assert_eq!(used[0].name, "b");
    let unused = get_unused_local_ident(exports, &oracle);
    assert_eq!(unused.idents, vec![String::from("a_1a2b")]);
}

#[test]
fn compose_order_preserved() {
    // `.a` composes `.b`: export `a` lists its own identifier first.
    let mut p = parser(CssExportsConvention::AsIs, false);
    let (mut bi, mut bm) = build_state();
    let source = ".a { color: red }\n.b { color: blue }\n.a { composes: b; }";
    p.parse(source, ModuleType::CssModule, &None, &mut bi, &mut bm).unwrap();
    let exports = p.exports.as_ref().unwrap();
    let a = exports.entries.iter().find(|e| e.name == "a").unwrap();
    assert_eq!(a.records.len(), 2);
    assert_eq!(a.records[0].ident, "a_1a2b");
    assert_eq!(a.records[1].ident, "b_1a2b");
}

#[test]
fn compose_from_request_records_dependency() {
    let mut p = parser(CssExportsConvention::AsIs, false);
    let (mut bi, mut bm) = build_state();
    let source = ".a { composes: b from \"./other.css\"; }";
    let parsed = p
        .parse(source, ModuleType::CssModule, &None, &mut bi, &mut bm)
        .unwrap();
    let compose = parsed
        .dependencies
        .iter()
        .find_map(|d| match d {
            CssDependency::Compose { request, id, .. } => Some((request.clone(), *id)),
            _ => None,
        })
        .expect("a compose dependency must be recorded");
    assert_eq!(compose.0, "./other.css");
    let exports = p.exports.as_ref().unwrap();
    let a = exports.entries.iter().find(|e| e.name == "a").unwrap();
    let cross = a.records.iter().find(|r| r.from.is_some()).unwrap();
    assert_eq!(cross.ident, "b");
    assert_eq!(cross.from.as_deref(), Some("./other.css"));
    assert_eq!(cross.id, Some(compose.1));
}

#[test]
fn generate_css_rewrites_and_reports_metadata() {
    let mut p = parser(CssExportsConvention::AsIs, false);
    let (mut bi, mut bm) = build_state();
    let source = ".foo { color: red }";
    let parsed = p
        .parse(source, ModuleType::CssModule, &None, &mut bi, &mut bm)
        .unwrap();
    let mut rr = RuntimeRequirements::new();
    let mut data = GenerationData { css_used_exports: None, unused_local_idents: None };
    let css = p
        .generate_css(source, &parsed, "mod1", &empty_mg(), &empty_oracle(), &mut rr, &mut data)
        .unwrap();
    assert_eq!(String::from_utf8(css).unwrap(), ".foo_1a2b { color: red }");
    assert!(rr.has_css_modules);
    assert_eq!(data.css_used_exports.unwrap().0, "foo:foo_1a2b/mod1");
    assert_eq!(data.unused_local_idents.unwrap().idents.len(), 0);
}

#[test]
fn generate_css_es_module_marker() {
    let mut p = parser(CssExportsConvention::AsIs, true);
    let (mut bi, mut bm) = build_state();
    let source = ".foo { color: red }";
    let parsed = p
        .parse(source, ModuleType::CssModule, &None, &mut bi, &mut bm)
        .unwrap();
    let mut rr = RuntimeRequirements::new();
    let mut data = GenerationData { css_used_exports: None, unused_local_idents: None };
    p.generate_css(source, &parsed, "m", &empty_mg(), &empty_oracle(), &mut rr, &mut data)
        .unwrap();
    assert_eq!(data.css_used_exports.unwrap().0, "foo:foo_1a2b/&m");
}

#[test]
fn generate_is_idempotent() {
    let mut p = parser(CssExportsConvention::AsIs, false);
    let (mut bi, mut bm) = build_state();
    let source = ".foo { color: red }\n.bar { composes: foo; }";
    let parsed = p
        .parse(source, ModuleType::CssModule, &None, &mut bi, &mut bm)
        .unwrap();
    let mut rr1 = RuntimeRequirements::new();
    let mut d1 = GenerationData { css_used_exports: None, unused_local_idents: None };
    let mut rr2 = RuntimeRequirements::new();
    let mut d2 = GenerationData { css_used_exports: None, unused_local_idents: None };
    let css1 = p
        .generate_css(source, &parsed, "m", &empty_mg(), &empty_oracle(), &mut rr1, &mut d1)
        .unwrap();
    let css2 = p
        .generate_css(source, &parsed, "m", &empty_mg(), &empty_oracle(), &mut rr2, &mut d2)
        .unwrap();
    assert_eq!(css1, css2);
    assert_eq!(d1.css_used_exports.unwrap().0, d2.css_used_exports.unwrap().0);
    let js1 = p
        .generate_js(false, false, false, &empty_mg(), &empty_oracle(), &mut rr1)
        .unwrap();
    let js2 = p
        .generate_js(false, false, false, &empty_mg(), &empty_oracle(), &mut rr2)
        .unwrap();
    assert_eq!(js1, js2);
}

#[test]
fn generate_dispatch_rejects_unsupported_kind() {
    let p = parser(CssExportsConvention::AsIs, false);
    let parsed = ParseResult {
        dependencies: Vec::new(),
        presentational_dependencies: Vec::new(),
        code_generation_dependencies: Vec::new(),
        diagnostics: Vec::new(),
    };
    let mut rr = RuntimeRequirements::new();
    let mut data = GenerationData { css_used_exports: None, unused_local_idents: None };
    let r = p.generate(
        SourceType::Asset,
        "",
        &parsed,
        "m",
        false,
        false,
        false,
        &empty_mg(),
        &empty_oracle(),
        &mut rr,
        &mut data,
    );
    assert_eq!(r.unwrap_err(), InternalError::UnsupportedSourceType);
}

#[test]
fn generate_dispatch_css_and_js() {
    let mut p = parser(CssExportsConvention::AsIs, false);
    let (mut bi, mut bm) = build_state();
    let source = ".x { color: red }";
    let parsed = p
        .parse(source, ModuleType::CssModule, &None, &mut bi, &mut bm)
        .unwrap();
    let mut rr = RuntimeRequirements::new();
    let mut data = GenerationData { css_used_exports: None, unused_local_idents: None };
    match p
        .generate(SourceType::Css, source, &parsed, "m", false, false, false, &empty_mg(), &empty_oracle(), &mut rr, &mut data)
        .unwrap()
    {
        GeneratedOutput::Css(b) => assert_eq!(String::from_utf8(b).unwrap(), ".x_1a2b { color: red }"),
        GeneratedOutput::JavaScript(_) => panic!("expected CSS output"),
    }
    match p
        .generate(SourceType::JavaScript, source, &parsed, "m", false, false, false, &empty_mg(), &empty_oracle(), &mut rr, &mut data)
        .unwrap()
    {
        GeneratedOutput::JavaScript(s) => assert_eq!(s, "module.exports = {\n  \"x\": \"x_1a2b\",\n};\n"),
        GeneratedOutput::Css(_) => panic!("expected JavaScript output"),
    }
}

#[test]
fn missing_convention_is_internal_error() {
    let mut p = parser(CssExportsConvention::AsIs, false);
    p.convention = None;
    let (mut bi, mut bm) = build_state();
    let r = p.parse(".a { color: red }", ModuleType::CssModule, &None, &mut bi, &mut bm);
    assert_eq!(r.unwrap_err(), InternalError::MissingConvention);
}

#[test]
fn missing_naming_template_is_internal_error() {
    let mut p = parser(CssExportsConvention::AsIs, false);
    p.local_ident_name = None;
    let (mut bi, mut bm) = build_state();
    let r = p.parse(".a { color: red }", ModuleType::CssModule, &None, &mut bi, &mut bm);
    assert_eq!(r.unwrap_err(), InternalError::MissingLocalIdentName);
}

#[test]
fn renamed_compose_target_is_internal_error() {
    // Under a camel-case-only convention the class is exported as `fooBar`,
    // so composing into the raw name `foo-bar` hits an undeclared target.
    let mut p = parser(CssExportsConvention::CamelCaseOnly, false);
    let (mut bi, mut bm) = build_state();
    let source = ".foo-bar { composes: x from global; }";
    let r = p.parse(source, ModuleType::CssModule, &None, &mut bi, &mut bm);
    assert_eq!(r.unwrap_err(), InternalError::UndeclaredComposesTarget);
}

#[test]
fn unresolved_compose_dependency_is_internal_error() {
    let mut p = parser(CssExportsConvention::AsIs, false);
    let (mut bi, mut bm) = build_state();
    let source = ".a { composes: b from \"./other.css\"; }";
    let parsed = p
        .parse(source, ModuleType::CssModule, &None, &mut bi, &mut bm)
        .unwrap();
    let mut rr = RuntimeRequirements::new();
    let mut data = GenerationData { css_used_exports: None, unused_local_idents: None };
    let r = p.generate_css(source, &parsed, "m", &empty_mg(), &empty_oracle(), &mut rr, &mut data);
    assert_eq!(r.unwrap_err(), InternalError::UnresolvedComposeDependency);
}

#[test]
fn resolved_compose_dependency_reaches_metadata() {
    let mut p = parser(CssExportsConvention::AsIs, false);
    let (mut bi, mut bm) = build_state();
    let source = ".a { composes: b from \"./other.css\"; }";
    let parsed = p
        .parse(source, ModuleType::CssModule, &None, &mut bi, &mut bm)
        .unwrap();
    let dep_id = parsed
        .dependencies
        .iter()
        .find_map(|d| match d {
            CssDependency::Compose { id, .. } => Some(*id),
            _ => None,
        })
        .unwrap();
    let mg = ModuleGraphView { resolved: vec![(dep_id.0, String::from("other-mod"))] };
    let mut rr = RuntimeRequirements::new();
    let mut data = GenerationData { css_used_exports: None, unused_local_idents: None };
    p.generate_css(source, &parsed, "m", &mg, &empty_oracle(), &mut rr, &mut data)
        .unwrap();
    let meta = data.css_used_exports.unwrap().0;
    assert_eq!(meta, "a:a_1a2b/a:other-mod@b/m");
}

#[test]
fn overlapping_splices_are_internal_error() {
    let p = parser(CssExportsConvention::AsIs, false);
    let parsed = ParseResult {
        dependencies: vec![
            CssDependency::LocalIdent {
                local_ident: String::from("x"),
                convention_names: vec![String::from("x")],
                start: 0,
                end: 5,
                id: DependencyId(0),
            },
            CssDependency::LocalIdent {
                local_ident: String::from("y"),
                convention_names: vec![String::from("y")],
                start: 3,
                end: 8,
                id: DependencyId(1),
            },
        ],
        presentational_dependencies: Vec::new(),
        code_generation_dependencies: Vec::new(),
        diagnostics: Vec::new(),
    };
    let mut rr = RuntimeRequirements::new();
    let mut data = GenerationData { css_used_exports: None, unused_local_idents: None };
    let r = p.generate_css("0123456789", &parsed, "m", &empty_mg(), &empty_oracle(), &mut rr, &mut data);
    assert_eq!(r.unwrap_err(), InternalError::InvalidSpliceRanges);
}

#[test]
fn import_ordering_warning_is_escalated() {
    let mut p = parser(CssExportsConvention::AsIs, false);
    let (mut bi, mut bm) = build_state();
    let source = ".a { color: red }\n@import \"late.css\";\n";
    let parsed = p
        .parse(source, ModuleType::CssModule, &None, &mut bi, &mut bm)
        .unwrap();
    assert!(parsed
        .diagnostics
        .iter()
        .any(|d| d.severity == Severity::Error));
}

#[test]
fn hot_reload_empty_exports() {
    let p = CssParserAndGenerator {
        convention: None,
        local_ident_name: None,
        exports_only: false,
        named_exports: false,
        es_module: false,
        exports: None,
    };
    let mut rr = RuntimeRequirements::new();
    let js = p
        .generate_js(false, false, true, &empty_mg(), &empty_oracle(), &mut rr)
        .unwrap();
    assert_eq!(js, "module.hot.accept();\nmodule.exports = {};\n");
}

#[test]
fn concatenation_scope_emits_binding_table_only() {
    let mut p = parser(CssExportsConvention::AsIs, false);
    let (mut bi, mut bm) = build_state();
    p.parse(".a { color: red }", ModuleType::CssModule, &None, &mut bi, &mut bm)
        .unwrap();
    let mut rr = RuntimeRequirements::new();
    let js = p
        .generate_js(true, false, false, &empty_mg(), &empty_oracle(), &mut rr)
        .unwrap();
    assert_eq!(js, "  \"a\": \"a_1a2b\",\n");
    // Both JavaScript paths register the module runtime requirement.
    assert!(rr.module);
    assert!(!rr.make_namespace_object);
    assert!(!rr.has_css_modules);
}

#[test]
fn concatenation_bailout_reason_is_stable() {
    let p = parser(CssExportsConvention::AsIs, false);
    let reason = p.get_concatenation_bailout_reason().unwrap();
    assert_eq!(reason, "Module Concatenation is not implemented for CssParserAndGenerator");
}

#[test]
fn hash_contribution_is_the_es_module_bit() {
    let p = parser(CssExportsConvention::AsIs, true);
    let q = parser(CssExportsConvention::AsIs, false);
    let mut h = BuildHash { bytes: Vec::new() };
    p.update_hash(&mut h);
    q.update_hash(&mut h);
    assert_eq!(h.bytes, vec![1u8, 0u8]);
}

#[test]
fn source_types_follow_configuration() {
    let css = parser(CssExportsConvention::AsIs, false);
    assert_eq!(css.source_types(), vec![SourceType::Css]);
    let mut only = parser(CssExportsConvention::AsIs, false);
    only.exports_only = true;
    assert_eq!(only.source_types(), vec![SourceType::JavaScript]);
    assert_eq!(css.size(Some(SourceType::JavaScript), 100), 42);
    assert_eq!(css.size(Some(SourceType::Css), 100), 100);
    assert_eq!(css.size(None, 7), 7);
}

#[test]
fn auto_module_scopes_only_module_paths() {
    let mut p = parser(CssExportsConvention::AsIs, false);
    let (mut bi, mut bm) = build_state();
    let path = Some(String::from("app/style.css"));
    p.parse(".a { color: red }", ModuleType::CssAuto, &path, &mut bi, &mut bm)
        .unwrap();
    assert!(p.exports.is_none());

    let mut q = parser(CssExportsConvention::AsIs, false);
    let path2 = Some(String::from("app/style.module.css"));
    q.parse(".a { color: red }", ModuleType::CssAuto, &path2, &mut bi, &mut bm)
        .unwrap();
    assert!(q.exports.is_some());
}

#[test]
fn require_resolve_context_dependency_roundtrip() {
    let options = ContextOptions {
        request: String::from("./locale"),
        recursive: true,
        reg_exp: String::from("\\.json$"),
        mode: ContextMode::Sync,
    };
    let range = RealDependencyLocation { start: 4, end: 20 };
    let mut dep = RequireResolveContextDependency::new(DependencyId(7), options, range, false);
    assert_eq!(dep.id(), DependencyId(7));
    assert_eq!(dep.category(), DependencyCategory::CommonJS);
    assert_eq!(dep.request(), "./locale");
    assert_eq!(dep.resource_identifier(), "context|./locale|true|\\.json$|sync");
    assert!(!dep.get_optional());
    assert!(dep.get_context().is_none());
    assert_eq!(dep.dependency_id(), Some(DependencyId(7)));
    dep.set_request(String::from("./intl"));
    assert_eq!(dep.request(), "./intl");
    assert_eq!(dep.resource_identifier(), "context|./locale|true|\\.json$|sync");
    let mut splices = Vec::new();
    dep.apply("42", &mut splices);
    assert_eq!(splices.len(), 1);
    assert_eq!(splices[0].start, 4);
    assert_eq!(splices[0].end, 20);
    assert_eq!(splices[0].content, b"42".to_vec());
}

#[test]
fn tilde_request_is_rewritten_with_warning() {
    let mut p = parser(CssExportsConvention::AsIs, false);
    let (mut bi, mut bm) = build_state();
    let source = "@import \"~pkg/style.css\";\n";
    let parsed = p
        .parse(source, ModuleType::Css, &None, &mut bi, &mut bm)
        .unwrap();
    let import = parsed
        .dependencies
        .iter()
        .find_map(|d| match d {
            CssDependency::Import { request, .. } => Some(request.clone()),
            _ => None,
        })
        .expect("an import dependency must be recorded");
    assert_eq!(import, "pkg/style.css");
    assert!(parsed
        .diagnostics
        .iter()
        .any(|d| d.severity == Severity::Warning && d.message.contains("deprecated")));
}

#[test]
fn keyframes_names_are_scoped() {
    let mut p = parser(CssExportsConvention::AsIs, false);
    let (mut bi, mut bm) = build_state();
    let source = "@keyframes spin { from { opacity: 0 } }\n.a { animation-name: spin; }";
    p.parse(source, ModuleType::CssModule, &None, &mut bi, &mut bm)
        .unwrap();
    let exports = p.exports.as_ref().unwrap();
    let spin = exports.entries.iter().find(|e| e.name == "spin").unwrap();
    assert_eq!(spin.records[0].ident, "spin_1a2b");
}

#[test]
fn es_module_with_used_exports_wraps_namespace() {
    let mut p = parser(CssExportsConvention::AsIs, true);
    let (mut bi, mut bm) = build_state();
    p.parse(".a { color: red }", ModuleType::CssModule, &None, &mut bi, &mut bm)
        .unwrap();
    let mut rr = RuntimeRequirements::new();
    let js = p
        .generate_js(false, true, false, &empty_mg(), &empty_oracle(), &mut rr)
        .unwrap();
    assert_eq!(
        js,
        "__webpack_require__.r(module.exports = {\n  \"a\": \"a_1a2b\",\n});\n"
    );
    assert!(rr.module);
    assert!(rr.make_namespace_object);
}

#[test]
fn oracle_without_information_counts_as_used() {
    let mut p = parser(CssExportsConvention::AsIs, false);
    let (mut bi, mut bm) = build_state();
    p.parse(".a { color: red }", ModuleType::CssModule, &None, &mut bi, &mut bm)
        .unwrap();
    let oracle = UsageOracle { entries: vec![(String::from("a"), UsageState::NoInfo)] };
    let exports = p.exports.as_ref().unwrap();
    let used = get_used_exports(exports, &oracle);
    assert_eq!(used.len(), 1);
    assert!(get_unused_local_ident(exports, &oracle).idents.is_empty());
}

#[test]
fn fs_error_wraps_io_error() {
    let io = std::io::Error::new(std::io::ErrorKind::NotFound, "missing");
    let err = Error::from(io);
    assert!(matches!(err, Error::Io(_)));
}

#[test]
fn fs_metadata_values() {
    let meta = Metadata { is_dir: false, is_file: true, is_symlink: false };
    let entry = DirEntry { name: String::from("a.css"), path: String::from("src/a.css"), metadata: meta };
    assert!(entry.metadata.is_file);
    assert!(!entry.metadata.is_dir);
    assert_eq!(entry.name, "a.css");
}

#[test]
fn icss_export_value_strips_comments() {
    let mut p = parser(CssExportsConvention::AsIs, false);
    let (mut bi, mut bm) = build_state();
    let source = ":export {\n  primary: /* note */ red;\n}";
    p.parse(source, ModuleType::CssModule, &None, &mut bi, &mut bm).unwrap();
    let exports = p.exports.as_ref().unwrap();
    let primary = exports.entries.iter().find(|e| e.name == "primary").unwrap();
    assert_eq!(primary.records[0].ident.trim(), "red");
}
