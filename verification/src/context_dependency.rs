//! A context dependency for `require.resolve` over a directory of modules:
//! its options, its stable resource identifier, and the text splice it
//! applies at generation time.

use vstd::prelude::*;
use vstd::string::StrSliceExecFns;
use vstd::string::StringExecFns;
use vstd::string::StringSliceAdditionalSpecFns;

use crate::DependencyId;
use crate::codegen::Splice;
use crate::codegen::SpliceView;

verus! {

/// How the matched modules of a context are loaded.
#[derive(Debug, Clone, Copy, PartialEq, Eq, Structural)]
pub enum ContextMode {
    Sync,
    Lazy,
}

/// The grouping a dependency belongs to.
#[derive(Debug, Clone, Copy, PartialEq, Eq, Structural)]
pub enum DependencyCategory {
    CommonJS,
    Esm,
    Unknown,
}

/// The concrete kind of a dependency.
#[derive(Debug, Clone, Copy, PartialEq, Eq, Structural)]
pub enum DependencyType {
    RequireContext,
    CjsRequire,
    Unknown,
}

/// Whether a dependency can affect the module that references it.
#[derive(Debug, Clone, Copy, PartialEq, Eq, Structural)]
pub enum AffectType {
    True,
    False,
}

/// How a context dependency's generated code is prefixed.
#[derive(Debug, Clone, Copy, PartialEq, Eq, Structural)]
pub enum ContextTypePrefix {
    Normal,
    Import,
}

/// A dependency's byte range in its module source.
#[derive(Debug, Clone, Copy, PartialEq, Eq, Structural)]
pub struct RealDependencyLocation {
    pub start: u32,
    pub end: u32,
}

/// What a context dependency matches: the request, whether directories are
/// walked recursively, the file pattern, and the load mode.
#[derive(Debug)]
pub struct ContextOptions {
    pub request: String,
    pub recursive: bool,
    pub reg_exp: String,
    pub mode: ContextMode,
}

/// The stable resource identifier of a context dependency: a deterministic
/// rendering of its options, so equal options always collapse to one
/// resolution entry.
pub open spec fn resource_identifier_spec(
    request: Seq<char>,
    recursive: bool,
    reg_exp: Seq<char>,
    mode: ContextMode,
) -> Seq<char> {
    "context|"@ + request + "|"@ + (if recursive {
        "true"@
    } else {
        "false"@
    }) + "|"@ + reg_exp + "|"@ + (if mode is Sync {
        "sync"@
    } else {
        "lazy"@
    })
}

/// Renders the stable resource identifier for the given options.
pub fn create_resource_identifier_for_context_dependency(options: &ContextOptions) -> (r: String)
    ensures
        r@ == resource_identifier_spec(
            options.request@,
            options.recursive,
            options.reg_exp@,
            options.mode,
        ),
{
    let mut r = String::from_str("context|");
    r.append(options.request.as_str());
    r.append("|");
    if options.recursive {
        r.append("true");
    } else {
        r.append("false");
    }
    r.append("|");
    r.append(options.reg_exp.as_str());
    r.append("|");
    match options.mode {
        ContextMode::Sync => r.append("sync"),
        ContextMode::Lazy => r.append("lazy"),
    }
    r
}

/// A `require.resolve` context dependency.
#[derive(Debug)]
pub struct RequireResolveContextDependency {
    id: DependencyId,
    options: ContextOptions,
    range: RealDependencyLocation,
    resource_identifier: String,
    optional: bool,
}

impl RequireResolveContextDependency {
    /// Builds the dependency under the id its owner assigned, rendering
    /// the stable resource identifier from the options.
    pub fn new(
        id: DependencyId,
        options: ContextOptions,
        range: RealDependencyLocation,
        optional: bool,
    ) -> (r: RequireResolveContextDependency)
        ensures
            r.id() == id,
            r.options_spec() == options,
            r.range_spec() == range,
            r.optional_spec() == optional,
            r.resource_identifier_view() == resource_identifier_spec(
                options.request@,
                options.recursive,
                options.reg_exp@,
                options.mode,
            ),
    {
        let resource_identifier = create_resource_identifier_for_context_dependency(&options);
        RequireResolveContextDependency { id, options, range, resource_identifier, optional }
    }

    /// The dependency's assigned id.
    pub closed spec fn id_spec(&self) -> DependencyId {
        self.id
    }

    /// The dependency's options.
    pub closed spec fn options_spec(&self) -> ContextOptions {
        self.options
    }

    /// The dependency's source range.
    pub closed spec fn range_spec(&self) -> RealDependencyLocation {
        self.range
    }

    /// Whether resolution failures are tolerated.
    pub closed spec fn optional_spec(&self) -> bool {
        self.optional
    }

    /// The rendered resource identifier.
    pub closed spec fn resource_identifier_view(&self) -> Seq<char> {
        self.resource_identifier@
    }

    /// The dependency's id.
    #[verifier::when_used_as_spec(id_spec)]
    pub fn id(&self) -> (r: DependencyId)
        ensures
            r == self.id_spec(),
    {
        self.id
    }

    /// Context dependencies of this kind are CommonJS dependencies.
    pub fn category(&self) -> (r: DependencyCategory)
        ensures
            r == DependencyCategory::CommonJS,
    {
        DependencyCategory::CommonJS
    }

    /// This is a `require` context dependency.
    pub fn dependency_type(&self) -> (r: DependencyType)
        ensures
            r == DependencyType::RequireContext,
    {
        DependencyType::RequireContext
    }

    /// The source range the dependency covers.
    pub fn range(&self) -> (r: Option<&RealDependencyLocation>)
        ensures
            match r {
                Some(l) => *l == self.range_spec(),
                None => false,
            },
    {
        Some(&self.range)
    }

    /// This dependency can affect the module referencing it.
    pub fn could_affect_referencing_module(&self) -> (r: AffectType)
        ensures
            r == AffectType::True,
    {
        AffectType::True
    }

    /// The request the context was built from.
    pub fn request(&self) -> (r: &String)
        ensures
            r@ == self.options_spec().request@,
    {
        &self.options.request
    }

    /// The full options.
    pub fn options(&self) -> (r: &ContextOptions)
        ensures
            *r == self.options_spec(),
    {
        &self.options
    }

    /// This dependency carries no explicit context of its own.
    pub fn get_context(&self) -> (r: Option<&String>)
        ensures
            r is None,
    {
        None
    }

    /// The stable resource identifier.
    pub fn resource_identifier(&self) -> (r: &String)
        ensures
            r@ == self.resource_identifier_view(),
    {
        &self.resource_identifier
    }

    /// Replaces the request, leaving everything else (the rendered
    /// resource identifier included) unchanged.
    pub fn set_request(&mut self, request: String)
        ensures
            final(self).options_spec().request == request,
            final(self).options_spec().recursive == old(self).options_spec().recursive,
            final(self).options_spec().reg_exp == old(self).options_spec().reg_exp,
            final(self).options_spec().mode == old(self).options_spec().mode,
            final(self).id_spec() == old(self).id_spec(),
            final(self).range_spec() == old(self).range_spec(),
            final(self).optional_spec() == old(self).optional_spec(),
            final(self).resource_identifier_view() == old(self).resource_identifier_view(),
    {
        self.options.request = request;
    }

    /// Whether resolution failures are tolerated.
    pub fn get_optional(&self) -> (r: bool)
        ensures
            r == self.optional_spec(),
    {
        self.optional
    }

    /// Generated code for this dependency carries no special prefix.
    pub fn type_prefix(&self) -> (r: ContextTypePrefix)
        ensures
            r == ContextTypePrefix::Normal,
    {
        ContextTypePrefix::Normal
    }

    /// Records this dependency's text splice: its range is replaced by the
    /// rendering the caller resolved for it.
    pub fn apply(&self, replacement: &str, splices: &mut Vec<Splice>)
        ensures
            final(splices)@.map_values(|s: Splice| s@) == old(splices)@.map_values(
                |s: Splice| s@,
            ).push(
                SpliceView {
                    start: self.range_spec().start,
                    end: self.range_spec().end,
                    content: replacement.spec_bytes(),
                },
            ),
    {
        let content = replacement.as_bytes_vec();
        let ghost before = splices@.map_values(|s: Splice| s@);
        splices.push(Splice { start: self.range.start, end: self.range.end, content });
        proof {
            assert(splices@.map_values(|s: Splice| s@) =~= before.push(
                SpliceView {
                    start: self.range_spec().start,
                    end: self.range_spec().end,
                    content: replacement.spec_bytes(),
                },
            ));
        }
    }

    /// The id, for template bookkeeping.
    pub fn dependency_id(&self) -> (r: Option<DependencyId>)
        ensures
            r == Some(self.id_spec()),
    {
        Some(self.id)
    }

    /// This dependency contributes nothing to the module's hash.
    pub fn update_hash(&self, hasher: &mut crate::codegen::BuildHash)
        ensures
            final(hasher).bytes@ == old(hasher).bytes@,
    {
    }
}

} // verus!
