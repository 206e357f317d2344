//! The swc parser, dependency analysis and source map, seen through the
//! results they give for a dialect and a source text.
use crate::deps::{DepKind, ExportSpec, FoundDep, ItemModel, RefModel, Specifier};
use crate::syntax::Dialect;
use swc_common::{BytePos, FileName, FilePathMapping, SourceMap};
use swc_common::comments::NoopComments;
use swc_ecma_ast::{EsVersion, ExportSpecifier, Module, ModuleDecl, ModuleExportName, ModuleItem};
use swc_ecma_dep_graph::{analyze_dependencies, DependencyDescriptor, DependencyKind};
use swc_ecma_parser::{parse_file_as_module, EsConfig, Syntax, TsConfig};
use vstd::prelude::*;

verus! {

#[verifier::external_type_specification]
#[verifier::external_body]
pub struct ExSourceMap(SourceMap);

#[verifier::external_type_specification]
#[verifier::external_body]
pub struct ExModule(Module);

#[verifier::external_type_specification]
#[verifier::external_body]
pub struct ExDependencyDescriptor(DependencyDescriptor);

/// What swc_ecma_parser's `parse_file_as_module` gives for a text in a
/// dialect: the module's top-level items, or the message of its first error,
/// also where the parser recovered from that error.
pub uninterp spec fn parsed(dialect: Dialect, text: Seq<char>) -> Result<Seq<ItemModel>, Seq<char>>;

/// What swc_ecma_dep_graph's `analyze_dependencies` gives for the module
/// parsed from a text in a dialect: every module reference, in source order.
pub uninterp spec fn found_refs(dialect: Dialect, text: Seq<char>) -> Seq<RefModel>;

/// What swc_common's `SourceMap::lookup_char_pos` gives for a position in a
/// map that holds only the text: the line and the column.
pub uninterp spec fn location(text: Seq<char>, pos: u32) -> (nat, nat);

/// The text that swc_common's `SourceMap::new_source_file` keeps: the source
/// without a leading byte order mark.
pub open spec fn map_text(text: Seq<char>) -> Seq<char> {
    if text.len() > 0 && text[0] == '\u{FEFF}' {
        text.drop_first()
    } else {
        text
    }
}

/// Whether a position lies in the map's only file, on a character boundary.
pub open spec fn resolvable(text: Seq<char>, pos: u32) -> bool {
    pos >= 1 && vstd::utf8::is_char_boundary(vstd::utf8::encode_utf8(map_text(text)), pos - 1)
}

/// A text parsed as a module in a dialect, with the map that resolves its
/// positions. Only `parse_text` makes one.
pub struct ParsedModule {
    dialect: Dialect,
    text: String,
    map: SourceMap,
    module: Module,
}

/// The general analysis of a parsed module. Only `analyze_refs` makes one.
pub struct Refs {
    dialect: Dialect,
    text: String,
    list: Vec<DependencyDescriptor>,
}

impl ParsedModule {
    pub closed spec fn spec_dialect(&self) -> Dialect {
        self.dialect
    }

    pub closed spec fn spec_text(&self) -> Seq<char> {
        self.text@
    }

    /// The module's top-level items.
    pub open spec fn items(&self) -> Seq<ItemModel> {
        parsed(self.spec_dialect(), self.spec_text())->Ok_0
    }

    pub fn text(&self) -> (r: &str)
        ensures
            r@ == self.spec_text(),
    {
        self.text.as_str()
    }
}

impl Refs {
    pub closed spec fn spec_dialect(&self) -> Dialect {
        self.dialect
    }

    pub closed spec fn spec_text(&self) -> Seq<char> {
        self.text@
    }
}

/// Relies on swc_common's `SourceMap::new` and `SourceMap::new_source_file`,
/// and on swc_ecma_parser's `parse_file_as_module` with the dialect's options
/// (others at their defaults): the parse of the text, failing on any error.
#[verifier::external_body]
pub fn parse_text(dialect: Dialect, text: String) -> (r: Result<ParsedModule, String>)
    ensures
        r is Ok <==> parsed(dialect, text@) is Ok,
        r is Err ==> parsed(dialect, text@) == Err::<Seq<ItemModel>, Seq<char>>(r->Err_0@),
        r is Ok ==> r->Ok_0.spec_dialect() == dialect && r->Ok_0.spec_text() == text@,
{
    let syntax = match dialect {
        Dialect::Ecma => Syntax::Es(EsConfig { jsx: true, ..Default::default() }),
        Dialect::TypeScript { tsx, dts } => Syntax::Typescript(TsConfig { tsx, dts, ..Default::default() }),
    };
    let map = SourceMap::new(FilePathMapping::empty());
    let file = map.new_source_file(FileName::Anon, text.clone());
    let mut errors = Vec::new();
    match parse_file_as_module(&file, syntax, EsVersion::latest(), None, &mut errors) {
        Ok(module) if errors.is_empty() => Ok(ParsedModule { dialect, text, map, module }),
        Ok(_) => Err(errors[0].kind().msg().to_string()),
        Err(e) => Err(e.kind().msg().to_string()),
    }
}

/// Relies on swc_ecma_ast's `Module::body`: the number of top-level items.
#[verifier::external_body]
pub fn item_count(p: &ParsedModule) -> (r: usize)
    requires
        parsed(p.spec_dialect(), p.spec_text()) is Ok,
    ensures
        r == p.items().len(),
{
    p.module.body.len()
}

/// A top-level item with its specifiers still to be read.
pub enum RawItem {
    Named { src: Option<Specifier>, count: usize, type_only: bool },
    All { source: Specifier },
    Other,
}

pub open spec fn raw_matches(r: RawItem, t: ItemModel) -> bool {
    match r {
        RawItem::Named { src, count, type_only } => t matches ItemModel::NamedExport {
            src: s,
            specifiers,
            type_only: to,
        } && to == type_only && specifiers.len() == count && match src {
            Some(x) => s == Some((x.value@, x.pos)),
            None => s is None,
        },
        RawItem::All { source } => t == ItemModel::ExportAll { source: (source.value@, source.pos) },
        RawItem::Other => t is Other,
    }
}

/// Relies on swc_ecma_ast's `ModuleItem`, `NamedExport`, `ExportAll` and
/// `Str`: the kind of a top-level item, its source text and position, and
/// its number of specifiers.
#[verifier::external_body]
pub fn item_at(p: &ParsedModule, i: usize) -> (r: RawItem)
    requires
        parsed(p.spec_dialect(), p.spec_text()) is Ok,
        i < p.items().len(),
    ensures
        raw_matches(r, p.items()[i as int]),
{
    let spec = |s: &swc_ecma_ast::Str| Specifier { value: s.value.to_string(), pos: s.span.lo.0 };
    match &p.module.body[i] {
        ModuleItem::ModuleDecl(ModuleDecl::ExportNamed(n)) => RawItem::Named {
            src: n.src.as_deref().map(spec),
            count: n.specifiers.len(),
            type_only: n.type_only,
        },
        ModuleItem::ModuleDecl(ModuleDecl::ExportAll(n)) => RawItem::All { source: spec(&n.src) },
        _ => RawItem::Other,
    }
}

/// Relies on swc_ecma_ast's `ExportSpecifier` and `ModuleExportName`: the
/// names of one specifier of a named export.
#[verifier::external_body]
pub fn spec_at(p: &ParsedModule, i: usize, j: usize) -> (r: ExportSpec)
    requires
        parsed(p.spec_dialect(), p.spec_text()) is Ok,
        i < p.items().len(),
        p.items()[i as int] is NamedExport,
        j < p.items()[i as int]->NamedExport_specifiers.len(),
    ensures
        crate::deps::spec_model(r) == p.items()[i as int]->NamedExport_specifiers[j as int],
{
    let text = |e: &ModuleExportName| match e {
        ModuleExportName::Ident(x) => x.sym.to_string(),
        ModuleExportName::Str(s) => s.value.to_string(),
    };
    let specs = match &p.module.body[i] {
        ModuleItem::ModuleDecl(ModuleDecl::ExportNamed(n)) => &n.specifiers,
        _ => return ExportSpec::Default { name: String::new() },
    };
    match &specs[j] {
        ExportSpecifier::Namespace(s) => ExportSpec::Namespace { name: text(&s.name) },
        ExportSpecifier::Named(s) => ExportSpec::Named { orig: text(&s.orig), exported: s.exported.as_ref().map(text) },
        ExportSpecifier::Default(s) => ExportSpec::Default { name: s.exported.sym.to_string() },
    }
}

/// Relies on swc_ecma_dep_graph's `analyze_dependencies`: the module
/// references of the parsed module.
#[verifier::external_body]
pub fn analyze_refs(p: &ParsedModule) -> (r: Refs)
    ensures
        r.spec_dialect() == p.spec_dialect(),
        r.spec_text() == p.spec_text(),
{
    let list = analyze_dependencies(&p.module, &NoopComments);
    Refs { dialect: p.dialect, text: p.text.clone(), list }
}

/// Relies on `Vec::len` over swc_ecma_dep_graph's result: the number of
/// references found.
#[verifier::external_body]
pub fn ref_count(r: &Refs) -> (n: usize)
    ensures
        n == found_refs(r.spec_dialect(), r.spec_text()).len(),
{
    r.list.len()
}

/// Relies on swc_ecma_dep_graph's `DependencyDescriptor`: the kind, the
/// dynamic flag, the specifier text and the specifier's position.
#[verifier::external_body]
pub fn ref_at(r: &Refs, k: usize) -> (d: FoundDep)
    requires
        k < found_refs(r.spec_dialect(), r.spec_text()).len(),
    ensures
        crate::deps::ref_model(d) == found_refs(r.spec_dialect(), r.spec_text())[k as int],
{
    let d = &r.list[k];
    let kind = match d.kind {
        DependencyKind::Require => DepKind::Require,
        DependencyKind::Import => DepKind::Import,
        DependencyKind::Export => DepKind::Export,
        DependencyKind::ImportType => DepKind::ImportType,
        DependencyKind::ExportType => DepKind::ExportType,
        DependencyKind::ImportEquals => DepKind::ImportEquals,
        DependencyKind::ExportEquals => DepKind::ExportEquals,
    };
    FoundDep { kind, is_dynamic: d.is_dynamic, specifier: d.specifier.to_string(), pos: d.specifier_span.lo.0 }
}

/// A line and a column.
pub struct LineColumn {
    pub line: usize,
    pub column: usize,
}

/// Relies on swc_common's `SourceMap::lookup_char_pos` on the map that holds
/// only the text: the line and column of a position in that file.
#[verifier::external_body]
pub fn line_and_column(p: &ParsedModule, pos: u32) -> (r: LineColumn)
    requires
        resolvable(p.spec_text(), pos),
    ensures
        (r.line as nat, r.column as nat) == location(p.spec_text(), pos),
{
    let loc = p.map.lookup_char_pos(BytePos(pos));
    LineColumn { line: loc.line, column: loc.col.0 }
}

} // verus!
