//! Classification of a module's top-level items into dependency records.
use vstd::prelude::*;
use vstd::string::*;

verus! {

/// A module reference as written in the source: its unquoted text and the
/// byte position of the string token.
#[derive(Debug, Clone, PartialEq, Eq)]
pub struct Specifier {
    pub value: String,
    pub pos: u32,
}

/// One specifier of a named re-export.
#[derive(Debug, Clone, PartialEq, Eq)]
pub enum ExportSpec {
    /// `* as name`
    Namespace { name: String },
    /// `orig` or `orig as exported`
    Named { orig: String, exported: Option<String> },
    /// `name` in `export name from 'm'`
    Default { name: String },
}

/// What the classification needs to know of one top-level item.
#[derive(Debug, Clone, PartialEq, Eq)]
pub enum TopItem {
    /// `export { ... }`, with its source module when it has one.
    NamedExport { src: Option<Specifier>, specifiers: Vec<ExportSpec>, type_only: bool },
    /// `export * from 'm'`
    ExportAll { source: Specifier },
    /// Any other statement or declaration.
    Other,
}

pub open spec fn colon() -> Seq<char> {
    seq![':']
}

pub open spec fn star() -> Seq<char> {
    seq!['*']
}

pub open spec fn default_word() -> Seq<char> {
    seq!['d', 'e', 'f', 'a', 'u', 'l', 't']
}

/// The alias text of one re-export specifier.
pub open spec fn alias_of(s: ExportSpec) -> Seq<char> {
    match s {
        ExportSpec::Namespace { name } => name@ + colon() + star(),
        ExportSpec::Named { orig, exported } => match exported {
            Some(e) => if orig@ == default_word() {
                default_word() + colon() + e@
            } else {
                e@ + colon() + orig@
            },
            None => orig@ + colon() + orig@,
        },
        ExportSpec::Default { name } => default_word() + colon() + name@,
    }
}

fn colon_text() -> (r: &'static str)
    ensures
        r@ == colon(),
{
    let r = ":";
    proof {
        reveal_strlit(":");
    }
    r
}

fn default_text() -> (r: &'static str)
    ensures
        r@ == default_word(),
{
    let r = "default";
    proof {
        reveal_strlit("default");
    }
    r
}

fn same_text(a: &str, b: &str) -> (r: bool)
    ensures
        r == (a@ == b@),
{
    let n = a.unicode_len();
    if n != b.unicode_len() {
        return false;
    }
    let mut i: usize = 0;
    while i < n
        invariant
            n == a@.len(),
            n == b@.len(),
            i <= n,
            forall|j: int| 0 <= j < i ==> a@[j] == b@[j],
        decreases n - i,
    {
        if a.get_char(i) != b.get_char(i) {
            return false;
        }
        i = i + 1;
    }
    assert(a@ =~= b@);
    true
}

/// The alias text of one re-export specifier: `name:*` for a namespace,
/// `exported:name` for `name as exported` (`default:exported` where the name
/// is `default`), `name:name` without a rename, `default:name` for
/// `export name from 'm'`.
pub fn alias_text(s: &ExportSpec) -> (r: String)
    ensures
        r@ == alias_of(*s),
{
    match s {
        ExportSpec::Namespace { name } => {
            let mut r = name.clone();
            r.append(":*");
            proof {
                reveal_strlit(":*");
            }
            assert(r@ =~= name@ + colon() + star());
            r
        },
        ExportSpec::Named { orig, exported } => match exported {
            Some(e) => {
                if same_text(orig.as_str(), default_text()) {
                    let mut r = String::from_str(default_text());
                    r.append(colon_text());
                    r.append(e.as_str());
                    r
                } else {
                    let mut r = e.clone();
                    r.append(colon_text());
                    r.append(orig.as_str());
                    r
                }
            },
            None => {
                let mut r = orig.clone();
                r.append(colon_text());
                r.append(orig.as_str());
                r
            },
        },
        ExportSpec::Default { name } => {
            let mut r = String::from_str(default_text());
            r.append(colon_text());
            r.append(name.as_str());
            r
        },
    }
}


/// The kinds of module reference that the general analysis reports.
#[derive(Debug, Clone, PartialEq, Eq)]
pub enum DepKind {
    Require,
    Import,
    Export,
    ImportType,
    ExportType,
    ImportEquals,
    ExportEquals,
}

/// One module reference found by the general analysis.
#[derive(Debug, Clone, PartialEq, Eq)]
pub struct FoundDep {
    pub kind: DepKind,
    pub is_dynamic: bool,
    pub specifier: String,
    pub pos: u32,
}

/// One dependency of a module: its encoded kind, the specifier text, the
/// 1-based line and 0-based column of the specifier, and the re-export
/// aliases where the re-export-only path produced it.
#[derive(Debug, Clone, PartialEq, Eq)]
pub struct Dependency {
    pub kind: u32,
    pub name: String,
    pub line: u32,
    pub column: u32,
    pub exports: Option<Vec<String>>,
}

/// Why a source file yields no dependency list.
#[derive(Debug, Clone, PartialEq, Eq)]
pub enum AnalyzeError {
    /// The parser rejected the text, with its message.
    Syntax(String),
    /// A specifier position that no source location answers to.
    UnresolvedPosition(u32),
    /// A line or column that does not fit in `u32`.
    LocationOverflow,
}

/// A dependency record before its position is turned into a line and column.
#[derive(Debug, Clone, PartialEq, Eq)]
pub struct Record {
    /// 0 require, 1 import, 2 export, 5 import-type, 6 export-type; 8 is added
    /// for a dynamic reference.
    pub kind: u32,
    pub specifier: String,
    pub pos: u32,
    /// The re-export aliases; present only for the re-export-only path.
    pub exports: Option<Vec<String>>,
}

pub open spec fn base_code(k: DepKind) -> u32 {
    match k {
        DepKind::Require => 0,
        DepKind::Import => 1,
        DepKind::Export => 2,
        DepKind::ImportType => 5,
        DepKind::ExportType => 6,
        DepKind::ImportEquals => 1,
        DepKind::ExportEquals => 2,
    }
}

/// The encoded kind of a reference: the base kind, plus 8 when dynamic.
pub open spec fn kind_code_of(k: DepKind, dynamic: bool) -> u32 {
    (base_code(k) + if dynamic { 8u32 } else { 0u32 }) as u32
}

/// The encoded kind of a reference: the base kind, with the dynamic bit set
/// when the reference is dynamic.
pub fn kind_code(kind: &DepKind, dynamic: bool) -> (r: u32)
    ensures
        r == kind_code_of(*kind, dynamic),
{
    let base: u32 = match kind {
        DepKind::Require => 0,
        DepKind::Import => 1,
        DepKind::Export => 2,
        DepKind::ImportType => 5,
        DepKind::ExportType => 6,
        DepKind::ImportEquals => 1,
        DepKind::ExportEquals => 2,
    };
    if dynamic {
        assert(base < 8 ==> base | 8 == base + 8) by (bit_vector);
        base | 8
    } else {
        base
    }
}

/// Whether a top-level item keeps the re-export-only path open.
pub open spec fn is_reexport(t: TopItem) -> bool {
    match t {
        TopItem::NamedExport { src, .. } => src is Some,
        TopItem::ExportAll { .. } => true,
        TopItem::Other => false,
    }
}

/// Whether every top-level item is a re-export.
pub open spec fn reexport_only(items: Seq<TopItem>) -> bool {
    forall|i: int| 0 <= i < items.len() ==> is_reexport(#[trigger] items[i])
}

/// The source module of a re-export.
pub open spec fn reexport_source(t: TopItem) -> Specifier
    recommends
        is_reexport(t),
{
    match t {
        TopItem::NamedExport { src, .. } => src->0,
        TopItem::ExportAll { source } => source,
        TopItem::Other => arbitrary(),
    }
}

/// The kind of a re-export: export-type for `export type { ... } from`,
/// export otherwise.
pub open spec fn reexport_kind(t: TopItem) -> u32 {
    match t {
        TopItem::NamedExport { type_only, .. } => if type_only { 6u32 } else { 2u32 },
        _ => 2u32,
    }
}

/// The aliases of a re-export: one per specifier, or `*:*` for a wildcard.
pub open spec fn reexport_aliases(t: TopItem) -> Seq<Seq<char>> {
    match t {
        TopItem::NamedExport { specifiers, .. } => specifiers@.map_values(|s: ExportSpec| alias_of(s)),
        _ => seq![star() + colon() + star()],
    }
}

pub open spec fn texts(v: Vec<String>) -> Seq<Seq<char>> {
    v@.map_values(|s: String| s@)
}

/// The record that the re-export-only path gives for a re-export.
pub open spec fn is_reexport_record(r: Record, t: TopItem) -> bool {
    &&& r.kind == reexport_kind(t)
    &&& r.specifier@ == reexport_source(t).value@
    &&& r.pos == reexport_source(t).pos
    &&& r.exports is Some
    &&& texts(r.exports->0) == reexport_aliases(t)
}

/// The record that the general path gives for a found reference.
pub open spec fn is_found_record(r: Record, d: FoundDep) -> bool {
    &&& r.kind == kind_code_of(d.kind, d.is_dynamic)
    &&& r.specifier@ == d.specifier@
    &&& r.pos == d.pos
    &&& r.exports is None
}

fn copy_specifier(s: &Specifier) -> (r: Specifier)
    ensures
        r.value@ == s.value@,
        r.pos == s.pos,
{
    Specifier { value: s.value.clone(), pos: s.pos }
}

/// The aliases of a named re-export's specifiers, in order.
pub fn aliases(specs: &Vec<ExportSpec>) -> (r: Vec<String>)
    ensures
        texts(r) == specs@.map_values(|s: ExportSpec| alias_of(s)),
{
    let mut r: Vec<String> = Vec::new();
    let mut i: usize = 0;
    while i < specs.len()
        invariant
            i <= specs@.len(),
            r@.len() == i,
            forall|j: int| 0 <= j < i ==> #[trigger] r@[j]@ == alias_of(specs@[j]),
        decreases specs@.len() - i,
    {
        r.push(alias_text(&specs[i]));
        i = i + 1;
    }
    assert(texts(r) =~= specs@.map_values(|s: ExportSpec| alias_of(s)));
    r
}

/// The re-export-only record of one top-level item, or `None` where the item
/// is not a re-export.
pub fn reexport_record(t: &TopItem) -> (r: Option<Record>)
    ensures
        r is Some <==> is_reexport(*t),
        r is Some ==> is_reexport_record(r->0, *t),
{
    match t {
        TopItem::NamedExport { src, specifiers, type_only } => match src {
            Some(s) => {
                let s = copy_specifier(s);
                let kind: u32 = if *type_only { 6 } else { 2 };
                Some(Record { kind, specifier: s.value, pos: s.pos, exports: Some(aliases(specifiers)) })
            },
            None => None,
        },
        TopItem::ExportAll { source } => {
            let s = copy_specifier(source);
            proof {
                reveal_strlit("*:*");
            }
            let all = String::from_str("*:*");
            assert(all@ =~= star() + colon() + star());
            let mut exports: Vec<String> = Vec::new();
            exports.push(all);
            assert(texts(exports) =~= seq![star() + colon() + star()]);
            Some(Record { kind: 2, specifier: s.value, pos: s.pos, exports: Some(exports) })
        },
        TopItem::Other => None,
    }
}

/// The re-export-only classification: one record per item when every item
/// is a re-export, `None` as soon as one is not.
pub fn fast_path(items: &Vec<TopItem>) -> (r: Option<Vec<Record>>)
    ensures
        r is Some <==> reexport_only(items@),
        r is Some ==> r->0@.len() == items@.len() && forall|i: int|
            0 <= i < items@.len() ==> is_reexport_record(#[trigger] r->0@[i], items@[i]),
{
    let mut out: Vec<Record> = Vec::new();
    let mut i: usize = 0;
    while i < items.len()
        invariant
            i <= items@.len(),
            out@.len() == i,
            forall|j: int| 0 <= j < i ==> is_reexport(#[trigger] items@[j]),
            forall|j: int| 0 <= j < i ==> is_reexport_record(#[trigger] out@[j], items@[j]),
        decreases items@.len() - i,
    {
        match reexport_record(&items[i]) {
            Some(rec) => out.push(rec),
            None => return None,
        }
        i = i + 1;
    }
    Some(out)
}

/// The general classification: one record per found reference, in order,
/// without aliases.
pub fn general_records(found: &Vec<FoundDep>) -> (r: Vec<Record>)
    ensures
        r@.len() == found@.len(),
        forall|i: int| 0 <= i < found@.len() ==> is_found_record(#[trigger] r@[i], found@[i]),
{
    let mut out: Vec<Record> = Vec::new();
    let mut i: usize = 0;
    while i < found.len()
        invariant
            i <= found@.len(),
            out@.len() == i,
            forall|j: int| 0 <= j < i ==> is_found_record(#[trigger] out@[j], found@[j]),
        decreases found@.len() - i,
    {
        let d = &found[i];
        let kind = kind_code(&d.kind, d.is_dynamic);
        out.push(Record { kind, specifier: d.specifier.clone(), pos: d.pos, exports: None });
        i = i + 1;
    }
    out
}

/// What a re-export specifier says, as text.
pub enum SpecModel {
    Namespace { name: Seq<char> },
    Named { orig: Seq<char>, exported: Option<Seq<char>> },
    Default { name: Seq<char> },
}

/// What a top-level item says, as text: specifiers carry their text and
/// position.
pub enum ItemModel {
    NamedExport { src: Option<(Seq<char>, u32)>, specifiers: Seq<SpecModel>, type_only: bool },
    ExportAll { source: (Seq<char>, u32) },
    Other,
}

/// What a reference found by the general analysis says, as text.
pub struct RefModel {
    pub kind: DepKind,
    pub is_dynamic: bool,
    pub specifier: Seq<char>,
    pub pos: u32,
}

/// What a record says, as text.
pub struct RecordModel {
    pub kind: u32,
    pub specifier: Seq<char>,
    pub pos: u32,
    pub exports: Option<Seq<Seq<char>>>,
}

pub open spec fn spec_model(s: ExportSpec) -> SpecModel {
    match s {
        ExportSpec::Namespace { name } => SpecModel::Namespace { name: name@ },
        ExportSpec::Named { orig, exported } => SpecModel::Named {
            orig: orig@,
            exported: match exported {
                Some(e) => Some(e@),
                None => None,
            },
        },
        ExportSpec::Default { name } => SpecModel::Default { name: name@ },
    }
}

pub open spec fn item_model(t: TopItem) -> ItemModel {
    match t {
        TopItem::NamedExport { src, specifiers, type_only } => ItemModel::NamedExport {
            src: match src {
                Some(s) => Some((s.value@, s.pos)),
                None => None,
            },
            specifiers: specifiers@.map_values(|x: ExportSpec| spec_model(x)),
            type_only,
        },
        TopItem::ExportAll { source } => ItemModel::ExportAll { source: (source.value@, source.pos) },
        TopItem::Other => ItemModel::Other,
    }
}

pub open spec fn ref_model(d: FoundDep) -> RefModel {
    RefModel { kind: d.kind, is_dynamic: d.is_dynamic, specifier: d.specifier@, pos: d.pos }
}

pub open spec fn record_model(r: Record) -> RecordModel {
    RecordModel {
        kind: r.kind,
        specifier: r.specifier@,
        pos: r.pos,
        exports: match r.exports {
            Some(v) => Some(texts(v)),
            None => None,
        },
    }
}

/// The alias text of a specifier, as `alias_of` gives it.
pub open spec fn alias_model(s: SpecModel) -> Seq<char> {
    match s {
        SpecModel::Namespace { name } => name + colon() + star(),
        SpecModel::Named { orig, exported } => match exported {
            Some(e) => if orig == default_word() {
                default_word() + colon() + e
            } else {
                e + colon() + orig
            },
            None => orig + colon() + orig,
        },
        SpecModel::Default { name } => default_word() + colon() + name,
    }
}

pub open spec fn reexport_model(t: ItemModel) -> bool {
    match t {
        ItemModel::NamedExport { src, .. } => src is Some,
        ItemModel::ExportAll { .. } => true,
        ItemModel::Other => false,
    }
}

/// The re-export-only record of a re-export.
pub open spec fn fast_record(t: ItemModel) -> RecordModel {
    match t {
        ItemModel::NamedExport { src, specifiers, type_only } => {
            let (name, pos) = src->0;
            RecordModel {
                kind: if type_only { 6 } else { 2 },
                specifier: name,
                pos,
                exports: Some(specifiers.map_values(|x: SpecModel| alias_model(x))),
            }
        },
        ItemModel::ExportAll { source } => {
            let (name, pos) = source;
            RecordModel { kind: 2, specifier: name, pos, exports: Some(seq![star() + colon() + star()]) }
        },
        ItemModel::Other => arbitrary(),
    }
}

/// The general record of a found reference.
pub open spec fn general_record(d: RefModel) -> RecordModel {
    RecordModel {
        kind: kind_code_of(d.kind, d.is_dynamic),
        specifier: d.specifier,
        pos: d.pos,
        exports: None,
    }
}

/// The records of a file: the re-export-only ones when every item is a
/// re-export, the general ones otherwise.
pub open spec fn records_of(items: Seq<ItemModel>, refs: Seq<RefModel>) -> Seq<RecordModel> {
    if forall|i: int| 0 <= i < items.len() ==> reexport_model(#[trigger] items[i]) {
        items.map_values(|t: ItemModel| fast_record(t))
    } else {
        refs.map_values(|d: RefModel| general_record(d))
    }
}

pub proof fn item_model_agrees(t: TopItem)
    ensures
        is_reexport(t) == reexport_model(item_model(t)),
{
}

pub proof fn reexport_record_model(r: Record, t: TopItem)
    requires
        is_reexport(t),
        is_reexport_record(r, t),
    ensures
        record_model(r) == fast_record(item_model(t)),
{
    match t {
        TopItem::NamedExport { src, specifiers, type_only } => {
            assert forall|i: int| 0 <= i < specifiers@.len() implies #[trigger] alias_of(specifiers@[i])
                == alias_model(spec_model(specifiers@[i])) by {
                match specifiers@[i] {
                    ExportSpec::Named { orig, exported } => {
                        match exported {
                            Some(e) => {},
                            None => {},
                        }
                    },
                    _ => {},
                }
            }
            assert(specifiers@.map_values(|s: ExportSpec| alias_of(s)) =~= specifiers@.map_values(
                |x: ExportSpec| spec_model(x),
            ).map_values(|x: SpecModel| alias_model(x)));
        },
        _ => {},
    }
}

pub proof fn found_record_model(r: Record, d: FoundDep)
    requires
        is_found_record(r, d),
    ensures
        record_model(r) == general_record(ref_model(d)),
{
}

/// The models of records that the re-export-only or the general path relates to its items and found
/// references are `records_of` their models.
pub proof fn classified_models(items: Seq<TopItem>, found: Seq<FoundDep>, r: Seq<Record>)
    requires
        reexport_only(items) ==> r.len() == items.len() && forall|i: int|
            0 <= i < items.len() ==> is_reexport_record(#[trigger] r[i], items[i]),
        !reexport_only(items) ==> r.len() == found.len() && forall|i: int|
            0 <= i < found.len() ==> is_found_record(#[trigger] r[i], found[i]),
    ensures
        r.map_values(|x: Record| record_model(x)) == records_of(
            items.map_values(|t: TopItem| item_model(t)),
            found.map_values(|d: FoundDep| ref_model(d)),
        ),
{
    let im = items.map_values(|t: TopItem| item_model(t));
    let fm = found.map_values(|d: FoundDep| ref_model(d));
    let rm = r.map_values(|x: Record| record_model(x));
    if reexport_only(items) {
        assert forall|i: int| 0 <= i < im.len() implies reexport_model(#[trigger] im[i]) by {
            item_model_agrees(items[i]);
        }
        assert forall|i: int| 0 <= i < rm.len() implies rm[i] == im.map_values(
            |t: ItemModel| fast_record(t),
        )[i] by {
            reexport_record_model(r[i], items[i]);
        }
        assert(rm =~= records_of(im, fm));
    } else {
        let k = choose|k: int| 0 <= k < items.len() && !is_reexport(#[trigger] items[k]);
        item_model_agrees(items[k]);
        assert(!reexport_model(im[k]));
        assert forall|i: int| 0 <= i < rm.len() implies rm[i] == fm.map_values(
            |d: RefModel| general_record(d),
        )[i] by {
            found_record_model(r[i], found[i]);
        }
        assert(rm =~= records_of(im, fm));
    }
}

/// One top-level item that is not a re-export, wherever it stands, sends the
/// whole file down the general path: its records are exactly the general
/// analysis's, and none carries aliases.
pub proof fn one_statement_forces_general(items: Seq<ItemModel>, refs: Seq<RefModel>, k: int)
    requires
        0 <= k < items.len(),
        !reexport_model(items[k]),
    ensures
        records_of(items, refs) == refs.map_values(|d: RefModel| general_record(d)),
        forall|i: int|
            0 <= i < records_of(items, refs).len() ==> (#[trigger] records_of(items, refs)[i]).exports
                is None,
{
    assert(!(forall|i: int| 0 <= i < items.len() ==> reexport_model(#[trigger] items[i])));
}

/// On a file made only of re-exports, the records are one per item, in
/// order, each with the item's own specifier text and position, an export or
/// export-type kind, and its aliases.
pub proof fn reexport_records_keep_sources(items: Seq<ItemModel>, refs: Seq<RefModel>)
    requires
        forall|i: int| 0 <= i < items.len() ==> reexport_model(#[trigger] items[i]),
    ensures
        records_of(items, refs).len() == items.len(),
        forall|i: int|
            0 <= i < items.len() ==> {
                let r = #[trigger] records_of(items, refs)[i];
                &&& r.exports is Some
                &&& r.kind == 2 || r.kind == 6
                &&& match items[i] {
                    ItemModel::NamedExport { src, .. } => src == Some((r.specifier, r.pos)),
                    ItemModel::ExportAll { source } => source == (r.specifier, r.pos),
                    ItemModel::Other => false,
                }
            },
{
}

} // verus!
