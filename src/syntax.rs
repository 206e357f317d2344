//! Dependency extraction from a source text: the dialect a file name
//! selects, the reading of the parsed module, and the placing of each record
//! at a line and a column.
use crate::deps::{
    classified_models, fast_path, general_records, item_model, records_of, ref_model,
    spec_model, AnalyzeError, Dependency, ExportSpec, FoundDep, ItemModel, Record, RecordModel,
    TopItem,
};
use crate::parser::{
    analyze_refs, found_refs, item_at, item_count, line_and_column, location, map_text, parse_text,
    parsed, ref_at, ref_count, resolvable, spec_at, ParsedModule, RawItem,
};
use vstd::prelude::*;
use vstd::string::*;

verus! {

/// The language a source file is parsed as.
#[derive(Debug, Clone, Copy, PartialEq, Eq)]
pub enum Dialect {
    /// ECMAScript with JSX.
    Ecma,
    /// TypeScript, with JSX for `.tsx` and in declaration mode for `.d.ts`.
    TypeScript { tsx: bool, dts: bool },
}

pub open spec fn ends_with(s: Seq<char>, suffix: Seq<char>) -> bool {
    suffix.len() <= s.len() && s.subrange(s.len() - suffix.len(), s.len() as int) == suffix
}

pub open spec fn dot_ts() -> Seq<char> {
    seq!['.', 't', 's']
}

pub open spec fn dot_tsx() -> Seq<char> {
    seq!['.', 't', 's', 'x']
}

pub open spec fn dot_d_ts() -> Seq<char> {
    seq!['.', 'd', '.', 't', 's']
}

/// The dialect chosen by a file name's extension.
pub open spec fn dialect_of(name: Seq<char>) -> Dialect {
    if ends_with(name, dot_ts()) || ends_with(name, dot_tsx()) {
        Dialect::TypeScript { tsx: ends_with(name, dot_tsx()), dts: ends_with(name, dot_d_ts()) }
    } else {
        Dialect::Ecma
    }
}

fn has_suffix(s: &str, suffix: &str) -> (r: bool)
    ensures
        r == ends_with(s@, suffix@),
{
    let n = s.unicode_len();
    let k = suffix.unicode_len();
    if k > n {
        return false;
    }
    let mut i: usize = 0;
    while i < k
        invariant
            n == s@.len(),
            k == suffix@.len(),
            k <= n,
            i <= k,
            forall|j: int| 0 <= j < i ==> s@[n - k + j] == suffix@[j],
        decreases k - i,
    {
        if s.get_char(n - k + i) != suffix.get_char(i) {
            assert(s@.subrange(n - k, n as int)[i as int] != suffix@[i as int]);
            return false;
        }
        i = i + 1;
    }
    assert(s@.subrange(n - k, n as int) =~= suffix@);
    true
}

/// The dialect for a file: TypeScript for `.ts` and `.tsx` (with JSX for
/// `.tsx`, declaration mode for `.d.ts`), ECMAScript with JSX otherwise.
pub fn dialect_for(file_name: &str) -> (r: Dialect)
    ensures
        r == dialect_of(file_name@),
{
    proof {
        reveal_strlit(".ts");
        reveal_strlit(".tsx");
        reveal_strlit(".d.ts");
        assert(".ts"@ =~= dot_ts());
        assert(".tsx"@ =~= dot_tsx());
        assert(".d.ts"@ =~= dot_d_ts());
    }
    let ts = has_suffix(file_name, ".ts");
    let tsx = has_suffix(file_name, ".tsx");
    if ts || tsx {
        Dialect::TypeScript { tsx, dts: has_suffix(file_name, ".d.ts") }
    } else {
        Dialect::Ecma
    }
}


/// What a dependency says, as text.
pub struct DepModel {
    pub kind: u32,
    pub name: Seq<char>,
    pub line: u32,
    pub column: u32,
    pub exports: Option<Seq<Seq<char>>>,
}

/// What an analysis error says.
pub enum ErrorModel {
    Syntax(Seq<char>),
    UnresolvedPosition(u32),
    LocationOverflow,
}

pub open spec fn dep_model(d: Dependency) -> DepModel {
    DepModel {
        kind: d.kind,
        name: d.name@,
        line: d.line,
        column: d.column,
        exports: match d.exports {
            Some(v) => Some(crate::deps::texts(v)),
            None => None,
        },
    }
}

pub open spec fn error_model(e: AnalyzeError) -> ErrorModel {
    match e {
        AnalyzeError::Syntax(m) => ErrorModel::Syntax(m@),
        AnalyzeError::UnresolvedPosition(p) => ErrorModel::UnresolvedPosition(p),
        AnalyzeError::LocationOverflow => ErrorModel::LocationOverflow,
    }
}

pub open spec fn result_model(r: Result<Vec<Dependency>, AnalyzeError>) -> Result<Seq<DepModel>, ErrorModel> {
    match r {
        Ok(v) => Ok(v@.map_values(|d: Dependency| dep_model(d))),
        Err(e) => Err(error_model(e)),
    }
}

/// Records placed in a text, in order: each at the line and column of its
/// position; the first record whose position does not resolve, or whose line
/// or column exceeds `u32`, fails the whole list.
pub open spec fn placed(text: Seq<char>, recs: Seq<RecordModel>) -> Result<Seq<DepModel>, ErrorModel>
    decreases recs.len(),
{
    if recs.len() == 0 {
        Ok(Seq::empty())
    } else {
        let r = recs[0];
        if !resolvable(text, r.pos) {
            Err(ErrorModel::UnresolvedPosition(r.pos))
        } else {
            let (line, column) = location(text, r.pos);
            if line > u32::MAX || column > u32::MAX {
                Err(ErrorModel::LocationOverflow)
            } else {
                match placed(text, recs.drop_first()) {
                    Ok(rest) => Ok(
                        seq![DepModel { kind: r.kind, name: r.specifier, line: line as u32, column: column as u32, exports: r.exports }]
                            + rest,
                    ),
                    Err(e) => Err(e),
                }
            }
        }
    }
}

/// The analysis of a source file: the parser's message when the text does
/// not parse as a module in the file name's dialect, else its records placed
/// in the text.
pub open spec fn analysis(file_name: Seq<char>, source: Seq<char>) -> Result<Seq<DepModel>, ErrorModel> {
    let d = dialect_of(file_name);
    match parsed(d, source) {
        Err(m) => Err(ErrorModel::Syntax(m)),
        Ok(items) => placed(source, records_of(items, found_refs(d, source))),
    }
}

fn top_item(p: &ParsedModule, i: usize) -> (r: TopItem)
    requires
        parsed(p.spec_dialect(), p.spec_text()) is Ok,
        i < p.items().len(),
    ensures
        item_model(r) == p.items()[i as int],
{
    match item_at(p, i) {
        RawItem::Named { src, count, type_only } => {
            let mut specs: Vec<ExportSpec> = Vec::new();
            let mut j: usize = 0;
            while j < count
                invariant
                    parsed(p.spec_dialect(), p.spec_text()) is Ok,
                    i < p.items().len(),
                    p.items()[i as int] is NamedExport,
                    count == p.items()[i as int]->NamedExport_specifiers.len(),
                    j <= count,
                    specs@.len() == j,
                    forall|k: int|
                        0 <= k < j ==> spec_model(#[trigger] specs@[k])
                            == p.items()[i as int]->NamedExport_specifiers[k],
                decreases count - j,
            {
                specs.push(spec_at(p, i, j));
                j = j + 1;
            }
            let r = TopItem::NamedExport { src, specifiers: specs, type_only };
            assert(specs@.map_values(|x: ExportSpec| spec_model(x)) =~= p.items()[i as int]->NamedExport_specifiers);
            r
        },
        RawItem::All { source } => TopItem::ExportAll { source },
        RawItem::Other => TopItem::Other,
    }
}

/// The parsed module's top-level items, in source order.
pub fn top_items(p: &ParsedModule) -> (r: Vec<TopItem>)
    requires
        parsed(p.spec_dialect(), p.spec_text()) is Ok,
    ensures
        r@.map_values(|t: TopItem| item_model(t)) == p.items(),
{
    let n = item_count(p);
    let mut out: Vec<TopItem> = Vec::new();
    let mut i: usize = 0;
    while i < n
        invariant
            parsed(p.spec_dialect(), p.spec_text()) is Ok,
            n == p.items().len(),
            i <= n,
            out@.len() == i,
            forall|k: int| 0 <= k < i ==> item_model(#[trigger] out@[k]) == p.items()[k],
        decreases n - i,
    {
        out.push(top_item(p, i));
        i = i + 1;
    }
    assert(out@.map_values(|t: TopItem| item_model(t)) =~= p.items());
    out
}

/// Every module reference that the general analysis finds, in source order.
pub fn found_deps(p: &ParsedModule) -> (r: Vec<FoundDep>)
    ensures
        r@.map_values(|d: FoundDep| ref_model(d)) == found_refs(p.spec_dialect(), p.spec_text()),
{
    let refs = analyze_refs(p);
    let n = ref_count(&refs);
    let mut out: Vec<FoundDep> = Vec::new();
    let mut k: usize = 0;
    while k < n
        invariant
            refs.spec_dialect() == p.spec_dialect(),
            refs.spec_text() == p.spec_text(),
            n == found_refs(p.spec_dialect(), p.spec_text()).len(),
            k <= n,
            out@.len() == k,
            forall|j: int|
                0 <= j < k ==> ref_model(#[trigger] out@[j]) == found_refs(p.spec_dialect(), p.spec_text())[j],
        decreases n - k,
    {
        out.push(ref_at(&refs, k));
        k = k + 1;
    }
    assert(out@.map_values(|d: FoundDep| ref_model(d)) =~= found_refs(p.spec_dialect(), p.spec_text()));
    out
}

/// The parsed module's records: the re-export-only ones when every
/// top-level item is a re-export, the general analysis's otherwise.
pub fn records(p: &ParsedModule) -> (r: Vec<Record>)
    requires
        parsed(p.spec_dialect(), p.spec_text()) is Ok,
    ensures
        r@.map_values(|x: Record| crate::deps::record_model(x)) == records_of(
            p.items(),
            found_refs(p.spec_dialect(), p.spec_text()),
        ),
{
    let items = top_items(p);
    match fast_path(&items) {
        Some(recs) => {
            proof {
                classified_models(items@, Seq::empty(), recs@);
            }
            assert(Seq::<FoundDep>::empty().map_values(|d: FoundDep| ref_model(d)) =~= Seq::empty());
            proof {
                let im = items@.map_values(|t: TopItem| item_model(t));
                assert(forall|i: int| 0 <= i < im.len() ==> crate::deps::reexport_model(#[trigger] im[i]));
            }
            recs
        },
        None => {
            let found = found_deps(p);
            let recs = general_records(&found);
            proof {
                classified_models(items@, found@, recs@);
            }
            recs
        },
    }
}

/// Places each record at the line and column of its position in the parsed
/// text; fails on the first position that does not resolve, or whose line or
/// column exceeds `u32`.
pub fn locate(p: &ParsedModule, records: Vec<Record>) -> (r: Result<Vec<Dependency>, AnalyzeError>)
    ensures
        result_model(r) == placed(
            p.spec_text(),
            records@.map_values(|x: Record| crate::deps::record_model(x)),
        ),
{
    let ghost all = records@.map_values(|x: Record| crate::deps::record_model(x));
    let ghost t = p.spec_text();
    let text = p.text();
    let bare = if text.unicode_len() > 0 && text.get_char(0) == '\u{FEFF}' {
        text.substring_char(1, text.unicode_len())
    } else {
        text
    };
    assert(bare@ == map_text(t));
    let mut out: Vec<Dependency> = Vec::new();
    let mut rest = records;
    proof {
        assert(all.subrange(0, all.len() as int) =~= all);
        assert(out@.map_values(|d: Dependency| dep_model(d)) =~= Seq::<DepModel>::empty());
        match placed(t, all) {
            Ok(tail) => {
                assert(Seq::<DepModel>::empty() + tail =~= tail);
            },
            Err(e) => {},
        }
    }
    while rest.len() > 0
        invariant
            bare@ == map_text(t),
            t == p.spec_text(),
            all == records@.map_values(|x: Record| crate::deps::record_model(x)),
            out@.len() + rest@.len() == all.len(),
            rest@.map_values(|x: Record| crate::deps::record_model(x)) == all.subrange(out@.len() as int, all.len() as int),
            placed(t, all) == match placed(t, all.subrange(out@.len() as int, all.len() as int)) {
                Ok(tail) => Ok(out@.map_values(|d: Dependency| dep_model(d)) + tail),
                Err(e) => Err(e),
            },
        decreases rest@.len(),
    {
        let ghost before = all.subrange(out@.len() as int, all.len() as int);
        let rec = rest.remove(0);
        assert(before[0] == crate::deps::record_model(rec));
        assert(before.drop_first() =~= all.subrange(out@.len() as int + 1, all.len() as int));
        let ok_pos = rec.pos >= 1 && bare.is_char_boundary((rec.pos - 1) as usize);
        assert(before.len() > 0);
        if !ok_pos {
            assert(!resolvable(t, before[0].pos));
            assert(placed(t, before) == Err::<Seq<DepModel>, ErrorModel>(ErrorModel::UnresolvedPosition(rec.pos)));
            return Err(AnalyzeError::UnresolvedPosition(rec.pos));
        }
        let lc = line_and_column(p, rec.pos);
        if lc.line > u32::MAX as usize || lc.column > u32::MAX as usize {
            assert(placed(t, before) == Err::<Seq<DepModel>, ErrorModel>(ErrorModel::LocationOverflow));
            return Err(AnalyzeError::LocationOverflow);
        }
        let dep = Dependency {
            kind: rec.kind,
            name: rec.specifier,
            line: lc.line as u32,
            column: lc.column as u32,
            exports: rec.exports,
        };
        let ghost old_out = out@;
        out.push(dep);
        assert(out@.map_values(|d: Dependency| dep_model(d)) =~= old_out.map_values(|d: Dependency| dep_model(d)) + seq![dep_model(dep)]);
        assert(rest@.map_values(|x: Record| crate::deps::record_model(x)) =~= all.subrange(out@.len() as int, all.len() as int));
        proof {
            match placed(t, all.subrange(out@.len() as int, all.len() as int)) {
                Ok(tail) => {
                    assert(old_out.map_values(|d: Dependency| dep_model(d)) + (seq![dep_model(dep)] + tail) =~= out@.map_values(|d: Dependency| dep_model(d)) + tail);
                },
                Err(e) => {},
            }
        }
    }
    assert(all.subrange(out@.len() as int, all.len() as int) =~= Seq::<RecordModel>::empty());
    assert(out@.map_values(|d: Dependency| dep_model(d)) + Seq::<DepModel>::empty() =~= out@.map_values(|d: Dependency| dep_model(d)));
    Ok(out)
}

/// The dependencies of one source file, in source order, or why there are
/// none: exactly `analysis` of the file name and the source.
pub fn analyze(file_name: &str, source: String) -> (r: Result<Vec<Dependency>, AnalyzeError>)
    ensures
        result_model(r) == analysis(file_name@, source@),
{
    let dialect = dialect_for(file_name);
    let ghost text = source@;
    let parsed_module = match parse_text(dialect, source) {
        Ok(p) => p,
        Err(m) => return Err(AnalyzeError::Syntax(m)),
    };
    let recs = records(&parsed_module);
    locate(&parsed_module, recs)
}

/// Placing records keeps each record's kind, specifier and aliases, in
/// order, and puts it at the location of its position.
pub proof fn placed_keeps_records(text: Seq<char>, recs: Seq<RecordModel>)
    requires
        placed(text, recs) is Ok,
    ensures
        placed(text, recs)->Ok_0.len() == recs.len(),
        forall|i: int|
            0 <= i < recs.len() ==> {
                let d = #[trigger] placed(text, recs)->Ok_0[i];
                &&& d.kind == recs[i].kind
                &&& d.name == recs[i].specifier
                &&& d.exports == recs[i].exports
                &&& (d.line as nat, d.column as nat) == location(text, recs[i].pos)
            },
    decreases recs.len(),
{
    if recs.len() > 0 {
        placed_keeps_records(text, recs.drop_first());
        let d = placed(text, recs)->Ok_0;
        assert forall|i: int| 0 < i < recs.len() implies #[trigger] d[i] == placed(
            text,
            recs.drop_first(),
        )->Ok_0[i - 1] && recs[i] == recs.drop_first()[i - 1] by {}
    }
}

/// A file with one top-level item that is not a re-export, wherever it
/// stands, is analysed by the general path alone: its dependencies are the
/// general analysis's references, in order, with their kinds, and none
/// carries aliases.
pub proof fn one_statement_forces_general_analysis(file_name: Seq<char>, source: Seq<char>, k: int)
    requires
        parsed(dialect_of(file_name), source) is Ok,
        0 <= k < parsed(dialect_of(file_name), source)->Ok_0.len(),
        !crate::deps::reexport_model(parsed(dialect_of(file_name), source)->Ok_0[k]),
        analysis(file_name, source) is Ok,
    ensures
        ({
            let refs = found_refs(dialect_of(file_name), source);
            let deps = analysis(file_name, source)->Ok_0;
            &&& deps.len() == refs.len()
            &&& forall|i: int|
                0 <= i < deps.len() ==> {
                    &&& (#[trigger] deps[i]).exports is None
                    &&& deps[i].name == refs[i].specifier
                    &&& deps[i].kind == crate::deps::kind_code_of(refs[i].kind, refs[i].is_dynamic)
                    &&& (deps[i].line as nat, deps[i].column as nat) == location(source, refs[i].pos)
                }
        }),
{
    let items = parsed(dialect_of(file_name), source)->Ok_0;
    let refs = found_refs(dialect_of(file_name), source);
    crate::deps::one_statement_forces_general(items, refs, k);
    placed_keeps_records(source, records_of(items, refs));
}

/// A file made only of re-exports gives one dependency per item, in order,
/// each named by the item's specifier, at the location of the specifier, of
/// kind export or export-type, with its aliases.
pub proof fn reexport_file_analysis(file_name: Seq<char>, source: Seq<char>)
    requires
        parsed(dialect_of(file_name), source) is Ok,
        forall|i: int|
            0 <= i < parsed(dialect_of(file_name), source)->Ok_0.len()
                ==> crate::deps::reexport_model(#[trigger] parsed(dialect_of(file_name), source)->Ok_0[i]),
        analysis(file_name, source) is Ok,
    ensures
        ({
            let items = parsed(dialect_of(file_name), source)->Ok_0;
            let deps = analysis(file_name, source)->Ok_0;
            &&& deps.len() == items.len()
            &&& forall|i: int|
                0 <= i < deps.len() ==> {
                    &&& (#[trigger] deps[i]).exports is Some
                    &&& deps[i].kind == 2 || deps[i].kind == 6
                    &&& match items[i] {
                        ItemModel::NamedExport { src: Some((name, pos)), .. } => name == deps[i].name
                            && (deps[i].line as nat, deps[i].column as nat) == location(source, pos),
                        ItemModel::ExportAll { source: (name, pos) } => name == deps[i].name
                            && (deps[i].line as nat, deps[i].column as nat) == location(source, pos),
                        _ => false,
                    }
                }
        }),
{
    let items = parsed(dialect_of(file_name), source)->Ok_0;
    let refs = found_refs(dialect_of(file_name), source);
    crate::deps::reexport_records_keep_sources(items, refs);
    placed_keeps_records(source, records_of(items, refs));
}

} // verus!
