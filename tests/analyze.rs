use depgraph::deps::{
    alias_text, fast_path, general_records, kind_code, AnalyzeError, DepKind, Dependency,
    ExportSpec, Record,
};
use depgraph::parser::parse_text;
use depgraph::syntax::{analyze, dialect_for, found_deps, locate, records, top_items, Dialect};

fn deps_of(file_name: &str, source: &str) -> Vec<Dependency> {
    analyze(file_name, source.to_string()).expect("analysis succeeds")
}

fn aliases(d: &Dependency) -> Vec<String> {
    d.exports.clone().expect("aliases present")
}

#[test]
fn test_analyze_export_only() {
    let source = r#"
            export { a as b } from 'c';
            export * from 'd';
            export { default as x } from 'an';
            "#;
    let deps = deps_of("test.js", source);
    assert_eq!(deps[0].name, "c");
    assert_eq!(aliases(&deps[0])[0], "b:a");
}

#[test]
fn reexport_only_file_gives_aliases() {
    let source = "export { a as b } from 'c';\nexport * from 'd';\nexport { default as x } from 'an';";
    let deps = deps_of("test.js", source);
    assert_eq!(deps.len(), 3);
    assert_eq!(deps[0].name, "c");
    assert_eq!(aliases(&deps[0]), vec!["b:a".to_string()]);
    assert_eq!(deps[1].name, "d");
    assert_eq!(aliases(&deps[1]), vec!["*:*".to_string()]);
    assert_eq!(deps[2].name, "an");
    assert_eq!(aliases(&deps[2]), vec!["default:x".to_string()]);
    assert!(deps.iter().all(|d| d.kind == 2));
}

#[test]
fn plain_named_reexport_alias() {
    let deps = deps_of("a.js", "export { a } from 'm';");
    assert_eq!(aliases(&deps[0]), vec!["a:a".to_string()]);
}

#[test]
fn default_reexport_alias() {
    let deps = deps_of("a.js", "export { default as x } from 'm';");
    assert_eq!(aliases(&deps[0]), vec!["default:x".to_string()]);
}

#[test]
fn wildcard_reexport_alias() {
    let deps = deps_of("a.js", "export * from 'm';");
    assert_eq!(aliases(&deps[0]), vec!["*:*".to_string()]);
}

#[test]
fn namespace_reexport_alias() {
    let deps = deps_of("a.js", "export * as ns from 'm';");
    assert_eq!(aliases(&deps[0]), vec!["ns:*".to_string()]);
}

#[test]
fn several_specifiers_keep_their_order() {
    let deps = deps_of("a.js", "export { a, b as c, default } from 'm';");
    assert_eq!(
        aliases(&deps[0]),
        vec!["a:a".to_string(), "c:b".to_string(), "default:default".to_string()]
    );
}

#[test]
fn type_only_reexport_is_export_type() {
    let deps = deps_of("a.ts", "export type { T } from './t';");
    assert_eq!(deps[0].kind, 6);
    assert_eq!(aliases(&deps[0]), vec!["T:T".to_string()]);
}

#[test]
fn dynamic_import_is_kind_nine() {
    let deps = deps_of("a.js", "const m = import('./lazy');");
    assert_eq!(deps.len(), 1);
    assert_eq!(deps[0].kind, 9);
    assert_eq!(deps[0].name, "./lazy");
    assert_eq!(deps[0].exports, None);
}

#[test]
fn kind_codes() {
    assert_eq!(kind_code(&DepKind::Import, true), 9);
    assert_eq!(kind_code(&DepKind::Import, false), 1);
    assert_eq!(kind_code(&DepKind::Require, false), 0);
    assert_eq!(kind_code(&DepKind::Require, true), 8);
    assert_eq!(kind_code(&DepKind::ImportType, false), 5);
    assert_eq!(kind_code(&DepKind::ExportType, false), 6);
    assert_eq!(kind_code(&DepKind::ImportEquals, false), 1);
    assert_eq!(kind_code(&DepKind::ExportEquals, false), 2);
    assert_eq!(kind_code(&DepKind::Export, true), 10);
}

#[test]
fn one_statement_switches_whole_file_to_general() {
    let source = "export { a } from 'x';\nconst b = 1;\nexport * from 'y';";
    let deps = deps_of("a.js", source);
    assert_eq!(deps.len(), 2);
    assert!(deps.iter().all(|d| d.exports.is_none()));
    assert_eq!(deps[0].name, "x");
    assert_eq!(deps[1].name, "y");
    assert_eq!(deps[0].kind, 2);
}

#[test]
fn statement_at_the_end_also_switches() {
    let deps = deps_of("a.js", "export * from 'y';\nimport z from 'z';");
    assert_eq!(deps.len(), 2);
    assert!(deps.iter().all(|d| d.exports.is_none()));
    assert_eq!(deps[1].kind, 1);
}

#[test]
fn general_kinds() {
    let source = "import a from 'a';\nconst b = require('b');\nfunction f() { return require('c'); }\nexport { d } from 'd';";
    let deps = deps_of("a.js", source);
    let kinds: Vec<u32> = deps.iter().map(|d| d.kind).collect();
    let names: Vec<&str> = deps.iter().map(|d| d.name.as_str()).collect();
    assert_eq!(names, vec!["a", "b", "c", "d"]);
    assert_eq!(kinds, vec![1, 0, 8, 2]);
}

#[test]
fn import_type_in_typescript() {
    let deps = deps_of("a.ts", "import type { T } from './t';\nlet x: T;");
    assert_eq!(deps[0].kind, 5);
}

#[test]
fn location_points_at_specifier() {
    let deps = deps_of("a.js", "export * from 'd';\n  export * from 'e';");
    assert_eq!((deps[0].line, deps[0].column), (1, 14));
    assert_eq!((deps[1].line, deps[1].column), (2, 16));
}

#[test]
fn empty_file_has_no_dependencies() {
    assert_eq!(deps_of("a.js", ""), vec![]);
}

#[test]
fn syntax_error_is_reported() {
    match analyze("a.js", "import {".to_string()) {
        Err(AnalyzeError::Syntax(msg)) => assert!(!msg.is_empty()),
        other => panic!("unexpected {:?}", other),
    }
}

#[test]
fn typescript_syntax_fails_in_javascript_file() {
    assert!(analyze("a.js", "let x: number = 1;".to_string()).is_err());
    assert!(analyze("a.ts", "let x: number = 1;".to_string()).is_ok());
}

#[test]
fn jsx_in_tsx_and_js() {
    assert!(analyze("a.tsx", "const e = <div/>;".to_string()).is_ok());
    assert!(analyze("a.js", "const e = <div/>;".to_string()).is_ok());
}

#[test]
fn dialects_by_extension() {
    assert_eq!(dialect_for("a.js"), Dialect::Ecma);
    assert_eq!(dialect_for("a.ts"), Dialect::TypeScript { tsx: false, dts: false });
    assert_eq!(dialect_for("a.tsx"), Dialect::TypeScript { tsx: true, dts: false });
    assert_eq!(dialect_for("a.d.ts"), Dialect::TypeScript { tsx: false, dts: true });
    assert_eq!(dialect_for("a.mjs"), Dialect::Ecma);
}

#[test]
fn alias_texts() {
    let named = ExportSpec::Named { orig: "a".to_string(), exported: Some("b".to_string()) };
    assert_eq!(alias_text(&named), "b:a");
    let dflt = ExportSpec::Named { orig: "default".to_string(), exported: Some("x".to_string()) };
    assert_eq!(alias_text(&dflt), "default:x");
    let ns = ExportSpec::Namespace { name: "ns".to_string() };
    assert_eq!(alias_text(&ns), "ns:*");
    let from = ExportSpec::Default { name: "v".to_string() };
    assert_eq!(alias_text(&from), "default:v");
}

#[test]
fn reexport_path_agrees_with_general_traversal() {
    let source = "export { a as b } from 'c';\nexport * from 'd';\nexport { x } from 'e';";
    let parsed = parse_text(Dialect::Ecma, source.to_string()).expect("parses");
    let items = top_items(&parsed);
    let fast = fast_path(&items).expect("re-export only");
    let general = general_records(&found_deps(&parsed));
    let fast_keys: Vec<(String, u32)> = fast.iter().map(|r| (r.specifier.clone(), r.pos)).collect();
    let general_keys: Vec<(String, u32)> =
        general.iter().map(|r| (r.specifier.clone(), r.pos)).collect();
    assert_eq!(fast_keys, general_keys);
    assert!(fast.iter().all(|r| r.exports.is_some()));
    assert!(general.iter().all(|r| r.exports.is_none()));
    assert_eq!(records(&parsed), fast);
    let fast_deps = locate(&parsed, fast).expect("located");
    let general_deps = locate(&parsed, general).expect("located");
    let places = |d: &Vec<Dependency>| -> Vec<(String, u32, u32)> {
        d.iter().map(|x| (x.name.clone(), x.line, x.column)).collect()
    };
    assert_eq!(places(&fast_deps), places(&general_deps));
}

#[test]
fn unresolvable_position_is_an_error() {
    let parsed = parse_text(Dialect::Ecma, "export * from 'd';".to_string()).expect("parses");
    let rec = Record { kind: 1, specifier: "d".to_string(), pos: 0, exports: None };
    assert_eq!(locate(&parsed, vec![rec]), Err(AnalyzeError::UnresolvedPosition(0)));
    let far = Record { kind: 1, specifier: "d".to_string(), pos: 500, exports: None };
    assert_eq!(locate(&parsed, vec![far]), Err(AnalyzeError::UnresolvedPosition(500)));
}

#[test]
fn mixed_file_records_are_general() {
    let parsed = parse_text(Dialect::Ecma, "export * from 'd';\nconst x = 1;".to_string()).expect("parses");
    let recs = records(&parsed);
    assert_eq!(recs.len(), 1);
    assert_eq!(recs[0].exports, None);
    let deps = deps_of("a.js", "export * from 'd';\nconst x = 1;");
    assert_eq!(
        deps,
        vec![Dependency { kind: 2, name: "d".to_string(), line: 1, column: 14, exports: None }]
    );
}

#[test]
fn byte_order_mark_does_not_shift_locations() {
    let deps = deps_of("a.js", "\u{FEFF}export * from 'd';");
    assert_eq!((deps[0].line, deps[0].column), (1, 14));
}
