use es::module_scan::{
    is_arduino_hal_entry_attr, is_attr_path, is_entry_attr, module_dependencies, scan_dependencies, Delimiter, ModuleCollector,
    ModuleWalk, Token,
};

fn ident(s: &str) -> Token {
    Token::Ident(s.to_string())
}

fn colon2() -> Vec<Token> {
    vec![Token::Punct(':'), Token::Punct(':')]
}

fn path(parts: &[&str]) -> Vec<Token> {
    let mut out = vec![];
    for (i, part) in parts.iter().enumerate() {
        if i > 0 {
            out.extend(colon2());
        }
        out.push(ident(part));
    }
    out
}

fn sorted(mut v: Vec<String>) -> Vec<String> {
    v.sort();
    v
}

#[test]
fn plain_crate_path_names_its_root() {
    // use crate::f12a::Rgb8;
    let mut tokens = vec![ident("use")];
    tokens.extend(path(&["crate", "f12a", "Rgb8"]));
    tokens.push(Token::Punct(';'));
    assert_eq!(scan_dependencies(&tokens), vec!["f12a".to_string()]);
}

#[test]
fn braced_group_names_each_root_but_self() {
    // use crate::{key4b, self, sr04::Sr04Reading};
    let mut inner = vec![ident("key4b"), Token::Punct(','), ident("self"), Token::Punct(',')];
    inner.extend(path(&["sr04", "Sr04Reading"]));
    let mut tokens = vec![ident("use")];
    tokens.extend(path(&["crate"]));
    tokens.extend(colon2());
    tokens.push(Token::Group(Delimiter::Brace, inner));
    tokens.push(Token::Punct(';'));
    assert_eq!(sorted(scan_dependencies(&tokens)), vec!["key4b".to_string(), "sr04".to_string()]);
}

#[test]
fn paths_inside_bodies_are_found_once() {
    // fn run() { crate::ws2812::write(); crate::ws2812::latch(); crate::e2::go() }
    let mut body = path(&["crate", "ws2812", "write"]);
    body.push(Token::Group(Delimiter::Parenthesis, vec![]));
    body.push(Token::Punct(';'));
    body.extend(path(&["crate", "ws2812", "latch"]));
    body.push(Token::Group(Delimiter::Parenthesis, vec![]));
    body.push(Token::Punct(';'));
    body.extend(path(&["crate", "e2", "go"]));
    let tokens = vec![
        ident("fn"),
        ident("run"),
        Token::Group(Delimiter::Parenthesis, vec![]),
        Token::Group(Delimiter::Brace, body),
    ];
    assert_eq!(sorted(scan_dependencies(&tokens)), vec!["e2".to_string(), "ws2812".to_string()]);
}

#[test]
fn crate_without_double_colon_names_nothing() {
    let tokens = vec![ident("crate"), Token::Punct(':'), ident("f02a"), ident("crate"), Token::Punct(';')];
    assert!(scan_dependencies(&tokens).is_empty());
    let literal_only = vec![Token::Literal("\"crate::f02a\"".to_string())];
    assert!(scan_dependencies(&literal_only).is_empty());
}

#[test]
fn entry_attribute_paths() {
    let hal = vec!["arduino_hal".to_string(), "entry".to_string()];
    assert!(is_arduino_hal_entry_attr(&hal));
    assert!(!is_arduino_hal_entry_attr(&vec!["entry".to_string()]));
    assert!(!is_arduino_hal_entry_attr(&vec!["arduino_hal".to_string(), "main".to_string()]));
    assert!(is_entry_attr(&vec!["es_entry".to_string(), "module".to_string()]));
    assert!(is_entry_attr(&vec!["es_entry".to_string(), "entry_mod".to_string()]));
    assert!(!is_entry_attr(&vec!["es_entry".to_string(), "other".to_string()]));
    assert!(is_attr_path(&hal, &vec!["arduino_hal", "entry"]));
    assert!(!is_attr_path(&hal, &vec!["arduino_hal"]));
}

#[test]
fn module_collector_visits_each_module_once() {
    let mut collector = ModuleCollector::new();
    assert!(collector.visit(&"e1".to_string()));
    assert!(collector.visit(&"key4b".to_string()));
    assert!(!collector.visit(&"e1".to_string()));
    assert!(collector.visit(&"ws2812".to_string()));
    assert_eq!(sorted(collector.modules().clone()), vec!["e1".to_string(), "key4b".to_string(), "ws2812".to_string()]);
}

#[test]
fn module_source_text_to_dependencies() {
    let source = "use crate::f12a::Rgb8;\nfn run() { crate::key4b::tick(0); let s = \"crate::w2\"; }\nuse crate::{sr04, self};";
    let (tokens, deps) = module_dependencies(source).expect("source lexes");
    assert_eq!(deps, vec!["f12a".to_string(), "key4b".to_string(), "sr04".to_string()]);
    assert_eq!(scan_dependencies(&tokens), deps);
    let (_, none) = module_dependencies("fn main() {}").expect("source lexes");
    assert!(none.is_empty());
}

#[test]
fn unlexable_source_has_no_dependencies() {
    assert!(module_dependencies("fn f() { \"unterminated").is_none());
    assert!(module_dependencies("fn f() { crate::e1::run( }").is_none());
}

#[test]
fn dependencies_come_out_in_ascending_order() {
    // use crate::w2; use crate::e2; use crate::f12a; use crate::e2;
    let mut tokens = vec![];
    for name in ["w2", "e2", "f12a", "e2"] {
        tokens.push(ident("use"));
        tokens.extend(path(&["crate", name]));
        tokens.push(Token::Punct(';'));
    }
    assert_eq!(scan_dependencies(&tokens), vec!["e2".to_string(), "f12a".to_string(), "w2".to_string()]);
}

fn strings(names: &[&str]) -> Vec<String> {
    names.iter().map(|name| name.to_string()).collect()
}

#[test]
fn module_walk_reaches_every_resolvable_dependency_once() {
    let graph = |module: &str| -> Vec<String> {
        match module {
            "e1" => strings(&["f12a", "key4b", "missing"]),
            "f12a" => strings(&["e1", "sim"]),
            "key4b" => strings(&["f12a"]),
            _ => vec![],
        }
    };
    let mut walk = ModuleWalk::new(&"e1".to_string());
    let mut order = vec![];
    while let Some(module) = walk.next_module() {
        let deps = graph(&module);
        let resolvable: Vec<bool> = deps.iter().map(|d| d != "missing").collect();
        order.push(module);
        walk.absorb(&deps, &resolvable);
    }
    // Depth first, dependencies in ascending order, as recursion would.
    assert_eq!(order, strings(&["e1", "f12a", "sim", "key4b"]));
    assert_eq!(walk.modules(), &strings(&["e1", "f12a", "key4b", "sim"]));
}

#[test]
fn module_walk_of_a_leaf_is_just_the_entry() {
    let mut walk = ModuleWalk::new(&"w2".to_string());
    assert_eq!(walk.next_module(), Some("w2".to_string()));
    walk.absorb(&vec![], &vec![]);
    assert_eq!(walk.next_module(), None);
    assert_eq!(walk.modules(), &strings(&["w2"]));
}
