use noirdoc::{generate_doc, get_map, DocMap, Info, Tok, Units};

fn id(s: &str) -> Tok {
    Tok::Ident(s.to_string())
}

fn other(s: &str) -> Tok {
    Tok::Other(s.to_string())
}

fn docline(s: &str) -> Tok {
    Tok::DocLine(s.to_string())
}

/// The tokens of a unit holding one documented function:
/// `/// doc comment` above `fn main(x: Field, y: pub Field) { }`.
fn function_example() -> Vec<Tok> {
    vec![
        docline("doc comment"),
        Tok::KwFn,
        id("main"),
        other("("),
        id("x"),
        other(":"),
        id("Field"),
        Tok::Comma,
        id("y"),
        other(":"),
        Tok::KwPub,
        id("Field"),
        other(")"),
        Tok::LBrace,
        Tok::RBrace,
    ]
}

/// The tokens of a unit holding one documented struct with only private
/// fields: `/// struct` above `struct MyStruct { x: Field, }`.
fn struct_example() -> Vec<Tok> {
    vec![
        docline("struct"),
        Tok::KwStruct,
        id("MyStruct"),
        Tok::LBrace,
        id("x"),
        other(":"),
        id("Field"),
        Tok::Comma,
        Tok::RBrace,
    ]
}

/// The tokens of a small standalone module unit.
fn another_module() -> Vec<Tok> {
    vec![
        docline("adds two numbers"),
        Tok::KwFn,
        id("add"),
        other("("),
        id("x"),
        other(":"),
        id("Field"),
        Tok::Comma,
        id("y"),
        other(":"),
        id("Field"),
        other(")"),
        Tok::LBrace,
        id("x"),
        other("+"),
        id("y"),
        Tok::RBrace,
    ]
}

/// The tokens of a root unit that pulls in `another_module` as a
/// file-backed module beside a function of its own.
fn prog() -> Vec<Tok> {
    vec![
        Tok::KwMod,
        id("another_module"),
        Tok::Semi,
        Tok::KwFn,
        id("main"),
        other("("),
        other(")"),
        Tok::LBrace,
        Tok::RBrace,
    ]
}

#[test]
fn one_file() {
    let mut units = Units::new();
    units.insert("another_module".to_string(), another_module());
    assert!(generate_doc("input_files/another_module.nr", &units).is_ok());
}

#[test]
fn many_files() {
    let mut units = Units::new();
    units.insert("prog".to_string(), prog());
    units.insert("another_module".to_string(), another_module());
    assert!(generate_doc("input_files/prog.nr", &units).is_ok());
}

#[test]
fn function_output() {
    let mut map = DocMap::new();
    map.insert(
        Info::Function { signature: "fn main ( x : Field , y : pub Field ) ".to_string() },
        "doc comment".to_string(),
    );

    let result = map;

    let mut units = Units::new();
    units.insert("function_example".to_string(), function_example());
    assert_eq!(get_map("input_files/function_example.nr", &units).unwrap(), result);
}

#[test]
fn structure_output() {
    let mut map = DocMap::new();
    map.insert(
        Info::Struct {
            signature: "struct MyStruct {\n/* private fields */\n}".to_string(),
            additional_doc: "".to_string(),
            implementations: vec![],
        },
        "struct".to_string(),
    );

    let result = map;

    let mut units = Units::new();
    units.insert("struct_example".to_string(), struct_example());
    assert_eq!(get_map("input_files/struct_example.nr", &units).unwrap(), result);
}
