use noirdoc::{
    extract_filename, generate_doc, get_map, DocError, DocMap, Function, Implementation, Info,
    Tok, Type, Units,
};

fn ident(s: &str) -> Tok {
    Tok::Ident(s.to_string())
}

fn punct(s: &str) -> Tok {
    Tok::Other(s.to_string())
}

fn line_doc(s: &str) -> Tok {
    Tok::DocLine(s.to_string())
}

fn outer(s: &str) -> Tok {
    Tok::DocOuter(s.to_string())
}

fn single_unit(name: &str, toks: Vec<Tok>) -> Units {
    let mut units = Units::new();
    units.insert(name.to_string(), toks);
    units
}

#[test]
fn empty_unit_gives_empty_tree() {
    let units = single_unit("empty", vec![]);
    let tree = generate_doc("input_files/empty.nr", &units).unwrap();
    assert!(tree.all_output.is_empty());
    assert_eq!(tree.filename, "empty");
}

#[test]
fn unit_without_declarations_gives_empty_tree() {
    let units = single_unit(
        "quiet",
        vec![ident("x"), punct("+"), ident("y"), Tok::Semi, Tok::LBrace, Tok::RBrace],
    );
    let tree = generate_doc("input_files/quiet.nr", &units).unwrap();
    assert!(tree.all_output.is_empty());
}

#[test]
fn non_matching_extension_is_dropped() {
    // struct Foo { } impl Foo { } impl Bar { }
    let toks = vec![
        Tok::KwStruct,
        ident("Foo"),
        Tok::LBrace,
        Tok::RBrace,
        Tok::KwImpl,
        ident("Foo"),
        Tok::LBrace,
        Tok::RBrace,
        Tok::KwImpl,
        ident("Bar"),
        Tok::LBrace,
        Tok::RBrace,
    ];
    let units = single_unit("exts", toks);

    let mut expected = DocMap::new();
    expected.insert(
        Info::Struct {
            signature: "struct Foo {\n/* private fields */\n}".to_string(),
            additional_doc: "".to_string(),
            implementations: vec![Implementation {
                signature: "impl Foo ".to_string(),
                functions: vec![],
            }],
        },
        "".to_string(),
    );

    assert_eq!(get_map("input_files/exts.nr", &units).unwrap(), expected);
}

#[test]
fn extension_methods_are_harvested() {
    // struct P { } impl P { /// doubles
    //                       fn double(self) { } }
    let toks = vec![
        Tok::KwStruct,
        ident("P"),
        Tok::LBrace,
        Tok::RBrace,
        Tok::KwImpl,
        ident("P"),
        Tok::LBrace,
        line_doc("doubles"),
        Tok::KwFn,
        ident("double"),
        punct("("),
        ident("self"),
        punct(")"),
        Tok::LBrace,
        Tok::RBrace,
        Tok::RBrace,
    ];
    let units = single_unit("methods", toks);

    let mut expected = DocMap::new();
    expected.insert(
        Info::Struct {
            signature: "struct P {\n/* private fields */\n}".to_string(),
            additional_doc: "".to_string(),
            implementations: vec![Implementation {
                signature: "impl P ".to_string(),
                functions: vec![Function {
                    name: "double".to_string(),
                    doc: "doubles".to_string(),
                    signature: "fn double ( self ) ".to_string(),
                    is_method: true,
                }],
            }],
        },
        "".to_string(),
    );

    assert_eq!(get_map("input_files/methods.nr", &units).unwrap(), expected);
}

#[test]
fn required_and_provided_methods_are_split() {
    // trait T { fn req(); fn prov() { } }
    let toks = vec![
        Tok::KwTrait,
        ident("T"),
        Tok::LBrace,
        Tok::KwFn,
        ident("req"),
        punct("("),
        punct(")"),
        Tok::Semi,
        Tok::KwFn,
        ident("prov"),
        punct("("),
        punct(")"),
        Tok::LBrace,
        Tok::RBrace,
        Tok::RBrace,
    ];
    let units = single_unit("traits", toks);

    let mut expected = DocMap::new();
    expected.insert(
        Info::Trait {
            signature: "T {\nfn req ( ) ;\nfn prov ( ) { ... }\n}".to_string(),
            additional_doc: "".to_string(),
            required_methods: vec![Function {
                name: "req".to_string(),
                doc: "".to_string(),
                signature: "fn req ( ) ".to_string(),
                is_method: true,
            }],
            provided_methods: vec![Function {
                name: "prov".to_string(),
                doc: "".to_string(),
                signature: "fn prov ( ) ".to_string(),
                is_method: true,
            }],
            implementations: vec![],
        },
        "".to_string(),
    );

    assert_eq!(get_map("input_files/traits.nr", &units).unwrap(), expected);
}

#[test]
fn struct_with_public_field_lists_it() {
    // struct S { pub x: Field, y: Field }
    let toks = vec![
        Tok::KwStruct,
        ident("S"),
        Tok::LBrace,
        Tok::KwPub,
        ident("x"),
        punct(":"),
        ident("Field"),
        Tok::Comma,
        ident("y"),
        punct(":"),
        ident("Field"),
        Tok::RBrace,
    ];
    let units = single_unit("vis", toks);

    let tree = generate_doc("input_files/vis.nr", &units).unwrap();
    assert_eq!(tree.all_output.len(), 1);
    let sig = tree.all_output[0].information.get_signature().unwrap();
    assert_eq!(sig, "struct S {\npub x : Field ,\n\n}");
}

#[test]
fn inline_module_children_keep_order() {
    // mod inner { fn a() { } fn b(); }
    let toks = vec![
        Tok::KwMod,
        ident("inner"),
        Tok::LBrace,
        Tok::KwFn,
        ident("a"),
        punct("("),
        punct(")"),
        Tok::LBrace,
        Tok::RBrace,
        Tok::KwFn,
        ident("b"),
        punct("("),
        punct(")"),
        Tok::Semi,
        Tok::RBrace,
    ];
    let units = single_unit("root", toks);

    let tree = generate_doc("input_files/root.nr", &units).unwrap();
    assert_eq!(tree.all_output.len(), 1);
    assert_eq!(tree.all_output[0].kind, Type::Module);
    assert_eq!(tree.all_output[0].name, "inner");
    let children = tree.all_output[0].information.get_content().unwrap();
    assert_eq!(children.len(), 2);
    assert_eq!(children[0].name, "a");
    assert_eq!(children[1].name, "b");
}

#[test]
fn file_module_children_keep_order() {
    let root = vec![Tok::KwMod, ident("sub"), Tok::Semi];
    let sub = vec![
        Tok::KwStruct,
        ident("First"),
        Tok::LBrace,
        Tok::RBrace,
        Tok::KwFn,
        ident("second"),
        punct("("),
        punct(")"),
        Tok::LBrace,
        Tok::RBrace,
    ];
    let mut units = Units::new();
    units.insert("root".to_string(), root);
    units.insert("sub".to_string(), sub);

    let tree = generate_doc("input_files/root.nr", &units).unwrap();
    assert_eq!(tree.all_output.len(), 1);
    assert_eq!(tree.all_output[0].kind, Type::Module);
    let children = tree.all_output[0].information.get_content().unwrap();
    assert_eq!(children.len(), 2);
    assert_eq!(children[0].name, "First");
    assert_eq!(children[0].kind, Type::Struct);
    assert_eq!(children[1].name, "second");
    assert_eq!(children[1].kind, Type::Function);
}

#[test]
fn extraction_is_deterministic() {
    let toks = vec![
        outer("summary"),
        Tok::KwFn,
        ident("f"),
        punct("("),
        punct(")"),
        Tok::LBrace,
        Tok::RBrace,
    ];
    let units = single_unit("twice", toks);

    let first_run = get_map("input_files/twice.nr", &units).unwrap();
    let second_run = get_map("input_files/twice.nr", &units).unwrap();
    assert_eq!(first_run, second_run);
}

#[test]
fn outer_comment_run_is_summary_once() {
    let toks = vec![
        outer("hello "),
        outer("world"),
        Tok::KwFn,
        ident("f"),
        punct("("),
        punct(")"),
        Tok::LBrace,
        Tok::RBrace,
    ];
    let units = single_unit("summary", toks);

    let tree = generate_doc("input_files/summary.nr", &units).unwrap();
    assert_eq!(tree.all_output.len(), 3);
    assert_eq!(tree.all_output[0].kind, Type::OuterComment);
    assert_eq!(tree.all_output[0].doc, "hello world");
    assert_eq!(tree.all_output[1].kind, Type::OuterComment);
    assert_eq!(tree.all_output[1].doc, "");
    assert_eq!(tree.all_output[2].kind, Type::Function);
}

#[test]
fn doc_found_across_non_declaration_tokens() {
    let toks = vec![
        line_doc("distant"),
        punct("#"),
        Tok::KwFn,
        ident("f"),
        punct("("),
        punct(")"),
        Tok::LBrace,
        Tok::RBrace,
    ];
    let units = single_unit("gap", toks);

    let tree = generate_doc("input_files/gap.nr", &units).unwrap();
    assert_eq!(tree.all_output.len(), 1);
    assert_eq!(tree.all_output[0].doc, "distant");
}

#[test]
fn doc_blocked_by_declaration_boundary() {
    // the doc of `g` belongs to `f`; nothing is carried over the `fn` keyword
    let toks = vec![
        line_doc("for f"),
        Tok::KwFn,
        ident("f"),
        punct("("),
        punct(")"),
        Tok::LBrace,
        Tok::RBrace,
        Tok::KwFn,
        ident("g"),
        punct("("),
        punct(")"),
        Tok::LBrace,
        Tok::RBrace,
    ];
    let units = single_unit("bound", toks);

    let tree = generate_doc("input_files/bound.nr", &units).unwrap();
    assert_eq!(tree.all_output.len(), 2);
    assert_eq!(tree.all_output[0].doc, "for f");
    assert_eq!(tree.all_output[1].doc, "");
}

#[test]
fn missing_module_unit_is_unreadable() {
    let toks = vec![Tok::KwMod, ident("ghost"), Tok::Semi];
    let units = single_unit("root", toks);

    let err = generate_doc("input_files/root.nr", &units).unwrap_err();
    assert_eq!(err, DocError::SourceUnreadable("ghost".to_string()));
}

#[test]
fn missing_root_unit_is_unreadable() {
    let units = Units::new();
    let err = get_map("input_files/nowhere.nr", &units).unwrap_err();
    assert_eq!(err, DocError::SourceUnreadable("nowhere".to_string()));
}

#[test]
fn unclosed_extension_is_malformed() {
    let toks = vec![Tok::KwImpl, ident("Foo"), Tok::LBrace];
    let units = single_unit("bad", toks);

    let err = generate_doc("input_files/bad.nr", &units).unwrap_err();
    assert_eq!(err, DocError::MalformedInput);
}

#[test]
fn module_cycle_exceeds_depth() {
    let toks = vec![Tok::KwMod, ident("loopy"), Tok::Semi];
    let units = single_unit("loopy", toks);

    let err = generate_doc("input_files/loopy.nr", &units).unwrap_err();
    assert_eq!(err, DocError::DepthExceeded);
}

#[test]
fn keyword_without_name_is_ignored() {
    let toks = vec![
        Tok::KwFn,
        punct("("),
        Tok::KwFn,
        ident("ok"),
        punct("("),
        punct(")"),
        Tok::LBrace,
        Tok::RBrace,
    ];
    let units = single_unit("lenient", toks);

    let tree = generate_doc("input_files/lenient.nr", &units).unwrap();
    assert_eq!(tree.all_output.len(), 1);
    assert_eq!(tree.all_output[0].name, "ok");
}

#[test]
fn describe_lines() {
    let toks = vec![
        line_doc("the f function"),
        Tok::KwFn,
        ident("f"),
        punct("("),
        punct(")"),
        Tok::LBrace,
        Tok::RBrace,
    ];
    let units = single_unit("one", toks);
    let tree = generate_doc("input_files/one.nr", &units).unwrap();
    assert_eq!(
        tree.all_output[0].describe(),
        "Type: Function\nName: f\nDoc: the f function\n"
    );
}

#[test]
fn filename_stems() {
    assert_eq!(extract_filename("input_files/prog.nr"), Some("prog"));
    assert_eq!(extract_filename("prog.nr"), Some("prog"));
    assert_eq!(extract_filename("a/b/c.tar.gz"), Some("c.tar"));
    assert_eq!(extract_filename(".hidden"), Some(".hidden"));
    assert_eq!(extract_filename("dir/.."), None);
    assert_eq!(extract_filename(""), None);
}

#[test]
fn map_collapses_equal_payloads() {
    // two undocumented functions with identical signatures collapse to one
    // entry; the later declaration's doc text wins
    let toks = vec![
        Tok::KwFn,
        ident("same"),
        punct("("),
        punct(")"),
        Tok::Semi,
        line_doc("kept"),
        Tok::KwFn,
        ident("same"),
        punct("("),
        punct(")"),
        Tok::Semi,
    ];
    let units = single_unit("dup", toks);

    let map = get_map("input_files/dup.nr", &units).unwrap();
    assert_eq!(map.len(), 1);
    let mut expected = DocMap::new();
    expected.insert(
        Info::Function { signature: "fn same ( ) ".to_string() },
        "kept".to_string(),
    );
    assert_eq!(map, expected);
}

#[test]
fn struct_remarks_from_outer_comments() {
    // //! remark
    // /// doc
    // struct R { }
    let toks = vec![
        outer("remark"),
        line_doc("doc"),
        Tok::KwStruct,
        ident("R"),
        Tok::LBrace,
        Tok::RBrace,
    ];
    let units = single_unit("rem", toks);

    let tree = generate_doc("input_files/rem.nr", &units).unwrap();
    // the outer comment itself is also emitted, as the unit's summary
    assert_eq!(tree.all_output.len(), 2);
    assert_eq!(tree.all_output[0].kind, Type::OuterComment);
    assert_eq!(tree.all_output[0].doc, "remark");
    assert_eq!(tree.all_output[1].kind, Type::Struct);
    assert_eq!(tree.all_output[1].doc, "doc");
    assert_eq!(
        tree.all_output[1].information.get_additional_doc().unwrap(),
        "remark"
    );
}

#[test]
fn single_outer_runs_alternate_summary_state() {
    let toks = vec![outer("a"), ident("x"), outer("b"), ident("y"), outer("c")];
    let units = single_unit("alt", toks);

    let tree = generate_doc("input_files/alt.nr", &units).unwrap();
    assert_eq!(tree.all_output.len(), 3);
    assert_eq!(tree.all_output[0].doc, "a");
    assert_eq!(tree.all_output[1].doc, "");
    assert_eq!(tree.all_output[2].doc, "c");
}

#[test]
fn block_and_line_docs_join() {
    let toks = vec![
        Tok::DocBlock("first ".to_string()),
        line_doc("second"),
        Tok::KwFn,
        ident("f"),
        punct("("),
        punct(")"),
        Tok::Semi,
    ];
    let units = single_unit("mix", toks);

    let tree = generate_doc("input_files/mix.nr", &units).unwrap();
    assert_eq!(tree.all_output.len(), 1);
    assert_eq!(tree.all_output[0].doc, "first second");
}

#[test]
fn struct_public_field_before_closing_brace() {
    // struct S { pub x: Field }
    let toks = vec![
        Tok::KwStruct,
        ident("S"),
        Tok::LBrace,
        Tok::KwPub,
        ident("x"),
        punct(":"),
        ident("Field"),
        Tok::RBrace,
    ];
    let units = single_unit("onefield", toks);

    let tree = generate_doc("input_files/onefield.nr", &units).unwrap();
    let sig = tree.all_output[0].information.get_signature().unwrap();
    assert_eq!(sig, "struct S {\npub x : Field \n}");
}

#[test]
fn trailing_comma_keeps_single_line() {
    // struct S { pub x: Field, }
    let toks = vec![
        Tok::KwStruct,
        ident("S"),
        Tok::LBrace,
        Tok::KwPub,
        ident("x"),
        punct(":"),
        ident("Field"),
        Tok::Comma,
        Tok::RBrace,
    ];
    let units = single_unit("trail", toks);

    let tree = generate_doc("input_files/trail.nr", &units).unwrap();
    let sig = tree.all_output[0].information.get_signature().unwrap();
    assert_eq!(sig, "struct S {\npub x : Field ,\n}");
}
