use typedef_init::emitter::{annotation_from_matches, print_init_expr};
use typedef_init::lookup::{find_by_alias, is_primivite_type};
use typedef_init::loop_nest::{array_post_proc, synthesize_loops};
use typedef_init::parser::{
    declaration_from_match, extract_typedef, fragments_from_matches, lexicalize_typedef, typedef_from_match,
    FragmentShape, MemberShape,
};
use typedef_init::pipeline::generate_init_code;
use typedef_init::resolver::{parse, Node};
use typedef_init::types::{Declaration, RawTypedef, Typedef, TypedefError};

fn normal(alias: &str, data_type: &str) -> Typedef {
    Typedef::Normal { alias: alias.to_string(), data_type: data_type.to_string() }
}

fn array(alias: &str, data_type: &str, size: usize) -> Typedef {
    Typedef::Array { alias: alias.to_string(), data_type: data_type.to_string(), size }
}

fn member(name: &str, data_type: &str) -> Declaration {
    Declaration::Normal { name: name.to_string(), data_type: data_type.to_string() }
}

fn strukt(alias: &str, data_type: &str, elements: Vec<Declaration>) -> Typedef {
    Typedef::Struct { alias: alias.to_string(), data_type: data_type.to_string(), elements }
}

fn scenario_db() -> Vec<Typedef> {
    vec![
        normal("myint32", "int32"),
        array("myArr", "myint32", 3),
        strukt("myStruct", "MyStruct", vec![member("a", "myArr")]),
    ]
}

fn leaves(n: &Node) -> usize {
    if n.below_nodes.is_empty() {
        1
    } else {
        n.below_nodes.iter().map(leaves).sum()
    }
}

#[test]
fn primitive_names_are_recognised() {
    for name in ["boolean", "uint8", "uint16", "uint32", "int8", "int16", "int32", "sint8", "sint16", "sint32"] {
        assert!(is_primivite_type(name));
    }
    assert!(!is_primivite_type("int64"));
    assert!(!is_primivite_type("Int32"));
    assert!(!is_primivite_type(""));
    assert!(!is_primivite_type("int32 "));
}

#[test]
fn lookup_needs_exactly_one_entry() {
    let db = vec![normal("a", "int32"), normal("b", "int8"), normal("b", "int16")];
    assert_eq!(find_by_alias(&db, "a").unwrap(), &normal("a", "int32"));
    assert_eq!(
        find_by_alias(&db, "zzz").unwrap_err(),
        TypedefError::AliasNotFound { alias: "zzz".to_string() }
    );
    assert_eq!(
        find_by_alias(&db, "b").unwrap_err(),
        TypedefError::AmbiguousAlias { alias: "b".to_string() }
    );
}

#[test]
fn scenario_array_member_in_struct() {
    let db = scenario_db();
    let tree = parse(&db, "myStruct", "root").unwrap();
    assert_eq!(tree.name, "root");
    assert_eq!(tree.data_type, "myStruct");
    assert_eq!(tree.below_nodes.len(), 1);
    assert_eq!(tree.below_nodes[0].name, "a");
    assert_eq!(tree.below_nodes[0].data_type, "int32[3]");
    assert!(tree.below_nodes[0].below_nodes.is_empty());
    let statements = print_init_expr(&tree, "").unwrap();
    assert_eq!(statements, vec!["root.a[3] = 0;".to_string()]);
    let mut block = statements[0].clone();
    array_post_proc(&mut block).unwrap();
    assert_eq!(block, "for (int myi = 0; myi < 3; myi++) {\n\troot.a[myi] = 0;\n}\n");
}

#[test]
fn missing_and_duplicate_aliases_are_errors() {
    let db = scenario_db();
    assert_eq!(
        parse(&db, "nothing", "root").unwrap_err(),
        TypedefError::AliasNotFound { alias: "nothing".to_string() }
    );
    let mut twice = scenario_db();
    twice.push(normal("myint32", "int8"));
    assert_eq!(
        parse(&twice, "myStruct", "root").unwrap_err(),
        TypedefError::AmbiguousAlias { alias: "myint32".to_string() }
    );
}

#[test]
fn pointer_member_is_unsupported() {
    let db = vec![strukt(
        "s",
        "S",
        vec![Declaration::Pointer { name: "p".to_string(), data_type: "int32".to_string() }],
    )];
    assert_eq!(
        parse(&db, "s", "root").unwrap_err(),
        TypedefError::UnsupportedDeclaration { name: "p".to_string() }
    );
    let out = generate_init_code("typedef struct S { int32 * p; } s;", "s", "root");
    assert_eq!(out.unwrap_err(), TypedefError::UnsupportedDeclaration { name: "p".to_string() });
}

#[test]
fn raw_array_member_is_unsupported() {
    let db = vec![strukt(
        "s",
        "S",
        vec![Declaration::Array { name: "v".to_string(), data_type: "int32".to_string(), size: 4 }],
    )];
    assert_eq!(
        parse(&db, "s", "root").unwrap_err(),
        TypedefError::UnsupportedDeclaration { name: "v".to_string() }
    );
}

#[test]
fn alias_cycle_is_detected() {
    let db = vec![normal("a", "b"), normal("b", "a")];
    assert_eq!(
        parse(&db, "a", "root").unwrap_err(),
        TypedefError::CycleDetected { alias: "a".to_string() }
    );
    let own = vec![normal("x", "x")];
    assert_eq!(parse(&own, "x", "f").unwrap_err(), TypedefError::CycleDetected { alias: "x".to_string() });
}

#[test]
fn primitive_resolves_to_leaf() {
    let tree = parse(&Vec::new(), "uint16", "f").unwrap();
    assert_eq!(tree, Node { name: "f".to_string(), data_type: "uint16".to_string(), below_nodes: Vec::new() });
}

#[test]
fn alias_chain_is_transparent() {
    let db = vec![normal("A", "B"), normal("B", "uint8")];
    let through = parse(&db, "A", "f").unwrap();
    let direct = parse(&db, "B", "f").unwrap();
    assert_eq!(through, direct);
    assert_eq!(through.data_type, "uint8");
}

#[test]
fn array_typedef_annotates_root() {
    let db = vec![array("A", "int16", 5), normal("T", "int16")];
    let arr = parse(&db, "A", "f").unwrap();
    let elem = parse(&db, "int16", "f").unwrap();
    assert_eq!(arr.data_type, elem.data_type.clone() + "[5]");
    assert_eq!(arr.name, elem.name);
    let nested = vec![array("M", "R", 2), array("R", "int8", 10)];
    assert_eq!(parse(&nested, "M", "m").unwrap().data_type, "int8[10][2]");
}

#[test]
fn one_statement_per_leaf() {
    let db = vec![
        strukt("inner", "Inner", vec![member("x", "int8"), member("y", "int16")]),
        strukt("outer", "Outer", vec![member("i", "inner"), member("z", "boolean"), member("j", "inner")]),
    ];
    let tree = parse(&db, "outer", "o").unwrap();
    let statements = print_init_expr(&tree, "").unwrap();
    assert_eq!(statements.len(), leaves(&tree));
    assert_eq!(
        statements,
        vec![
            "o.i.x = 0;".to_string(),
            "o.i.y = 0;".to_string(),
            "o.z = 0;".to_string(),
            "o.j.x = 0;".to_string(),
            "o.j.y = 0;".to_string(),
        ]
    );
}

#[test]
fn statement_without_index_is_unchanged() {
    let mut s = "root.a.b = 0;".to_string();
    array_post_proc(&mut s).unwrap();
    assert_eq!(s, "root.a.b = 0;");
    array_post_proc(&mut s).unwrap();
    assert_eq!(s, "root.a.b = 0;");
}

#[test]
fn two_indices_give_two_loops() {
    let mut s = "r.m[3][2].v[ 7 ] = 0;".to_string();
    array_post_proc(&mut s).unwrap();
    assert_eq!(
        s,
        "for (int myi = 0; myi < 3; myi++) {\n\tfor (int myj = 0; myj < 2; myj++) {\n\t\tfor (int myk = 0; myk < 7; myk++) {\n\t\t\tr.m[myi][myj].v[myk] = 0;\n\t\t}\n\t}\n}\n"
    );
}

#[test]
fn loop_variables_beyond_ten() {
    let pieces: Vec<String> = (0..12).map(|i| if i == 0 { "x".to_string() } else { String::new() }).collect();
    let sizes: Vec<usize> = vec![1; 11];
    let out = synthesize_loops("ignored", &pieces, &sizes);
    assert!(out.contains("for (int myr = 0; myr < 1; myr++) {\n"));
    assert!(out.contains("for (int my10 = 0; my10 < 1; my10++) {\n"));
    assert!(out.contains("x[myi][myj][myk][myl][mym][myn][myo][myp][myq][myr][my10]"));
    assert_eq!(out.matches("}\n").count(), 11);
}

#[test]
fn large_size_is_written_in_decimal() {
    let db = vec![array("big", "int32", 1234567)];
    let tree = parse(&db, "big", "b").unwrap();
    assert_eq!(tree.data_type, "int32[1234567]");
}

#[test]
fn extract_orders_by_shape() {
    let header = "typedef int32 myint32;\ntypedef myint32 myArr[3];\ntypedef struct MyStruct {\n    myArr a;\n    uint8 b;\n} myStruct;\ntypedef uint8 byte;\n";
    let raws = extract_typedef(header).unwrap();
    assert_eq!(
        raws,
        vec![
            RawTypedef::Struct("typedef struct MyStruct {\n    myArr a;\n    uint8 b;\n} myStruct;".to_string()),
            RawTypedef::Array("typedef myint32 myArr[3];".to_string()),
            RawTypedef::Normal("typedef int32 myint32;".to_string()),
            RawTypedef::Normal("typedef uint8 byte;".to_string()),
        ]
    );
    assert_eq!(extract_typedef("no typedefs here").unwrap(), Vec::new());
}

#[test]
fn lexicalize_each_shape() {
    assert_eq!(
        lexicalize_typedef(RawTypedef::Array("typedef int32 arr [ 4 ] ;".to_string())).unwrap(),
        array("arr", "int32", 4)
    );
    assert_eq!(
        lexicalize_typedef(RawTypedef::Normal("typedef\tuint8\n byte;".to_string())).unwrap(),
        normal("byte", "uint8")
    );
    assert_eq!(
        lexicalize_typedef(RawTypedef::Struct(
            "typedef struct P { int8 * q; int8 v[2]; int16 w; } p;".to_string()
        ))
        .unwrap(),
        strukt(
            "p",
            "P",
            vec![
                Declaration::Pointer { name: "q".to_string(), data_type: "int8".to_string() },
                Declaration::Array { name: "v".to_string(), data_type: "int8".to_string(), size: 2 },
                member("w", "int16"),
            ]
        )
    );
}

#[test]
fn lexicalize_rejects_foreign_text() {
    let err = lexicalize_typedef(RawTypedef::Normal("not a typedef".to_string())).unwrap_err();
    assert!(matches!(err, TypedefError::PatternMismatch { ref text, .. } if text == "not a typedef"));
    let err = lexicalize_typedef(RawTypedef::Array("typedef int8 a[99999999999999999999999];".to_string())).unwrap_err();
    assert!(matches!(err, TypedefError::PatternMismatch { .. }));
}

#[test]
fn whole_header_to_blocks() {
    let header = "typedef int32 myint32;\ntypedef myint32 myArr[3];\ntypedef struct MyStruct {\n    myArr a;\n    uint8 b;\n} myStruct;\n";
    let blocks = generate_init_code(header, "myStruct", "root").unwrap();
    assert_eq!(
        blocks,
        vec![
            "for (int myi = 0; myi < 3; myi++) {\n\troot.a[myi] = 0;\n}\n".to_string(),
            "root.b = 0;".to_string(),
        ]
    );
    assert_eq!(
        generate_init_code(header, "missing", "root").unwrap_err(),
        TypedefError::AliasNotFound { alias: "missing".to_string() }
    );
}

#[test]
fn missing_target_of_alias_is_not_a_cycle() {
    let db = vec![normal("a", "b")];
    assert_eq!(
        parse(&db, "a", "root").unwrap_err(),
        TypedefError::AliasNotFound { alias: "b".to_string() }
    );
}

fn groups(gs: &[Option<&str>]) -> Vec<Option<String>> {
    gs.iter().map(|g| g.map(|t| t.to_string())).collect()
}

#[test]
fn struct_without_alias_is_no_fragment() {
    assert_eq!(extract_typedef("typedef struct S { int32 a; } ;").unwrap(), Vec::new());
    assert_eq!(extract_typedef("typedef struct S { int32 a; };").unwrap(), Vec::new());
}

#[test]
fn empty_struct_is_a_node_without_statements() {
    let db = vec![strukt("e", "E", Vec::new()), strukt("o", "O", vec![member("x", "e"), member("y", "int8")])];
    let empty = parse(&db, "e", "r").unwrap();
    assert_eq!(empty, Node { name: "r".to_string(), data_type: "e".to_string(), below_nodes: Vec::new() });
    assert_eq!(print_init_expr(&empty, "").unwrap(), Vec::<String>::new());
    let outer = parse(&db, "o", "r").unwrap();
    assert_eq!(outer.below_nodes[0].data_type, "e");
    assert_eq!(print_init_expr(&outer, "").unwrap(), vec!["r.y = 0;".to_string()]);
    let header = "typedef struct E { } e;\ntypedef e eArr[2];\ntypedef struct O { eArr x; int8 y; } o;";
    assert_eq!(generate_init_code(header, "o", "r").unwrap(), vec!["r.y = 0;".to_string()]);
}

#[test]
fn alias_passes_errors_through() {
    let db = vec![normal("A", "B"), normal("B", "missing")];
    assert_eq!(parse(&db, "A", "f").unwrap_err(), parse(&db, "B", "f").unwrap_err());
}

#[test]
fn declaration_from_match_groups() {
    let m = groups(&[Some("int8 v[ 12 ];"), Some("int8"), Some("v"), Some("12")]);
    assert_eq!(
        declaration_from_match(MemberShape::Array, &m).unwrap(),
        Declaration::Array { name: "v".to_string(), data_type: "int8".to_string(), size: 12 }
    );
    let m = groups(&[Some("a * b;"), Some("a"), Some("b")]);
    assert_eq!(
        declaration_from_match(MemberShape::Pointer, &m).unwrap(),
        Declaration::Pointer { name: "b".to_string(), data_type: "a".to_string() }
    );
    let short = groups(&[Some("x;"), Some("x")]);
    assert!(matches!(
        declaration_from_match(MemberShape::Normal, &short).unwrap_err(),
        TypedefError::PatternMismatch { ref text, .. } if text == "x;"
    ));
}

#[test]
fn typedef_from_match_groups() {
    let raw = RawTypedef::Array("typedef int16 arr[7];".to_string());
    let m = groups(&[Some("typedef int16 arr[7];"), Some("int16"), Some("arr"), Some("7")]);
    assert_eq!(typedef_from_match(&raw, &m).unwrap(), array("arr", "int16", 7));
    let raw = RawTypedef::Struct("typedef struct T { uint8 u; } t;".to_string());
    let m = groups(&[Some("typedef struct T { uint8 u; } t;"), Some("T"), Some(" uint8 u; "), Some("t")]);
    assert_eq!(typedef_from_match(&raw, &m).unwrap(), strukt("t", "T", vec![member("u", "uint8")]));
    let no_alias = groups(&[Some("typedef struct T { } ;"), Some("T"), Some(" "), None]);
    assert!(matches!(typedef_from_match(&raw, &no_alias).unwrap_err(), TypedefError::PatternMismatch { .. }));
}

#[test]
fn fragments_from_matches_take_whole_text() {
    let ms = vec![groups(&[Some("typedef a b;"), Some("a"), Some("b")]), groups(&[Some("typedef c d;")])];
    assert_eq!(
        fragments_from_matches(FragmentShape::Normal, &ms),
        vec![RawTypedef::Normal("typedef a b;".to_string()), RawTypedef::Normal("typedef c d;".to_string())]
    );
    assert_eq!(fragments_from_matches(FragmentShape::Struct, &Vec::new()), Vec::new());
}

#[test]
fn annotation_from_matches_joins_in_order() {
    let ms = vec![groups(&[Some("[3]"), Some("[3]")]), groups(&[Some("[ 2 ]"), Some("[ 2 ]")])];
    assert_eq!(annotation_from_matches(&ms), "[3][ 2 ]");
    assert_eq!(annotation_from_matches(&Vec::new()), "");
}
