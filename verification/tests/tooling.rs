use pglsp_core::codegen::{
    has_location, location_idents, manual_node_names, node_identifiers, Field, FieldType, Node,
};
use pglsp_core::completions::{schema_before_dot, ClauseType, CompletionContext, Walk};
use pglsp_core::range::ByteRange;
use pglsp_core::report::{case_name, is_reported};
use pglsp_core::typecheck::{
    check_sql, error_offset, is_checked, DatabaseError, ErrorPosition, PgSeverity, StatementKind,
    TypeError,
};

#[test]
fn clause_names() {
    assert_eq!(ClauseType::try_from("select"), Ok(ClauseType::Select));
    assert_eq!(ClauseType::try_from("where"), Ok(ClauseType::Where));
    assert_eq!(ClauseType::try_from("from"), Ok(ClauseType::From));
    assert_eq!(ClauseType::try_from("update"), Ok(ClauseType::Update));
    assert_eq!(ClauseType::try_from("delete"), Ok(ClauseType::Delete));
    assert_eq!(ClauseType::try_from("delete".to_string()), Ok(ClauseType::Delete));
    let into: Result<ClauseType, String> = "from".try_into();
    assert_eq!(into, Ok(ClauseType::From));
}

#[test]
fn unknown_clause_names() {
    assert_eq!(
        ClauseType::try_from("insert"),
        Err("Unimplemented ClauseType: insert".to_string())
    );
    assert_eq!(ClauseType::try_from("Select"), Err("Unimplemented ClauseType: Select".to_string()));
    assert_eq!(ClauseType::try_from(""), Err("Unimplemented ClauseType: ".to_string()));
    assert_eq!(
        ClauseType::try_from("wh\u{e9}re".to_string()),
        Err("Unimplemented ClauseType: wh\u{e9}re".to_string())
    );
}

#[test]
fn schema_stands_before_the_only_dot() {
    assert_eq!(schema_before_dot("private.users"), Some("private".to_string()));
    assert_eq!(schema_before_dot("users"), None);
    assert_eq!(schema_before_dot("a.b.c"), None);
    assert_eq!(schema_before_dot(".users"), Some("".to_string()));
    assert_eq!(schema_before_dot("private."), Some("private".to_string()));
    assert_eq!(schema_before_dot("."), Some("".to_string()));
    assert_eq!(schema_before_dot(".."), None);
    assert_eq!(schema_before_dot(""), None);
    assert_eq!(schema_before_dot("sch\u{e9}ma.t\u{e4}ble"), Some("sch\u{e9}ma".to_string()));
}

#[test]
fn walk_finds_the_clause() {
    let mut ctx = CompletionContext::new();
    assert_eq!(
        ctx,
        CompletionContext { schema_name: None, wrapping_clause_type: None, is_invocation: false }
    );
    assert_eq!(ctx.visit("program", "statement", Some("select * from u"), 2), Walk::Descend);
    assert_eq!(ctx.wrapping_clause_type, None);
    assert_eq!(ctx.visit("statement", "from", Some("from u"), 2), Walk::Descend);
    assert_eq!(ctx.wrapping_clause_type, Some(ClauseType::From));
    assert_eq!(ctx.visit("from", "relation", Some("u"), 1), Walk::Descend);
    assert_eq!(ctx.visit("relation", "identifier", Some("u"), 0), Walk::Stop);
    assert_eq!(ctx.wrapping_clause_type, Some(ClauseType::From));
    assert!(!ctx.is_invocation);
    assert_eq!(ctx.schema_name, None);
}

#[test]
fn walk_where_wins_over_the_clause_around_it() {
    let mut ctx = CompletionContext::new();
    ctx.visit("program", "statement", None, 2);
    ctx.visit("statement", "update", None, 3);
    assert_eq!(ctx.wrapping_clause_type, Some(ClauseType::Update));
    ctx.visit("update", "where", None, 2);
    assert_eq!(ctx.wrapping_clause_type, Some(ClauseType::Where));
    ctx.visit("where", "binary_expression", None, 3);
    assert_eq!(ctx.wrapping_clause_type, Some(ClauseType::Where));
    // a where clause right below the statement
    let mut direct = CompletionContext::new();
    direct.visit("statement", "where", None, 1);
    assert_eq!(direct.wrapping_clause_type, Some(ClauseType::Where));
}

#[test]
fn walk_forgets_the_clause_below_a_statement_of_another_kind() {
    let mut ctx = CompletionContext::new();
    ctx.visit("statement", "select", None, 1);
    assert_eq!(ctx.wrapping_clause_type, Some(ClauseType::Select));
    ctx.visit("statement", "create_table", None, 1);
    assert_eq!(ctx.wrapping_clause_type, None);
    ctx.visit("statement", "object_reference", Some("a.b"), 1);
    assert_eq!(ctx.wrapping_clause_type, None);
    assert_eq!(ctx.schema_name, Some("a".to_string()));
}

#[test]
fn walk_finds_the_schema() {
    let mut ctx = CompletionContext::new();
    ctx.visit("from", "relation", Some("private.u"), 1);
    assert_eq!(ctx.schema_name, None);
    assert_eq!(ctx.visit("relation", "object_reference", Some("private.u"), 3), Walk::Descend);
    assert_eq!(ctx.schema_name, Some("private".to_string()));
    // what was found stays when a later reference names no schema
    ctx.visit("object_reference", "object_reference", Some("users"), 1);
    assert_eq!(ctx.schema_name, Some("private".to_string()));
    ctx.visit("object_reference", "object_reference", Some("a.b.c"), 1);
    assert_eq!(ctx.schema_name, Some("private".to_string()));
    ctx.visit("object_reference", "object_reference", None, 1);
    assert_eq!(ctx.schema_name, Some("private".to_string()));
    ctx.visit("object_reference", "object_reference", Some("public.t"), 0);
    assert_eq!(ctx.schema_name, Some("public".to_string()));
    assert!(!ctx.is_invocation);
}

#[test]
fn walk_finds_the_invocation() {
    let mut ctx = CompletionContext::new();
    ctx.visit("statement", "select", None, 2);
    ctx.visit("select", "invocation", Some("cool()"), 2);
    assert!(!ctx.is_invocation);
    assert_eq!(ctx.visit("invocation", "object_reference", Some("cool"), 1), Walk::Descend);
    assert!(ctx.is_invocation);
    assert_eq!(ctx.visit("object_reference", "identifier", Some("cool"), 0), Walk::Stop);
    assert!(ctx.is_invocation);
    assert_eq!(ctx.wrapping_clause_type, Some(ClauseType::Select));
}

#[test]
fn checked_statement_kinds() {
    assert!(is_checked(StatementKind::Select));
    assert!(is_checked(StatementKind::Insert));
    assert!(is_checked(StatementKind::Update));
    assert!(is_checked(StatementKind::Delete));
    assert!(is_checked(StatementKind::CommonTableExpr));
    assert!(!is_checked(StatementKind::Other));
}

#[test]
fn offsets_count_from_zero() {
    assert_eq!(error_offset(Some(ErrorPosition::Original(1))), Some(0));
    assert_eq!(error_offset(Some(ErrorPosition::Original(12))), Some(11));
    assert_eq!(error_offset(Some(ErrorPosition::Original(0))), None);
    assert_eq!(error_offset(Some(ErrorPosition::Internal(12))), None);
    assert_eq!(error_offset(None), None);
}

fn complaint(position: Option<ErrorPosition>) -> DatabaseError {
    DatabaseError {
        message: "column \"unknown\" does not exist".to_string(),
        code: "42703".to_string(),
        severity: PgSeverity::Error,
        position,
        table: Some("contact".to_string()),
        column: None,
        data_type: None,
        constraint: Some("c".to_string()),
    }
}

#[test]
fn database_complaint_becomes_a_type_error() {
    let input = "select id, unknown from contact;";
    let range = Some(ByteRange { start: 11, end: 18 });
    let errs = check_sql(
        StatementKind::Select,
        Some(complaint(Some(ErrorPosition::Original(12)))),
        range,
    );
    assert_eq!(
        errs,
        vec![TypeError {
            message: "column \"unknown\" does not exist".to_string(),
            code: "42703".to_string(),
            severity: PgSeverity::Error,
            position: Some(11),
            range,
            table: Some("contact".to_string()),
            column: None,
            data_type: None,
            constraint: Some("c".to_string()),
        }]
    );
    let r = errs[0].range.unwrap();
    assert_eq!(&input[r.start as usize..r.end as usize], "unknown");
}

#[test]
fn no_offset_no_range() {
    let range = Some(ByteRange { start: 11, end: 18 });
    let errs = check_sql(StatementKind::Update, Some(complaint(None)), range);
    assert_eq!(errs.len(), 1);
    assert_eq!(errs[0].position, None);
    assert_eq!(errs[0].range, None);
    let errs = check_sql(
        StatementKind::Delete,
        Some(complaint(Some(ErrorPosition::Internal(3)))),
        range,
    );
    assert_eq!((errs[0].position, errs[0].range), (None, None));
    let errs = check_sql(
        StatementKind::Insert,
        Some(complaint(Some(ErrorPosition::Original(3)))),
        None,
    );
    assert_eq!((errs[0].position, errs[0].range), (Some(2), None));
}

#[test]
fn nothing_to_report() {
    assert_eq!(check_sql(StatementKind::Select, None, None), vec![]);
    assert_eq!(
        check_sql(StatementKind::Other, Some(complaint(Some(ErrorPosition::Original(12)))), None),
        vec![]
    );
    assert_eq!(check_sql(StatementKind::Other, None, Some(ByteRange { start: 0, end: 1 })), vec![]);
}

#[test]
fn verbose_diagnostics_need_a_verbose_run() {
    assert!(is_reported(false, false));
    assert!(is_reported(false, true));
    assert!(!is_reported(true, false));
    assert!(is_reported(true, true));
}

#[test]
fn test_case_names() {
    assert_eq!(case_name(Some("lint/style/noFoo")), "org.pglsp.lint.style.noFoo");
    assert_eq!(case_name(Some("parse")), "org.pglsp.parse");
    assert_eq!(case_name(None), "org.pglsp.");
    assert_eq!(case_name(Some("")), "org.pglsp.");
    assert_eq!(case_name(Some("/a//b/")), "org.pglsp..a..b.");
    assert_eq!(case_name(Some("a.b/c")), "org.pglsp.a.b.c");
    assert_eq!(case_name(Some("l\u{ef}nt/st\u{fd}le")), "org.pglsp.l\u{ef}nt.st\u{fd}le");
}

fn node(name: &str, fields: &[(&str, FieldType)]) -> Node {
    Node {
        name: name.to_string(),
        fields: fields
            .iter()
            .map(|&(name, field_type)| Field { name: name.to_string(), field_type })
            .collect(),
    }
}

fn schema() -> Vec<Node> {
    vec![
        node("Alias", &[("aliasname", FieldType::Other), ("colnames", FieldType::Other)]),
        node("BoolExpr", &[("args", FieldType::Other), ("location", FieldType::Int32)]),
        node("ColumnRef", &[("fields", FieldType::Other), ("location", FieldType::Int32)]),
        node("Weird", &[("location", FieldType::Other), ("Location", FieldType::Int32)]),
        node("AExpr", &[("lexpr", FieldType::Other), ("location", FieldType::Int32)]),
        node("Twice", &[("location", FieldType::Other), ("location", FieldType::Int32)]),
        node("Empty", &[]),
    ]
}

#[test]
fn hand_written_nodes() {
    assert_eq!(manual_node_names(), vec!["BoolExpr", "AExpr"]);
}

#[test]
fn nodes_with_a_location() {
    let nodes = schema();
    let found: Vec<bool> = nodes.iter().map(has_location).collect();
    assert_eq!(found, vec![false, true, true, false, true, true, false]);
}

#[test]
fn generated_nodes() {
    let nodes = schema();
    let exclude = manual_node_names();
    assert_eq!(
        node_identifiers(&nodes, &exclude),
        vec!["Alias", "ColumnRef", "Weird", "Twice", "Empty"]
    );
    assert_eq!(location_idents(&nodes, &exclude), vec![false, true, false, true, false]);
    assert_eq!(node_identifiers(&nodes, &vec![]).len(), 7);
    assert_eq!(
        location_idents(&nodes, &vec![]),
        vec![false, true, true, false, true, true, false]
    );
    assert_eq!(node_identifiers(&vec![], &exclude), Vec::<String>::new());
    assert_eq!(location_idents(&vec![], &exclude), Vec::<bool>::new());
    let all: Vec<&str> = vec!["Alias", "BoolExpr", "ColumnRef", "Weird", "AExpr", "Twice", "Empty"];
    assert_eq!(node_identifiers(&nodes, &all), Vec::<String>::new());
}

const CURSOR_POS: &str = "\u{20ac}";

/// One node on the way from the root to the cursor: its kind, its text and
/// the number of its children.
type Step<'a> = (&'a str, &'a str, usize);

/// Feeds the nodes from the root's child down to the leaf into a fresh
/// context, as a walk over the tree would.
fn walk(steps: &[Step]) -> CompletionContext {
    let mut ctx = CompletionContext::new();
    let mut previous = "program";
    for (i, &(kind, text, children)) in steps.iter().enumerate() {
        let walk = ctx.visit(previous, kind, Some(text), children);
        let last = i + 1 == steps.len();
        assert_eq!(walk, if last { Walk::Stop } else { Walk::Descend });
        previous = kind;
    }
    ctx
}

/// The statement without the cursor mark, and the text that the mark stood in.
fn at_cursor(marked: &str) -> (String, usize) {
    let position = marked.find(CURSOR_POS).unwrap();
    (marked.replace(CURSOR_POS, ""), position)
}

#[test]
fn identifies_clauses() {
    let test_cases: Vec<(String, Vec<Step>, &str)> = vec![
        (
            format!("Select {}* from users;", CURSOR_POS),
            vec![
                ("statement", "Select * from users", 2),
                ("select", "Select *", 2),
                ("select_expression", "*", 1),
                ("term", "*", 1),
                ("all_fields", "*", 0),
            ],
            "select",
        ),
        (
            format!("Select * from u{};", CURSOR_POS),
            vec![
                ("statement", "Select * from u", 2),
                ("from", "from u", 2),
                ("relation", "u", 1),
                ("object_reference", "u", 1),
                ("identifier", "u", 0),
            ],
            "from",
        ),
        (
            format!("Select {}* from users where n = 1;", CURSOR_POS),
            vec![
                ("statement", "Select * from users where n = 1", 2),
                ("select", "Select *", 2),
                ("select_expression", "*", 1),
                ("term", "*", 1),
                ("all_fields", "*", 0),
            ],
            "select",
        ),
        (
            format!("Select * from users where {}n = 1;", CURSOR_POS),
            vec![
                ("statement", "Select * from users where n = 1", 2),
                ("from", "from users where n = 1", 3),
                ("where", "where n = 1", 2),
                ("binary_expression", "n = 1", 3),
                ("field", "n", 1),
                ("identifier", "n", 0),
            ],
            "where",
        ),
        (
            format!("update users set u{} = 1 where n = 2;", CURSOR_POS),
            vec![
                ("statement", "update users set u = 1 where n = 2", 1),
                ("update", "update users set u = 1 where n = 2", 5),
                ("assignment", "u = 1", 3),
                ("field", "u", 1),
                ("identifier", "u", 0),
            ],
            "update",
        ),
        (
            format!("update users set u = 1 where n{} = 2;", CURSOR_POS),
            vec![
                ("statement", "update users set u = 1 where n = 2", 1),
                ("update", "update users set u = 1 where n = 2", 5),
                ("where", "where n = 2", 2),
                ("binary_expression", "n = 2", 3),
                ("field", "n", 1),
                ("identifier", "n", 0),
            ],
            "where",
        ),
        (
            format!("delete{} from users;", CURSOR_POS),
            vec![
                ("statement", "delete from users", 2),
                ("delete", "delete", 1),
                ("keyword_delete", "delete", 0),
            ],
            "delete",
        ),
        (
            format!("delete from {}users;", CURSOR_POS),
            vec![
                ("statement", "delete from users", 2),
                ("from", "from users", 2),
                ("object_reference", "users", 1),
                ("identifier", "users", 0),
            ],
            "from",
        ),
        (
            format!("select name, age, location from public.u{}sers", CURSOR_POS),
            vec![
                ("statement", "select name, age, location from public.users", 2),
                ("from", "from public.users", 2),
                ("relation", "public.users", 1),
                ("object_reference", "public.users", 3),
                ("identifier", "users", 0),
            ],
            "from",
        ),
    ];

    for (text, steps, expected_clause) in test_cases {
        let (text, position) = at_cursor(&text);
        assert!(position <= text.len());
        assert!(steps.iter().all(|&(_, node_text, _)| text.contains(node_text)));

        let ctx = walk(&steps);

        assert_eq!(ctx.wrapping_clause_type, expected_clause.try_into().ok());
    }
}

#[test]
fn identifies_schema() {
    let test_cases: Vec<(String, Vec<Step>, Option<&str>)> = vec![
        (
            format!("Select * from private.u{}", CURSOR_POS),
            vec![
                ("statement", "Select * from private.u", 2),
                ("from", "from private.u", 2),
                ("relation", "private.u", 1),
                ("object_reference", "private.u", 3),
                ("identifier", "u", 0),
            ],
            Some("private"),
        ),
        (
            format!("Select * from private.u{}sers()", CURSOR_POS),
            vec![
                ("statement", "Select * from private.users()", 2),
                ("from", "from private.users()", 2),
                ("relation", "private.users()", 1),
                ("invocation", "private.users()", 3),
                ("object_reference", "private.users", 3),
                ("identifier", "users", 0),
            ],
            Some("private"),
        ),
        (
            format!("Select * from u{}sers", CURSOR_POS),
            vec![
                ("statement", "Select * from users", 2),
                ("from", "from users", 2),
                ("relation", "users", 1),
                ("object_reference", "users", 1),
                ("identifier", "users", 0),
            ],
            None,
        ),
        (
            format!("Select * from u{}sers()", CURSOR_POS),
            vec![
                ("statement", "Select * from users()", 2),
                ("from", "from users()", 2),
                ("relation", "users()", 1),
                ("invocation", "users()", 3),
                ("object_reference", "users", 1),
                ("identifier", "users", 0),
            ],
            None,
        ),
    ];

    for (text, steps, expected_schema) in test_cases {
        let (text, position) = at_cursor(&text);
        assert!(position <= text.len());
        assert!(steps.iter().all(|&(_, node_text, _)| text.contains(node_text)));

        let ctx = walk(&steps);

        assert_eq!(ctx.schema_name, expected_schema.map(|f| f.to_string()));
    }
}

#[test]
fn identifies_invocation() {
    let test_cases: Vec<(String, Vec<Step>, bool)> = vec![
        (
            format!("Select * from u{}sers", CURSOR_POS),
            vec![
                ("statement", "Select * from users", 2),
                ("from", "from users", 2),
                ("relation", "users", 1),
                ("object_reference", "users", 1),
                ("identifier", "users", 0),
            ],
            false,
        ),
        (
            format!("Select * from u{}sers()", CURSOR_POS),
            vec![
                ("statement", "Select * from users()", 2),
                ("from", "from users()", 2),
                ("relation", "users()", 1),
                ("invocation", "users()", 3),
                ("object_reference", "users", 1),
                ("identifier", "users", 0),
            ],
            true,
        ),
        (
            format!("Select cool{};", CURSOR_POS),
            vec![
                ("statement", "Select cool", 1),
                ("select", "Select cool", 2),
                ("select_expression", "cool", 1),
                ("term", "cool", 1),
                ("field", "cool", 1),
                ("identifier", "cool", 0),
            ],
            false,
        ),
        (
            format!("Select cool{}();", CURSOR_POS),
            vec![
                ("statement", "Select cool()", 1),
                ("select", "Select cool()", 2),
                ("select_expression", "cool()", 1),
                ("term", "cool()", 1),
                ("invocation", "cool()", 3),
                ("object_reference", "cool", 1),
                ("identifier", "cool", 0),
            ],
            true,
        ),
        (
            format!("Select upp{}ercase as title from users;", CURSOR_POS),
            vec![
                ("statement", "Select uppercase as title from users", 2),
                ("select", "Select uppercase as title", 2),
                ("select_expression", "uppercase as title", 1),
                ("term", "uppercase as title", 3),
                ("field", "uppercase", 1),
                ("identifier", "uppercase", 0),
            ],
            false,
        ),
        (
            format!("Select upp{}ercase(name) as title from users;", CURSOR_POS),
            vec![
                ("statement", "Select uppercase(name) as title from users", 2),
                ("select", "Select uppercase(name) as title", 2),
                ("select_expression", "uppercase(name) as title", 1),
                ("term", "uppercase(name) as title", 3),
                ("invocation", "uppercase(name)", 4),
                ("object_reference", "uppercase", 1),
                ("identifier", "uppercase", 0),
            ],
            true,
        ),
    ];

    for (text, steps, is_invocation) in test_cases {
        let (text, position) = at_cursor(&text);
        assert!(position <= text.len());
        assert!(steps.iter().all(|&(_, node_text, _)| text.contains(node_text)));

        let ctx = walk(&steps);

        assert_eq!(ctx.is_invocation, is_invocation);
    }
}

#[test]
fn test_basic_type() {
    let input = "select id, unknown from contact;";

    // what the database answers when it does not know the relation, and the
    // syntax node around the place it points to
    let failure = DatabaseError {
        message: "relation \"contact\" does not exist".to_string(),
        code: "42P01".to_string(),
        severity: PgSeverity::Error,
        position: Some(ErrorPosition::Original(25)),
        table: None,
        column: None,
        data_type: None,
        constraint: None,
    };
    assert_eq!(error_offset(failure.position), Some(24));
    let node = ByteRange { start: 24, end: 31 };

    let errs = check_sql(StatementKind::Select, Some(failure), Some(node));

    assert_eq!(errs.len(), 1);

    let e = &errs[0];

    let range = e.range.unwrap();
    assert_eq!(&input[range.start as usize..range.end as usize], "contact");
}
