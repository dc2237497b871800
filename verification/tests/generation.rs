use selectable::{
    derive_selectable, extract, generate, BindingSpec, ColumnRef, Delimiter, Diagnostic, Dialect,
    ExtractionError, GeneratedCode, Generics, Ident, MalformedReason, SelectableField, Selection,
    Token, TypeDefinitionMetadata,
};

fn ident(text: &str) -> Ident {
    Ident::parse(text).expect("an identifier")
}

fn generics(impl_generics: &str, type_generics: &str, where_clause: &str) -> Generics {
    Generics {
        impl_generics: impl_generics.to_string(),
        type_generics: type_generics.to_string(),
        where_clause: where_clause.to_string(),
    }
}

fn current_annotation(table: &str) -> Vec<Token> {
    vec![
        Token::Punct('#'),
        Token::Open(Delimiter::Bracket),
        Token::Ident(ident("diesel")),
        Token::Open(Delimiter::Parenthesis),
        Token::Ident(ident("table_name")),
        Token::Punct('='),
        Token::Ident(ident(table)),
        Token::Close(Delimiter::Parenthesis),
        Token::Close(Delimiter::Bracket),
    ]
}

fn legacy_annotation(table: &str) -> Vec<Token> {
    vec![
        Token::Punct('#'),
        Token::Open(Delimiter::Bracket),
        Token::Ident(ident("table")),
        Token::Punct('='),
        Token::Ident(ident(table)),
        Token::Close(Delimiter::Bracket),
    ]
}

fn record(name: &str, fields: &[&str], annotation: Vec<Token>) -> TypeDefinitionMetadata {
    TypeDefinitionMetadata {
        name: ident(name),
        generics: generics("", "", ""),
        fields: fields
            .iter()
            .map(|field| SelectableField { ident: Some(ident(field)) })
            .collect(),
        annotations: vec![annotation],
    }
}

fn binding(table: &str, columns: &[&str], dialect: Dialect) -> BindingSpec {
    BindingSpec {
        table: ident(table),
        columns: columns.iter().map(|column| ident(column)).collect(),
        dialect,
    }
}

fn columns(table: &str, names: &[&str]) -> Vec<ColumnRef> {
    names
        .iter()
        .map(|name| ColumnRef { table: ident(table), column: ident(name) })
        .collect()
}

const USER_SOURCE: &str = "#[automatically_derived]
impl User {
    /// Return a tuple of the table's fields.
    pub fn fields() -> (crate::schema::users::dsl::id, crate::schema::users::dsl::email) {
        (crate::schema::users::dsl::id, crate::schema::users::dsl::email)
    }

    /// Construct a query object to retrieve objects from the corresponding
    /// database table.
    pub fn select() -> diesel::dsl::Select<crate::schema::users::dsl::users, (crate::schema::users::dsl::id, crate::schema::users::dsl::email)> {
        crate::schema::users::dsl::users.select(Self::fields())
    }
}
";

const ORDER_SOURCE: &str = "#[automatically_derived]
impl Order {
    /// Construct a query object to retrieve objects from the corresponding
    /// database table.
    pub fn select() -> diesel::dsl::Select<crate::schema::orders::dsl::orders, (crate::schema::orders::dsl::total,)> {
        crate::schema::orders::dsl::orders.select((crate::schema::orders::dsl::total,))
    }
}
";

#[test]
fn user_gets_fields_and_select_over_id_and_email() {
    let user = record("User", &["id", "email"], current_annotation("users"));
    let code = derive_selectable(&user).expect("code for User");
    assert_eq!(code.target, ident("User"));
    assert_eq!(code.accessor, Some(columns("users", &["id", "email"])));
    assert_eq!(
        code.selection,
        Selection {
            table: ident("users"),
            columns: columns("users", &["id", "email"]),
            reuses_accessor: true,
        }
    );
    assert_eq!(code.to_source(), USER_SOURCE);
}

#[test]
fn order_in_the_legacy_dialect_gets_select_only() {
    let order = record("Order", &["total"], legacy_annotation("orders"));
    let code = derive_selectable(&order).expect("code for Order");
    assert_eq!(code.accessor, None);
    assert_eq!(
        code.selection,
        Selection {
            table: ident("orders"),
            columns: columns("orders", &["total"]),
            reuses_accessor: false,
        }
    );
    assert_eq!(code.to_source(), ORDER_SOURCE);
}

#[test]
fn mismatched_parentheses_fail_with_a_diagnostic_for_the_type() {
    let mut annotation = current_annotation("users");
    annotation.remove(7);
    let user = record("User", &["id", "email"], annotation);
    let diagnostic = derive_selectable(&user).expect_err("no code for User");
    assert_eq!(
        diagnostic,
        Diagnostic {
            target: ident("User"),
            error: ExtractionError::MalformedAnnotation {
                annotation: 0,
                reason: MalformedReason::Unclosed,
            },
        }
    );
    assert_eq!(
        diagnostic.message(),
        "cannot derive `Selectable` for `User`: Unable to parse the attribute at index 0: the attribute is not closed"
    );
}

#[test]
fn legacy_select_names_the_fields_of_the_table_in_declared_order() {
    let log = record("Log", &["at", "level", "line"], legacy_annotation("logs"));
    let code = derive_selectable(&log).expect("code for Log");
    assert_eq!(code.selection.table, ident("logs"));
    assert_eq!(code.selection.columns, columns("logs", &["at", "level", "line"]));
    assert!(!code.selection.reuses_accessor);
    assert!(code.to_source().contains(
        ".select((crate::schema::logs::dsl::at, crate::schema::logs::dsl::level, crate::schema::logs::dsl::line))"
    ));
}

#[test]
fn accessor_follows_the_fields_and_selection_follows_the_accessor() {
    let log = record("Log", &["line", "at", "level"], current_annotation("logs"));
    let code = derive_selectable(&log).expect("code for Log");
    let accessor = code.accessor.as_ref().expect("fields() is generated");
    assert_eq!(*accessor, columns("logs", &["line", "at", "level"]));
    assert_eq!(code.selection.columns, *accessor);
    assert!(code.selection.reuses_accessor);
    assert!(code.to_source().contains("crate::schema::logs::dsl::logs.select(Self::fields())"));
}

#[test]
fn generating_twice_gives_the_same_text() {
    let user = record("User", &["id", "email"], current_annotation("users"));
    let again = record("User", &["id", "email"], current_annotation("users"));
    let first = derive_selectable(&user).expect("code for User");
    let second = derive_selectable(&again).expect("code for User");
    assert_eq!(first, second);
    assert_eq!(first.to_source().into_bytes(), second.to_source().into_bytes());
    assert_eq!(first.to_source(), first.to_source());
}

#[test]
fn a_record_without_fields_gets_no_code() {
    let unit = record("Unit", &[], current_annotation("units"));
    assert_eq!(
        derive_selectable(&unit),
        Err(Diagnostic { target: ident("Unit"), error: ExtractionError::UnsupportedShape })
    );
    let unit = record("Unit", &[], legacy_annotation("units"));
    assert_eq!(
        derive_selectable(&unit),
        Err(Diagnostic { target: ident("Unit"), error: ExtractionError::UnsupportedShape })
    );
}

#[test]
fn derive_is_extract_then_generate() {
    let user = record("User", &["id", "email"], current_annotation("users"));
    let spec = extract(&user).expect("a binding");
    assert_eq!(
        derive_selectable(&user),
        Ok(generate(&spec, &user.name, &user.generics))
    );
}

#[test]
fn generate_scopes_every_column_to_the_table() {
    let spec = binding("t", &["a", "b", "c"], Dialect::Current);
    let code = generate(&spec, &ident("Row"), &generics("", "", ""));
    assert_eq!(
        code,
        GeneratedCode {
            target: ident("Row"),
            generics: generics("", "", ""),
            accessor: Some(columns("t", &["a", "b", "c"])),
            selection: Selection {
                table: ident("t"),
                columns: columns("t", &["a", "b", "c"]),
                reuses_accessor: true,
            },
        }
    );
}

#[test]
fn generate_accepts_a_binding_without_columns() {
    let spec = binding("t", &[], Dialect::Current);
    let code = generate(&spec, &ident("Row"), &generics("", "", ""));
    assert_eq!(code.accessor, Some(Vec::new()));
    assert_eq!(code.selection.columns, Vec::new());
    assert!(code.to_source().contains("pub fn fields() -> () {\n        ()\n    }"));
    let spec = binding("t", &[], Dialect::Legacy);
    let code = generate(&spec, &ident("Row"), &generics("", "", ""));
    assert!(code.to_source().contains("crate::schema::t::dsl::t.select(())"));
}

#[test]
fn generic_parameters_are_carried_over_unchanged() {
    let spec = binding("pages", &["body"], Dialect::Legacy);
    let given = generics("<'a, T: Clone>", "<'a, T>", "where T: Send");
    let code = generate(&spec, &ident("Page"), &given);
    assert_eq!(code.generics, given);
    assert!(code
        .to_source()
        .starts_with("#[automatically_derived]\nimpl<'a, T: Clone> Page<'a, T> where T: Send {\n"));
    let given = generics("<T>", "<T>", "");
    let code = generate(&spec, &ident("Page"), &given);
    assert!(code
        .to_source()
        .starts_with("#[automatically_derived]\nimpl<T> Page<T> {\n"));
}

#[test]
fn column_and_table_paths() {
    let column = ColumnRef { table: ident("users"), column: ident("email") };
    assert_eq!(column.path(), "crate::schema::users::dsl::email");
    assert_eq!(
        selectable::source::table_source(&ident("users")),
        "crate::schema::users::dsl::users"
    );
    assert_eq!(selectable::source::tuple_source(&Vec::new()), "()");
    assert_eq!(
        selectable::source::tuple_source(&columns("t", &["a"])),
        "(crate::schema::t::dsl::a,)"
    );
    assert_eq!(
        selectable::source::tuple_source(&columns("t", &["a", "b"])),
        "(crate::schema::t::dsl::a, crate::schema::t::dsl::b)"
    );
    assert_eq!(
        selectable::source::accessor_source(&columns("t", &["a"])),
        "    /// Return a tuple of the table's fields.\n    pub fn fields() -> (crate::schema::t::dsl::a,) {\n        (crate::schema::t::dsl::a,)\n    }\n\n"
    );
}

#[test]
fn the_generated_text_is_an_impl_block_with_the_two_functions() {
    let mut user = record("User", &["id", "email"], current_annotation("users"));
    user.generics = generics("<'a, T: Clone>", "<'a, T>", "where T: Send");
    let source = derive_selectable(&user).expect("code for User").to_source();
    let block: syn::ItemImpl = syn::parse_str(&source).expect("an impl block");
    assert_eq!(block.attrs.len(), 1);
    assert!(block.attrs[0].path.is_ident("automatically_derived"));
    assert!(block.trait_.is_none());
    assert_eq!(block.generics.params.len(), 2);
    assert!(block.generics.where_clause.is_some());
    let names: Vec<String> = block
        .items
        .iter()
        .map(|item| match item {
            syn::ImplItem::Method(method) => method.sig.ident.to_string(),
            _ => String::new(),
        })
        .collect();
    assert_eq!(names, vec!["fields".to_string(), "select".to_string()]);

    let order = record("Order", &["total"], legacy_annotation("orders"));
    let source = derive_selectable(&order).expect("code for Order").to_source();
    let block: syn::ItemImpl = syn::parse_str(&source).expect("an impl block");
    assert_eq!(block.items.len(), 1);
}

#[test]
fn every_error_has_its_message() {
    let cases = [
        (
            ExtractionError::UnsupportedShape,
            "Selectable only supports structs with named fields",
        ),
        (
            ExtractionError::MissingAnnotation,
            "A `diesel` or `table` attribute is required",
        ),
        (ExtractionError::MissingTableName, "No `table_name` argument found"),
        (
            ExtractionError::MalformedAnnotation {
                annotation: 3,
                reason: MalformedReason::UnbalancedDelimiters,
            },
            "Unable to parse the attribute at index 3: mismatched delimiters among the arguments",
        ),
    ];
    for (error, text) in cases {
        assert_eq!(error.describe(), text);
        let diagnostic = Diagnostic { target: ident("Thing"), error };
        assert_eq!(
            diagnostic.message(),
            format!("cannot derive `Selectable` for `Thing`: {}", text)
        );
    }
}

#[test]
fn a_single_column_makes_a_tuple_of_one() {
    let order = record("Order", &["total"], current_annotation("orders"));
    let source = derive_selectable(&order).expect("code for Order").to_source();
    assert!(source.contains(
        "pub fn fields() -> (crate::schema::orders::dsl::total,) {\n        (crate::schema::orders::dsl::total,)\n    }"
    ));
    assert!(source.contains(
        "diesel::dsl::Select<crate::schema::orders::dsl::orders, (crate::schema::orders::dsl::total,)>"
    ));
    let block: syn::ItemImpl = syn::parse_str(&source).expect("an impl block");
    let fields = match &block.items[0] {
        syn::ImplItem::Method(method) => method,
        _ => panic!("fields() comes first"),
    };
    match &fields.sig.output {
        syn::ReturnType::Type(_, returned) => match &**returned {
            syn::Type::Tuple(tuple) => assert_eq!(tuple.elems.len(), 1),
            _ => panic!("fields() returns a tuple"),
        },
        syn::ReturnType::Default => panic!("fields() returns a tuple"),
    }
}

#[test]
fn the_tuple_has_as_many_members_as_there_are_columns() {
    for names in [&[][..], &["a"][..], &["a", "b"][..], &["a", "b", "c"][..]] {
        let text = selectable::source::tuple_source(&columns("t", names));
        let parsed: syn::Type = syn::parse_str(&text).expect("a type");
        match parsed {
            syn::Type::Tuple(tuple) => assert_eq!(tuple.elems.len(), names.len()),
            _ => panic!("{} is no tuple", text),
        }
    }
}

#[test]
fn numbers_are_written_in_decimal() {
    let cases = [
        (0, "0"),
        (1, "1"),
        (9, "9"),
        (10, "10"),
        (11, "11"),
        (99, "99"),
        (100, "100"),
        (1234567890, "1234567890"),
        (60409, "60409"),
    ];
    for (n, text) in cases {
        assert_eq!(selectable::error::decimal(n), text);
    }
    assert_eq!(selectable::error::decimal(usize::MAX), usize::MAX.to_string());
}

#[test]
fn a_malformed_annotation_is_told_by_its_index() {
    for index in [0, 1, 7, 12, 305] {
        let error = ExtractionError::MalformedAnnotation {
            annotation: index,
            reason: MalformedReason::ExpectedArgumentList,
        };
        assert_eq!(
            error.describe(),
            format!(
                "Unable to parse the attribute at index {}: expected `(` after the attribute's name",
                index
            )
        );
    }
    let mut user = record("User", &["id"], current_annotation("users"));
    user.annotations.insert(0, vec![Token::Punct('#')]);
    user.annotations[1].truncate(3);
    let diagnostic = derive_selectable(&user).expect_err("no code for User");
    assert_eq!(
        diagnostic.message(),
        "cannot derive `Selectable` for `User`: Unable to parse the attribute at index 1: expected `(` after the attribute's name"
    );
}

#[test]
fn every_reason_has_its_words() {
    let cases = [
        (MalformedReason::ExpectedPound, "expected `#`"),
        (MalformedReason::ExpectedBracket, "expected `[` after `#`"),
        (MalformedReason::ExpectedDesignator, "expected an identifier after `#[`"),
        (
            MalformedReason::ExpectedArgumentList,
            "expected `(` after the attribute's name",
        ),
        (
            MalformedReason::ExpectedAssignment,
            "expected `=` after the attribute's name",
        ),
        (MalformedReason::ExpectedIdentifier, "expected an identifier after `=`"),
        (MalformedReason::Unclosed, "the attribute is not closed"),
        (
            MalformedReason::UnbalancedDelimiters,
            "mismatched delimiters among the arguments",
        ),
        (MalformedReason::TrailingTokens, "unexpected tokens after `]`"),
    ];
    for (reason, words) in cases {
        assert_eq!(reason.describe(), words);
    }
}
