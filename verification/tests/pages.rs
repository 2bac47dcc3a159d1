use std::cmp::Ordering;

use credence::order::{compare_values, get_value, traverse};
use credence::render::annotations::Annotations;
use credence::render::renderer::Renderer;
use credence::site::catalog::{create_catalog, flatten_columns, to_traversal, CatalogAnnotation, CatalogPreparer};
use credence::site::compare::{cmp_lowercase, cmp_rows_by_column, cmp_value_lowercase, cmp_variant_lowercase};
use credence::site::credence::CredenceConfiguration;
use credence::site::page::{merge_variables, query_map_to_variant, DefaultRenderedPageHandler, RenderedPage};
use credence::site::server::Socket;
use credence::value::{contains_variable, get_variable, insert_variable, Value};

fn t(s: &str) -> Value {
    Value::Text(s.to_string())
}

fn page(values: Vec<(String, Value)>, content: Option<&str>) -> RenderedPage {
    let mut annotations = Annotations::default();
    annotations.values = values;
    RenderedPage { headers: Vec::new(), annotations, content: content.map(|c| c.to_string()) }
}

fn text(value: Option<&Value>) -> Option<String> {
    match value {
        Some(Value::Text(s)) => Some(s.clone()),
        _ => None,
    }
}

fn row_title(row: &Value) -> String {
    text(get_value(row, &t("title"))).unwrap()
}

#[test]
fn value_order() {
    assert_eq!(compare_values(&Value::Null, &Value::Integer(0)), -1);
    assert_eq!(compare_values(&Value::Integer(5), &Value::Integer(-5)), 1);
    assert_eq!(compare_values(&Value::UnsignedInteger(1), &Value::Integer(100)), 1);
    assert_eq!(compare_values(&t("a"), &t("b")), -1);
    assert_eq!(compare_values(&Value::Boolean(true), &t("a")), -1);
    assert_eq!(compare_values(&Value::Float((-1.0f64).to_bits()), &Value::Float(1.0f64.to_bits())), -1);
    assert_eq!(compare_values(&Value::Float((-0.0f64).to_bits()), &Value::Float(0.0f64.to_bits())), 0);
    assert_eq!(compare_values(&Value::Float(f64::NAN.to_bits()), &Value::Float(f64::INFINITY.to_bits())), 1);
    assert_eq!(compare_values(&Value::List(vec![t("a")]), &Value::List(vec![t("a"), t("b")])), -1);
    assert_eq!(compare_values(&Value::Blob(vec![1, 2]), &Value::Blob(vec![1, 2])), 0);
}

#[test]
fn lowercase_comparison() {
    assert_eq!(cmp_lowercase(&t("B"), &t("a")), Ordering::Greater);
    assert_eq!(cmp_lowercase(&t("Abc"), &t("aBC")), Ordering::Equal);
    assert_eq!(cmp_value_lowercase(&Value::Integer(1), &Value::Integer(2)), Ordering::Less);
    assert_eq!(cmp_variant_lowercase(&t("x"), &Value::Integer(2)), Ordering::Greater);
}

#[test]
fn traversal() {
    let row = Value::Mapping(vec![(t("a"), Value::List(vec![t("x"), t("y")]))]);
    assert!(matches!(traverse(&row, &vec![t("a"), Value::UnsignedInteger(1)]), Some(Value::Text(s)) if s == "y"));
    assert!(matches!(traverse(&row, &vec![t("a"), Value::Integer(0)]), Some(Value::Text(s)) if s == "x"));
    assert!(traverse(&row, &vec![t("a"), Value::Integer(-1)]).is_none());
    assert!(traverse(&row, &vec![t("b")]).is_none());
    assert!(matches!(traverse(&row, &vec![]), Some(Value::Mapping(_))));
}

#[test]
fn rows_compared_by_column() {
    let a = Value::Mapping(vec![(t("title"), t("Alpha"))]);
    let b = Value::Mapping(vec![(t("title"), t("beta"))]);
    let none = Value::Mapping(vec![]);
    let column = vec![t("title")];
    assert_eq!(cmp_rows_by_column(&a, &b, &column, true), Ordering::Less);
    assert_eq!(cmp_rows_by_column(&a, &b, &column, false), Ordering::Greater);
    assert_eq!(cmp_rows_by_column(&none, &a, &column, true), Ordering::Less);
    assert_eq!(cmp_rows_by_column(&a, &none, &column, true), Ordering::Less);
}

#[test]
fn columns_and_traversals() {
    assert!(to_traversal(&Value::List(vec![])).is_none());
    assert_eq!(to_traversal(&t("x")).map(|p| p.len()), Some(1));
    let columns = vec![(t("author"), t("author")), (Value::Integer(1), t("x")), (t("empty"), Value::List(vec![]))];
    let flat = flatten_columns(Some(&columns));
    assert_eq!(flat.len(), 1);
    assert_eq!(flat[0].0, "author");
    assert!(flatten_columns(None).is_empty());
}

#[test]
fn catalog_annotations() {
    let catalog = Value::Mapping(vec![
        (t("sort"), Value::Mapping(vec![(t("column"), t("created")), (t("ascending"), Value::Boolean(false))])),
        (t("columns"), Value::Mapping(vec![(t("author"), t("author"))])),
    ]);
    let annotation = CatalogAnnotation::resolve(&catalog);
    assert!(!annotation.sort_ascending);
    assert_eq!(annotation.sort_column.as_ref().map(|c| c.len()), Some(1));
    assert_eq!(annotation.extra_columns.len(), 1);
    let plain = CatalogAnnotation::resolve(&Value::Mapping(vec![(t("sort"), t("updated"))]));
    assert!(plain.sort_ascending);
    let none = CatalogAnnotation::resolve(&Value::Null);
    assert!(none.sort_column.is_none() && none.sort_ascending && none.extra_columns.is_empty());
    assert!(matches!(&none.into_sort_column()[..], [Value::Text(s)] if s == "title"));
}

#[test]
fn catalog_rows_sorted_by_annotation() {
    let configuration = CredenceConfiguration::default();
    let mut b = page(vec![("author".to_string(), t("Bea"))], Some("# beta"));
    b.annotations.created = Some(2);
    let mut a = page(vec![("title".to_string(), t("Alpha"))], None);
    a.annotations.created = Some(5);
    let files = vec![
        ("/srv/d/b.r.md".to_string(), Some(b)),
        ("/srv/d/index.r.md".to_string(), None),
        ("/srv/d/a.r.yaml".to_string(), Some(a)),
    ];
    let annotation = CatalogAnnotation::new(None, true, vec![("author".to_string(), vec![t("author")])]);
    let rows = create_catalog(annotation, "/d", &files, &configuration.render).expect("rows");
    assert_eq!(rows.iter().map(row_title).collect::<Vec<_>>(), vec!["Alpha".to_string(), "beta".to_string()]);
    assert_eq!(text(get_value(&rows[0], &t("href"))), Some("/d/a".to_string()));
    assert!(matches!(get_value(&rows[1], &t("created")), Some(Value::Integer(2))));
    assert_eq!(text(get_value(&rows[1], &t("author"))), Some("Bea".to_string()));
    assert!(get_value(&rows[0], &t("author")).is_none());
    let descending = CatalogAnnotation::new(Some(vec![t("created")]), false, vec![]);
    let rows = create_catalog(descending, "/d", &files, &configuration.render).expect("rows");
    assert_eq!(rows.iter().map(row_title).collect::<Vec<_>>(), vec!["Alpha".to_string(), "beta".to_string()]);
    let unread = vec![("/srv/d/c.r.md".to_string(), None)];
    assert_eq!(create_catalog(CatalogAnnotation::new(None, true, vec![]), "/d", &unread, &configuration.render).err(), Some(500));
}

#[test]
fn page_variables_override_globals() {
    let globals = vec![("a".to_string(), t("global")), ("b".to_string(), t("global"))];
    let own = vec![("b".to_string(), t("own")), ("c".to_string(), t("own")), ("b".to_string(), t("later"))];
    let merged = merge_variables(&globals, &own);
    assert_eq!(text(get_variable(&merged, "a")), Some("global".to_string()));
    assert_eq!(text(get_variable(&merged, "b")), Some("own".to_string()));
    assert_eq!(text(get_variable(&merged, "c")), Some("own".to_string()));
}

#[test]
fn variables_replace_on_insert() {
    let mut vars = vec![("a".to_string(), t("1")), ("a".to_string(), t("2"))];
    assert_eq!(text(get_variable(&vars, "a")), Some("1".to_string()));
    insert_variable(&mut vars, "a".to_string(), t("3"));
    assert_eq!(text(get_variable(&vars, "a")), Some("3".to_string()));
    assert!(contains_variable(&vars, "a"));
    assert!(!contains_variable(&vars, "z"));
}

#[test]
fn default_preparation() {
    let mut configuration = CredenceConfiguration::default();
    configuration.render.variables.push(("site".to_string(), t("Example")));
    configuration.render.variables.push(("title".to_string(), t("Global title")));
    let mut p = page(Vec::new(), Some("# Hello"));
    p.annotations.created = Some(42);
    let title = p.title(&configuration.render);
    assert_eq!(title, Ok(Some("Hello".to_string())));
    let socket = Socket::new(80, false, "a.org".to_string());
    let query = vec![("q".to_string(), vec!["x".to_string(), "y".to_string()])];
    let mut context = p.context(Some(socket), "/p".to_string(), Some("/p.r.md".to_string()), Some(query), None, (false, false), &configuration);
    assert_eq!(context.renderer, Renderer::GFM);
    assert_eq!(DefaultRenderedPageHandler.prepare(&mut context), Ok(()));
    let vars = &context.variables;
    assert_eq!(text(get_variable(vars, "site")), Some("Example".to_string()));
    assert_eq!(text(get_variable(vars, "title")), Some("Global title".to_string()));
    assert_eq!(text(get_variable(vars, "content")), Some("<h1>Hello</h1>".to_string()));
    assert!(matches!(get_variable(vars, "created"), Some(Value::Integer(42))));
    assert!(get_variable(vars, "updated").is_none());
    assert_eq!(text(get_variable(vars, "path")), Some("/p.r.md".to_string()));
    assert!(matches!(get_variable(vars, "socket"), Some(Value::Mapping(_))));
    assert!(matches!(get_variable(vars, "query"), Some(Value::Mapping(entries)) if entries.len() == 1));
}

#[test]
fn default_preparation_titles_from_content() {
    let configuration = CredenceConfiguration::default();
    let p = page(Vec::new(), Some("intro\n\n## Section"));
    let mut context = p.context(None, "/p".to_string(), None, None, None, (false, false), &configuration);
    assert_eq!(DefaultRenderedPageHandler.prepare(&mut context), Ok(()));
    assert_eq!(text(get_variable(&context.variables, "title")), Some("Section".to_string()));
    assert_eq!(text(get_variable(&context.variables, "path")), Some("".to_string()));
    assert!(get_variable(&context.variables, "socket").is_none());
}

#[test]
fn queries_as_values() {
    let value = query_map_to_variant(&vec![("k".to_string(), vec!["v".to_string()])]);
    assert!(matches!(&value, Value::Mapping(entries)
        if matches!(&entries[0], (Value::Text(k), Value::List(vs)) if k == "k" && matches!(&vs[0], Value::Text(v) if v == "v"))));
}

#[test]
fn catalog_preparer() {
    let configuration = CredenceConfiguration::default();
    let mut p = page(Vec::new(), None);
    p.annotations.other.push(("catalog".to_string(), Value::Mapping(vec![])));
    let mut context = p.context(None, "/docs/index".to_string(), None, None, None, (false, false), &configuration);
    assert_eq!(CatalogPreparer.directory(&context), Some(("/docs".to_string(), "docs".to_string())));
    let files = vec![("docs/x.r.md".to_string(), Some(page(Vec::new(), Some("# X"))))];
    assert_eq!(CatalogPreparer.prepare(&mut context, &files), Ok(()));
    assert!(matches!(get_variable(&context.variables, "catalog"), Some(Value::List(rows)) if rows.len() == 1));
    let plain = page(Vec::new(), None);
    let mut context = plain.context(None, "/x".to_string(), None, None, None, (false, false), &configuration);
    assert_eq!(CatalogPreparer.directory(&context), None);
    assert_eq!(CatalogPreparer.prepare(&mut context, &vec![]), Ok(()));
    assert!(get_variable(&context.variables, "catalog").is_none());
}

#[test]
fn textual_rows_come_out_sorted() {
    let row = |title: &str| Value::Mapping(vec![(t("title"), t(title))]);
    let mut rows = vec![row("delta"), row("Alpha"), row("charlie"), row("bravo")];
    CatalogAnnotation::new(None, false, vec![]).sort(&mut rows);
    assert_eq!(rows.iter().map(row_title).collect::<Vec<_>>(), vec!["delta", "charlie", "bravo", "Alpha"]);
    let value = credence::site::page::query_map_to_value(&vec![]);
    assert!(matches!(value, Value::Mapping(entries) if entries.is_empty()));
}

#[test]
fn numeric_rows_come_out_sorted() {
    let row = |created: i64| Value::Mapping(vec![(t("created"), Value::Integer(created))]);
    let created = |row: &Value| match get_value(row, &t("created")) {
        Some(Value::Integer(created)) => *created,
        _ => panic!("no created"),
    };
    let mut rows = vec![row(3), row(-1), row(2), row(10)];
    CatalogAnnotation::new(Some(vec![t("created")]), true, vec![]).sort(&mut rows);
    assert_eq!(rows.iter().map(created).collect::<Vec<_>>(), vec![-1, 2, 3, 10]);
    let mut rows = vec![row(3), row(-1), row(2), row(10)];
    CatalogAnnotation::new(Some(vec![t("created")]), false, vec![]).sort(&mut rows);
    assert_eq!(rows.iter().map(created).collect::<Vec<_>>(), vec![10, 3, 2, -1]);
}

#[test]
fn swapped_comparisons_reverse() {
    let values = [Value::Integer(1), t("a"), t("B"), Value::List(vec![Value::Null]), Value::Boolean(false)];
    for a in &values {
        for b in &values {
            assert_eq!(cmp_lowercase(a, b), cmp_lowercase(b, a).reverse());
        }
    }
}

#[test]
fn default_preparation_keeps_a_set_socket() {
    let configuration = CredenceConfiguration::default();
    let p = page(vec![("socket".to_string(), t("mine"))], Some("# Hello"));
    let socket = Socket::new(80, false, "a.org".to_string());
    let mut context = p.context(Some(socket), "/p".to_string(), None, None, None, (false, false), &configuration);
    assert_eq!(DefaultRenderedPageHandler.prepare(&mut context), Ok(()));
    assert_eq!(text(get_variable(&context.variables, "socket")), Some("mine".to_string()));
}
