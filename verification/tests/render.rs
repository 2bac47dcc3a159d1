use credence::configuration::annotations::AnnotationsConfiguration;
use credence::configuration::render::RenderConfiguration;
use credence::format::Format;
use credence::escape::escaped_split_defined_exec;
use credence::render::annotations::{resolve_annotations, Annotations};
use credence::render::catalog::{catalog_value, sort_catalog, CatalogEntry, Sort};
use credence::render::rendered_page::{
    catalog_entry, catalog_sort, catalog_uri_path, filename, header, template_or_default, title_from_content,
    RenderedPage, RenderedPageType,
};
use credence::render::renderer::Renderer;
use credence::time::ParseDuration;
use credence::value::{get_variable, Value};

fn page(values: Vec<(String, Value)>, content: Option<&str>) -> RenderedPage {
    let mut annotations = Annotations::default();
    annotations.values = values;
    RenderedPage { headers: Vec::new(), annotations, content: content.map(|c| c.to_string()) }
}

fn text(value: Option<&Value>) -> Option<String> {
    match value {
        Some(Value::Text(t)) => Some(t.clone()),
        _ => None,
    }
}

#[test]
fn renderer_names() {
    assert_eq!(Renderer::from_str("GFM"), Ok(Renderer::GFM));
    assert_eq!(Renderer::from_str("md"), Ok(Renderer::Markdown));
    assert_eq!(Renderer::from_str("Passthrough"), Ok(Renderer::Passthrough));
    assert_eq!(Renderer::from_str("html"), Err("unsupported: html".to_string()));
    for renderer in [Renderer::Passthrough, Renderer::Markdown, Renderer::GFM] {
        assert_eq!(Renderer::from_str(&renderer.to_string()), Ok(renderer));
    }
    assert_eq!(Renderer::default(), Renderer::GFM);
}

#[test]
fn rendering() {
    assert_eq!(Renderer::Passthrough.render("<b>x</b>"), Ok("<b>x</b>".to_string()));
    assert_eq!(Renderer::Markdown.render("# Hi"), Ok("<h1>Hi</h1>".to_string()));
    assert_eq!(Renderer::GFM.render("~~x~~"), Ok("<p><del>x</del></p>".to_string()));
    assert_eq!(Renderer::Markdown.render("<i>raw</i>"), Ok("<p><i>raw</i></p>".to_string()));
    assert_eq!(Renderer::render_markdown("a", false), Ok("<p>a</p>".to_string()));
    assert_eq!(Renderer::render_markdown("a", true), Ok("<p>a</p>".to_string()));
}

#[test]
fn titles_from_content() {
    assert_eq!(title_from_content("x<h1>Title</h1>y<h1>Other</h1>"), Some("Title".to_string()));
    assert_eq!(title_from_content("<h1>Unclosed"), None);
    assert_eq!(title_from_content("none"), None);
    assert_eq!(Renderer::Passthrough.title_from_content("<h1>P</h1>"), Ok(Some("P".to_string())));
    assert_eq!(Renderer::Markdown.title_from_content("text\n\n## Second\n\n# First"), Ok(Some("Second".to_string())));
    assert_eq!(Renderer::GFM.title_from_content("no heading"), Ok(None));
    assert_eq!(Renderer::Markdown.title_from_markdown("# A\n\nb", false), Ok(Some("A".to_string())));
    assert_eq!(Renderer::GFM.title_from_markdown("# *B*", true), Ok(None));
}

#[test]
fn formats_and_sorts() {
    let render = RenderConfiguration::default();
    assert_eq!(render.is_rendered_page("/p.r.YAML"), Some(RenderedPageType::Annotations(Format::YAML)));
    assert_eq!(render.is_rendered_page("/p.r.messagepack"), Some(RenderedPageType::Annotations(Format::MessagePack)));
    assert_eq!(render.is_rendered_page("/p.r.xjson"), Some(RenderedPageType::Annotations(Format::XJSON)));
    assert_eq!(render.is_rendered_page("/p.r.toml"), Some(RenderedPageType::ContentWithEmbeddedAnnotations));
    assert_eq!(Format::default(), Format::YAML);
    assert_eq!(Sort::from_str("Created"), Ok(Sort::Created));
    assert_eq!(Sort::from_str("size"), Err("unsupported: size".to_string()));
}

#[test]
fn escaped_end_delimiters() {
    let configuration = AnnotationsConfiguration::default();
    let (annotations, content) = configuration.split("```\na: \\```b\n```c");
    assert_eq!(annotations, Some((Format::YAML, "a: ```b\n".to_string())));
    assert_eq!(content, "c");
    let (annotations, content) = configuration.split("```abc");
    assert_eq!(annotations, None);
    assert_eq!(content, "```abc");
}

#[test]
fn annotations_split_from_content() {
    let configuration = AnnotationsConfiguration::default();
    let (annotations, content) = configuration.split("```json\n{}\n```\nbody");
    assert_eq!(annotations, Some((Format::JSON, "{}\n".to_string())));
    assert_eq!(content, "\nbody");
    let (annotations, content) = configuration.split("```\ntitle: x\n```rest");
    assert_eq!(annotations, Some((Format::YAML, "title: x\n".to_string())));
    assert_eq!(content, "rest");
    let (annotations, content) = configuration.split("plain");
    assert_eq!(annotations, None);
    assert_eq!(content, "plain");
    let (annotations, content) = configuration.split("```unclosed");
    assert_eq!(annotations, None);
    assert_eq!(content, "```unclosed");
}

#[test]
fn rendered_page_parse() {
    let configuration = RenderConfiguration::default();
    let (annotations, content) = RenderedPage::parse(RenderedPageType::Annotations(Format::YAML), "a: 1", &configuration);
    assert_eq!(annotations, Some((Format::YAML, "a: 1".to_string())));
    assert_eq!(content, None);
    let (annotations, content) = RenderedPage::parse(RenderedPageType::ContentWithEmbeddedAnnotations, "# x", &configuration);
    assert_eq!(annotations, None);
    assert_eq!(content, Some("# x".to_string()));
}

#[test]
fn page_titles() {
    let configuration = RenderConfiguration::default();
    let titled = page(vec![("title".to_string(), Value::Text("Given".to_string()))], Some("# Other"));
    assert_eq!(titled.title(&configuration), Ok(Some("Given".to_string())));
    let untitled = page(Vec::new(), Some("# Heading"));
    assert_eq!(untitled.title(&configuration), Ok(Some("Heading".to_string())));
    let empty = page(Vec::new(), None);
    assert_eq!(empty.title(&configuration), Ok(None));
    let numbered = page(vec![("title".to_string(), Value::Integer(-3))], None);
    assert_eq!(numbered.title(&configuration), Ok(Some("-3i64".to_string())));
    let listed = page(
        vec![(
            "title".to_string(),
            Value::List(vec![Value::Boolean(true), Value::Null, Value::Mapping(vec![(Value::Text("k".to_string()), Value::UnsignedInteger(2))])]),
        )],
        None,
    );
    assert_eq!(listed.title(&configuration), Ok(Some("[true,Null,{k:2u64}]".to_string())));
    let floating = page(vec![("title".to_string(), Value::Float(0))], None);
    assert_eq!(floating.title(&configuration), Ok(None));
}

#[test]
fn values_prepared_for_rendering() {
    let configuration = RenderConfiguration::default();
    let mut p = page(Vec::new(), Some("# Hello"));
    p.annotations.created = Some(0);
    p.headers.push(("last-modified".to_string(), "Sun, 06 Nov 1994 08:49:37 GMT".to_string()));
    assert_eq!(p.prepare_values(&configuration), Ok(()));
    let values = &p.annotations.values;
    assert_eq!(text(get_variable(values, "content")), Some("<h1>Hello</h1>".to_string()));
    assert_eq!(text(get_variable(values, "title")), Some("Hello".to_string()));
    assert_eq!(text(get_variable(values, "created")), Some("January 1, 1970".to_string()));
    assert_eq!(text(get_variable(values, "updated")), Some("November 6, 1994".to_string()));
    let mut kept = page(vec![("title".to_string(), Value::Text("Mine".to_string()))], None);
    assert_eq!(kept.prepare_values(&configuration), Ok(()));
    assert_eq!(text(get_variable(&kept.annotations.values, "title")), Some("Mine".to_string()));
    assert_eq!(text(get_variable(&kept.annotations.values, "content")), Some("".to_string()));
}

#[test]
fn updated_falls_back_to_last_modified() {
    let mut p = page(Vec::new(), None);
    assert_eq!(p.updated(), None);
    p.headers.push(("last-modified".to_string(), "Thu, 01 Jan 1970 00:01:00 GMT".to_string()));
    assert_eq!(p.updated(), Some(60));
    p.annotations.updated = Some(5);
    assert_eq!(p.updated(), Some(5));
    assert_eq!(header(&p.headers, "last-modified"), Some("Thu, 01 Jan 1970 00:01:00 GMT"));
    assert_eq!(header(&p.headers, "etag"), None);
}

#[test]
fn catalog_requests() {
    let mut p = page(Vec::new(), None);
    assert!(p.catalog_request("/docs/index").is_none());
    p.annotations.other.push((
        "catalog".to_string(),
        Value::Mapping(vec![(Value::Text("sort".to_string()), Value::Text("updated".to_string()))]),
    ));
    assert_eq!(p.catalog_request("/docs/index"), Some((Sort::Updated, "/docs/".to_string())));
    assert_eq!(catalog_sort(&Value::Null), Sort::Alpha);
    assert_eq!(catalog_uri_path("noslash"), "n/");
}

#[test]
fn catalogs_sorted() {
    let configuration = RenderConfiguration::default();
    let mut first = page(vec![("title".to_string(), Value::Text("beta".to_string()))], None);
    first.annotations.created = Some(20);
    let mut second = page(Vec::new(), Some("# Alpha"));
    second.annotations.created = Some(10);
    let files = vec![
        ("/srv/docs/b.r.md".to_string(), Some(first)),
        ("/srv/docs/index.r.md".to_string(), None),
        ("/srv/docs/image.png".to_string(), None),
        ("/srv/docs/a.r.md".to_string(), Some(second)),
    ];
    let catalog = RenderedPage::catalog("/docs/", &files, Sort::Alpha, &configuration).expect("catalog");
    let titles: Vec<&str> = catalog.iter().map(|e| e.title.as_str()).collect();
    assert_eq!(titles, vec!["Alpha", "beta"]);
    assert_eq!(catalog[0].href, "/docs/a");
    assert_eq!(catalog[0].created, 10);
    let missing = vec![("/srv/docs/c.r.md".to_string(), None)];
    assert_eq!(RenderedPage::catalog("/docs/", &missing, Sort::Alpha, &configuration).err(), Some(500));
}

#[test]
fn catalog_sorting_is_stable() {
    let entry = |title: &str, created: i64| CatalogEntry { title: title.to_string(), href: String::new(), created, updated: 0 };
    let mut catalog = vec![entry("b", 2), entry("A", 1), entry("a", 3), entry("c", 1)];
    sort_catalog(&mut catalog, Sort::Alpha);
    let order: Vec<(String, i64)> = catalog.iter().map(|e| (e.title.clone(), e.created)).collect();
    assert_eq!(order, vec![("A".to_string(), 1), ("a".to_string(), 3), ("b".to_string(), 2), ("c".to_string(), 1)]);
    sort_catalog(&mut catalog, Sort::Created);
    let order: Vec<&str> = catalog.iter().map(|e| e.title.as_str()).collect();
    assert_eq!(order, vec!["A", "c", "b", "a"]);
}

#[test]
fn catalog_entries_and_values() {
    let entry = catalog_entry("/d/", "stem", None, None, Some(7));
    assert_eq!((entry.title.as_str(), entry.href.as_str(), entry.created, entry.updated), ("stem", "/d/stem", 0, 7));
    match catalog_value(vec![entry]) {
        Value::List(items) => match &items[0] {
            Value::Mapping(map) => assert_eq!(map.len(), 4),
            _ => panic!("not a map"),
        },
        _ => panic!("not a list"),
    }
}

#[test]
fn filenames_and_templates() {
    assert_eq!(filename("/a/b.r.md"), ("b.r.md".to_string(), "b".to_string()));
    assert_eq!(template_or_default("x.html", Some("t".to_string()), "default.html", "d"), Some("t".to_string()));
    assert_eq!(template_or_default("default.html", None, "default.html", "d"), Some("d".to_string()));
    assert_eq!(template_or_default("x.html", None, "default.html", "d"), None);
}

#[test]
fn merged_headers() {
    let mut p = page(Vec::new(), None);
    p.headers.push(("cache-control".to_string(), "no-cache".to_string()));
    p.headers.push(("etag".to_string(), "1".to_string()));
    p.annotations.headers.push(("Cache-Control".to_string(), "max-age=5".to_string()));
    p.annotations.headers.push(("bad name".to_string(), "x".to_string()));
    let merged = p.merge_headers().expect("valid");
    assert_eq!(
        merged,
        vec![("etag".to_string(), "1".to_string()), ("cache-control".to_string(), "max-age=5".to_string())]
    );
    let mut bad = page(Vec::new(), None);
    bad.annotations.headers.push(("x-a".to_string(), "line\nbreak".to_string()));
    assert_eq!(bad.merge_headers(), Err(500));
}

#[test]
fn dates_and_durations() {
    let configuration = RenderConfiguration::default();
    let mut p = page(vec![("content".to_string(), Value::Text(String::new()))], None);
    p.annotations.created = Some(86400 * 365);
    p.headers.push(("last-modified".to_string(), "not a date".to_string()));
    assert_eq!(p.updated(), None);
    assert_eq!(p.prepare_values(&configuration), Ok(()));
    assert_eq!(text(get_variable(&p.annotations.values, "created")), Some("January 1, 1971".to_string()));
    assert!(get_variable(&p.annotations.values, "updated").is_none());
    let mut q = page(Vec::new(), None);
    q.headers.push(("last-modified".to_string(), "Sun, 06 Nov 1994 08:49:37 GMT".to_string()));
    assert_eq!(q.updated(), Some(784111777));
    assert_eq!(ParseDuration::parse("10s"), Some((10, 0)));
    assert_eq!(ParseDuration::parse(""), None);
}

#[test]
fn annotations_split_from_non_ascii_pages() {
    let configuration = AnnotationsConfiguration::default();
    assert!(configuration.can_split("```\ntitle: café\n```\nbody ü"));
    let (annotations, content) = configuration.split("```\ntitle: café\n```\nbody ü");
    assert_eq!(annotations, Some((Format::YAML, "title: café\n".to_string())));
    assert_eq!(content, "\nbody ü");
    let (annotations, content) = configuration.split("ünannotated ```");
    assert_eq!(annotations, None);
    assert_eq!(content, "ünannotated ```");
    let (annotations, content) = configuration.split("```é unclosed");
    assert_eq!(annotations, None);
    assert_eq!(content, "```é unclosed");
}

#[test]
fn escaped_split_panics_are_detected() {
    // The pattern's characters need not be adjacent, so the split can fall inside "é".
    assert!(!escaped_split_defined_exec("-é-", "--"));
    assert!(escaped_split_defined_exec("a--b", "--"));
    assert!(escaped_split_defined_exec("", ""));
    assert!(!escaped_split_defined_exec("x", ""));
    // A match right at the start would make the byte index underflow.
    assert!(!escaped_split_defined_exec("--b", "--"));
}

#[test]
fn annotations_parsed_and_resolved() {
    let annotations = Annotations::parse(
        "created: \"1511648546\"\nrenderer: gfm\ntemplate: post.html\nvalues:\n  a: x\nheaders:\n  X-A: b\nextra: y\n",
        Format::YAML,
    );
    assert_eq!(annotations.created, Some(1511648546));
    assert_eq!(annotations.renderer, Some(Renderer::GFM));
    assert_eq!(annotations.template, Some("post.html".to_string()));
    assert_eq!(annotations.values.len(), 1);
    assert_eq!(annotations.values[0].0, "a");
    assert_eq!(annotations.headers, vec![("X-A".to_string(), "b".to_string())]);
    assert!(matches!(get_variable(&annotations.other, "extra"), Some(Value::Text(text)) if text == "y"));
    let unparsed = Annotations::parse("a: [", Format::YAML);
    assert_eq!(unparsed.template, None);
    assert!(unparsed.other.is_empty());
    let unresolved = Annotations::parse("renderer: unknown\ntemplate: t\n", Format::YAML);
    assert_eq!(unresolved.template, None);
    assert!(resolve_annotations(&Value::Text("x".to_string())).is_none());
    let mapping = Value::Mapping(vec![(Value::Text("template".to_string()), Value::Integer(1))]);
    assert!(resolve_annotations(&mapping).is_none());
}
