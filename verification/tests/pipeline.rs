use portfolio_gen::compose::build_portfolio;
use portfolio_gen::compose::build_thumbnail;
use portfolio_gen::escape::html_escape;
use portfolio_gen::loader::load_project;
use portfolio_gen::loader::load_projects;
use portfolio_gen::loader::SourceDoc;
use portfolio_gen::markdown::render_markdown;
use portfolio_gen::model::GenError;
use portfolio_gen::order::sort_links;
use portfolio_gen::parse::parse_document;
use portfolio_gen::paths::is_project_file;
use portfolio_gen::paths::project_id;
use portfolio_gen::paths::resolve_assets;
use portfolio_gen::publish::publish_plan;
use portfolio_gen::publish::PublishStep;

fn demo_doc(video: bool) -> SourceDoc {
    SourceDoc {
        file_name: "01-demo.md".to_string(),
        text: "---\ntitle = \"Demo\"\ntags = [\"x\"]\n[links]\n---\n# Hi".to_string(),
        video_exists: video,
    }
}

#[test]
fn escape_replaces_metacharacters() {
    assert_eq!(html_escape("a<b&c\"d>e"), "a&lt;b&amp;c&quot;d&gt;e");
    assert_eq!(html_escape("plain"), "plain");
    assert_eq!(html_escape(""), "");
}

#[test]
fn markdown_renders_heading() {
    let html = render_markdown("# Hi");
    assert!(html.contains("<h1>Hi</h1>"));
    let em = render_markdown("*word*");
    assert!(em.contains("<em>word</em>"));
}

#[test]
fn markdown_escapes_plain_metacharacters() {
    let html = render_markdown("a < b");
    assert!(html.contains("&lt;"));
}

#[test]
fn parse_document_extracts_fields() {
    let text = "---\ntitle = \"Demo\"\ntags = [\"x\", \"y\"]\n[links]\nsite = \"https://example.org\"\n---\nbody text";
    let (front, body) = parse_document(text).unwrap();
    assert_eq!(front.title, "Demo");
    assert_eq!(front.tags, vec!["x".to_string(), "y".to_string()]);
    assert_eq!(
        front.links,
        vec![("site".to_string(), "https://example.org".to_string())]
    );
    assert_eq!(body.trim(), "body text");
}

#[test]
fn parse_document_rejects_missing_title() {
    let text = "---\ntags = [\"x\"]\n[links]\n---\nbody";
    let err = parse_document(text).unwrap_err();
    assert!(matches!(err, GenError::MalformedMetadata(_)));
}

#[test]
fn parse_document_rejects_missing_block() {
    let err = parse_document("no metadata at all").unwrap_err();
    assert!(matches!(err, GenError::MalformedMetadata(_)));
}

#[test]
fn links_render_in_key_sorted_order() {
    let text = "---\ntitle = \"T\"\ntags = []\n[links]\nzeta = \"u1\"\nalpha = \"u2\"\nmid = \"u3\"\n---\n";
    let (front, _) = parse_document(text).unwrap();
    let keys: Vec<&str> = front.links.iter().map(|l| l.0.as_str()).collect();
    assert_eq!(keys, vec!["alpha", "mid", "zeta"]);
}

#[test]
fn tags_render_in_declared_order() {
    let text = "---\ntitle = \"T\"\ntags = [\"zeta\", \"alpha\"]\n[links]\n---\n";
    let (front, _) = parse_document(text).unwrap();
    assert_eq!(front.tags, vec!["zeta".to_string(), "alpha".to_string()]);
    let project = load_project(&SourceDoc {
        file_name: "01-t.md".to_string(),
        text: text.to_string(),
        video_exists: false,
    })
    .unwrap();
    let thumb = build_thumbnail(&project);
    let zi = thumb.find("<span class=\"tag\">zeta</span>").unwrap();
    let ai = thumb.find("<span class=\"tag\">alpha</span>").unwrap();
    assert!(zi < ai);
}

#[test]
fn links_render_in_key_sorted_order_in_html() {
    let text =
        "---\ntitle = \"T\"\ntags = []\n[links]\nzeta = \"u1\"\nalpha = \"u2\"\n---\n";
    let project = load_project(&SourceDoc {
        file_name: "01-t.md".to_string(),
        text: text.to_string(),
        video_exists: false,
    })
    .unwrap();
    let thumb = build_thumbnail(&project);
    let ai = thumb.find("<a class=\"call\" href=\"u2\">alpha</a>").unwrap();
    let zi = thumb.find("<a class=\"call\" href=\"u1\">zeta</a>").unwrap();
    assert!(ai < zi);
}

#[test]
fn title_is_escaped_in_thumbnail() {
    let text = "---\ntitle = \"A <b>&\"\ntags = []\n[links]\n---\n";
    let project = load_project(&SourceDoc {
        file_name: "01-t.md".to_string(),
        text: text.to_string(),
        video_exists: false,
    })
    .unwrap();
    let thumb = build_thumbnail(&project);
    assert!(thumb.contains("A &lt;b&gt;&amp;"));
    assert!(!thumb.contains("<span class=\"title\">A <b>"));
}

#[test]
fn sort_links_orders_by_key() {
    let raw = vec![
        ("b".to_string(), "2".to_string()),
        ("a".to_string(), "1".to_string()),
        ("c".to_string(), "3".to_string()),
    ];
    let sorted = sort_links(raw);
    assert_eq!(
        sorted,
        vec![
            ("a".to_string(), "1".to_string()),
            ("b".to_string(), "2".to_string()),
            ("c".to_string(), "3".to_string()),
        ]
    );
}

#[test]
fn filter_requires_leading_numeral() {
    assert!(is_project_file("01-demo.md"));
    assert!(is_project_file("9-x.md"));
    assert!(!is_project_file("header.md"));
    assert!(!is_project_file("01-demo.txt"));
    assert!(!is_project_file("md"));
}

#[test]
fn header_file_is_never_a_project() {
    let docs = vec![
        SourceDoc {
            file_name: "header.md".to_string(),
            text: "just prose, no metadata".to_string(),
            video_exists: false,
        },
        demo_doc(false),
    ];
    let projects = load_projects(&docs).unwrap();
    assert_eq!(projects.len(), 1);
    assert_eq!(projects[0].front.title, "Demo");
}

#[test]
fn project_id_splits_at_first_separator() {
    assert_eq!(project_id("01-demo.md"), Some("demo".to_string()));
    assert_eq!(project_id("2-a-b.md"), Some("a-b".to_string()));
    assert_eq!(project_id("1x.md"), None);
}

#[test]
fn resolve_assets_reflects_probe() {
    let (image, video) = resolve_assets("demo", true);
    assert_eq!(image, "./portfolio/demo.png");
    assert_eq!(video, Some("./portfolio/demo.mp4".to_string()));
    let (image2, video2) = resolve_assets("demo", false);
    assert_eq!(image2, "./portfolio/demo.png");
    assert_eq!(video2, None);
}

#[test]
fn demo_thumbnail_has_title_tag_and_about() {
    let project = load_project(&demo_doc(false)).unwrap();
    let thumb = build_thumbnail(&project);
    assert!(thumb.contains("<span class=\"title\">Demo</span>"));
    assert!(thumb.contains("<span class=\"tag\">x</span>"));
    assert!(thumb.contains("<h1>Hi</h1>"));
    assert!(thumb.contains("background-image: url(&#x27;./portfolio/demo.png&#x27;)")
        || thumb.contains("background-image: url('./portfolio/demo.png')"));
}

#[test]
fn video_element_appears_only_with_video() {
    let with_video = build_thumbnail(&load_project(&demo_doc(true)).unwrap());
    assert!(with_video.contains("<video"));
    assert!(with_video.contains("data-src=\"./portfolio/demo.mp4\""));
    let without = build_thumbnail(&load_project(&demo_doc(false)).unwrap());
    assert!(!without.contains("<video"));
}

#[test]
fn duplicate_ids_are_rejected() {
    let mut a = demo_doc(false);
    a.file_name = "01-demo.md".to_string();
    let mut b = demo_doc(false);
    b.file_name = "02-demo.md".to_string();
    let err = load_projects(&vec![a, b]).unwrap_err();
    assert!(matches!(err, GenError::DuplicateProjectId(_)));
}

#[test]
fn missing_separator_is_malformed() {
    let mut d = demo_doc(false);
    d.file_name = "1demo.md".to_string();
    let err = load_projects(&vec![d]).unwrap_err();
    assert!(matches!(err, GenError::MalformedMetadata(_)));
}

#[test]
fn generate_produces_page_and_plan() {
    let docs = vec![demo_doc(false)];
    let (page, plan) = portfolio_gen::generate::generate("intro", &docs).unwrap();
    assert!(page.contains("<span class=\"title\">Demo</span>"));
    assert!(matches!(&plan[2], PublishStep::WriteHtml(p) if p == "./dist/index.html"));
    let (page2, plan2) = portfolio_gen::generate::generate("intro", &docs).unwrap();
    assert_eq!(page, page2);
    assert_eq!(plan.len(), plan2.len());
}

#[test]
fn generate_rejects_malformed_document() {
    let docs = vec![SourceDoc {
        file_name: "01-bad.md".to_string(),
        text: "no front matter here".to_string(),
        video_exists: false,
    }];
    let err = portfolio_gen::generate::generate("intro", &docs).unwrap_err();
    assert!(matches!(err, GenError::MalformedMetadata(_)));
}

#[test]
fn pipeline_is_deterministic() {
    let docs = vec![demo_doc(true)];
    let header = render_markdown("intro blurb");
    let run = || {
        let projects = load_projects(&docs).unwrap();
        build_portfolio(&header, &projects)
    };
    let first = run();
    let second = run();
    assert_eq!(first, second);
}

#[test]
fn portfolio_page_embeds_header_and_thumbnails() {
    let projects = load_projects(&vec![demo_doc(false)]).unwrap();
    let header = render_markdown("## About me");
    let page = build_portfolio(&header, &projects);
    assert!(page.starts_with("<html><head>"));
    assert!(page.contains("<h2>About me</h2>"));
    assert!(page.contains("<span class=\"title\">Demo</span>"));
    assert!(page.ends_with("</html>"));
}

#[test]
fn plan_writes_page_before_copies() {
    let projects = load_projects(&vec![demo_doc(true)]).unwrap();
    let plan = publish_plan(&projects);
    assert!(matches!(&plan[0], PublishStep::MakeDir(p) if p == "./dist"));
    assert!(matches!(&plan[1], PublishStep::MakeDir(p) if p == "./dist/portfolio"));
    assert!(matches!(&plan[2], PublishStep::WriteHtml(p) if p == "./dist/index.html"));
    for (i, step) in plan.iter().enumerate() {
        if matches!(step, PublishStep::CopyFile(_, _)) {
            assert!(i > 2);
        }
    }
    let copies: Vec<(String, String)> = plan
        .iter()
        .filter_map(|s| match s {
            PublishStep::CopyFile(a, b) => Some((a.clone(), b.clone())),
            _ => None,
        })
        .collect();
    assert_eq!(
        copies,
        vec![
            ("./portfolio.css".to_string(), "./dist/portfolio.css".to_string()),
            ("./portfolio.js".to_string(), "./dist/portfolio.js".to_string()),
            ("./portfolio/demo.png".to_string(), "./dist/./portfolio/demo.png".to_string()),
            ("./portfolio/demo.mp4".to_string(), "./dist/./portfolio/demo.mp4".to_string()),
        ]
    );
}
