use agent_tools::fetch_run::{FetchPhase, FetchRun, SendOutcome};
use agent_tools::json::Json;
use agent_tools::renderable::is_renderable;
use agent_tools::types::{Content, Retention, ToolError, ToolResult};
use agent_tools::web_fetch::{
    choose_text, content_error, html_to_text, is_binary_content_type, launch_error,
    navigation_error, should_try_browser_fallback, tab_error, truncate_text,
    truncate_text_for_test, BodyStep, RenderWatch, WebFetchTool,
};

fn text(s: &str) -> Json {
    Json::Text(s.to_string())
}

fn object(members: Vec<(&str, Json)>) -> Json {
    let mut r: Vec<(String, Json)> = Vec::new();
    for (key, value) in members {
        r.push((key.to_string(), value));
    }
    Json::Object(r)
}

fn number(n: &str) -> Json {
    Json::Number(n.to_string())
}

fn result(s: &str, details: Json) -> ToolResult {
    ToolResult {
        content: vec![Content::Text { text: s.to_string() }],
        details,
        retention: Retention::Normal,
    }
}

fn run(params: Json) -> FetchRun {
    FetchRun::start(&params).unwrap()
}

fn response(status: u16, content_type: &str) -> SendOutcome {
    SendOutcome::Response {
        status,
        content_type: content_type.to_string(),
    }
}

fn page(url: &str) -> FetchRun {
    run(object(vec![("url", text(url))]))
}

#[test]
fn truncation_walks_back_to_a_boundary() {
    let note = "\n... (response truncated at 512KB)";
    assert_eq!(truncate_text_for_test("abc".to_string(), 3), "abc");
    assert_eq!(truncate_text_for_test("abcd".to_string(), 3), format!("abc{}", note));
    assert_eq!(truncate_text_for_test("ab图d".to_string(), 4), format!("ab{}", note));
    assert_eq!(truncate_text_for_test("图".to_string(), 2), note);
    assert_eq!(truncate_text_for_test("".to_string(), 0), "");
    let long = "x".repeat(512 * 1024);
    assert_eq!(truncate_text(long.clone()), long);
    assert_eq!(truncate_text(format!("{}y", long)), format!("{}{}", long, note));
}

#[test]
fn short_pages_without_headers_want_a_browser() {
    assert!(should_try_browser_fallback("", false));
    assert!(should_try_browser_fallback(&"x".repeat(199), false));
    assert!(!should_try_browser_fallback(&"x".repeat(200), false));
    assert!(should_try_browser_fallback(&format!("  {}\n\n", "x".repeat(199)), false));
    assert!(!should_try_browser_fallback(&"é".repeat(100), false));
    assert!(!should_try_browser_fallback("", true));
}

#[test]
fn binary_content_types() {
    for ct in [
        "application/pdf",
        "application/octet-stream",
        "application/zip",
        "application/x-zip-compressed",
        "application/gzip",
        "application/x-tar",
        "application/x-rar-compressed",
        "application/x-7z-compressed",
        "application/wasm",
        "application/vnd.ms-excel",
        "application/vnd.openxmlformats-officedocument.spreadsheetml.sheet",
        "application/vnd.ms-powerpoint",
        "application/vnd.openxmlformats-officedocument.presentationml.presentation",
        "application/msword",
        "application/vnd.openxmlformats-officedocument.wordprocessingml.document",
        "image/png",
        "audio/mpeg",
        "video/mp4",
        " application/pdf ; charset=binary",
        "image/svg+xml; charset=utf-8",
    ] {
        assert!(is_binary_content_type(ct), "{}", ct);
    }
    for ct in [
        "",
        "text/html",
        "text/html; charset=utf-8",
        "application/json",
        "application/pdfx",
        "text/plain; type=image/png",
        "Application/PDF",
    ] {
        assert!(!is_binary_content_type(ct), "{}", ct);
    }
}

#[test]
fn html_becomes_text() {
    let html = "<html><body><h1>Title</h1><p>Some <b>bold</b> words</p></body></html>";
    let expected = html2text::from_read(html.as_bytes(), 100).unwrap();
    let shown = html_to_text(html);
    assert_eq!(shown, expected);
    assert!(shown.contains("Title"));
    assert!(!shown.contains("<p>"));
    let wide = format!("<p>{}</p>", "word ".repeat(50));
    assert!(html_to_text(&wide).lines().all(|line| line.len() <= 100));
    assert!(html_to_text(&wide).lines().any(|line| line.len() > 90));
    assert_eq!(choose_text("<p>", Some("t".to_string())), "t");
    assert_eq!(choose_text("<p>", None), "<p>");
}

#[test]
fn tool_describes_itself() {
    let tool = WebFetchTool::new();
    assert_eq!(tool, WebFetchTool::default());
    assert_eq!(tool.name(), "web_fetch");
    assert_eq!(tool.label(), "Fetch URL");
    assert_eq!(
        tool.description(),
        "Fetches content from a URL. Returns the response body as text with a 512KB size limit.\n\
         \n\
         Use this tool to retrieve web pages, API responses, or any HTTP-accessible content.\n\
         Supports custom HTTP headers for authenticated requests.\n\
         \n\
         When you don't know the exact URL, search first using:\n\
         https://html.duckduckgo.com/html/?q=YOUR+SEARCH+TERMS\n\
         This returns search results with links you can then fetch directly.\n\
         \n\
         Parameters:\n\
         - url (required): The URL to fetch\n\
         - headers (optional): A JSON object of HTTP headers to include in the request"
    );
    assert_eq!(
        tool.parameters_schema().text(),
        "{\"type\":\"object\",\"properties\":{\"url\":{\"type\":\"string\",\
         \"description\":\"The URL to fetch\"},\"headers\":{\"type\":\"object\",\
         \"description\":\"Optional HTTP headers as key-value pairs\",\
         \"additionalProperties\":{\"type\":\"string\"}}},\"required\":[\"url\"]}"
    );
    assert_eq!(tool.progress_text(), "Rendering page with browser...");
}

#[test]
fn request_needs_a_url() {
    let missing = Err(ToolError::InvalidArgs("missing 'url' parameter".to_string()));
    assert_eq!(FetchRun::start(&object(vec![])), missing);
    assert_eq!(FetchRun::start(&Json::Null), missing);
    assert_eq!(FetchRun::start(&object(vec![("url", Json::Null)])), missing);
}

#[test]
fn request_takes_the_headers_that_are_text() {
    let r = run(object(vec![
        ("url", text("http://a")),
        (
            "headers",
            object(vec![("A", text("1")), ("B", Json::Null), ("C", text("3"))]),
        ),
    ]));
    assert_eq!(r.phase, FetchPhase::Sending);
    assert_eq!(r.request.url, "http://a");
    assert!(r.request.has_custom_headers);
    assert_eq!(
        r.request.headers,
        vec![
            ("A".to_string(), "1".to_string()),
            ("C".to_string(), "3".to_string())
        ]
    );
    let odd = run(object(vec![
        ("url", text("http://a")),
        ("headers", object(vec![("B", Json::Null)])),
    ]));
    assert!(odd.request.has_custom_headers);
    assert!(odd.request.headers.is_empty());
    let none = run(object(vec![("url", text("http://a")), ("headers", object(vec![]))]));
    assert!(!none.request.has_custom_headers);
    let wrong = run(object(vec![("url", text("http://a")), ("headers", text("x"))]));
    assert!(!wrong.request.has_custom_headers);
}

#[test]
fn failures_end_the_fetch() {
    assert_eq!(
        page("u").sent(SendOutcome::Cancelled).finish(),
        Err(ToolError::Cancelled)
    );
    assert_eq!(
        page("u")
            .sent(SendOutcome::NoClient { cause: "tls".to_string() })
            .finish(),
        Err(ToolError::Failed("Failed to create HTTP client: tls".to_string()))
    );
    assert_eq!(
        page("u")
            .sent(SendOutcome::Failed { cause: "dns".to_string() })
            .finish(),
        Err(ToolError::Failed("Fetch failed: dns".to_string()))
    );
    for status in [200, 404] {
        assert_eq!(
            page("u")
                .sent(response(status, "text/plain"))
                .read(Err("eof".to_string()))
                .finish(),
            Err(ToolError::Failed("Failed to read response body: eof".to_string()))
        );
    }
}

#[test]
fn refusals_report_status_and_body() {
    let r = page("http://x").sent(response(404, "image/png"));
    assert_eq!(r.phase, FetchPhase::ReadingRefusal { status: 404 });
    assert_eq!(
        r.read(Ok("gone".to_string())).finish(),
        Ok(result(
            "HTTP 404 error fetching http://x",
            object(vec![
                ("status", number("404")),
                ("error", Json::Bool(true)),
                ("body", text("gone")),
            ])
        ))
    );
    assert_eq!(
        page("u").sent(response(399, "text/plain")).phase,
        FetchPhase::ReadingBody { status: 399, is_html: false }
    );
}

#[test]
fn binary_content_is_not_shown() {
    assert_eq!(
        page("u").sent(response(200, "image/png; q=1")).finish(),
        Ok(result(
            "Cannot display binary content (content-type: image/png; q=1). Only text-based URLs are supported.",
            object(vec![("status", number("200")), ("binary", Json::Bool(true))])
        ))
    );
}

#[test]
fn plain_text_is_shown_as_it_is() {
    assert_eq!(
        page("u")
            .sent(response(200, "application/json"))
            .read(Ok("<p>{}</p>".to_string()))
            .finish(),
        Ok(result(
            "<p>{}</p>",
            object(vec![("status", number("200")), ("renderer", text("reqwest"))])
        ))
    );
}

#[test]
fn long_pages_are_shown_and_short_ones_rendered() {
    let long = format!("<p>{}</p>", "word ".repeat(60));
    let r = page("u").sent(response(200, "text/html; charset=utf-8"));
    assert_eq!(r.phase, FetchPhase::ReadingBody { status: 200, is_html: true });
    assert_eq!(
        r.read(Ok(long.clone())).finish(),
        Ok(result(
            &html_to_text(&long),
            object(vec![("status", number("200")), ("renderer", text("reqwest"))])
        ))
    );

    let short = "<p>Loading</p>".to_string();
    let r = page("u").sent(response(200, "text/html")).read(Ok(short.clone()));
    assert_eq!(
        r.phase,
        FetchPhase::Rendering { status: 200, fetched_text: html_to_text(&short) }
    );
    assert_eq!(
        r.rendered(Some("<p>Done</p>".to_string())).finish(),
        Ok(result(
            &html_to_text("<p>Done</p>"),
            object(vec![("status", number("200")), ("renderer", text("browser_fallback"))])
        ))
    );
    let r = page("u").sent(response(200, "text/html")).read(Ok(short.clone()));
    assert_eq!(
        r.rendered(None).finish(),
        Ok(result(
            &html_to_text(&short),
            object(vec![("status", number("200")), ("renderer", text("reqwest"))])
        ))
    );
}

#[test]
fn custom_headers_keep_the_browser_out() {
    let params = object(vec![
        ("url", text("u")),
        ("headers", object(vec![("A", text("1"))])),
    ]);
    let r = run(params)
        .sent(response(200, "text/html"))
        .read(Ok("<p>x</p>".to_string()));
    assert!(matches!(r.phase, FetchPhase::Done { .. }));
}

#[test]
fn page_text_decides_without_its_source() {
    let tool = WebFetchTool::new();
    assert_eq!(
        tool.on_page_text("short".to_string(), 200, false),
        BodyStep::Render { fetched_text: "short".to_string() }
    );
    assert_eq!(
        tool.on_page_text("short".to_string(), 201, true),
        BodyStep::Done(result(
            "short",
            object(vec![("status", number("201")), ("renderer", text("reqwest"))])
        ))
    );
    assert_eq!(
        tool.on_rendered_text("t".to_string(), 200),
        result(
            "t",
            object(vec![("status", number("200")), ("renderer", text("browser_fallback"))])
        )
    );
}

#[test]
fn pages_are_rendered_after_four_equal_readings() {
    let observed = |readings: &[usize]| {
        let mut watch = RenderWatch::new();
        let mut done: Vec<bool> = Vec::new();
        for len in readings {
            done.push(watch.observe(*len));
        }
        done
    };
    assert_eq!(observed(&[5, 5, 5, 5]), vec![false, false, false, true]);
    assert_eq!(observed(&[0, 0, 0, 0, 0]), vec![false; 5]);
    assert_eq!(
        observed(&[1, 5, 5, 5, 6, 6, 6, 6]),
        vec![false, false, false, false, false, false, false, true]
    );
    assert_eq!(observed(&[5, 5, 5, 5, 5, 4]), vec![false, false, false, true, true, false]);
}

#[test]
fn pages_that_are_rendered() {
    for page in [
        "",
        "<p>Start here = now</p>",
        "<p>starts=</p>",
        "<script>let start = now(); x.start=y; start == 5</script>",
        "<table><tr><td colspan=\"2\" rowspan=1>a</td></tr><tr><td>b</td><td>c</td></tr></table>",
        "<table><tr><td colspan = '99'>a</td><td colspan=x>b</td></tr><tr><td>c</td></tr></table>",
        "<table><tr><td colspan=07>a</td></tr><tr><td rowspan='0'>b</td></tr></table>",
        "<ol start=\"5\"><li>a</li></ol><ol start=999999999><li>b</li><li>c</li></ol>",
        "<ol START = 'a'><li>a</li></ol><ol start><li>b</li></ol><ol start=",
        "<table><tr><td>a</td><td>b</td></tr></table>",
        "a rowspan of two, a colspan, the start of it",
        "&amp; &nbsp; &#39; &#x27; &#8217; &#8204; &#99999999999; &#; &#x;",
        "caf\u{e9} \u{4e2d}\u{6587} \u{2764} \u{1f600} \u{5d0} \u{627}",
    ] {
        assert!(is_renderable(page), "{}", page);
        html_to_text(page);
    }
}

#[test]
fn pages_that_are_not_rendered() {
    for page in [
        "<td rowspan=\"2\">",
        "<td ROWSPAN=2>",
        "<td rowspan \n = 2>",
        "<td rowspan='1&#48;'>",
        "<td colspan='0'>",
        "<td colspan=100>",
        "<td colspan=+2>",
        "<td colspan=\"&#57;9\">",
        "<td colspan=\"9&#57;\">",
        "<td colspan=99999999999999999999>",
        "<ol start=\"9223372036854775807\">",
        "<ol start=1000000000>",
        "<ol start=-1>",
        "<PRE>\t</PRE>",
        "<Template>",
        "\u{2764}\u{fe0f}",
        "a\u{200d}b",
        "\u{1f44d}\u{1f3fd}",
        "\u{644}\u{627}",
        "&zwj;",
        "&#8205;",
        "&#0008205",
        "&#x200d;",
        "&#X200D;",
        "&#65039;",
    ] {
        assert!(!is_renderable(page), "{}", page);
    }
}

#[test]
fn every_other_character_is_rendered_near_the_end_of_a_line() {
    let mut text = String::from("<p>");
    let mut n: usize = 0;
    for c in (0x20u32..0x2_0000).filter_map(char::from_u32) {
        if c == '<' || c == '&' || !is_renderable(&c.to_string()) {
            continue;
        }
        text.push(c);
        n += 1;
        if n % 7 == 0 {
            text.push(' ');
        }
    }
    text.push_str("</p>");
    assert!(is_renderable(&text));
    assert!(html_to_text(&text).lines().count() > 100);
    let struck = format!("<del>{}</del>", &text[3..text.len() - 4]);
    assert!(html_to_text(&struck).lines().count() > 100);
}

#[test]
fn tables_and_lists_are_rendered() {
    let page = "<table><thead><tr><th>a</th></tr></thead><tbody><tr><td><table><tr><td>b</td>\
                </tr></table></td><td>c</td></tr><tr></tr></tbody><tfoot><tr><td>d</td></tr></tfoot>\
                </table><ol><li>e<ul><li>f</li></ul></li></ol><dl><dt>g</dt><dd>h</dd></dl>\
                <blockquote>i<sup>2</sup></blockquote>";
    assert!(is_renderable(page));
    assert_eq!(
        html_to_text(page),
        html2text::from_read(page.as_bytes(), 100).unwrap()
    );
}

#[test]
fn spans_of_columns_are_rendered() {
    let page = "<table><tr><td colspan=\"2\">ab</td><td>c</td></tr><tr><td>d</td>\
                <td colspan='3'>e</td></tr><tr><td colspan=99><table><tr><td colspan=4>f</td>\
                </tr></table></td></tr><tr><td></td></tr></table><ol start=7><li>g</li></ol>";
    assert!(is_renderable(page));
    let shown = html_to_text(page);
    assert_eq!(shown, html2text::from_read(page.as_bytes(), 100).unwrap());
    assert!(shown.contains("7. g"));
    let narrow = format!("<table><tr>{}</tr></table>", "<td colspan=3>word</td>".repeat(60));
    assert!(is_renderable(&narrow));
    assert!(html_to_text(&narrow).contains("word"));
}

#[test]
fn spans_are_left_to_the_host() {
    let spans = "<table><tr><td rowspan=\"2\">a</td><td>b</td></tr><tr><td>c</td></tr></table>";
    let r = page("u").sent(response(200, "text/html")).read(Ok(spans.to_string()));
    assert_eq!(
        r.phase,
        FetchPhase::Extracting { status: 200, html: spans.to_string() }
    );
    let text_of_page = html2text::from_read(spans.as_bytes(), 100).unwrap();
    let r = r.extracted(Some(text_of_page.clone()));
    assert_eq!(
        r.phase,
        FetchPhase::Rendering { status: 200, fetched_text: text_of_page }
    );
    let r = r.rendered(Some(spans.to_string()));
    assert_eq!(
        r.phase,
        FetchPhase::ExtractingRendered { status: 200, html: spans.to_string() }
    );
    assert_eq!(
        r.extracted(None).finish(),
        Ok(result(
            spans,
            object(vec![("status", number("200")), ("renderer", text("browser_fallback"))])
        ))
    );

    let long = format!("<pre>{}</pre>", "word ".repeat(60));
    let r = page("u").sent(response(200, "text/html")).read(Ok(long.clone()));
    assert_eq!(
        r.extracted(Some("word ".repeat(60))).finish(),
        Ok(result(
            &"word ".repeat(60),
            object(vec![("status", number("200")), ("renderer", text("reqwest"))])
        ))
    );
    let plain = page("u").sent(response(200, "text/plain")).read(Ok(long.clone()));
    assert_eq!(
        plain.finish(),
        Ok(result(
            &long,
            object(vec![("status", number("200")), ("renderer", text("reqwest"))])
        ))
    );
}

#[test]
fn browser_errors_name_the_step() {
    assert_eq!(launch_error("x"), "Browser launch failed: x");
    assert_eq!(tab_error("x"), "Failed to open tab: x");
    assert_eq!(navigation_error("x"), "Navigation failed: x");
    assert_eq!(content_error("x"), "Failed to get content: x");
}

#[test]
fn a_page_is_read_until_it_is_rendered_or_time_is_up() {
    let mut watch = RenderWatch::new();
    assert!(watch.reads_again(0));
    assert!(watch.reads_again(4999));
    assert!(!watch.reads_again(5000));
    for _ in 0..3 {
        watch.observe(9);
        assert!(watch.reads_again(100));
    }
    watch.observe(9);
    assert!(!watch.reads_again(100));
}

#[test]
fn outer_spaces_and_parameters_of_a_content_type_do_not_matter() {
    for ct in ["image/png", "text/html", "application/pdf; a=b", ""] {
        let binary = is_binary_content_type(ct);
        assert_eq!(is_binary_content_type(&format!(" {} ", ct)), binary);
        assert_eq!(is_binary_content_type(&format!("{}; q=\"image/png\"", ct)), binary);
    }
}
