use agent_tools::json::Json;
use agent_tools::parameter_completion::{
    auto_complete_parameters, complete_write_file_params, detect_file_type_and_name,
    extract_directory_from_context, extract_svg_title, generate_unique_filename, path_added,
    sanitize_filename, suggest_file_path, ParameterCompletionContext,
};

fn text(s: &str) -> Json {
    Json::Text(s.to_string())
}

fn object(members: Vec<(&str, Json)>) -> Json {
    let mut r: Vec<(String, Json)> = Vec::new();
    for (key, value) in members {
        r.push((key.to_string(), value));
    }
    Json::Object(r)
}

fn context(cwd: &str) -> ParameterCompletionContext {
    ParameterCompletionContext::new(cwd.to_string())
}

fn detect(content: &str) -> (String, String) {
    detect_file_type_and_name(content)
}

fn pair(a: &str, b: &str) -> (String, String) {
    (a.to_string(), b.to_string())
}

#[test]
fn test_svg_detection() {
    let svg_content = r##"<svg xmlns="http://www.w3.org/2000/svg" viewBox="0 0 800 600">
            <title>Dashboard Mockup</title>
            <rect width="800" height="600" fill="#f5f5f5"/>
        </svg>"##;

    let (ext, name) = detect_file_type_and_name(svg_content);
    assert_eq!(ext, "svg");
    assert_eq!(name, "Dashboard_Mockup");
}

#[test]
fn test_write_file_completion() {
    let context = ParameterCompletionContext::new("/tmp".to_string())
        .with_task_context("save to /data1/test/mockup directory".to_string());

    let mut params = object(vec![("content", text("<svg><title>Login Page</title></svg>"))]);

    let result = complete_write_file_params(&mut params, &context, &Vec::new()).unwrap();
    let path = result.get("path").unwrap().as_text().unwrap();

    assert!(path.contains("Login_Page"));
    assert!(path.ends_with(".svg"));
}

#[test]
fn test_filename_sanitization() {
    assert_eq!(
        sanitize_filename("file/name:with*bad?chars"),
        "file_name_with_bad_chars"
    );
    assert_eq!(sanitize_filename("normal_filename"), "normal_filename");
}

#[test]
fn sanitizing_maps_every_invalid_character_and_strips_dots() {
    assert_eq!(sanitize_filename("a/b\\c:d*e?f\"g<h>i|j"), "a_b_c_d_e_f_g_h_i_j");
    assert_eq!(sanitize_filename("two words"), "two_words");
    assert_eq!(sanitize_filename("tab\there\u{7f}\u{85}"), "tab_here__");
    assert_eq!(sanitize_filename("..hidden.txt.."), "hidden.txt");
    assert_eq!(sanitize_filename("..."), "");
    assert_eq!(sanitize_filename(""), "");
    assert_eq!(sanitize_filename("图表\u{a0}"), "图表\u{a0}");
}

#[test]
fn sanitizing_twice_changes_nothing() {
    for name in ["a/b", ". x .", "图 表", "\u{1}\u{2}", "plain"] {
        let once = sanitize_filename(name);
        assert_eq!(sanitize_filename(&once), once);
    }
}

#[test]
fn detects_each_file_type() {
    assert_eq!(detect("  <svg></svg>"), pair("svg", "diagram"));
    assert_eq!(detect("<?xml version=\"1.0\"?><svg/>"), pair("svg", "diagram"));
    assert_eq!(detect("<?xml version=\"1.0\"?><x/>"), pair("txt", "file"));
    assert_eq!(detect("<!DOCTYPE html><p>"), pair("html", "page"));
    assert_eq!(detect("\u{3000}<html>"), pair("html", "page"));
    assert_eq!(detect(" {\"a\": 1}\n"), pair("json", "data"));
    assert_eq!(detect("[1]"), pair("json", "data"));
    assert_eq!(detect("{"), pair("txt", "file"));
    assert_eq!(detect("body { color: red } /* x */"), pair("css", "styles"));
    assert_eq!(detect("body { margin: 0 } x"), pair("css", "styles"));
    assert_eq!(detect("p { font-size: 1px } x"), pair("css", "styles"));
    assert_eq!(detect("const x = 1;"), pair("js", "script"));
    assert_eq!(detect("a let b"), pair("js", "script"));
    assert_eq!(detect("var x;"), pair("js", "script"));
    assert_eq!(detect("function f() {}"), pair("js", "script"));
    assert_eq!(detect("def f():"), pair("py", "script"));
    assert_eq!(detect("import os"), pair("py", "script"));
    assert_eq!(detect("from x"), pair("py", "script"));
    assert_eq!(detect("#!/usr/bin/env python"), pair("py", "script"));
    assert_eq!(detect("# Title"), pair("md", "document"));
    assert_eq!(detect("```"), pair("md", "document"));
    assert_eq!(detect("hello"), pair("txt", "file"));
    assert_eq!(detect(""), pair("txt", "file"));
}

#[test]
fn svg_titles_and_purposes() {
    assert_eq!(extract_svg_title("<title> My / Page </title>"), Some("My___Page".to_string()));
    assert_eq!(extract_svg_title("<title>a</title><title>b</title>"), Some("a".to_string()));
    assert_eq!(extract_svg_title("<title>  </title> a login form"), Some("login".to_string()));
    assert_eq!(extract_svg_title("<title>open"), None);
    assert_eq!(extract_svg_title("</title><title>x"), None);
    assert_eq!(extract_svg_title("这是仪表板"), Some("dashboard".to_string()));
    assert_eq!(extract_svg_title("登录"), Some("login".to_string()));
    assert_eq!(extract_svg_title("图表"), Some("chart".to_string()));
    assert_eq!(extract_svg_title("视觉稿"), Some("mockup".to_string()));
    assert_eq!(extract_svg_title("mockup of a chart"), Some("chart".to_string()));
    assert_eq!(extract_svg_title("<svg/>"), None);
}

#[test]
fn directories_from_the_task_context() {
    let dir = |s: &str| extract_directory_from_context(s);
    assert_eq!(
        dir("save to /data1/test/mockup directory"),
        Some("/mockup".to_string())
    );
    assert_eq!(dir("in /a/b mockups/x.svg please"), Some("/b mockups/x.svg".to_string()));
    assert_eq!(dir("in /x/mockups"), Some("/mockups".to_string()));
    assert_eq!(dir("mockup in /srv/app/main.rs now"), Some("/srv/app".to_string()));
    assert_eq!(dir("see /srv/app/ now"), Some("/srv".to_string()));
    assert_eq!(dir("see /srv//./app/./ now"), Some("/srv".to_string()));
    assert_eq!(dir("see //srv/app now"), Some("//srv".to_string()));
    assert_eq!(dir("see /srv now"), Some("/".to_string()));
    assert_eq!(dir("see / and /. and /tmp/x"), Some("/tmp".to_string()));
    assert_eq!(dir("see a/b"), None);
    assert_eq!(dir(""), None);
}

#[test]
fn parents_agree_with_the_standard_library() {
    for path in [
        "/a", "/a/b", "/a/b/", "/a//b", "/a/./b", "/a/b/.", "/", "//", "/.", "/./", "//a", "//a/b", "/..",
        "/a/..", "/./a", "/a/.b", "/a/b..", "/.a",
    ] {
        let expected = std::path::Path::new(path)
            .parent()
            .map(|p| p.to_string_lossy().to_string());
        assert_eq!(agent_tools::paths::parent_of(path), expected, "{}", path);
    }
}

#[test]
fn joins_agree_with_the_standard_library() {
    for directory in ["", "/", "/a", "/a/", "a", "a/b"] {
        for name in ["x.txt", "/abs", ".x", ""] {
            let expected = std::path::PathBuf::from(directory)
                .join(name)
                .to_string_lossy()
                .to_string();
            assert_eq!(agent_tools::paths::join(directory, name), expected);
        }
    }
}

#[test]
fn unique_names_count_up() {
    let mut taken: Vec<String> = Vec::new();
    assert_eq!(
        generate_unique_filename("/d", "n", "txt", &taken),
        Ok("n.txt".to_string())
    );
    taken.push("/d/n.txt".to_string());
    assert_eq!(
        generate_unique_filename("/d", "n", "txt", &taken),
        Ok("n_1.txt".to_string())
    );
    taken.push("/d/n_1.txt".to_string());
    taken.push("/d/n_3.txt".to_string());
    assert_eq!(
        generate_unique_filename("/d", "n", "txt", &taken),
        Ok("n_2.txt".to_string())
    );
    assert_eq!(
        generate_unique_filename("/e", "a b", "md", &taken),
        Ok("a_b.md".to_string())
    );
}

#[test]
fn unique_names_run_out_after_a_thousand_tries() {
    let mut taken: Vec<String> = vec!["/d/n.txt".to_string()];
    for k in 1..999 {
        taken.push(format!("/d/n_{}.txt", k));
    }
    assert_eq!(
        generate_unique_filename("/d", "n", "txt", &taken),
        Ok("n_999.txt".to_string())
    );
    taken.push("/d/n_999.txt".to_string());
    assert_eq!(
        generate_unique_filename("/d", "n", "txt", &taken),
        Err("Unable to generate unique filename".to_string())
    );
}

#[test]
fn suggestions_use_the_working_directory_without_a_task() {
    assert_eq!(
        suggest_file_path("# Title", &context("/w"), &Vec::new()),
        Ok("/w/document.md".to_string())
    );
    let elsewhere = context("/w").with_task_context("write /x/y/z".to_string());
    assert_eq!(
        suggest_file_path("# Title", &elsewhere, &Vec::new()),
        Ok("/x/y/document.md".to_string())
    );
    let nowhere = context("/w").with_task_context("write it".to_string());
    assert_eq!(
        suggest_file_path("# Title", &nowhere, &Vec::new()),
        Ok("/w/document.md".to_string())
    );
}

#[test]
fn completion_adds_only_a_missing_path() {
    let none: Vec<String> = Vec::new();
    let given = object(vec![("path", text("/p")), ("content", text("x"))]);
    assert_eq!(
        auto_complete_parameters("write_file", given, &context("/w"), &none),
        Ok(object(vec![("path", text("/p")), ("content", text("x"))]))
    );
    let odd = object(vec![("content", Json::Null)]);
    assert_eq!(
        auto_complete_parameters("write_file", odd, &context("/w"), &none),
        Ok(object(vec![("content", Json::Null)]))
    );
    let empty = object(vec![]);
    assert_eq!(
        auto_complete_parameters("write_file", empty, &context("/w"), &none),
        Ok(object(vec![]))
    );
    let other = object(vec![("content", text("x"))]);
    assert_eq!(
        auto_complete_parameters("read_file", other, &context("/w"), &none),
        Ok(object(vec![("content", text("x"))]))
    );
    let before = object(vec![("content", text("x"))]);
    let after = auto_complete_parameters(
        "write_file",
        object(vec![("content", text("x"))]),
        &context("/w"),
        &none,
    )
    .unwrap();
    assert_eq!(
        after,
        object(vec![("content", text("x")), ("path", text("/w/file.txt"))])
    );
    assert_eq!(path_added(&before, &after), Some("/w/file.txt".to_string()));
    assert_eq!(path_added(&after, &after), None);
}

#[test]
fn completion_needs_an_object() {
    let mut params = text("x");
    assert_eq!(
        complete_write_file_params(&mut params, &context("/w"), &Vec::new()),
        Err("Parameters must be an object".to_string())
    );
    assert_eq!(params, text("x"));
}

#[test]
fn completion_changes_the_parameters_in_place() {
    let mut params = object(vec![("content", text("[]"))]);
    let taken = vec!["/w/data.json".to_string()];
    let r = complete_write_file_params(&mut params, &context("/w"), &taken).unwrap();
    assert_eq!(r, params);
    assert_eq!(
        params,
        object(vec![("content", text("[]")), ("path", text("/w/data_1.json"))])
    );
}

#[test]
fn tries_follow_the_task_context_in_order() {
    let elsewhere = context("/w").with_task_context("write /x/y/z".to_string());
    let given = object(vec![("content", text("x"))]);
    let mut taken: Vec<String> = Vec::new();
    for expected in ["/x/y/file.txt", "/x/y/file_1.txt", "/x/y/file_2.txt"] {
        let completed =
            auto_complete_parameters("write_file", given.copy(), &elsewhere, &taken).unwrap();
        let path = path_added(&given, &completed).unwrap();
        assert_eq!(path, expected);
        taken.push(path);
    }
}
