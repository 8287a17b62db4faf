use cymatrox::live::{
    effective_every, escape_js, keeps_frame, mime_of, ok_text, parse_query, ping_reply, route_target,
    safe_under, sim_reply, site_relative, split_url, static_reply, Body, Route,
};
use cymatrox::{Error, GpuError};

fn text(b: &Body) -> &str {
    match b {
        Body::Text(s) => s.as_str(),
        Body::Bytes(_) => panic!("expected text"),
    }
}

#[test]
fn ok_text_is_json_200() {
    let r = ok_text("{}".to_string());
    assert_eq!(text(&r.0), "{}");
    assert_eq!(r.1, "application/json");
    assert_eq!(r.2, 200);
}

#[test]
fn ping_names_crate_and_version() {
    let r = ping_reply();
    assert_eq!(text(&r.0), r#"{"ok":true,"crate":"cymatrox","version":"0.1"}"#);
    assert_eq!(r.2, 200);
}

#[test]
fn escape_js_escapes_quotes_backslashes_newlines() {
    assert_eq!(escape_js(r#"a"b\c"#), r#"a\"b\\c"#);
    assert_eq!(escape_js("line1\nline2"), "line1 line2");
    assert_eq!(escape_js(""), "");
    assert_eq!(escape_js("plain"), "plain");
    assert_eq!(escape_js("\\\""), "\\\\\\\"");
}

#[test]
fn parse_query_splits_pairs() {
    let q = parse_query("f=440&n=5&m=3");
    assert_eq!(q.get("f").map(|s| s.as_str()), Some("440"));
    assert_eq!(q.get("n").map(|s| s.as_str()), Some("5"));
    assert_eq!(q.get("m").map(|s| s.as_str()), Some("3"));
    assert_eq!(q.get("count"), None);
}

#[test]
fn parse_query_edge_cases() {
    let q = parse_query("a=1&junk&b=x=y&a=2&=v&c=");
    assert_eq!(q.get("a").map(|s| s.as_str()), Some("2"));
    assert_eq!(q.get("junk"), None);
    assert_eq!(q.get("b").map(|s| s.as_str()), Some("x=y"));
    assert_eq!(q.get("").map(|s| s.as_str()), Some("v"));
    assert_eq!(q.get("c").map(|s| s.as_str()), Some(""));
    let empty = parse_query("");
    assert_eq!(empty.get(""), None);
}

#[test]
fn effective_every_bounds_frames() {
    assert_eq!(effective_every(320, 10, 240), 10);
    assert_eq!(effective_every(3000, 1, 240), 13);
    assert_eq!(effective_every(3000, 0, 240), 13);
    assert_eq!(effective_every(10, 0, 0), 11);
    assert_eq!(effective_every(0, 0, 0), 1);
    let e = effective_every(4000, 10, 240);
    assert!(4000 / e <= 240 && 4000 / (e - 1) > 240);
}

#[test]
fn mime_by_extension() {
    assert_eq!(mime_of("/index.html"), "text/html");
    assert_eq!(mime_of("/app.js"), "text/javascript");
    assert_eq!(mime_of("/mod.mjs"), "text/javascript");
    assert_eq!(mime_of("/style.css"), "text/css");
    assert_eq!(mime_of("/data/granular.json"), "application/json");
    assert_eq!(mime_of("/data/granular.json.gz"), "application/gzip");
    assert_eq!(mime_of("/logo.svg"), "image/svg+xml");
    assert_eq!(mime_of("/a.png"), "image/png");
    assert_eq!(mime_of("/favicon.ico"), "image/x-icon");
    assert_eq!(mime_of("/README"), "application/octet-stream");
    assert_eq!(mime_of("html"), "text/html");
    assert_eq!(mime_of("/trailing."), "application/octet-stream");
}

#[test]
fn routes() {
    assert_eq!(route_target("/api/ping"), Route::Ping);
    assert_eq!(route_target("/api/granular"), Route::Granular);
    assert_eq!(route_target("/api/fluid"), Route::Fluid);
    assert_eq!(route_target("/api/acoustic"), Route::Acoustic);
    assert_eq!(route_target("/"), Route::Static);
    assert_eq!(route_target("/api/granular/"), Route::Static);
}

#[test]
fn sim_reply_success_and_failure() {
    let ok = sim_reply("granular", Ok("{\"frames\":[]}".to_string()));
    assert_eq!(text(&ok.0), "{\"frames\":[]}");
    assert_eq!(ok.2, 200);

    let err = sim_reply(
        "fluid",
        Err(Error::Gpu(GpuError::Readback("bad \"map\"\nretry".to_string()))),
    );
    assert_eq!(err.1, "application/json");
    assert_eq!(err.2, 500);
    assert_eq!(
        text(&err.0),
        r#"{"error":"fluid failed","detail":"GPU initialization failed: GPU readback failed while retrieving simulation results: bad \"map\" retry"}"#
    );
}

#[test]
fn static_replies() {
    assert_eq!(site_relative("/"), "/index.html");
    assert_eq!(site_relative("/app.js"), "/app.js");

    let r = static_reply("/app.js", false, Some(vec![1, 2]));
    assert_eq!(text(&r.0), "forbidden");
    assert_eq!((r.1, r.2), ("text/plain", 403));

    let r = static_reply("/app.js", true, Some(vec![1, 2]));
    assert!(matches!(&r.0, Body::Bytes(b) if b == &vec![1u8, 2]));
    assert_eq!((r.1, r.2), ("text/javascript", 200));

    let r = static_reply("/missing.css", true, None);
    assert_eq!(text(&r.0), "not found");
    assert_eq!((r.1, r.2), ("text/plain", 404));
}

#[test]
fn safe_under_paths() {
    assert!(safe_under(Some("/srv/site"), None));
    assert!(!safe_under(None, Some("/srv/site/index.html")));
    assert!(safe_under(Some("/srv/site"), Some("/srv/site/index.html")));
    assert!(safe_under(Some("/srv/site"), Some("/srv/site")));
    assert!(!safe_under(Some("/srv/site"), Some("/etc/passwd")));
    assert!(!safe_under(Some("/srv/site"), Some("/srv/sitemap.xml")));
}

#[test]
fn safe_under_compares_components() {
    assert!(safe_under(Some("/srv/site"), Some("/srv/site/a/b.js")));
    assert!(safe_under(Some("/srv/site/"), Some("/srv//site/./a")));
    assert!(!safe_under(Some("/srv/site"), Some("/srv/other/site")));
    assert!(!safe_under(Some("/srv/site/a"), Some("/srv/site")));
    assert!(safe_under(Some("/"), Some("/etc/passwd")));
}

#[test]
fn escape_js_adds_one_char_per_backslash_or_quote() {
    let s = "say \"hi\"\\ now\nplease";
    let e = escape_js(s);
    assert_eq!(e.chars().count(), s.chars().count() + 3);
    let mut decoded = String::new();
    let mut it = e.chars();
    while let Some(c) = it.next() {
        if c == '\\' {
            decoded.push(it.next().unwrap());
        } else {
            decoded.push(c);
        }
    }
    assert_eq!(decoded, s.replace('\n', " "));
}

#[test]
fn split_url_separates_path_and_query() {
    let (path, q) = split_url("/api/granular?f=440&n=5");
    assert_eq!(path, "/api/granular");
    assert_eq!(q.get("f").map(|s| s.as_str()), Some("440"));
    assert_eq!(q.get("n").map(|s| s.as_str()), Some("5"));

    let (path, q) = split_url("/index.html");
    assert_eq!(path, "/index.html");
    assert_eq!(q.get("f"), None);

    let (path, q) = split_url("/a?b=c?d");
    assert_eq!(path, "/a");
    assert_eq!(q.get("b").map(|s| s.as_str()), Some("c?d"));
}

#[test]
fn kept_frames_follow_the_cadence() {
    assert!(keeps_frame(10, 10));
    assert!(!keeps_frame(9, 10));
    assert!(keeps_frame(7, 1));
    let steps = 320;
    let every = effective_every(steps, 10, 240);
    let kept = (1..=steps).filter(|&s| keeps_frame(s, every)).count();
    assert_eq!(kept, 32);
    let every = effective_every(3_000, 1, 240);
    assert_eq!(every, 13);
    let kept = (1..=3_000u32).filter(|&s| keeps_frame(s, every)).count();
    assert_eq!(kept, 230);
}
