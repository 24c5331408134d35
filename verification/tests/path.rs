use axum_openapi::path::{axum_path_to_openapi, path_params};

#[test]
fn axum_path() {
    assert_eq!(axum_path_to_openapi("/pets"), "/pets");
    assert_eq!(axum_path_to_openapi("/pets/:id"), "/pets/{id}");
    assert_eq!(axum_path_to_openapi("/pets/:id/"), "/pets/{id}/");
    assert_eq!(axum_path_to_openapi("pets/:id/"), "pets/{id}/");
}

#[test]
fn rewriting_a_rewritten_path_changes_nothing() {
    for path in ["/pets/:id", "/:a/:b/c", "", "/", ":x", "/{id}/:id", "/a:b/{c:d}", "/:"] {
        let once = axum_path_to_openapi(path);
        assert_eq!(axum_path_to_openapi(&once), once);
    }
}

#[test]
fn a_segment_in_braces_is_left_alone() {
    assert_eq!(axum_path_to_openapi("/pets/{id:int}/x"), "/pets/{id:int}/x");
    assert_eq!(axum_path_to_openapi("/a:b"), "/a:b");
    assert_eq!(axum_path_to_openapi("/:"), "/{}");
}

#[test]
fn the_placeholders_of_a_template_are_listed_from_left_to_right() {
    assert_eq!(path_params("/pets/{id}/{tag}"), vec!["id".to_string(), "tag".to_string()]);
    assert_eq!(path_params("/pets"), Vec::<String>::new());
    assert_eq!(path_params("/{}/{/}/{a"), vec!["".to_string()]);
    assert_eq!(path_params("{x}"), vec!["x".to_string()]);
}

fn rewritten_by_the_standard_library(path: &str) -> String {
    let segments: Vec<String> = path
        .split('/')
        .map(|segment| match segment.strip_prefix(':') {
            None => segment.to_string(),
            Some(name) => format!("{{{}}}", name),
        })
        .collect();
    segments.join("/")
}

fn placeholders_by_the_standard_library(path: &str) -> Vec<String> {
    path.split('/')
        .filter_map(|segment| segment.strip_prefix('{').and_then(|rest| rest.strip_suffix('}')))
        .map(str::to_string)
        .collect()
}

fn samples() -> Vec<String> {
    let pieces = ["", ":", ":id", "{id}", "{", "}", "{}", "pets", "a:b", "{a:b}", ":{x}", "\u{e4}", ":\u{1F600}"];
    let mut paths = Vec::new();
    for a in pieces {
        paths.push(a.to_string());
        for b in pieces {
            paths.push(format!("{}/{}", a, b));
            paths.push(format!("/{}/{}/", a, b));
            for c in pieces {
                paths.push(format!("{}/{}/{}", a, b, c));
            }
        }
    }
    paths
}

#[test]
fn paths_are_rewritten_segment_by_segment() {
    for path in samples() {
        let template = axum_path_to_openapi(&path);
        assert_eq!(template, rewritten_by_the_standard_library(&path), "{:?}", path);
        assert_eq!(axum_path_to_openapi(&template), template, "{:?}", path);
    }
}

#[test]
fn placeholders_are_the_segments_in_braces() {
    for path in samples() {
        assert_eq!(path_params(&path), placeholders_by_the_standard_library(&path), "{:?}", path);
    }
}
