use famiibo::paths::{path_category_title, path_components, path_file_stem, path_join, path_with_extension};

fn chars(s: &str) -> Vec<char> {
    s.chars().collect()
}

fn text(v: &[char]) -> String {
    v.iter().collect()
}

#[test]
fn components_follow_std() {
    for p in ["public/amiibo/x", "/a//b/./c/", "./a/..", ".", "", "a/.", "//", "../x"] {
        let ours: Vec<String> = path_components(&chars(p)).iter().map(|c| text(c)).collect();
        let std: Vec<String> = std::path::Path::new(p)
            .components()
            .map(|c| c.as_os_str().to_str().unwrap().to_string())
            .collect();
        assert_eq!(ours, std, "components of {:?}", p);
    }
}

#[test]
fn category_titles_follow_the_components_below_the_root() {
    let title = |p: &str| path_category_title(&chars(p)).map(|t| text(&t));
    assert_eq!(title("public/amiibo/Smash/Fighters"), Some("Smash Fighters ".to_string()));
    assert_eq!(title("public//amiibo/./x/"), Some("x ".to_string()));
    assert_eq!(title("public/amiibo/../x"), Some(".. x ".to_string()));
    assert_eq!(title("public/amiibo"), Some("".to_string()));
    assert_eq!(title("./public/amiibo/x"), None);
    assert_eq!(title("/public/amiibo/x"), None);
    assert_eq!(title("public/other/x"), None);
}

#[test]
fn stems_and_extensions_follow_std() {
    for p in ["a/b.c", "a/.hidden", "a/b.", "a/b.c/", "a/b.c/.", "..", "/", "x.tar.gz", "a/..", ""] {
        let std_path = std::path::Path::new(p);
        let ours = path_file_stem(&chars(p)).map(|s| text(&s));
        let std = std_path.file_stem().map(|s| s.to_str().unwrap().to_string());
        assert_eq!(ours, std, "stem of {:?}", p);
        let ours = text(&path_with_extension(&chars(p), &chars("bin")));
        let std = std_path.with_extension("bin").to_str().unwrap().to_string();
        assert_eq!(ours, std, "extension of {:?}", p);
    }
}

#[test]
fn joins_follow_std() {
    for (a, b) in [("public", "amiibo"), ("public/", "x"), ("", "x"), ("a", "/abs"), ("a", "")] {
        let ours = text(&path_join(&chars(a), &chars(b)));
        let std = std::path::Path::new(a).join(b).to_str().unwrap().to_string();
        assert_eq!(ours, std, "join of {:?} and {:?}", a, b);
    }
}

