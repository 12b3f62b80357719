use epub_reader::paths::{build_full_path, dirname, normalize_path_simple, resolve_relative_path};

#[test]
fn normalize_collapses_dots_and_empty_segments() {
    assert_eq!(normalize_path_simple("OEBPS//ch1.xhtml"), "OEBPS/ch1.xhtml");
    assert_eq!(normalize_path_simple("./a/b/../c"), "a/c");
    assert_eq!(normalize_path_simple("a/./b"), "a/b");
    assert_eq!(normalize_path_simple("a/b/"), "a/b");
}

#[test]
fn normalize_preserves_leading_slash() {
    assert_eq!(normalize_path_simple("/abs/./x"), "/abs/x");
    assert_eq!(normalize_path_simple("/"), "/");
}

#[test]
fn normalize_never_underflows_root() {
    assert_eq!(normalize_path_simple(".."), "");
    assert_eq!(normalize_path_simple("a/../../b"), "b");
    assert_eq!(normalize_path_simple("../../x"), "x");
}

#[test]
fn normalize_is_idempotent_on_samples() {
    let samples = [
        "",
        "/",
        "a//b/../c/./d",
        "../x",
        "/../a",
        "OEBPS/Text/../Styles//main.css",
        "weird\\name",
        "a/b/c",
    ];
    for s in samples {
        let once = normalize_path_simple(s);
        let twice = normalize_path_simple(&once);
        assert_eq!(once, twice);
    }
}

#[test]
fn resolve_pops_single_segment_base_without_underflow() {
    assert_eq!(resolve_relative_path("base", "../x"), "x");
}

#[test]
fn resolve_strips_fragment_and_applies_components() {
    assert_eq!(
        resolve_relative_path("OEBPS", "../Text/intro.xhtml#frag"),
        "Text/intro.xhtml"
    );
    assert_eq!(resolve_relative_path("OEBPS", "ch2.xhtml"), "OEBPS/ch2.xhtml");
    assert_eq!(resolve_relative_path("", "ch2.xhtml"), "ch2.xhtml");
}

#[test]
fn resolve_treats_leading_slash_as_root_absolute() {
    assert_eq!(resolve_relative_path("OEBPS", "/abs/x#frag"), "abs/x");
    assert_eq!(resolve_relative_path("OEBPS", "//abs"), "abs");
}

#[test]
fn build_full_path_joins_and_normalizes() {
    assert_eq!(build_full_path("", "ch1.xhtml"), "ch1.xhtml");
    assert_eq!(build_full_path("OEBPS", "ch1.xhtml"), "OEBPS/ch1.xhtml");
    assert_eq!(build_full_path("OEBPS", "../ch1.xhtml"), "ch1.xhtml");
    assert_eq!(build_full_path("OEBPS", "./Text//ch1.xhtml"), "OEBPS/Text/ch1.xhtml");
}

#[test]
fn dirname_takes_the_containing_directory() {
    assert_eq!(dirname("OEBPS/content.opf"), "OEBPS");
    assert_eq!(dirname("content.opf"), "");
    assert_eq!(dirname("a/b/c.opf"), "a/b");
}
