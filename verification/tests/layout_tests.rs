use bordered::layout::{container_width_class, header_style_class, nav_link_class, normalize_path};

#[test]
fn container_width_classes() {
    assert_eq!(container_width_class("narrow"), "atlas-container-narrow");
    assert_eq!(container_width_class("wide"), "atlas-container-wide");
    assert_eq!(container_width_class("full"), "atlas-container-full");
    assert_eq!(container_width_class("other"), "atlas-container-wide");
    assert_eq!(container_width_class(""), "atlas-container-wide");
    assert_eq!(container_width_class("Narrow"), "atlas-container-wide");
}

#[test]
fn header_style_classes() {
    assert_eq!(header_style_class("solid"), "atlas-header-solid");
    assert_eq!(header_style_class("glass"), "atlas-glass");
    assert_eq!(header_style_class("other"), "atlas-header-solid");
    assert_eq!(header_style_class(""), "atlas-header-solid");
}

#[test]
fn nav_link_classes() {
    assert_eq!(nav_link_class(true), "atlas-nav-link is-active");
    assert_eq!(nav_link_class(false), "atlas-nav-link");
}

#[test]
fn paths_are_normalized() {
    assert_eq!(normalize_path(""), "/");
    assert_eq!(normalize_path("   "), "/");
    assert_eq!(normalize_path("/"), "/");
    assert_eq!(normalize_path("///"), "/");
    assert_eq!(normalize_path(" / "), "/");
    assert_eq!(normalize_path("/about"), "/about");
    assert_eq!(normalize_path("/about/"), "/about");
    assert_eq!(normalize_path("  /about//  "), "/about");
    assert_eq!(normalize_path("about"), "about");
    assert_eq!(normalize_path("/a/b/"), "/a/b");
    assert_eq!(normalize_path("/a b/"), "/a b");
    assert_eq!(normalize_path("/about/ /"), "/about/ ");
    assert_eq!(normalize_path("\t/x\n"), "/x");
    assert_eq!(normalize_path("\u{a0}/x\u{3000}\u{2003}"), "/x");
    assert_eq!(normalize_path("\u{200b}/x/"), "\u{200b}/x");
    assert_eq!(normalize_path("/caf\u{e9}/"), "/caf\u{e9}");
}

#[test]
fn normalizing_agrees_with_trimming() {
    for path in ["", " ", "/", "a/", " a//", "\u{85}a/\u{1680}", "\u{2028}/\u{2029}", "\u{202f}x\u{205f}", "\u{b}\u{c}\r/y/ \u{2000}\u{200a}"] {
        let trimmed = path.trim();
        let expected = if trimmed.is_empty() {
            "/".to_string()
        } else {
            let stripped = trimmed.trim_end_matches('/');
            if stripped.is_empty() { "/".to_string() } else { stripped.to_string() }
        };
        assert_eq!(normalize_path(path), expected, "{:?}", path);
    }
}
