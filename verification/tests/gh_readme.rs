use portunus_extensions::gh::readme::{
    absolutize, absolutize_readme, is_absolute_url, is_image_link, rewrite_attr, rewrite_md_links,
    truncate_md,
};

const RAW: &str = "https://raw.githubusercontent.com/o/r/main";
const BLOB: &str = "https://github.com/o/r/blob/main";

#[test]
fn absolute_addresses_are_told() {
    for u in ["", "  ", "#top", "//cdn.x/y", "https://x.y", "data:image/png", "mailto:a@b", "tel:1", " http://x "] {
        assert!(is_absolute_url(u), "{u}");
    }
    for u in ["a.png", "./a", "/a", "docs/#x", "httpx", "mail:to"] {
        assert!(!is_absolute_url(u), "{u}");
    }
}

#[test]
fn relative_addresses_go_under_the_base() {
    assert_eq!(absolutize("./img/a.png", "B"), "B/img/a.png");
    assert_eq!(absolutize(" //a", "B"), "B/a");
    assert_eq!(absolutize("/docs", "B"), "B/docs");
    assert_eq!(absolutize("../x", "B"), "B/../x");
}

#[test]
fn rewritten_link_stays() {
    let once = absolutize("./img/a.png", RAW);
    assert!(is_absolute_url(&once));
    assert_eq!(
        rewrite_md_links(&format!("[a]({once})"), "R", "B"),
        format!("[a]({once})")
    );
}

#[test]
fn image_brackets_are_told_from_links() {
    let at = |s: &str| {
        let chars: Vec<char> = s.chars().collect();
        let r = chars.iter().rposition(|c| *c == ']').unwrap();
        is_image_link(&chars, r)
    };
    assert!(at("![alt]"));
    assert!(!at("[alt]"));
    assert!(at("![a [b] c]"));
    assert!(!at("[![a] b]"));
    assert!(!at("alt]"));
}

#[test]
fn markdown_links_are_rewritten() {
    assert_eq!(
        rewrite_md_links("![a](x.png) [b](./d.md \"T\") [c](https://z)", RAW, BLOB),
        format!("![a]({RAW}/x.png) [b]({BLOB}/d.md \"T\") [c](https://z)")
    );
    assert_eq!(rewrite_md_links("[a](open", RAW, BLOB), "[a](open");
    assert_eq!(rewrite_md_links("a](b)c", RAW, BLOB), format!("a]({BLOB}/b)c"));
    assert_eq!(
        rewrite_md_links("[![badge](b.svg)](ci)", RAW, BLOB),
        format!("[![badge]({RAW}/b.svg)]({BLOB}/ci)")
    );
    assert_eq!(rewrite_md_links("\u{e9}[x]()", RAW, BLOB), "\u{e9}[x]()");
}

#[test]
fn attributes_are_rewritten() {
    assert_eq!(
        rewrite_attr("<img src=\"a.png\"><img src='b.png'><img src=c.png>", "src=", RAW),
        format!("<img src=\"{RAW}/a.png\"><img src='{RAW}/b.png'><img src=c.png>")
    );
    assert_eq!(rewrite_attr("src=\"open", "src=", RAW), "src=\"open");
    assert_eq!(rewrite_attr("src=\"https://x\" src=", "src=", RAW), "src=\"https://x\" src=");
}

#[test]
fn whole_readme_is_made_absolute() {
    let readme = "# T\n![i](i.png)\n<a href=\"docs\">d</a> <img src=\"/x.png\">\n";
    assert_eq!(
        absolutize_readme(readme, "o/r", "main"),
        format!("# T\n![i]({RAW}/i.png)\n<a href=\"{BLOB}/docs\">d</a> <img src=\"{RAW}/x.png\">\n")
    );
}

#[test]
fn absolute_readme_comes_through() {
    let readme = "[a](https://a) ![b](data:x) <a href='#y'>y</a> <img src=\"//z\"> ](";
    assert_eq!(absolutize_readme(readme, "o/r", "main"), readme);
}

#[test]
fn long_text_is_cut_at_a_character() {
    let short = "a".repeat(65_536);
    assert_eq!(truncate_md(short.clone()), short);
    let long = "a".repeat(65_537);
    assert_eq!(truncate_md(long), format!("{}\n\n\u{2026}", "a".repeat(65_536)));
    let wide = format!("a{}", "\u{1F980}".repeat(16_384));
    let cut = truncate_md(wide);
    assert_eq!(cut, format!("a{}\n\n\u{2026}", "\u{1F980}".repeat(16_383)));
}

#[test]
fn rewriting_twice_changes_nothing() {
    let texts = [
        "![a](./a.png) [b](b.md \"t\") [c](c d) ](x) [d]( [e](e",
        "<img src=\"a.png\"> <img src='./b'> <a src=\"open src='x' src=y",
        "src=src=\"a\" src=\"\" [x](src=\"q\")",
        "plain",
    ];
    for t in texts {
        let once = rewrite_md_links(t, RAW, BLOB);
        assert_eq!(rewrite_md_links(&once, RAW, BLOB), once);
        let once = rewrite_attr(t, "src=", RAW);
        assert_eq!(rewrite_attr(&once, "src=", RAW), once);
    }
    assert_eq!(rewrite_md_links("plain", RAW, BLOB), "plain");
    assert_eq!(rewrite_attr("plain", "src=", RAW), "plain");
}
