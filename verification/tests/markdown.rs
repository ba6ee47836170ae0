use next::markdown::parse_line_to_markdown;
use next::terminal::Terminal;

fn highlight(s: &str) -> String {
    parse_line_to_markdown(s.to_string())
}

#[test]
fn plain_prose_is_left_alone() {
    assert_eq!(highlight("just some words."), "just some words.");
    assert_eq!(highlight(""), "");
    assert_eq!(highlight("a (b) c!?"), "a (b) c!?");
}

#[test]
fn heading_levels_get_their_colours() {
    assert_eq!(highlight("# T"), "\x1b[1;31mT\x1b[0m");
    assert_eq!(highlight("## T"), "\x1b[1;33mT\x1b[0m");
    assert_eq!(highlight("### T"), "\x1b[1;32mT\x1b[0m");
    assert_eq!(highlight("#### T"), "\x1b[1;36mT\x1b[0m");
    assert_eq!(highlight("##### T"), "\x1b[1;35mT\x1b[0m");
    assert_eq!(highlight("###### T"), "\x1b[1;34mT\x1b[0m");
}

#[test]
fn deeper_marker_runs_match_the_deepest_rule() {
    // seven markers: the six-level rule captures the seventh
    assert_eq!(highlight("####### T"), "\x1b[1;34m# T\x1b[0m");
    // a lone marker with nothing after it is no heading
    assert_eq!(highlight("#"), "#");
    // two markers and nothing more: the one-level rule captures the second
    assert_eq!(highlight("##"), "\x1b[1;31m#\x1b[0m");
}

#[test]
fn heading_keeps_text_without_space_after_markers() {
    assert_eq!(highlight("#Title"), "\x1b[1;31mTitle\x1b[0m");
}

#[test]
fn bold_spans_are_wrapped() {
    assert_eq!(highlight("a **x** b"), "a \x1b[1mx\x1b[0m b");
    assert_eq!(highlight("a __x__ b"), "a \x1b[1mx\x1b[0m b");
    // greedy: the bold span runs to the last closing token, and the stars
    // left inside it are then picked up by the italic rule
    assert_eq!(
        highlight("**a** and **b**"),
        "\x1b[1ma\x1b[3m* and *\x1b[0mb\x1b[0m"
    );
}

#[test]
fn italic_spans_are_wrapped() {
    assert_eq!(highlight("a *x*"), "a \x1b[3mx\x1b[0m");
    assert_eq!(highlight("a _x_"), "a \x1b[3mx\x1b[0m");
}

#[test]
fn unclosed_delimiters_are_left_alone() {
    assert_eq!(highlight("a *x"), "a *x");
    assert_eq!(highlight("a **x"), "a **x");
    assert_eq!(highlight("a _x"), "a _x");
}

#[test]
fn leading_star_makes_a_bullet_point() {
    assert_eq!(highlight("* item"), "\u{2022} item\x1b[0m");
    assert_eq!(highlight("*item"), "\u{2022} item\x1b[0m");
    // a lone star is no bullet
    assert_eq!(highlight("*"), "*");
}

#[test]
fn links_underline_the_target() {
    assert_eq!(highlight("[t](u)"), "t(\x1b[4;34mu\x1b[0m)");
    assert_eq!(
        highlight("see [here](x.md)."),
        "see here(\x1b[4;34mx.md\x1b[0m)."
    );
}

#[test]
fn image_links_underline_the_target() {
    assert_eq!(highlight("![t](u)"), "t(\x1b[4;34mu\x1b[0m)");
    assert_eq!(
        highlight("![a](u) ![b](v)"),
        "a(\x1b[4;34mu\x1b[0m) b(\x1b[4;34mv\x1b[0m)"
    );
}

#[test]
fn inline_rules_still_apply_inside_a_heading() {
    assert_eq!(
        highlight("# a **x**"),
        "\x1b[1;31ma \x1b[1mx\x1b[0m\x1b[0m"
    );
}

#[test]
fn render_cache_differs_from_raw_only_when_decorated() {
    let mut t = Terminal::new(80, 24);
    t.append_line("# Title".to_string());
    t.append_line("Title".to_string());
    let raw0: String = t.rows[0].raw.iter().collect();
    let render0: String = t.rows[0].render.iter().collect();
    assert_ne!(render0, raw0);
    assert!(render0.contains('\x1b'));
    let raw1: String = t.rows[1].raw.iter().collect();
    let render1: String = t.rows[1].render.iter().collect();
    assert_eq!(render1, raw1);
}

#[test]
fn render_cache_expands_tabs() {
    let mut t = Terminal::new(80, 24);
    t.append_line("\ta".to_string());
    let render: String = t.rows[0].render.iter().collect();
    assert_eq!(render, "    a");
}

#[test]
fn parse_lines_recomputes_every_cache() {
    let mut lines = vec![
        next::terminal::Line {
            raw: "# T".chars().collect(),
            render: Vec::new(),
        },
        next::terminal::Line {
            raw: "plain".chars().collect(),
            render: Vec::new(),
        },
        next::terminal::Line {
            raw: "\ta".chars().collect(),
            render: Vec::new(),
        },
    ];
    next::markdown::parse_lines_to_markdown(&mut lines);
    let r0: String = lines[0].render.iter().collect();
    let r1: String = lines[1].render.iter().collect();
    let r2: String = lines[2].render.iter().collect();
    assert_eq!(r0, "\x1b[1;31mT\x1b[0m");
    assert_eq!(r1, "plain");
    // the cache is computed from a tab-expanded copy of the raw text
    assert_eq!(r2, "    a");
}
