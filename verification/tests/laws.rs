use cargo_spec::flavor::MarkdownFlavor;
use cargo_spec::replacement::replace_all;
use cargo_spec::transformers::docusaurus::{
    split_math_delimiters, transform_admonitions, transform_math_underscores,
};
use cargo_spec::transformers::{get_transformer, MarkdownTransformer};

fn chars(s: &str) -> Vec<char> {
    s.chars().collect()
}

fn replace(s: &str, from: &str, to: &str) -> String {
    replace_all(&chars(s), &chars(from), &chars(to)).into_iter().collect()
}

/// The lines of `text` that are an opening container line, and those that
/// are a closing one.
fn container_lines(text: &str) -> (usize, usize) {
    let bodies: Vec<&str> = text.lines().map(|line| line.trim_start()).collect();
    let opening = bodies.iter().filter(|body| body.starts_with(":::") && body.len() > 3).count();
    let closing = bodies.iter().filter(|body| **body == ":::").count();
    (opening, closing)
}

#[test]
fn as_many_container_lines_as_fences() {
    let block = |kind: &str, indent: &str, body: &str| {
        format!("{indent}```admonish {kind}\n{indent}{body}\n{indent}```\n")
    };
    for count in 0..6 {
        let mut input = String::from("# Title\n\n");
        let mut expected = String::from("# Title\n\n");
        for index in 0..count {
            let indent = " ".repeat(index % 3);
            let kind = ["note", "tip", "warning"][index % 3];
            input.push_str(&block(kind, &indent, "content $x$ ``` inside"));
            input.push_str("between\n```rust\ncode\n```\n");
            expected.push_str(&format!(
                "{indent}:::{kind}\n{indent}content $x$ ``` inside\n{indent}:::\n"
            ));
            expected.push_str("between\n```rust\ncode\n```\n");
        }
        let output = transform_admonitions(&input);
        assert_eq!(output, expected);
        assert_eq!(container_lines(&output), (count, count));
        assert_eq!(output.lines().count(), input.lines().count());
    }
}

#[test]
fn a_block_left_open_has_no_closing_line() {
    let output = transform_admonitions("```admonish tip\na\n```\n```admonish note\nb\n");
    assert_eq!(output, ":::tip\na\n:::\n:::note\nb\n");
    assert_eq!(container_lines(&output), (2, 1));
}

#[test]
fn fences_with_another_info_string_are_untouched() {
    for info in ["", "rust", "python", "text", "admonishment", "admonish-x", "Admonish", "mermaid"] {
        for indent in ["", "  ", "\t"] {
            let input = format!("before\n{indent}```{info}\n{indent}body\n{indent}```\nafter\n");
            assert_eq!(transform_admonitions(&input), input, "{:?}", info);
        }
    }
}

#[test]
fn a_fence_inside_a_block_of_another_indentation_is_untouched() {
    let input = "```admonish tip\n  ```rust\n  code\n  ```\n```\n";
    assert_eq!(transform_admonitions(input), ":::tip\n  ```rust\n  code\n  ```\n:::\n");
}

#[test]
fn prose_between_math_spans_is_untouched() {
    let before = "$a\\_b$ and $$c\\_d$$";
    let prose = " snake\\_case \\ _ \\\\_ text ";
    let after = "$e\\_f$ g\\_h";
    let whole = format!("{before}{prose}{after}");
    assert_eq!(
        transform_math_underscores(&whole),
        format!(
            "{}{}{}",
            transform_math_underscores(before),
            prose,
            transform_math_underscores(after)
        )
    );
    assert_eq!(transform_math_underscores(&whole), "$a_b$ and $$c_d$$ snake\\_case \\ _ \\\\_ text $e_f$ g\\_h");
}

#[test]
fn inside_a_span_every_escape_is_replaced() {
    for span in ["x\\_1 + y\\_2", "\\_", "\\_\\_", "a\\\\_b", "\\", "_\\_ \\ _", ""] {
        assert_eq!(
            transform_math_underscores(&format!("${span} $")),
            format!("${}$", replace(&format!("{span} "), "\\_", "_"))
        );
        assert_eq!(
            transform_math_underscores(&format!("$$ {span}$$")),
            format!("$$ {}$$", replace(span, "\\_", "_"))
        );
    }
}

#[test]
fn the_two_renamings_can_be_made_in_either_order() {
    for input in [
        "",
        "\\begin{align}a\\end{align}",
        "\\end{align}\\begin{align}",
        "\\begin{\\end{align}align}",
        "\\begin{align\\begin{align}}\\end{align\\end{align}}",
        "\\\\begin{align}\\\\end{align}",
        "\\begin{align}\\begin{aligned}\\end{aligned}\\end{align}",
    ] {
        let begin_first = replace(
            &replace(input, "\\begin{align}", "\\begin{aligned}"),
            "\\end{align}",
            "\\end{aligned}",
        );
        let end_first = replace(
            &replace(input, "\\end{align}", "\\end{aligned}"),
            "\\begin{align}",
            "\\begin{aligned}",
        );
        assert_eq!(begin_first, end_first, "{:?}", input);
    }
}

#[test]
fn splitting_what_was_split_changes_nothing() {
    let input = "a $$\\begin{aligned}x\\end{aligned}$$ b\n$$\\begin{cases}y\\end{cases}$$\n";
    let once = split_math_delimiters(input);
    assert_eq!(once, "a $$\n\\begin{aligned}x\\end{aligned}\n$$ b\n$$\n\\begin{cases}y\\end{cases}\n$$\n");
    assert_eq!(split_math_delimiters(&once), once);
}

#[test]
fn mdbook_hands_every_document_on() {
    let transformer = get_transformer(MarkdownFlavor::Mdbook);
    let mut input = String::new();
    for code in (0u32..0x3000).step_by(7) {
        if let Some(c) = char::from_u32(code) {
            input.push(c);
            assert_eq!(transformer.transform(&input), input);
        }
    }
}
