use cargo_spec::transformers::docusaurus::{
    remove_toc_markers, split_math_delimiters, transform_admonitions, transform_math_align,
    transform_math_underscores, DocusaurusTransformer,
};
use cargo_spec::transformers::MarkdownTransformer;

#[test]
fn test_transform_admonitions_warning() {
    let input = "```admonish warning\nThis is a warning\n```";
    let expected = ":::warning\nThis is a warning\n:::";
    assert_eq!(transform_admonitions(input), expected);
}

#[test]
fn test_transform_admonitions_info() {
    let input = "```admonish info\nSome information\n```";
    let expected = ":::info\nSome information\n:::";
    assert_eq!(transform_admonitions(input), expected);
}

#[test]
fn test_transform_admonitions_plain_defaults_to_note() {
    let input = "```admonish\nThis is a plain admonition\n```";
    let expected = ":::note\nThis is a plain admonition\n:::";
    assert_eq!(transform_admonitions(input), expected);
}

#[test]
fn test_transform_admonitions_with_title() {
    // mdBook-admonish supports titles like: ```admonish warning "Custom Title"
    let input = "```admonish warning \"Custom Title\"\nWarning with title\n```";
    let expected = ":::warning\nWarning with title\n:::";
    assert_eq!(transform_admonitions(input), expected);
}

#[test]
fn test_transform_admonitions_all_types() {
    // Test all mdBook-admonish types
    let types = [
        "note",
        "abstract",
        "summary",
        "tldr",
        "info",
        "todo",
        "tip",
        "hint",
        "important",
        "success",
        "check",
        "done",
        "question",
        "help",
        "faq",
        "warning",
        "caution",
        "attention",
        "failure",
        "fail",
        "missing",
        "danger",
        "error",
        "bug",
        "example",
        "quote",
        "cite",
    ];

    for admonish_type in types {
        let input = format!("```admonish {}\nContent\n```", admonish_type);
        let expected = format!(":::{}\nContent\n:::", admonish_type);
        assert_eq!(
            transform_admonitions(&input),
            expected,
            "Failed for type: {}",
            admonish_type
        );
    }
}

#[test]
fn test_transform_admonitions_with_surrounding_content() {
    let input = "Before\n\n```admonish warning\nWarning text\n```\n\nAfter";
    let expected = "Before\n\n:::warning\nWarning text\n:::\n\nAfter";
    assert_eq!(transform_admonitions(input), expected);
}

#[test]
fn test_transform_admonitions_preserves_non_admonition_code_blocks() {
    let input = "```rust\nfn main() {}\n```";
    assert_eq!(transform_admonitions(input), input);
}

#[test]
fn test_transform_math_align() {
    let input = r"$$
\begin{align}
a &= b \\
c &= d
\end{align}
$$";
    let expected = r"$$
\begin{aligned}
a &= b \\
c &= d
\end{aligned}
$$";
    assert_eq!(transform_math_align(input), expected);
}

#[test]
fn test_split_math_delimiters_inline_block() {
    let input = r"$$\begin{aligned}
    & z(x) \cdot zkpm(x)
\end{aligned}$$";
    let expected = r"$$
\begin{aligned}
    & z(x) \cdot zkpm(x)
\end{aligned}
$$";
    assert_eq!(split_math_delimiters(input), expected);
}

#[test]
fn test_split_math_delimiters_already_split() {
    // Should not affect already properly formatted blocks
    let input = r"$$
\begin{aligned}
a &= b
\end{aligned}
$$";
    assert_eq!(split_math_delimiters(input), input);
}

#[test]
fn test_split_math_delimiters_multiple_blocks() {
    let input = r"First block:
$$\begin{aligned}
a &= b
\end{aligned}$$

Second block:
$$\begin{aligned}
c &= d
\end{aligned}$$";
    let expected = r"First block:
$$
\begin{aligned}
a &= b
\end{aligned}
$$

Second block:
$$
\begin{aligned}
c &= d
\end{aligned}
$$";
    assert_eq!(split_math_delimiters(input), expected);
}

#[test]
fn test_remove_toc_markers() {
    let input = "# Title\n\n<!-- toc -->\n\n## Section 1";
    let expected = "# Title\n\n\n## Section 1";
    assert_eq!(remove_toc_markers(input), expected);
}

#[test]
fn test_remove_toc_markers_with_spaces() {
    let input = "# Title\n\n  <!--  toc  -->\n\n## Section 1";
    let expected = "# Title\n\n\n## Section 1";
    assert_eq!(remove_toc_markers(input), expected);
}

#[test]
fn test_transform_math_underscores_inline() {
    let input = r"The variable $x\_1 + x\_2$ is important";
    let expected = r"The variable $x_1 + x_2$ is important";
    assert_eq!(transform_math_underscores(input), expected);
}

#[test]
fn test_transform_math_underscores_display() {
    let input = r"$$
a\_1 + a\_2 = b
$$";
    let expected = r"$$
a_1 + a_2 = b
$$";
    assert_eq!(transform_math_underscores(input), expected);
}

#[test]
fn test_transform_math_underscores_preserves_outside_math() {
    let input = r"Use snake\_case for variables. In math: $x\_1$";
    let expected = r"Use snake\_case for variables. In math: $x_1$";
    assert_eq!(transform_math_underscores(input), expected);
}

#[test]
fn test_full_transform() {
    let transformer = DocusaurusTransformer;
    let input = r#"# Title

<!-- toc -->

```admonish warning
Be careful!
```

Inline math: $x\_1 + x\_2$

$$
\begin{align}
a &= b
\end{align}
$$
"#;
    let expected = r#"# Title


:::warning
Be careful!
:::

Inline math: $x_1 + x_2$

$$
\begin{aligned}
a &= b
\end{aligned}
$$
"#;
    assert_eq!(transformer.transform(input), expected);
}
