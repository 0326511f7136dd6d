use cargo_spec::flavor::{resolve_flavor, MarkdownFlavor};
use cargo_spec::transformers::{get_transformer, MarkdownTransformer};

/// The flavor that a command-line value stands for.
fn flavor_flag(value: &str) -> MarkdownFlavor {
    match value {
        "mdbook" => MarkdownFlavor::Mdbook,
        "docusaurus" => MarkdownFlavor::Docusaurus,
        other => panic!("unknown flavor: {}", other),
    }
}

/// Builds `template` for the flavor given on the command line, or else in
/// the configuration, or else for the default.
fn build(template: &str, cli: Option<&str>, configured: Option<&str>) -> String {
    let flavor = resolve_flavor(cli.map(flavor_flag), configured);
    get_transformer(flavor).transform(template)
}

// =============================================================================
// Admonition Tests
// =============================================================================

#[test]
fn test_admonition_warning_mdbook() {
    let template = r#"# Test

```admonish warning
This is a warning message.
```
"#;
    let configured: Option<&str> = None;

    let result = build(template, Some("mdbook"), configured);

    assert!(result.contains("```admonish warning"));
    assert!(result.contains("This is a warning message."));
    assert!(!result.contains(":::warning"));
}

#[test]
fn test_admonition_warning_docusaurus() {
    let template = r#"# Test

```admonish warning
This is a warning message.
```
"#;
    let configured: Option<&str> = None;

    let result = build(template, Some("docusaurus"), configured);

    assert!(!result.contains("```admonish warning"));
    assert!(result.contains(":::warning"));
    assert!(result.contains("This is a warning message."));
    assert!(result.contains(":::"));
}

#[test]
fn test_admonition_info_docusaurus() {
    let template = r#"# Test

```admonish info
Some informational text.
```
"#;
    let configured: Option<&str> = None;

    let result = build(template, Some("docusaurus"), configured);

    assert!(result.contains(":::info"));
    assert!(result.contains("Some informational text."));
}

#[test]
fn test_admonition_note_docusaurus() {
    let template = r#"# Test

```admonish note
A note for the reader.
```
"#;
    let configured: Option<&str> = None;

    let result = build(template, Some("docusaurus"), configured);

    assert!(result.contains(":::note"));
    assert!(result.contains("A note for the reader."));
}

#[test]
fn test_admonition_tip_docusaurus() {
    let template = r#"# Test

```admonish tip
Here's a helpful tip!
```
"#;
    let configured: Option<&str> = None;

    let result = build(template, Some("docusaurus"), configured);

    assert!(result.contains(":::tip"));
    assert!(result.contains("Here's a helpful tip!"));
}

#[test]
fn test_admonition_danger_docusaurus() {
    let template = r#"# Test

```admonish danger
This is dangerous!
```
"#;
    let configured: Option<&str> = None;

    let result = build(template, Some("docusaurus"), configured);

    assert!(result.contains(":::danger"));
    assert!(result.contains("This is dangerous!"));
}

#[test]
fn test_admonition_plain_defaults_to_note_docusaurus() {
    let template = r#"# Test

```admonish
This is a plain admonition without a type.
```
"#;
    let configured: Option<&str> = None;

    let result = build(template, Some("docusaurus"), configured);

    assert!(result.contains(":::note"));
    assert!(result.contains("This is a plain admonition without a type."));
    assert!(!result.contains("```admonish"));
}

#[test]
fn test_admonition_with_title_docusaurus() {
    let template = r#"# Test

```admonish warning "Custom Warning Title"
This warning has a custom title.
```
"#;
    let configured: Option<&str> = None;

    let result = build(template, Some("docusaurus"), configured);

    assert!(result.contains(":::warning"));
    assert!(result.contains("This warning has a custom title."));
    assert!(!result.contains("```admonish"));
}

#[test]
fn test_admonition_example_docusaurus() {
    let template = r#"# Test

```admonish example
This is an example.
```
"#;
    let configured: Option<&str> = None;

    let result = build(template, Some("docusaurus"), configured);

    assert!(result.contains(":::example"));
    assert!(result.contains("This is an example."));
}

#[test]
fn test_admonition_bug_docusaurus() {
    let template = r#"# Test

```admonish bug
Known bug description.
```
"#;
    let configured: Option<&str> = None;

    let result = build(template, Some("docusaurus"), configured);

    assert!(result.contains(":::bug"));
    assert!(result.contains("Known bug description."));
}

#[test]
fn test_admonition_quote_docusaurus() {
    let template = r#"# Test

```admonish quote
A famous quote here.
```
"#;
    let configured: Option<&str> = None;

    let result = build(template, Some("docusaurus"), configured);

    assert!(result.contains(":::quote"));
    assert!(result.contains("A famous quote here."));
}

#[test]
fn test_admonition_abstract_docusaurus() {
    let template = r#"# Test

```admonish abstract
This is an abstract.
```
"#;
    let configured: Option<&str> = None;

    let result = build(template, Some("docusaurus"), configured);

    assert!(result.contains(":::abstract"));
    assert!(result.contains("This is an abstract."));
}

#[test]
fn test_admonition_success_docusaurus() {
    let template = r#"# Test

```admonish success
Operation completed successfully.
```
"#;
    let configured: Option<&str> = None;

    let result = build(template, Some("docusaurus"), configured);

    assert!(result.contains(":::success"));
    assert!(result.contains("Operation completed successfully."));
}

#[test]
fn test_admonition_question_docusaurus() {
    let template = r#"# Test

```admonish question
Frequently asked question here.
```
"#;
    let configured: Option<&str> = None;

    let result = build(template, Some("docusaurus"), configured);

    assert!(result.contains(":::question"));
    assert!(result.contains("Frequently asked question here."));
}

#[test]
fn test_admonition_failure_docusaurus() {
    let template = r#"# Test

```admonish failure
This operation failed.
```
"#;
    let configured: Option<&str> = None;

    let result = build(template, Some("docusaurus"), configured);

    assert!(result.contains(":::failure"));
    assert!(result.contains("This operation failed."));
}

#[test]
fn test_multiple_admonitions_docusaurus() {
    let template = r#"# Test

```admonish warning
First warning.
```

Some text between.

```admonish info
Some info.
```

More text.

```admonish tip
A tip.
```
"#;
    let configured: Option<&str> = None;

    let result = build(template, Some("docusaurus"), configured);

    assert!(result.contains(":::warning"));
    assert!(result.contains("First warning."));
    assert!(result.contains(":::info"));
    assert!(result.contains("Some info."));
    assert!(result.contains(":::tip"));
    assert!(result.contains("A tip."));
    // Count the closing ::: markers (should be 3)
    assert_eq!(result.matches(":::").count(), 6); // 3 opening + 3 closing
}

#[test]
fn test_admonition_with_multiline_content_docusaurus() {
    let template = r#"# Test

```admonish warning
Line 1 of the warning.
Line 2 of the warning.

A new paragraph in the warning.

- Bullet 1
- Bullet 2
```
"#;
    let configured: Option<&str> = None;

    let result = build(template, Some("docusaurus"), configured);

    assert!(result.contains(":::warning"));
    assert!(result.contains("Line 1 of the warning."));
    assert!(result.contains("Line 2 of the warning."));
    assert!(result.contains("A new paragraph in the warning."));
    assert!(result.contains("- Bullet 1"));
    assert!(result.contains("- Bullet 2"));
}

#[test]
fn test_non_admonition_code_blocks_preserved() {
    let template = r#"# Test

```rust
let x = 5;
let y = 10;
```

```python
x = 5
y = 10
```

```
Plain code block
```
"#;
    let configured: Option<&str> = None;

    let result = build(template, Some("docusaurus"), configured);

    assert!(result.contains("```rust"));
    assert!(result.contains("let x = 5"));
    assert!(result.contains("```python"));
    assert!(result.contains("x = 5"));
    assert!(!result.contains(":::rust"));
    assert!(!result.contains(":::python"));
}

// =============================================================================
// TOC Marker Tests
// =============================================================================

#[test]
fn test_toc_marker_preserved_mdbook() {
    let template = r#"# Test

<!-- toc -->

## Section 1
"#;
    let configured: Option<&str> = None;

    let result = build(template, Some("mdbook"), configured);

    assert!(result.contains("<!-- toc -->"));
}

#[test]
fn test_toc_marker_removed_docusaurus() {
    let template = r#"# Test

<!-- toc -->

## Section 1
"#;
    let configured: Option<&str> = None;

    let result = build(template, Some("docusaurus"), configured);

    assert!(!result.contains("<!-- toc -->"));
    assert!(result.contains("# Test"));
    assert!(result.contains("## Section 1"));
}

#[test]
fn test_toc_marker_with_spaces_removed_docusaurus() {
    let template = r#"# Test

  <!--  toc  -->

## Section 1
"#;
    let configured: Option<&str> = None;

    let result = build(template, Some("docusaurus"), configured);

    assert!(!result.contains("toc"));
    assert!(result.contains("# Test"));
    assert!(result.contains("## Section 1"));
}

#[test]
fn test_multiple_toc_markers_removed_docusaurus() {
    let template = r#"# Test

<!-- toc -->

## Section 1

<!-- toc -->

## Section 2
"#;
    let configured: Option<&str> = None;

    let result = build(template, Some("docusaurus"), configured);

    assert!(!result.contains("<!-- toc -->"));
    assert!(result.contains("## Section 1"));
    assert!(result.contains("## Section 2"));
}

#[test]
fn test_other_html_comments_preserved_docusaurus() {
    let template = r#"# Test

<!-- This is a regular comment -->

<!-- Another comment -->

## Section 1
"#;
    let configured: Option<&str> = None;

    let result = build(template, Some("docusaurus"), configured);

    assert!(result.contains("<!-- This is a regular comment -->"));
    assert!(result.contains("<!-- Another comment -->"));
}

// =============================================================================
// Math Underscore Tests
// =============================================================================

#[test]
fn test_math_underscores_preserved_mdbook() {
    let template = r#"# Test

Inline math: $x\_1 + x\_2$

Display math: $$a\_1 + a\_2$$
"#;
    let configured: Option<&str> = None;

    let result = build(template, Some("mdbook"), configured);

    assert!(result.contains(r"$x\_1 + x\_2$"));
    assert!(result.contains(r"$$a\_1 + a\_2$$"));
}

#[test]
fn test_math_underscores_transformed_docusaurus() {
    let template = r#"# Test

Inline math: $x\_1 + x\_2$

Display math: $$a\_1 + a\_2$$
"#;
    let configured: Option<&str> = None;

    let result = build(template, Some("docusaurus"), configured);

    assert!(result.contains("$x_1 + x_2$"));
    assert!(result.contains("$$a_1 + a_2$$"));
    assert!(!result.contains(r"\_"));
}

#[test]
fn test_underscores_outside_math_preserved_docusaurus() {
    let template = r#"# Test

Use snake\_case for variable names.

In math: $x\_1$

More snake\_case text.
"#;
    let configured: Option<&str> = None;

    let result = build(template, Some("docusaurus"), configured);

    // Outside math, escaped underscores should be preserved
    assert!(result.contains(r"snake\_case"));
    // Inside math, escaped underscores should be converted
    assert!(result.contains("$x_1$"));
}

#[test]
fn test_math_block_delimiters_split_docusaurus() {
    let template = r#"# Test

Some math here.
"#;
    let configured: Option<&str> = None;

    let result = build(template, Some("docusaurus"), configured);

    // Basic sanity check
    assert!(result.contains("# Test"));
}

#[test]
fn test_complex_math_expressions_docusaurus() {
    let template = r#"# Test

The formula is $x\_1 + x\_2 + x\_3 + \ldots + x\_n$.
"#;
    let configured: Option<&str> = None;

    let result = build(template, Some("docusaurus"), configured);

    assert!(result.contains(r"$x_1 + x_2 + x_3 + \ldots + x_n$"));
}

#[test]
fn test_multiple_math_blocks_docusaurus() {
    let template = r#"# Test

First: $a\_1$

Second: $b\_2$

Third: $$c\_3 + d\_4$$
"#;
    let configured: Option<&str> = None;

    let result = build(template, Some("docusaurus"), configured);

    assert!(result.contains("$a_1$"));
    assert!(result.contains("$b_2$"));
    assert!(result.contains("$$c_3 + d_4$$"));
}

// =============================================================================
// Math Align Tests
// =============================================================================

#[test]
fn test_math_align_preserved_mdbook() {
    let template = r#"# Test

Some text here.
"#;
    let configured: Option<&str> = None;

    let result = build(template, Some("mdbook"), configured);

    assert!(result.contains("Some text here."));
}

// =============================================================================
// Config File Flavor Tests
// =============================================================================

#[test]
fn test_config_file_docusaurus_flavor() {
    let template = r#"# Test

```admonish warning
Warning from config.
```

Math: $x\_1$
"#;
    let configured: Option<&str> = Some("docusaurus");

    // No flavor flag - should use config file
    let result = build(template, None, configured);

    assert!(result.contains(":::warning"));
    assert!(result.contains("$x_1$"));
}

#[test]
fn test_config_file_mdbook_flavor() {
    let template = r#"# Test

```admonish warning
Warning from config.
```

Math: $x\_1$
"#;
    let configured: Option<&str> = Some("mdbook");

    // No flavor flag - should use config file
    let result = build(template, None, configured);

    assert!(result.contains("```admonish warning"));
    assert!(result.contains(r"$x\_1$"));
}

#[test]
fn test_cli_overrides_config_file_to_mdbook() {
    let template = r#"# Test

```admonish warning
Warning text.
```
"#;
    let configured: Option<&str> = Some("docusaurus");

    // CLI says mdbook - should override config
    let result = build(template, Some("mdbook"), configured);

    assert!(result.contains("```admonish warning"));
    assert!(!result.contains(":::warning"));
}

#[test]
fn test_cli_overrides_config_file_to_docusaurus() {
    let template = r#"# Test

```admonish warning
Warning text.
```
"#;
    let configured: Option<&str> = Some("mdbook");

    // CLI says docusaurus - should override config
    let result = build(template, Some("docusaurus"), configured);

    assert!(result.contains(":::warning"));
    assert!(!result.contains("```admonish warning"));
}

#[test]
fn test_default_flavor_without_config() {
    let template = r#"# Test

```admonish warning
Warning text.
```
"#;
    let configured: Option<&str> = None;

    // No flavor in config, no CLI flag - should default to mdbook
    let result = build(template, None, configured);

    assert!(result.contains("```admonish warning"));
    assert!(!result.contains(":::warning"));
}

// =============================================================================
// Combined Transformation Tests
// =============================================================================

#[test]
fn test_all_transformations_together_docusaurus() {
    let template = r#"# Comprehensive Test

<!-- toc -->

## Introduction

```admonish warning
Be careful with $x\_1$ and $y\_2$.
```

Some regular text with snake\_case.

```admonish info
More information here.
```

## Math Section

Inline math: $a\_i + b\_j$

```rust
let example = 42;
```

```admonish tip
Final tip!
```
"#;
    let configured: Option<&str> = None;

    let result = build(template, Some("docusaurus"), configured);

    // TOC removed
    assert!(!result.contains("<!-- toc -->"));

    // Admonitions transformed
    assert!(result.contains(":::warning"));
    assert!(result.contains(":::info"));
    assert!(result.contains(":::tip"));
    assert!(!result.contains("```admonish"));

    // Math underscores transformed inside admonition
    assert!(result.contains("$x_1$"));
    assert!(result.contains("$y_2$"));
    assert!(result.contains("$a_i + b_j$"));

    // Underscores outside math preserved
    assert!(result.contains(r"snake\_case"));

    // Regular code blocks preserved
    assert!(result.contains("```rust"));
    assert!(result.contains("let example = 42"));
}

#[test]
fn test_all_transformations_mdbook_passthrough() {
    let template = r#"# Comprehensive Test

<!-- toc -->

## Introduction

```admonish warning
Be careful with $x\_1$ and $y\_2$.
```

Some regular text.

## Math Section

Inline math: $a\_i + b\_j$
"#;
    let configured: Option<&str> = None;

    let result = build(template, Some("mdbook"), configured);

    // Everything should be preserved unchanged
    assert!(result.contains("<!-- toc -->"));
    assert!(result.contains("```admonish warning"));
    assert!(result.contains(r"$x\_1$"));
    assert!(result.contains(r"$y\_2$"));
    assert!(result.contains(r"$a\_i + b\_j$"));
}

// =============================================================================
// Edge Cases
// =============================================================================

#[test]
fn test_empty_admonition_docusaurus() {
    let template = r#"# Test

```admonish warning
```
"#;
    let configured: Option<&str> = None;

    let result = build(template, Some("docusaurus"), configured);

    assert!(result.contains(":::warning"));
    assert!(result.contains(":::"));
}

#[test]
fn test_admonition_at_end_of_file_docusaurus() {
    let template = r#"# Test

```admonish warning
Final warning.
```"#;
    let configured: Option<&str> = None;

    let result = build(template, Some("docusaurus"), configured);

    assert!(result.contains(":::warning"));
    assert!(result.contains("Final warning."));
}

#[test]
fn test_math_at_end_of_line_docusaurus() {
    let template = r#"# Test

The value is $x\_n$"#;
    let configured: Option<&str> = None;

    let result = build(template, Some("docusaurus"), configured);

    assert!(result.contains("$x_n$"));
}

#[test]
fn test_consecutive_math_blocks_docusaurus() {
    let template = r#"# Test

$a\_1$$b\_2$$c\_3$
"#;
    let configured: Option<&str> = None;

    let result = build(template, Some("docusaurus"), configured);

    assert!(result.contains("$a_1$$b_2$$c_3$"));
}

#[test]
fn test_unmatched_dollar_signs_preserved() {
    let template = r#"# Test

The price is $50 and another $100.

Real math: $x\_1$
"#;
    let configured: Option<&str> = None;

    let result = build(template, Some("docusaurus"), configured);

    // The $50 and $100 are treated as math (which is expected behavior)
    // but there's no \_ to transform there
    assert!(result.contains("$x_1$"));
}
