use cargo_release::template::Template;
use cargo_release::template::replace_all;

fn template() -> Template {
    Template {
        prev_version: Some(String::from("1.2.3")),
        prev_metadata: None,
        version: Some(String::from("1.3.0")),
        metadata: None,
        crate_name: Some(String::from("widget")),
        date: Some(String::from("2026-10-11")),
        tag_name: Some(String::from("v1.3.0")),
        next_version: None,
        next_metadata: None,
    }
}

#[test]
fn replace_all_rewrites_every_occurrence() {
    let out = replace_all("aXbXc", "X", "--");
    assert_eq!(out, "a--b--c");
}

#[test]
fn replace_all_without_occurrence_is_identity() {
    let out = replace_all("nothing to see", "X", "--");
    assert_eq!(out, "nothing to see");
}

#[test]
fn render_substitutes_bound_placeholders() {
    let t = template();
    let out = t.render("chore: release {{crate_name}} {{version}} (was {{prev_version}})");
    assert_eq!(out, "chore: release widget 1.3.0 (was 1.2.3)");
}

#[test]
fn render_unbound_placeholder_becomes_empty() {
    let t = template();
    let out = t.render("next: [{{next_version}}]");
    assert_eq!(out, "next: []");
}

#[test]
fn render_leaves_unknown_placeholders_alone() {
    let t = template();
    let out = t.render("stay {{unknown_thing}} as-is");
    assert_eq!(out, "stay {{unknown_thing}} as-is");
}

#[test]
fn render_is_idempotent_when_values_hold_no_tokens() {
    let t = template();
    let input = "v{{version}} of {{crate_name}} ({{unknown}} stays), tag {{tag_name}}";
    let once = t.render(input);
    let twice = t.render(&once);
    assert_eq!(once, twice);
    assert_eq!(once, "v1.3.0 of widget ({{unknown}} stays), tag v1.3.0");
}

#[test]
fn render_binds_all_nine_placeholders() {
    let t = Template {
        prev_version: Some(String::from("a")),
        prev_metadata: Some(String::from("b")),
        version: Some(String::from("c")),
        metadata: Some(String::from("d")),
        crate_name: Some(String::from("e")),
        date: Some(String::from("f")),
        tag_name: Some(String::from("g")),
        next_version: Some(String::from("h")),
        next_metadata: Some(String::from("i")),
    };
    let out = t.render(
        "{{prev_version}}{{prev_metadata}}{{version}}{{metadata}}{{crate_name}}{{date}}{{tag_name}}{{next_version}}{{next_metadata}}",
    );
    assert_eq!(out, "abcdefghi");
}

#[test]
fn default_template_renders_all_placeholders_empty() {
    let t = Template::default();
    let out = t.render("x{{version}}y{{crate_name}}z");
    assert_eq!(out, "xyz");
}
