use pitboss::grind::prompt::open_prompt;
use pitboss::grind::templates::render_new_prompt;

#[test]
fn placeholder_is_substituted() {
    let rendered = render_new_prompt("fp-hunter");
    assert!(rendered.contains("name: fp-hunter"));
    assert!(!rendered.contains("__NAME__"));
}

#[test]
fn new_prompt_opens_as_a_prompt_file() {
    let rendered = render_new_prompt("triage");
    let (frontmatter, _) = open_prompt(&rendered, "triage.md").expect("template should open");
    assert!(frontmatter.lines().any(|l| l == "name: triage"));
}
