use pitboss::config::{CavemanConfig, CavemanIntensity};
use pitboss::prompts::caveman::system_prompt;

#[test]
fn disabled_returns_empty_string() {
    let cfg = CavemanConfig::default();
    assert!(!cfg.enabled);
    assert!(system_prompt(&cfg).is_empty());
}

#[test]
fn enabled_returns_non_empty_directive() {
    let cfg = CavemanConfig {
        enabled: true,
        intensity: CavemanIntensity::Full,
    };
    let s = system_prompt(&cfg);
    assert!(!s.is_empty());
    assert!(s.contains("CAVEMAN MODE ACTIVE"));
}

#[test]
fn intensity_label_appears_in_output() {
    for (intensity, label, marker) in [
        (CavemanIntensity::Lite, "lite", "LITE:"),
        (CavemanIntensity::Full, "full", "FULL:"),
        (CavemanIntensity::Ultra, "ultra", "ULTRA:"),
    ] {
        let cfg = CavemanConfig {
            enabled: true,
            intensity,
        };
        let s = system_prompt(&cfg);
        assert!(
            s.contains(&format!("intensity: {label}")),
            "missing label for {label}: {s}"
        );
        assert!(
            s.contains(marker),
            "missing intensity rule marker {marker} for {label}: {s}"
        );
    }
}

#[test]
fn directive_carves_out_artifacts_and_code() {
    // The skill explicitly leaves code/commits/PRs alone; pitboss extends
    // that to the structured planning artifacts since downstream roles
    // parse them. Verify the carve-out wording survives any future rewrite.
    let cfg = CavemanConfig {
        enabled: true,
        intensity: CavemanIntensity::Full,
    };
    let s = system_prompt(&cfg);
    assert!(s.contains("Code blocks unchanged"));
    assert!(s.contains("plan.md"));
    assert!(s.contains("deferred.md"));
}

#[test]
fn directive_size_stays_under_a_kilobyte() {
    // The directive ships on every dispatch, so its size is the input-cost
    // floor for caveman mode. A kilobyte (~250 tokens) is plenty of room
    // for the rules and a comfortable upper bound.
    let cfg = CavemanConfig {
        enabled: true,
        intensity: CavemanIntensity::Ultra,
    };
    let s = system_prompt(&cfg);
    assert!(
        s.len() < 1500,
        "directive grew beyond budget ({} bytes); trim it",
        s.len()
    );
}
