use dloop::project::{capitalize, infer_from_gradle_text, join_suffix, try_infer_from_gradle_text};

#[test]
fn single_dimension_suffix() {
    let text = r#"
        android {
            defaultConfig { applicationId "ai.wayve.app" }
            productFlavors {
                dev {
                    applicationIdSuffix ".dev"
                    dimension "env"
                }
            }
        }
        "#;
    let inf = infer_from_gradle_text(text);
    assert!(inf.application_ids.contains(&"ai.wayve.app".to_string()));
    assert!(inf.application_ids.contains(&"ai.wayve.app.dev".to_string()));
    assert_eq!(inf.assemble_task.as_deref(), Some("assembleDevDebug"));
}

#[test]
fn no_flavors() {
    let text = r#"android { defaultConfig { applicationId "com.example.app" } }"#;
    let inf = infer_from_gradle_text(text);
    assert_eq!(inf.application_ids, vec!["com.example.app"]);
    assert_eq!(inf.assemble_task.as_deref(), Some("assembleDebug"));
}

#[test]
fn two_dimensions_canary_dev() {
    let text = r#"
        android {
            defaultConfig { applicationId "ai.wayve.app" }
            flavorDimensions "track", "environment"
            productFlavors {
                canary {
                    dimension "track"
                    applicationIdSuffix ".canary"
                }
                stable {
                    dimension "track"
                }
                dev {
                    dimension "environment"
                    applicationIdSuffix ".dev"
                }
                prod {
                    dimension "environment"
                }
            }
        }
        "#;
    let inf = infer_from_gradle_text(text);
    // Dimensions order: ["track", "environment"]
    // First of track (sorted): canary, stable → canary
    // First of environment (sorted): dev, prod → dev
    // Variant: canaryDevDebug
    assert_eq!(inf.assemble_task.as_deref(), Some("assembleCanaryDevDebug"));
    assert_eq!(inf.install_task.as_deref(), Some("installCanaryDevDebug"));
    assert!(inf.application_ids.contains(&"ai.wayve.app".to_string()));
}

#[test]
fn readme_example_infers_canary_dev_debug() {
    let text = r#"
android {
    defaultConfig {
        applicationId "ai.example.app"   // → base package for logcat filter
    }
    flavorDimensions "track", "environment"
    productFlavors {
        canary { dimension "track" }
        stable { dimension "track" }
        dev {
            dimension "environment"
            applicationIdSuffix ".dev"   // → "ai.example.app.dev"
        }
        prod { dimension "environment" }
    }
}
"#;
    let inf = infer_from_gradle_text(text);
    assert_eq!(inf.assemble_task.as_deref(), Some("assembleCanaryDevDebug"));
    assert_eq!(inf.install_task.as_deref(), Some("installCanaryDevDebug"));
    assert_eq!(
        inf.application_ids,
        vec!["ai.example.app".to_string(), "ai.example.app.dev".to_string()]
    );
}

#[test]
fn kotlin_dsl_application_id() {
    let text = r#"android { defaultConfig { applicationId = "com.kts.app" } }"#;
    let inf = infer_from_gradle_text(text);
    assert_eq!(inf.application_ids, vec!["com.kts.app"]);
    assert_eq!(inf.install_task.as_deref(), Some("installDebug"));
}

#[test]
fn try_infer_accepts_plain_text() {
    let inf = try_infer_from_gradle_text("plugins { }").expect("inference");
    assert!(inf.application_ids.is_empty());
}

#[test]
fn capitalize_and_suffixes() {
    assert_eq!(capitalize("canary"), "Canary");
    assert_eq!(capitalize(""), "");
    assert_eq!(capitalize("éclair"), "Éclair");
    assert_eq!(join_suffix("a.b", ".dev"), "a.b.dev");
    assert_eq!(join_suffix("a.b", "dev"), "a.b.dev");
}
