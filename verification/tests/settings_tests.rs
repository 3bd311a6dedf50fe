use std::collections::HashMap;

use reddit_markdown::filters::Filters;
use reddit_markdown::settings::AuthSettings;
use reddit_markdown::settings::Settings;

fn settings_with_version(version: &str) -> Settings {
    Settings {
        version: version.to_string(),
        file_format: "md".to_string(),
        update_check_on_startup: false,
        auth: AuthSettings {
            login_on_startup: false,
            client_id: "test".to_string(),
            client_secret: "test".to_string(),
            username: "test".to_string(),
            password: "test".to_string(),
        },
        show_upvotes: true,
        reply_depth_max: 5,
        reply_depth_color_indicators: true,
        line_break_between_parent_replies: true,
        show_auto_mod_comment: false,
        overwrite_existing_file: false,
        save_posts_by_subreddits: true,
        show_timestamp: true,
        filtered_message: "filtered".to_string(),
        filters: Filters {
            keywords: vec![],
            min_upvotes: 0,
            authors: vec![],
            regexes: vec![],
        },
        default_save_location: "/tmp".to_string(),
        use_timestamped_directories: false,
        enable_media_downloads: true,
        multi_reddits: HashMap::new(),
    }
}

#[test]
fn test_is_newer_version() {
    let settings = settings_with_version("1.0.0");

    assert!(settings.is_newer_version("1.0.1"));
    assert!(settings.is_newer_version("1.1.0"));
    assert!(settings.is_newer_version("2.0.0"));

    assert!(!settings.is_newer_version("1.0.0"));
    assert!(!settings.is_newer_version("0.9.9"));
}

#[test]
fn test_is_newer_version_short_and_malformed_parts() {
    let settings = settings_with_version("1.2");
    // a missing component reads as zero
    assert!(settings.is_newer_version("1.2.1"));
    assert!(!settings.is_newer_version("1.2.0"));
    assert!(!settings.is_newer_version("1.2"));
    // an unparsable piece is skipped, so "1.x.3" reads as (1, 3, 0)
    let settings = settings_with_version("1.3.0");
    assert!(!settings.is_newer_version("1.x.3"));
    let settings = settings_with_version("1.2.9");
    assert!(settings.is_newer_version("1.x.3"));
}
