use std::collections::HashMap;

use reddit_markdown::content_builder::build_post_content;
use reddit_markdown::content_builder::PostRenderer;
use reddit_markdown::filters::Filters;
use reddit_markdown::render::Post;
use reddit_markdown::replies::Comment;
use reddit_markdown::settings::AuthSettings;
use reddit_markdown::settings::Settings;

fn default_settings() -> Settings {
    Settings {
        version: "1.0.0".to_string(),
        file_format: "md".to_string(),
        update_check_on_startup: false,
        auth: AuthSettings {
            login_on_startup: false,
            client_id: String::new(),
            client_secret: String::new(),
            username: String::new(),
            password: String::new(),
        },
        show_upvotes: true,
        reply_depth_max: -1,
        reply_depth_color_indicators: true,
        line_break_between_parent_replies: true,
        show_auto_mod_comment: true,
        overwrite_existing_file: false,
        save_posts_by_subreddits: false,
        show_timestamp: true,
        filtered_message: "[filtered]".to_string(),
        filters: Filters {
            keywords: vec![],
            min_upvotes: 0,
            authors: vec![],
            regexes: vec![],
        },
        default_save_location: String::new(),
        use_timestamped_directories: false,
        enable_media_downloads: false,
        multi_reddits: HashMap::new(),
    }
}

fn palette() -> Vec<String> {
    vec!["G".to_string(), "Y".to_string(), "O".to_string()]
}

fn simple_comment(id: &str, author: &str, ups: i32, body: &str, created: i64) -> Comment {
    Comment {
        id: id.to_string(),
        author: author.to_string(),
        ups,
        body: body.to_string(),
        created_utc: created,
        depth: 0,
        children: Vec::new(),
    }
}

#[test]
fn test_end_to_end_render() {
    let post = Post {
        title: "Hello".to_string(),
        author: "alice".to_string(),
        subreddit: "r/test".to_string(),
        ups: 1500,
        locked: false,
        selftext: String::new(),
        url: "https://x/1".to_string(),
        created_utc: Some(1700000000),
    };
    let replies = vec![simple_comment("c1", "bob", 5, "Hi!", 1700000100)];
    let settings = default_settings();
    let doc = build_post_content(&post, &replies, &settings, &palette(), &[]);

    assert!(doc.contains("r/test"));
    assert!(doc.contains("alice"));
    assert!(doc.contains("\u{2b06}\u{fe0f} 1k"));
    assert!(doc.contains("## Hello"));
    assert!(doc.contains("\u{1f4ac} ~ 1 replies"));
    assert!(doc.contains("[bob](https://www.reddit.com/user/bob)"));
    assert!(doc.contains("\tHi!"));
    // the timestamps resolve through the real calendar conversion
    assert!(doc.contains("2023-11-14 22:13:20"));
    assert!(doc.contains("2023-11-14 22:15:00"));
}

#[test]
fn test_render_deleted_comment_placeholder() {
    let post = Post {
        title: "T".to_string(),
        author: "alice".to_string(),
        subreddit: "r/test".to_string(),
        ups: 1,
        locked: false,
        selftext: String::new(),
        url: "https://x/1".to_string(),
        created_utc: None,
    };
    // the filter would match this comment, but the sentinel takes precedence
    let mut settings = default_settings();
    settings.filters.keywords = vec!["deleted".to_string()];
    settings.filters.min_upvotes = 100;
    let replies = vec![simple_comment("c1", "bob", 1, "[deleted]", 0)];
    let doc = build_post_content(&post, &replies, &settings, &palette(), &[]);

    assert!(doc.contains("\tComment deleted by user\n\n"));
    assert!(!doc.contains("[filtered]"));
}

#[test]
fn test_render_skips_empty_author_and_hidden_automod() {
    let post = Post {
        title: "T".to_string(),
        author: "alice".to_string(),
        subreddit: "r/test".to_string(),
        ups: 1,
        locked: false,
        selftext: String::new(),
        url: "https://x/1".to_string(),
        created_utc: None,
    };
    let mut settings = default_settings();
    settings.show_auto_mod_comment = false;
    let replies = vec![
        simple_comment("c1", "", 1, "ghost body", 0),
        simple_comment("c2", "AutoModerator", 1, "mod notice", 0),
        simple_comment("c3", "carol", 1, "real comment", 0),
    ];
    let doc = build_post_content(&post, &replies, &settings, &palette(), &[]);

    assert!(!doc.contains("ghost body"));
    assert!(!doc.contains("mod notice"));
    assert!(doc.contains("real comment"));
    // the count line still counts all three top-level comments
    assert!(doc.contains("\u{1f4ac} ~ 3 replies"));
}

#[test]
fn test_render_lock_notice_and_selftext() {
    let post = Post {
        title: "T".to_string(),
        author: "alice".to_string(),
        subreddit: "r/test".to_string(),
        ups: 1,
        locked: true,
        selftext: "line one\nline &amp; two".to_string(),
        url: "https://x/1".to_string(),
        created_utc: None,
    };
    let settings = default_settings();
    let doc = build_post_content(&post, &vec![], &settings, &palette(), &[]);

    assert!(doc.contains("locked by the moderators of r/test"));
    assert!(doc.contains("> line one\n> line & two\n"));
}

#[test]
fn test_render_nested_reply_indentation_and_colors() {
    let post = Post {
        title: "T".to_string(),
        author: "alice".to_string(),
        subreddit: "r/test".to_string(),
        ups: 1,
        locked: false,
        selftext: String::new(),
        url: "https://x/1".to_string(),
        created_utc: None,
    };
    let settings = default_settings();
    let child = Comment {
        id: "c2".to_string(),
        author: "dave".to_string(),
        ups: 2,
        body: "nested".to_string(),
        created_utc: 0,
        depth: 1,
        children: Vec::new(),
    };
    let top = Comment {
        id: "c1".to_string(),
        author: "carol".to_string(),
        ups: 3,
        body: "top".to_string(),
        created_utc: 0,
        depth: 0,
        children: vec![child],
    };
    let doc = build_post_content(&post, &vec![top], &settings, &palette(), &[]);

    // the top-level header uses the first palette entry, the child its depth's
    assert!(doc.contains("* G **[carol](https://www.reddit.com/user/carol)**"));
    assert!(doc.contains("\t* Y **[dave](https://www.reddit.com/user/dave)**"));
    assert!(doc.contains("\t\tnested"));
    assert!(doc.contains("---\n\n"));
}

#[test]
fn test_render_media_lines_only_when_enabled() {
    let post = Post {
        title: "T".to_string(),
        author: "alice".to_string(),
        subreddit: "r/test".to_string(),
        ups: 1,
        locked: false,
        selftext: String::new(),
        url: "https://x/1".to_string(),
        created_utc: None,
    };
    let media_lines = vec!["![](./media/pic.jpg)\n".to_string()];
    let mut settings = default_settings();
    settings.enable_media_downloads = true;
    let doc = build_post_content(&post, &vec![], &settings, &palette(), &media_lines);
    assert!(doc.contains("![](./media/pic.jpg)"));

    settings.enable_media_downloads = false;
    let doc = build_post_content(&post, &vec![], &settings, &palette(), &media_lines);
    assert!(!doc.contains("![](./media/pic.jpg)"));
}

#[test]
fn test_post_renderer_delegates() {
    let post = Post {
        title: "Hello".to_string(),
        author: "alice".to_string(),
        subreddit: "r/test".to_string(),
        ups: 1,
        locked: false,
        selftext: String::new(),
        url: "https://x/1".to_string(),
        created_utc: None,
    };
    let settings = default_settings();
    let mut renderer = PostRenderer::new();
    let doc = renderer.build_post(&post, &vec![], &settings, &palette(), &[]);
    assert!(doc.contains("## Hello"));
    assert!(doc.ends_with("\n"));
}
