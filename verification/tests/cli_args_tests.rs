use reddit_markdown::cli_args::CommandLineArgs;
use reddit_markdown::stats::ProcessingStats;

#[test]
fn test_command_line_args_default() {
    let args = CommandLineArgs {
        urls: vec![],
        src_files: vec![],
        subs: vec![],
        multis: vec![],
    };

    assert_eq!(args.urls.len(), 0);
    assert_eq!(args.src_files.len(), 0);
    assert_eq!(args.subs.len(), 0);
    assert_eq!(args.multis.len(), 0);
}

#[test]
fn test_command_line_args_with_data() {
    let args = CommandLineArgs {
        urls: vec!["https://www.reddit.com/r/rust/comments/test/".to_string()],
        src_files: vec!["/tmp/urls.txt".to_string()],
        subs: vec!["r/rust".to_string(), "r/programming".to_string()],
        multis: vec!["m/programming".to_string()],
    };

    assert_eq!(args.urls.len(), 1);
    assert_eq!(args.src_files.len(), 1);
    assert_eq!(args.subs.len(), 2);
    assert_eq!(args.multis.len(), 1);

    assert_eq!(args.urls[0], "https://www.reddit.com/r/rust/comments/test/");
    assert_eq!(args.subs[0], "r/rust");
    assert_eq!(args.subs[1], "r/programming");
}

#[test]
fn test_processing_stats_start_at_zero() {
    let stats = ProcessingStats::new();
    assert_eq!(stats.successful, 0);
    assert_eq!(stats.failed, 0);
    assert_eq!(stats.total, 0);
}
