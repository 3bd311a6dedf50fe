//! Document renderer: composes the post header, lock notice, selftext block,
//! media lines, reply-count line and the filtered, formatted comment section
//! into one ordered list of text fragments, and joins them into the final
//! document text.

use vstd::prelude::*;
use vstd::string::StringExecFns;

use crate::filters::apply_filter;
use crate::filters::spec_apply_filter;
use crate::formatting::format_author_with_op_marker;
use crate::formatting::format_comment_body;
use crate::formatting::format_child_comment_body;
use crate::formatting::format_timestamp;
use crate::formatting::format_upvotes;
use crate::formatting::spec_author_with_op_marker;
use crate::formatting::spec_escape_selftext;
use crate::formatting::spec_format_comment_body;
use crate::formatting::spec_format_child_comment_body;
use crate::formatting::spec_format_timestamp;
use crate::formatting::spec_format_upvotes;
use crate::numbers::dec_digits;
use crate::replies::Comment;
use crate::replies::FlatEntry;
use crate::replies::count_total_replies;
use crate::replies::get_replies;
use crate::replies::spec_flatten_list;
use crate::replies::spec_total_replies;
use crate::settings::Settings;
use crate::text::is_ws_only_str;
use crate::text::replace_seq;
use crate::text::str_eq;
use crate::text::string_of;
use crate::text::ws_only;
use crate::time::extract_reply_timestamp;
use crate::time::spec_post_timestamp;
use crate::time::spec_reply_timestamp;

verus! {

/// The post's own fields, as plain values; an absent timestamp is `None`.
pub struct Post {
    pub title: String,
    pub author: String,
    pub subreddit: String,
    pub ups: i32,
    pub locked: bool,
    pub selftext: String,
    pub url: String,
    pub created_utc: Option<i64>,
}

/// The concatenation of a list of fragments.
pub open spec fn concat_views(frags: Seq<Seq<char>>) -> Seq<char>
    decreases frags.len(),
{
    if frags.len() == 0 {
        Seq::empty()
    } else {
        concat_views(frags.drop_last()) + frags.last()
    }
}

/// Join accumulated fragments into the final document text.
pub fn concat_all(lines: &Vec<String>) -> (r: String)
    ensures
        r@ == concat_views(lines.deep_view()),
{
    let mut out = String::new();
    let mut i: usize = 0;
    proof {
        assert(lines.deep_view().take(0) =~= Seq::<Seq<char>>::empty());
    }
    while i < lines.len()
        invariant
            i <= lines@.len(),
            out@ == concat_views(lines.deep_view().take(i as int)),
        decreases lines@.len() - i,
    {
        proof {
            let t = lines.deep_view().take(i + 1);
            assert(t.drop_last() =~= lines.deep_view().take(i as int));
            assert(t.last() == lines.deep_view()[i as int]);
            assert(lines.deep_view()[i as int] == lines@[i as int]@);
        }
        out.append(lines[i].as_str());
        i += 1;
    }
    proof {
        assert(lines.deep_view().take(lines@.len() as int) =~= lines.deep_view());
    }
    out
}

fn push_line(lines: &mut Vec<String>, s: String)
    ensures
        final(lines).deep_view() == old(lines).deep_view().push(s@),
{
    let ghost d = lines.deep_view();
    let ghost sv = s@;
    lines.push(s);
    proof {
        assert(lines.deep_view() =~~= d.push(sv));
    }
}

/// A tab for each nesting level.
pub open spec fn tabs(n: nat) -> Seq<char>
    decreases n,
{
    if n == 0 {
        Seq::empty()
    } else {
        tabs((n - 1) as nat) + "\t"@
    }
}

fn tab_indent(n: u32) -> (r: String)
    ensures
        r@ == tabs(n as nat),
{
    let mut s = String::new();
    let mut i: u32 = 0;
    while i < n
        invariant
            i <= n,
            s@ == tabs(i as nat),
        decreases n - i,
    {
        s.append("\t");
        i += 1;
    }
    s
}

/// The header line: subreddit, poster, and the optional score and timestamp
/// fragments.
pub open spec fn spec_header_line(post: Post, s: Settings) -> Seq<char> {
    "**"@ + post.subreddit@ + "** | Posted by u/"@ + post.author@ + " "@ + spec_format_upvotes(
        post.ups as int,
        s.show_upvotes,
    ) + " "@ + spec_format_timestamp(spec_post_timestamp(post.created_utc), s.show_timestamp)
        + "\n"@
}

/// The title heading line.
pub open spec fn spec_title_line(post: Post) -> Seq<char> {
    "## "@ + post.title@ + "\n"@
}

/// The link back to the source URL.
pub open spec fn spec_origin_line(post: Post) -> Seq<char> {
    "Original post: ["@ + post.url@ + "]("@ + post.url@ + ")\n"@
}

/// The moderator-lock notice, naming the subreddit.
pub open spec fn spec_lock_line(post: Post) -> Seq<char> {
    "---\n\n>\u{1f512} **This thread has been locked by the moderators of "@ + post.subreddit@
        + "**.\n  New comments cannot be posted\n\n"@
}

/// The selftext block: entities decoded, every line under a quote marker.
pub open spec fn spec_selftext_block(post: Post) -> Seq<char> {
    "> "@ + replace_seq(spec_escape_selftext(post.selftext@), "\n"@, "\n> "@) + "\n"@
}

/// The reply-count line.
pub open spec fn spec_count_line(total: nat) -> Seq<char> {
    "\u{1f4ac} ~ "@ + dec_digits(total) + " replies\n"@
}

/// The color glyph for a top-level comment: the palette's first entry when
/// indicators are on, nothing otherwise.
pub open spec fn spec_top_color(s: Settings, colors: Seq<Seq<char>>) -> Seq<char> {
    if s.reply_depth_color_indicators && colors.len() > 0 {
        colors[0]
    } else {
        Seq::empty()
    }
}

/// The color glyph for a nested comment: the palette entry at its depth,
/// nothing when indicators are off or the depth exceeds the palette.
pub open spec fn spec_child_color(depth: nat, s: Settings, colors: Seq<Seq<char>>) -> Seq<char> {
    if s.reply_depth_color_indicators && depth < colors.len() {
        colors[depth as int]
    } else {
        Seq::empty()
    }
}

/// A top-level comment's header line: list marker, color glyph, author with
/// role marker, and the optional score and timestamp fragments.
pub open spec fn spec_top_header_frag(
    author: Seq<char>,
    upvotes: int,
    timestamp: Seq<char>,
    post_author: Seq<char>,
    s: Settings,
    colors: Seq<Seq<char>>,
) -> Seq<char> {
    "* "@ + spec_top_color(s, colors) + " **"@ + spec_author_with_op_marker(author, post_author)
        + "** "@ + spec_format_upvotes(upvotes, s.show_upvotes) + " "@ + spec_format_timestamp(
        timestamp,
        s.show_timestamp,
    ) + "\n\n"@
}

/// What spec_apply_filter yields for a comment under the settings' policy.
pub open spec fn spec_filtered(author: Seq<char>, body: Seq<char>, upvotes: int, s: Settings) -> Seq<
    char,
> {
    spec_apply_filter(
        author,
        body,
        upvotes,
        s.filters.keywords.deep_view(),
        s.filters.authors.deep_view(),
        s.filters.min_upvotes as int,
        s.filters.regexes.deep_view(),
        s.filtered_message@,
    )
}

/// The body fragments of a top-level comment: nothing for a whitespace-only
/// body, the fixed placeholder for the deletion sentinel, else the filtered
/// and formatted body as one indented block.
pub open spec fn spec_reply_body_frags(
    body: Seq<char>,
    author: Seq<char>,
    upvotes: int,
    s: Settings,
) -> Seq<Seq<char>> {
    if ws_only(body) {
        Seq::empty()
    } else if body == "[deleted]"@ {
        seq!["\tComment deleted by user\n\n"@]
    } else {
        seq!["\t"@ + spec_format_comment_body(spec_filtered(author, body, upvotes, s)) + "\n\n"@]
    }
}

/// The body fragments of a nested comment, at its own indent.
pub open spec fn spec_child_body_frags(
    body: Seq<char>,
    author: Seq<char>,
    upvotes: int,
    indent: Seq<char>,
    s: Settings,
) -> Seq<Seq<char>> {
    if ws_only(body) {
        Seq::empty()
    } else if body == "[deleted]"@ {
        seq![indent + "\tComment deleted by user\n\n"@]
    } else {
        seq![
            indent + "\t"@ + spec_format_child_comment_body(
                spec_filtered(author, body, upvotes, s),
                indent,
            ) + "\n\n"@
        ]
    }
}

/// The fragments one flattened descendant contributes: its indented header
/// line, then its body fragments.
pub open spec fn spec_child_frags(
    e: FlatEntry,
    post_author: Seq<char>,
    s: Settings,
    colors: Seq<Seq<char>>,
) -> Seq<Seq<char>> {
    let indent = tabs(e.depth as nat);
    let header = indent + "* "@ + spec_child_color(e.depth as nat, s, colors) + " **"@
        + spec_author_with_op_marker(e.author@, post_author) + "** "@ + spec_format_upvotes(
        e.ups as int,
        s.show_upvotes,
    ) + " "@ + spec_format_timestamp(
        spec_reply_timestamp(e.created_utc as int, s.show_timestamp),
        s.show_timestamp,
    ) + "\n\n"@;
    seq![header] + spec_child_body_frags(e.body@, e.author@, e.ups as int, indent, s)
}

/// The fragments a list of flattened descendants contributes, in order.
pub open spec fn spec_children_frags(
    entries: Seq<FlatEntry>,
    post_author: Seq<char>,
    s: Settings,
    colors: Seq<Seq<char>>,
) -> Seq<Seq<char>>
    decreases entries.len(),
{
    if entries.len() == 0 {
        Seq::empty()
    } else {
        spec_children_frags(entries.drop_last(), post_author, s, colors) + spec_child_frags(
            entries.last(),
            post_author,
            s,
            colors,
        )
    }
}

/// The fragments one top-level comment contributes: nothing when its author
/// is empty, or is the automated moderator and those are hidden; else its
/// header line, body fragments, every flattened descendant's fragments, and
/// the optional separator.
pub open spec fn spec_top_frags(
    c: Comment,
    post_author: Seq<char>,
    s: Settings,
    colors: Seq<Seq<char>>,
) -> Seq<Seq<char>> {
    if c.author@.len() == 0 || (c.author@ == "AutoModerator"@ && !s.show_auto_mod_comment) {
        Seq::empty()
    } else {
        seq![
            spec_top_header_frag(
                c.author@,
                c.ups as int,
                spec_reply_timestamp(c.created_utc as int, s.show_timestamp),
                post_author,
                s,
                colors,
            )
        ] + spec_reply_body_frags(c.body@, c.author@, c.ups as int, s) + spec_children_frags(
            spec_flatten_list(c.children@, s.reply_depth_max as int),
            post_author,
            s,
            colors,
        ) + (if s.line_break_between_parent_replies {
            seq!["---\n\n"@]
        } else {
            Seq::<Seq<char>>::empty()
        })
    }
}

/// The fragments the whole reply section contributes, in original order.
pub open spec fn spec_replies_frags(
    replies: Seq<Comment>,
    post_author: Seq<char>,
    s: Settings,
    colors: Seq<Seq<char>>,
) -> Seq<Seq<char>>
    decreases replies.len(),
{
    if replies.len() == 0 {
        Seq::empty()
    } else {
        spec_replies_frags(replies.drop_last(), post_author, s, colors) + spec_top_frags(
            replies.last(),
            post_author,
            s,
            colors,
        )
    }
}

/// Every fragment of the document, in order: header lines, the lock notice
/// when the post is locked, the selftext block when there is one, the
/// prepared media lines when capture is on, the reply-count line and rule,
/// the reply section, and a trailing blank line.
pub open spec fn spec_doc_frags(
    post: Post,
    replies: Seq<Comment>,
    s: Settings,
    colors: Seq<Seq<char>>,
    media_lines: Seq<Seq<char>>,
) -> Seq<Seq<char>> {
    seq![spec_header_line(post, s), spec_title_line(post), spec_origin_line(post)] + (if post.locked {
        seq![spec_lock_line(post)]
    } else {
        Seq::<Seq<char>>::empty()
    }) + (if post.selftext@.len() > 0 {
        seq![spec_selftext_block(post)]
    } else {
        Seq::<Seq<char>>::empty()
    }) + (if s.enable_media_downloads {
        media_lines
    } else {
        Seq::<Seq<char>>::empty()
    }) + seq![
        spec_count_line(spec_total_replies(replies, s.reply_depth_max as int) as nat),
        "---\n\n"@,
    ] + spec_replies_frags(replies, post.author@, s, colors) + seq!["\n"@]
}

/// The rendered document: the concatenation of all its fragments.
pub open spec fn spec_render(
    post: Post,
    replies: Seq<Comment>,
    s: Settings,
    colors: Seq<Seq<char>>,
    media_lines: Seq<Seq<char>>,
) -> Seq<char> {
    concat_views(spec_doc_frags(post, replies, s, colors, media_lines))
}

/// Law: a body that is exactly the deletion sentinel always renders the
/// fixed placeholder line — never the filter's output nor the body
/// formatter's.
pub proof fn lemma_deleted_sentinel_placeholder(
    body: Seq<char>,
    author: Seq<char>,
    upvotes: int,
    s: Settings,
)
    requires
        body == "[deleted]"@,
    ensures
        spec_reply_body_frags(body, author, upvotes, s) == seq!["\tComment deleted by user\n\n"@],
{
    reveal_strlit("[deleted]");
    assert(body[0] == '[');
    assert(!crate::text::is_wspace('['));
    assert(!ws_only(body));
}

/// Law: the deletion sentinel renders the placeholder at any nesting depth
/// too.
pub proof fn lemma_deleted_sentinel_placeholder_nested(
    body: Seq<char>,
    author: Seq<char>,
    upvotes: int,
    indent: Seq<char>,
    s: Settings,
)
    requires
        body == "[deleted]"@,
    ensures
        spec_child_body_frags(body, author, upvotes, indent, s) == seq![
            indent + "\tComment deleted by user\n\n"@
        ],
{
    reveal_strlit("[deleted]");
    assert(body[0] == '[');
    assert(!crate::text::is_wspace('['));
    assert(!ws_only(body));
}

/// Walks the flattened descendants of each top-level comment and renders the
/// comment section.
pub struct ReplyProcessor;

impl ReplyProcessor {
    /// A fresh processor.
    pub fn new() -> ReplyProcessor {
        ReplyProcessor
    }

    /// Append one top-level comment's header line.
    pub fn add_reply_header(
        &self,
        author: &str,
        upvotes: i32,
        timestamp: &str,
        colors: &[String],
        post_author: &str,
        settings: &Settings,
        lines: &mut Vec<String>,
    )
        ensures
            final(lines).deep_view() == old(lines).deep_view().push(
                spec_top_header_frag(
                    author@,
                    upvotes as int,
                    timestamp@,
                    post_author@,
                    *settings,
                    colors.deep_view(),
                ),
            ),
    {
        let mut s = String::new();
        s.append("* ");
        if settings.reply_depth_color_indicators && colors.len() > 0 {
            s.append(colors[0].as_str());
            proof {
                assert(colors.deep_view()[0] == colors@[0]@);
            }
        }
        proof {
            assert(s@ == "* "@ + spec_top_color(*settings, colors.deep_view()));
        }
        s.append(" **");
        let field = format_author_with_op_marker(author, post_author);
        s.append(field.as_str());
        s.append("** ");
        let upvote_str = format_upvotes(upvotes, settings.show_upvotes);
        s.append(upvote_str.as_str());
        s.append(" ");
        let ts = format_timestamp(timestamp, settings.show_timestamp);
        s.append(ts.as_str());
        s.append("\n\n");
        proof {
            assert(s@ =~= spec_top_header_frag(
                author@,
                upvotes as int,
                timestamp@,
                post_author@,
                *settings,
                colors.deep_view(),
            ));
        }
        push_line(lines, s);
    }

    /// Append a top-level comment's body: nothing for a whitespace-only
    /// body, the fixed placeholder for the deletion sentinel, else the body
    /// after the content filter and the body formatter, as one indented
    /// block.
    pub fn process_reply_body(
        &self,
        body: &str,
        author: &str,
        upvotes: i32,
        settings: &Settings,
        lines: &mut Vec<String>,
    )
        ensures
            final(lines).deep_view() == old(lines).deep_view() + spec_reply_body_frags(
                body@,
                author@,
                upvotes as int,
                *settings,
            ),
    {
        if is_ws_only_str(body) {
            proof {
                assert(old(lines).deep_view() + Seq::<Seq<char>>::empty() =~= old(
                    lines,
                ).deep_view());
            }
            return ;
        }
        if str_eq(body, "[deleted]") {
            push_line(lines, "\tComment deleted by user\n\n".to_owned());
            proof {
                assert(old(lines).deep_view().push("\tComment deleted by user\n\n"@) =~= old(
                    lines,
                ).deep_view() + seq!["\tComment deleted by user\n\n"@]);
            }
        } else {
            let filtered = apply_filter(
                author,
                body,
                upvotes,
                settings.filters.keywords.as_slice(),
                settings.filters.authors.as_slice(),
                settings.filters.min_upvotes,
                settings.filters.regexes.as_slice(),
                settings.filtered_message.as_str(),
            );
            let formatted = format_comment_body(filtered.as_str());
            let mut s = String::new();
            s.append("\t");
            s.append(formatted.as_str());
            s.append("\n\n");
            let ghost frag = "\t"@ + spec_format_comment_body(
                spec_filtered(author@, body@, upvotes as int, *settings),
            ) + "\n\n"@;
            proof {
                assert(s@ =~= frag);
            }
            push_line(lines, s);
            proof {
                assert(old(lines).deep_view().push(frag) =~= old(lines).deep_view() + seq![frag]);
            }
        }
    }

    /// Append a nested comment's body at its indent, under the same
    /// whitespace, deletion-sentinel and filter rules.
    pub fn process_child_reply_body(
        &self,
        body: &str,
        author: &str,
        upvotes: i32,
        indent: &str,
        settings: &Settings,
        lines: &mut Vec<String>,
    )
        ensures
            final(lines).deep_view() == old(lines).deep_view() + spec_child_body_frags(
                body@,
                author@,
                upvotes as int,
                indent@,
                *settings,
            ),
    {
        if is_ws_only_str(body) {
            proof {
                assert(old(lines).deep_view() + Seq::<Seq<char>>::empty() =~= old(
                    lines,
                ).deep_view());
            }
            return ;
        }
        if str_eq(body, "[deleted]") {
            let mut s = String::new();
            s.append(indent);
            s.append("\tComment deleted by user\n\n");
            let ghost frag = indent@ + "\tComment deleted by user\n\n"@;
            proof {
                assert(s@ =~= frag);
            }
            push_line(lines, s);
            proof {
                assert(old(lines).deep_view().push(frag) =~= old(lines).deep_view() + seq![frag]);
            }
        } else {
            let filtered = apply_filter(
                author,
                body,
                upvotes,
                settings.filters.keywords.as_slice(),
                settings.filters.authors.as_slice(),
                settings.filters.min_upvotes,
                settings.filters.regexes.as_slice(),
                settings.filtered_message.as_str(),
            );
            let formatted = format_child_comment_body(filtered.as_str(), indent);
            let mut s = String::new();
            s.append(indent);
            s.append("\t");
            s.append(formatted.as_str());
            s.append("\n\n");
            let ghost frag = indent@ + "\t"@ + spec_format_child_comment_body(
                spec_filtered(author@, body@, upvotes as int, *settings),
                indent@,
            ) + "\n\n"@;
            proof {
                assert(s@ =~= frag);
            }
            push_line(lines, s);
            proof {
                assert(old(lines).deep_view().push(frag) =~= old(lines).deep_view() + seq![frag]);
            }
        }
    }

    /// Append one flattened descendant: its indented header line, then its
    /// body.
    fn process_child_reply(
        &self,
        entry: &FlatEntry,
        settings: &Settings,
        colors: &[String],
        post_author: &str,
        lines: &mut Vec<String>,
    )
        ensures
            final(lines).deep_view() == old(lines).deep_view() + spec_child_frags(
                *entry,
                post_author@,
                *settings,
                colors.deep_view(),
            ),
    {
        let indent = tab_indent(entry.depth);
        let mut s = String::new();
        s.append(indent.as_str());
        s.append("* ");
        if settings.reply_depth_color_indicators && (entry.depth as usize) < colors.len() {
            s.append(colors[entry.depth as usize].as_str());
            proof {
                assert(colors.deep_view()[entry.depth as int] == colors@[entry.depth as int]@);
            }
        }
        proof {
            assert(s@ == tabs(entry.depth as nat) + "* "@ + spec_child_color(
                entry.depth as nat,
                *settings,
                colors.deep_view(),
            ));
        }
        s.append(" **");
        let field = format_author_with_op_marker(entry.author.as_str(), post_author);
        s.append(field.as_str());
        s.append("** ");
        let upvote_str = format_upvotes(entry.ups, settings.show_upvotes);
        s.append(upvote_str.as_str());
        s.append(" ");
        let resolved = extract_reply_timestamp(entry.created_utc, settings.show_timestamp);
        let ts = format_timestamp(resolved.as_str(), settings.show_timestamp);
        s.append(ts.as_str());
        s.append("\n\n");
        let ghost header = tabs(entry.depth as nat) + "* "@ + spec_child_color(
            entry.depth as nat,
            *settings,
            colors.deep_view(),
        ) + " **"@ + spec_author_with_op_marker(entry.author@, post_author@) + "** "@
            + spec_format_upvotes(entry.ups as int, settings.show_upvotes) + " "@
            + spec_format_timestamp(
            spec_reply_timestamp(entry.created_utc as int, settings.show_timestamp),
            settings.show_timestamp,
        ) + "\n\n"@;
        proof {
            assert(s@ =~= header);
        }
        push_line(lines, s);
        let ghost mid = lines.deep_view();
        self.process_child_reply_body(
            entry.body.as_str(),
            entry.author.as_str(),
            entry.ups,
            indent.as_str(),
            settings,
            lines,
        );
        proof {
            assert(old(lines).deep_view() + spec_child_frags(
                *entry,
                post_author@,
                *settings,
                colors.deep_view(),
            ) =~= mid + spec_child_body_frags(
                entry.body@,
                entry.author@,
                entry.ups as int,
                tabs(entry.depth as nat),
                *settings,
            ));
        }
    }

    /// Append one top-level comment and its whole flattened subtree, with
    /// the optional separator after it.
    fn process_top_level_reply(
        &self,
        comment: &Comment,
        settings: &Settings,
        colors: &[String],
        post_author: &str,
        lines: &mut Vec<String>,
    )
        ensures
            final(lines).deep_view() == old(lines).deep_view() + spec_top_frags(
                *comment,
                post_author@,
                *settings,
                colors.deep_view(),
            ),
    {
        if comment.author.as_str().is_empty() || (str_eq(comment.author.as_str(), "AutoModerator")
            && !settings.show_auto_mod_comment) {
            proof {
                assert(old(lines).deep_view() + Seq::<Seq<char>>::empty() =~= old(
                    lines,
                ).deep_view());
            }
            return ;
        }
        let resolved = extract_reply_timestamp(comment.created_utc, settings.show_timestamp);
        self.add_reply_header(
            comment.author.as_str(),
            comment.ups,
            resolved.as_str(),
            colors,
            post_author,
            settings,
            lines,
        );
        let ghost after_header = lines.deep_view();
        self.process_reply_body(
            comment.body.as_str(),
            comment.author.as_str(),
            comment.ups,
            settings,
            lines,
        );
        let ghost after_body = lines.deep_view();
        let entries = get_replies(comment, settings.reply_depth_max);
        let mut i: usize = 0;
        proof {
            assert(entries@.take(0) =~= Seq::<FlatEntry>::empty());
            assert(after_body + Seq::<Seq<char>>::empty() =~= after_body);
        }
        while i < entries.len()
            invariant
                i <= entries@.len(),
                lines.deep_view() == after_body + spec_children_frags(
                    entries@.take(i as int),
                    post_author@,
                    *settings,
                    colors.deep_view(),
                ),
            decreases entries@.len() - i,
        {
            let ghost before = lines.deep_view();
            self.process_child_reply(&entries[i], settings, colors, post_author, lines);
            proof {
                let t = entries@.take(i + 1);
                assert(t.drop_last() =~= entries@.take(i as int));
                assert(t.last() == entries@[i as int]);
                assert(lines.deep_view() =~= after_body + spec_children_frags(
                    entries@.take(i + 1),
                    post_author@,
                    *settings,
                    colors.deep_view(),
                ));
            }
            i += 1;
        }
        proof {
            assert(entries@.take(entries@.len() as int) =~= entries@);
        }
        if settings.line_break_between_parent_replies {
            push_line(lines, "---\n\n".to_owned());
        }
        proof {
            let frags = spec_top_frags(*comment, post_author@, *settings, colors.deep_view());
            assert(old(lines).deep_view() + frags =~= lines.deep_view());
        }
    }

    /// Append the whole reply section: the reply-count line, a rule, and
    /// every top-level comment's rendered subtree in original order.
    pub fn process_replies(
        &self,
        replies: &Vec<Comment>,
        settings: &Settings,
        colors: &[String],
        post_author: &str,
        lines: &mut Vec<String>,
    )
        requires
            spec_total_replies(replies@, settings.reply_depth_max as int) <= usize::MAX,
        ensures
            final(lines).deep_view() == old(lines).deep_view() + seq![
                spec_count_line(
                    spec_total_replies(replies@, settings.reply_depth_max as int) as nat,
                ),
                "---\n\n"@,
            ] + spec_replies_frags(replies@, post_author@, *settings, colors.deep_view()),
    {
        let total = count_total_replies(replies, settings.reply_depth_max);
        let digits = string_of(&crate::numbers::u64_dec_chars(total as u64));
        let mut count_line = String::new();
        count_line.append("\u{1f4ac} ~ ");
        count_line.append(digits.as_str());
        count_line.append(" replies\n");
        proof {
            assert(count_line@ =~= spec_count_line(
                spec_total_replies(replies@, settings.reply_depth_max as int) as nat,
            ));
        }
        push_line(lines, count_line);
        push_line(lines, "---\n\n".to_owned());
        let ghost after_count = lines.deep_view();
        let mut i: usize = 0;
        proof {
            assert(replies@.take(0) =~= Seq::<Comment>::empty());
            assert(after_count + Seq::<Seq<char>>::empty() =~= after_count);
        }
        while i < replies.len()
            invariant
                i <= replies@.len(),
                lines.deep_view() == after_count + spec_replies_frags(
                    replies@.take(i as int),
                    post_author@,
                    *settings,
                    colors.deep_view(),
                ),
            decreases replies@.len() - i,
        {
            self.process_top_level_reply(&replies[i], settings, colors, post_author, lines);
            proof {
                let t = replies@.take(i + 1);
                assert(t.drop_last() =~= replies@.take(i as int));
                assert(t.last() == replies@[i as int]);
                assert(lines.deep_view() =~= after_count + spec_replies_frags(
                    replies@.take(i + 1),
                    post_author@,
                    *settings,
                    colors.deep_view(),
                ));
            }
            i += 1;
        }
        proof {
            assert(replies@.take(replies@.len() as int) =~= replies@);
            assert(old(lines).deep_view() + seq![
                spec_count_line(
                    spec_total_replies(replies@, settings.reply_depth_max as int) as nat,
                ),
                "---\n\n"@,
            ] + spec_replies_frags(replies@, post_author@, *settings, colors.deep_view()) =~= lines.deep_view());
        }
    }
}

} // verus!
