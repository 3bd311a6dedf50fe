//! Assembles the full document: header, lock notice, selftext, prepared
//! media lines and the reply section, in a fixed order.

use vstd::prelude::*;
use vstd::string::StringExecFns;

use crate::formatting::escape_selftext;
use crate::formatting::format_timestamp;
use crate::formatting::format_upvotes;
use crate::media::MediaHandler;
use crate::render::Post;
use crate::render::ReplyProcessor;
use crate::render::concat_all;
use crate::render::spec_count_line;
use crate::render::spec_doc_frags;
use crate::render::spec_header_line;
use crate::render::spec_lock_line;
use crate::render::spec_origin_line;
use crate::render::spec_render;
use crate::render::spec_replies_frags;
use crate::render::spec_selftext_block;
use crate::render::spec_title_line;
use crate::replies::Comment;
use crate::replies::spec_total_replies;
use crate::settings::Settings;
use crate::text::chars_of;
use crate::text::replace_chars;
use crate::text::string_of;
use crate::time::extract_post_timestamp;

verus! {

/// Builds one post's document from its parts.
pub struct PostContentBuilder {
    media_handler: MediaHandler,
    reply_processor: ReplyProcessor,
}

fn push_line(lines: &mut Vec<String>, s: String)
    ensures
        final(lines).deep_view() == old(lines).deep_view().push(s@),
{
    let ghost d = lines.deep_view();
    let ghost sv = s@;
    lines.push(s);
    proof {
        assert(lines.deep_view() =~~= d.push(sv));
    }
}

impl PostContentBuilder {
    /// A fresh builder.
    pub fn new() -> PostContentBuilder {
        PostContentBuilder { media_handler: MediaHandler, reply_processor: ReplyProcessor::new() }
    }

    /// Append the three header lines: subreddit and poster, the title
    /// heading, and the link back to the source.
    pub fn build_post_header(&self, post: &Post, settings: &Settings, lines: &mut Vec<String>)
        ensures
            final(lines).deep_view() == old(lines).deep_view() + seq![
                spec_header_line(*post, *settings),
                spec_title_line(*post),
                spec_origin_line(*post),
            ],
    {
        let mut h = String::new();
        h.append("**");
        h.append(post.subreddit.as_str());
        h.append("** | Posted by u/");
        h.append(post.author.as_str());
        h.append(" ");
        let upv = format_upvotes(post.ups, settings.show_upvotes);
        h.append(upv.as_str());
        h.append(" ");
        let resolved = extract_post_timestamp(post.created_utc);
        let ts = format_timestamp(resolved.as_str(), settings.show_timestamp);
        h.append(ts.as_str());
        h.append("\n");
        proof {
            assert(h@ =~= spec_header_line(*post, *settings));
        }
        push_line(lines, h);
        let mut t = String::new();
        t.append("## ");
        t.append(post.title.as_str());
        t.append("\n");
        proof {
            assert(t@ =~= spec_title_line(*post));
        }
        push_line(lines, t);
        let mut o = String::new();
        o.append("Original post: [");
        o.append(post.url.as_str());
        o.append("](");
        o.append(post.url.as_str());
        o.append(")\n");
        proof {
            assert(o@ =~= spec_origin_line(*post));
        }
        push_line(lines, o);
        proof {
            assert(lines.deep_view() =~= old(lines).deep_view() + seq![
                spec_header_line(*post, *settings),
                spec_title_line(*post),
                spec_origin_line(*post),
            ]);
        }
    }

    /// Append the moderator-lock notice when the post is locked.
    pub fn build_lock_message(&self, post: &Post, settings: &Settings, lines: &mut Vec<String>)
        ensures
            final(lines).deep_view() == old(lines).deep_view() + (if post.locked {
                seq![spec_lock_line(*post)]
            } else {
                Seq::<Seq<char>>::empty()
            }),
    {
        if post.locked {
            let mut s = String::new();
            s.append("---\n\n>\u{1f512} **This thread has been locked by the moderators of ");
            s.append(post.subreddit.as_str());
            s.append("**.\n  New comments cannot be posted\n\n");
            proof {
                assert(s@ =~= spec_lock_line(*post));
            }
            push_line(lines, s);
            proof {
                assert(old(lines).deep_view().push(spec_lock_line(*post)) =~= old(
                    lines,
                ).deep_view() + seq![spec_lock_line(*post)]);
            }
        } else {
            proof {
                assert(old(lines).deep_view() + Seq::<Seq<char>>::empty() =~= old(
                    lines,
                ).deep_view());
            }
        }
    }

    /// Append the quoted selftext block when the post has one.
    pub fn build_post_content_body(&self, post: &Post, settings: &Settings, lines: &mut Vec<String>)
        ensures
            final(lines).deep_view() == old(lines).deep_view() + (if post.selftext@.len() > 0 {
                seq![spec_selftext_block(*post)]
            } else {
                Seq::<Seq<char>>::empty()
            }),
    {
        if !post.selftext.as_str().is_empty() {
            proof {
                reveal_strlit("\n");
            }
            let escaped = escape_selftext(post.selftext.as_str());
            let ev = chars_of(escaped.as_str());
            let quoted = replace_chars(&ev, &chars_of("\n"), &chars_of("\n> "));
            let mut s = String::new();
            s.append("> ");
            s.append(string_of(&quoted).as_str());
            s.append("\n");
            proof {
                assert(s@ =~= spec_selftext_block(*post));
            }
            push_line(lines, s);
            proof {
                assert(old(lines).deep_view().push(spec_selftext_block(*post)) =~= old(
                    lines,
                ).deep_view() + seq![spec_selftext_block(*post)]);
            }
        } else {
            proof {
                assert(old(lines).deep_view() + Seq::<Seq<char>>::empty() =~= old(
                    lines,
                ).deep_view());
            }
        }
    }

    /// Render the whole document: header lines, the lock notice, the
    /// selftext block, the prepared media lines when capture is on, then the
    /// reply section and a trailing blank line, concatenated in order.  The
    /// media lines are prepared by the caller from the media plan.
    pub fn build_post_content(
        &mut self,
        post: &Post,
        replies: &Vec<Comment>,
        settings: &Settings,
        colors: &[String],
        media_lines: &[String],
    ) -> (r: String)
        requires
            spec_total_replies(replies@, settings.reply_depth_max as int) <= usize::MAX,
        ensures
            r@ == spec_render(
                *post,
                replies@,
                *settings,
                colors.deep_view(),
                media_lines.deep_view(),
            ),
    {
        let mut lines: Vec<String> = Vec::new();
        let ghost f_header = seq![
            spec_header_line(*post, *settings),
            spec_title_line(*post),
            spec_origin_line(*post),
        ];
        let ghost f_lock: Seq<Seq<char>> = if post.locked {
            seq![spec_lock_line(*post)]
        } else {
            Seq::empty()
        };
        let ghost f_self: Seq<Seq<char>> = if post.selftext@.len() > 0 {
            seq![spec_selftext_block(*post)]
        } else {
            Seq::empty()
        };
        let ghost f_media: Seq<Seq<char>> = if settings.enable_media_downloads {
            media_lines.deep_view()
        } else {
            Seq::empty()
        };
        proof {
            assert(lines.deep_view() =~= Seq::<Seq<char>>::empty());
        }
        self.build_post_header(post, settings, &mut lines);
        proof {
            assert(lines.deep_view() =~= f_header);
        }
        self.build_lock_message(post, settings, &mut lines);
        self.build_post_content_body(post, settings, &mut lines);
        let ghost before_media = lines.deep_view();
        if settings.enable_media_downloads {
            let mut i: usize = 0;
            proof {
                assert(media_lines.deep_view().take(0) =~= Seq::<Seq<char>>::empty());
                assert(before_media + Seq::<Seq<char>>::empty() =~= before_media);
            }
            while i < media_lines.len()
                invariant
                    i <= media_lines@.len(),
                    lines.deep_view() == before_media + media_lines.deep_view().take(i as int),
                decreases media_lines@.len() - i,
            {
                proof {
                    assert(media_lines.deep_view()[i as int] == media_lines@[i as int]@);
                }
                push_line(&mut lines, media_lines[i].clone());
                proof {
                    assert(lines.deep_view() =~= before_media + media_lines.deep_view().take(
                        i + 1,
                    ));
                }
                i += 1;
            }
            proof {
                assert(media_lines.deep_view().take(media_lines@.len() as int)
                    =~= media_lines.deep_view());
            }
        }
        proof {
            assert(lines.deep_view() =~= f_header + f_lock + f_self + f_media);
        }
        let ghost before_replies = lines.deep_view();
        self.reply_processor.process_replies(
            replies,
            settings,
            colors,
            post.author.as_str(),
            &mut lines,
        );
        push_line(&mut lines, "\n".to_owned());
        proof {
            assert(lines.deep_view() =~= f_header + f_lock + f_self + f_media + seq![
                spec_count_line(
                    spec_total_replies(replies@, settings.reply_depth_max as int) as nat,
                ),
                "---\n\n"@,
            ] + spec_replies_frags(replies@, post.author@, *settings, colors.deep_view()) + seq![
                "\n"@
            ]);
            assert(lines.deep_view() =~= spec_doc_frags(
                *post,
                replies@,
                *settings,
                colors.deep_view(),
                media_lines.deep_view(),
            ));
        }
        concat_all(&lines)
    }
}

/// Render one post's document; a convenience over a fresh builder.
pub fn build_post_content(
    post: &Post,
    replies: &Vec<Comment>,
    settings: &Settings,
    colors: &[String],
    media_lines: &[String],
) -> (r: String)
    requires
        spec_total_replies(replies@, settings.reply_depth_max as int) <= usize::MAX,
    ensures
        r@ == spec_render(*post, replies@, *settings, colors.deep_view(), media_lines.deep_view()),
{
    let mut builder = PostContentBuilder::new();
    builder.build_post_content(post, replies, settings, colors, media_lines)
}

/// Renders posts; a thin face over the content builder.
pub struct PostRenderer {
    builder: PostContentBuilder,
}

impl PostRenderer {
    /// A fresh renderer.
    pub fn new() -> PostRenderer {
        PostRenderer { builder: PostContentBuilder::new() }
    }

    /// Render one post's document.
    pub fn build_post(
        &mut self,
        post: &Post,
        replies: &Vec<Comment>,
        settings: &Settings,
        colors: &[String],
        media_lines: &[String],
    ) -> (r: String)
        requires
            spec_total_replies(replies@, settings.reply_depth_max as int) <= usize::MAX,
        ensures
            r@ == spec_render(
                *post,
                replies@,
                *settings,
                colors.deep_view(),
                media_lines.deep_view(),
            ),
    {
        self.builder.build_post_content(post, replies, settings, colors, media_lines)
    }
}

} // verus!
