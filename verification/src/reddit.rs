//! Posts and comments of a forum, and the texts taken from them.

use vstd::prelude::*;
use crate::chars::{push_str, string_of, texts_of};
use crate::config::Content;
use crate::number::{format_number, human_number_text, padded_left, NUMBER_WIDTH};

verus! {

/// A post.
#[derive(Clone, Debug)]
pub struct Post {
    /// Title.
    pub title: String,
    /// Body.
    pub body: String,
    /// Link to the post, inside the forum's site.
    pub link: String,
    /// Votes for the post, less those against it; never below zero.
    pub score: u32,
    /// Number of comments on the post.
    pub comment_count: u32,
}

/// A comment on a post.
#[derive(Clone, Debug)]
pub struct Comment {
    /// Body.
    pub body: String,
}

/// A post as the forum's listing gives it.
#[derive(Clone, Debug)]
pub struct ListedPost {
    pub title: String,
    pub selftext: String,
    pub permalink: String,
    pub score: i32,
    pub num_comments: u32,
}

/// What a `Post` holds, as plain values.
pub struct PostModel {
    pub title: Seq<char>,
    pub body: Seq<char>,
    pub link: Seq<char>,
    pub score: nat,
    pub comment_count: nat,
}

impl View for Post {
    type V = PostModel;

    open spec fn view(&self) -> PostModel {
        PostModel {
            title: self.title@,
            body: self.body@,
            link: self.link@,
            score: self.score as nat,
            comment_count: self.comment_count as nat,
        }
    }
}

impl View for Comment {
    type V = Seq<char>;

    open spec fn view(&self) -> Seq<char> {
        self.body@
    }
}

impl ListedPost {
    /// The post that a listed post stands for; a score below zero counts
    /// as zero.
    pub open spec fn post(&self) -> PostModel {
        PostModel {
            title: self.title@,
            body: self.selftext@,
            link: self.permalink@,
            score: if self.score < 0 {
                0
            } else {
                self.score as nat
            },
            comment_count: self.num_comments as nat,
        }
    }
}

/// The line that shows a post in a list: the number of comments and the
/// score, each in a column of four characters with its sign behind it,
/// and the title.
pub open spec fn post_label(post: PostModel) -> Seq<char> {
    padded_left(human_number_text(post.comment_count), NUMBER_WIDTH as nat, seq![' '])
        + "\u{1F5E9} "@ + padded_left(human_number_text(post.score), NUMBER_WIDTH as nat, seq![' '])
        + "\u{1F5A2}  "@ + post.title
}

impl Post {
    /// The texts of a post: its title, then its body.
    pub fn to_texts(self) -> (out: Vec<String>)
        ensures
            texts_of(out@) == seq![self.title@, self.body@],
    {
        let mut out: Vec<String> = Vec::new();
        out.push(self.title);
        out.push(self.body);
        assert(texts_of(out@) =~= seq![self.title@, self.body@]);
        out
    }

    /// The line that shows the post in a list.
    pub fn label(&self) -> (out: String)
        ensures
            out@ == post_label(self@),
    {
        let mut out: Vec<char> = Vec::new();
        push_str(&mut out, format_number(self.comment_count).as_str());
        push_str(&mut out, "\u{1F5E9} ");
        push_str(&mut out, format_number(self.score).as_str());
        push_str(&mut out, "\u{1F5A2}  ");
        push_str(&mut out, self.title.as_str());
        assert(out@ =~= post_label(self@));
        string_of(&out)
    }
}

impl Comment {
    /// The text of a comment: its body.
    pub fn to_texts(self) -> (out: Vec<String>)
        ensures
            texts_of(out@) == seq![self.body@],
    {
        let mut out: Vec<String> = Vec::new();
        out.push(self.body);
        assert(texts_of(out@) =~= seq![self.body@]);
        out
    }
}

/// What the requests identify themselves as.
pub const USER_AGENT: &'static str =
    "Mozilla/5.0 (Windows NT 10.0; WOW64; x64) AppleWebKit/537.36 (KHTML, like Gecko) Chrome/113.0.5666.197 Safari/537.36";

/// The address of the listing of a forum's posts.
pub open spec fn posts_url_text(config: &Content) -> Seq<char> {
    "https://reddit.com/r/"@ + config.subreddit@ + "/"@ + config.sort@ + ".json?t="@ + config.time@
        + "&count=10000"@
}

/// The address of the listing of a post's comments.
pub open spec fn comments_url_text(parent_link: Seq<char>) -> Seq<char> {
    "https://reddit.com/"@ + parent_link + ".json?limit=10000"@
}

/// Builds the address of the listing of a forum's posts.
pub fn posts_url(config: &Content) -> (out: String)
    ensures
        out@ == posts_url_text(config),
{
    let mut out: Vec<char> = Vec::new();
    push_str(&mut out, "https://reddit.com/r/");
    push_str(&mut out, config.subreddit.as_str());
    push_str(&mut out, "/");
    push_str(&mut out, config.sort.as_str());
    push_str(&mut out, ".json?t=");
    push_str(&mut out, config.time.as_str());
    push_str(&mut out, "&count=10000");
    assert(out@ =~= posts_url_text(config));
    string_of(&out)
}

/// Builds the address of the listing of a post's comments.
pub fn comments_url(parent_link: &str) -> (out: String)
    ensures
        out@ == comments_url_text(parent_link@),
{
    let mut out: Vec<char> = Vec::new();
    push_str(&mut out, "https://reddit.com/");
    push_str(&mut out, parent_link);
    push_str(&mut out, ".json?limit=10000");
    assert(out@ =~= comments_url_text(parent_link@));
    string_of(&out)
}

/// How the order of posts reads in words.
pub open spec fn sort_and_time_text(sort: Seq<char>, time: Seq<char>) -> Seq<char> {
    if sort == "top"@ {
        if time == "all"@ {
            sort + " of all time"@
        } else {
            sort + " of the "@ + time
        }
    } else {
        sort
    }
}

/// Describes the order and the period that the settings ask for.
pub fn sort_and_time(config: &Content) -> (out: String)
    ensures
        out@ == sort_and_time_text(config.sort@, config.time@),
{
    let top = "top".to_owned();
    let all = "all".to_owned();
    let mut out: Vec<char> = Vec::new();
    push_str(&mut out, config.sort.as_str());
    if config.sort == top {
        if config.time == all {
            push_str(&mut out, " of all time");
        } else {
            push_str(&mut out, " of the ");
            push_str(&mut out, config.time.as_str());
        }
    }
    assert(out@ =~= sort_and_time_text(config.sort@, config.time@));
    string_of(&out)
}

/// The smaller of two numbers.
pub open spec fn at_most(count: nat, limit: nat) -> nat {
    if count <= limit {
        count
    } else {
        limit
    }
}

/// The views of posts.
pub open spec fn post_models(posts: Seq<Post>) -> Seq<PostModel> {
    Seq::new(posts.len(), |i: int| posts[i]@)
}

/// The posts of a listing: its first `limit` entries, in their order.
pub open spec fn listed_posts(listing: Seq<ListedPost>, limit: nat) -> Seq<PostModel> {
    Seq::new(at_most(listing.len(), limit), |i: int| listing[i].post())
}

/// Takes the posts from a listing, `limit` at most.
pub fn posts_from_listing(listing: &Vec<ListedPost>, limit: u32) -> (out: Vec<Post>)
    ensures
        post_models(out@) == listed_posts(listing@, limit as nat),
{
    let mut posts: Vec<Post> = Vec::new();
    let mut i: usize = 0;
    assert(post_models(posts@) =~= Seq::new(0, |k: int| listing@[k].post()));
    while i < listing.len() && i < limit as usize
        invariant
            i <= listing.len(),
            i <= limit,
            post_models(posts@) == Seq::new(i as nat, |k: int| listing@[k].post()),
        decreases listing.len() - i,
    {
        let ghost before = post_models(posts@);
        let entry = &listing[i];
        let score: u32 = if entry.score < 0 {
            0
        } else {
            entry.score as u32
        };
        let post = Post {
            title: entry.title.clone(),
            body: entry.selftext.clone(),
            link: entry.permalink.clone(),
            score,
            comment_count: entry.num_comments,
        };
        posts.push(post);
        i += 1;
        assert(post_models(posts@) =~= before.push(listing@[i - 1].post()));
        assert(post_models(posts@) =~= Seq::new(i as nat, |k: int| listing@[k].post()));
    }
    posts
}

/// The views of comments.
pub open spec fn comment_models(comments: Seq<Comment>) -> Seq<Seq<char>> {
    Seq::new(comments.len(), |i: int| comments[i]@)
}

/// The bodies that are there, in their order.
pub open spec fn present_bodies(bodies: Seq<Option<String>>) -> Seq<Seq<char>>
    decreases bodies.len(),
{
    if bodies.len() == 0 {
        Seq::empty()
    } else {
        match bodies.last() {
            Some(body) => present_bodies(bodies.drop_last()).push(body@),
            None => present_bodies(bodies.drop_last()),
        }
    }
}

/// The first `limit` of a row of items, or all where there are fewer.
pub open spec fn first_of<A>(items: Seq<A>, limit: nat) -> Seq<A> {
    items.take(at_most(items.len(), limit) as int)
}

/// The comments of a listing: a comment without a body is passed over, and
/// of the others the first `limit` are taken.
pub open spec fn listed_comments(bodies: Seq<Option<String>>, limit: nat) -> Seq<Seq<char>> {
    first_of(present_bodies(bodies), limit)
}

/// Takes the comments from the bodies of a listing, `limit` at most.
pub fn comments_from_listing(bodies: &Vec<Option<String>>, limit: u32) -> (out: Vec<Comment>)
    ensures
        comment_models(out@) == listed_comments(bodies@, limit as nat),
{
    let mut comments: Vec<Comment> = Vec::new();
    let mut i: usize = 0;
    assert(bodies@.take(0) =~= Seq::<Option<String>>::empty());
    assert(comment_models(comments@) =~= listed_comments(bodies@.take(0), limit as nat));
    while i < bodies.len()
        invariant
            i <= bodies.len(),
            comment_models(comments@) == listed_comments(bodies@.take(i as int), limit as nat),
        decreases bodies.len() - i,
    {
        let ghost before = comment_models(comments@);
        proof {
            assert(bodies@.take(i + 1).drop_last() =~= bodies@.take(i as int));
            assert(bodies@.take(i + 1).last() == bodies@[i as int]);
        }
        match &bodies[i] {
            Some(body) => {
                if comments.len() < limit as usize {
                    comments.push(Comment { body: body.clone() });
                    assert(comment_models(comments@) =~= before.push(body@));
                }
            },
            None => {},
        }
        i += 1;
        assert(comment_models(comments@) =~= listed_comments(
            bodies@.take(i as int),
            limit as nat,
        ));
    }
    assert(bodies@.take(i as int) =~= bodies@);
    comments
}

/// The texts of posts: for each post its title and then its body.
pub open spec fn all_post_texts(posts: Seq<Post>) -> Seq<Seq<char>>
    decreases posts.len(),
{
    if posts.len() == 0 {
        Seq::empty()
    } else {
        all_post_texts(posts.drop_last()).push(posts.last().title@).push(posts.last().body@)
    }
}

/// The texts of a post with comments: the post's title, then the comments.
pub open spec fn all_thread_texts(parent: &Post, comments: Seq<Comment>) -> Seq<Seq<char>> {
    seq![parent.title@] + comment_models(comments)
}

/// The texts to be spoken: those that are not empty, and of them the
/// first `limit`.
pub open spec fn kept_texts(all: Seq<Seq<char>>, limit: nat) -> Seq<Seq<char>> {
    first_of(all.filter(|text: Seq<char>| text.len() > 0), limit)
}

/// Collects the texts of posts.
pub fn post_texts(posts: &Vec<Post>) -> (out: Vec<String>)
    ensures
        texts_of(out@) == all_post_texts(posts@),
{
    let mut out: Vec<String> = Vec::new();
    let mut i: usize = 0;
    assert(posts@.take(0) =~= Seq::<Post>::empty());
    assert(texts_of(out@) =~= all_post_texts(posts@.take(0)));
    while i < posts.len()
        invariant
            i <= posts.len(),
            texts_of(out@) == all_post_texts(posts@.take(i as int)),
        decreases posts.len() - i,
    {
        let ghost before = texts_of(out@);
        proof {
            assert(posts@.take(i + 1).drop_last() =~= posts@.take(i as int));
            assert(posts@.take(i + 1).last() == posts@[i as int]);
        }
        out.push(posts[i].title.clone());
        out.push(posts[i].body.clone());
        i += 1;
        assert(texts_of(out@) =~= before.push(posts@[i - 1].title@).push(posts@[i - 1].body@));
    }
    assert(posts@.take(i as int) =~= posts@);
    out
}

/// Collects the texts of a post with comments.
pub fn thread_texts(parent: &Post, comments: &Vec<Comment>) -> (out: Vec<String>)
    ensures
        texts_of(out@) == all_thread_texts(parent, comments@),
{
    let mut out: Vec<String> = Vec::new();
    out.push(parent.title.clone());
    let mut i: usize = 0;
    assert(texts_of(out@) =~= seq![parent.title@] + comment_models(comments@).take(0));
    while i < comments.len()
        invariant
            i <= comments.len(),
            texts_of(out@) == seq![parent.title@] + comment_models(comments@).take(i as int),
        decreases comments.len() - i,
    {
        let ghost before = texts_of(out@);
        out.push(comments[i].body.clone());
        i += 1;
        assert(texts_of(out@) =~= before.push(comments@[i - 1]@));
        assert(texts_of(out@) =~= seq![parent.title@] + comment_models(comments@).take(i as int));
    }
    assert(comment_models(comments@).take(i as int) =~= comment_models(comments@));
    out
}

/// Keeps the texts that are not empty, `limit` at most.
pub fn limit_texts(all: &Vec<String>, limit: u32) -> (out: Vec<String>)
    ensures
        texts_of(out@) == kept_texts(texts_of(all@), limit as nat),
{
    let mut out: Vec<String> = Vec::new();
    let mut i: usize = 0;
    assert(texts_of(all@).take(0) =~= Seq::<Seq<char>>::empty());
    assert(texts_of(out@) =~= kept_texts(texts_of(all@).take(0), limit as nat));
    while i < all.len()
        invariant
            i <= all.len(),
            texts_of(out@) == kept_texts(texts_of(all@).take(i as int), limit as nat),
        decreases all.len() - i,
    {
        let ghost before = texts_of(out@);
        proof {
            assert(texts_of(all@).take(i + 1).drop_last() =~= texts_of(all@).take(i as int));
            assert(texts_of(all@).take(i + 1).last() == all@[i as int]@);
            reveal(Seq::filter);
        }
        if all[i].as_str().unicode_len() > 0 && out.len() < limit as usize {
            out.push(all[i].clone());
            assert(texts_of(out@) =~= before.push(all@[i as int]@));
        }
        i += 1;
        assert(texts_of(out@) =~= kept_texts(texts_of(all@).take(i as int), limit as nat));
    }
    assert(texts_of(all@).take(i as int) =~= texts_of(all@));
    out
}

/// The texts to speak where the posts themselves are read.
pub fn texts_from_posts(config: &Content, posts: &Vec<Post>) -> (out: Vec<String>)
    ensures
        texts_of(out@) == kept_texts(all_post_texts(posts@), config.limit as nat),
{
    let all = post_texts(posts);
    limit_texts(&all, config.limit)
}

/// The texts to speak where the comments of one post are read.
pub fn texts_from_thread(config: &Content, parent: &Post, comments: &Vec<Comment>) -> (out: Vec<
    String,
>)
    ensures
        texts_of(out@) == kept_texts(all_thread_texts(parent, comments@), config.limit as nat),
{
    let all = thread_texts(parent, comments);
    limit_texts(&all, config.limit)
}

} // verus!
