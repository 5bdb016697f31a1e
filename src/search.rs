use vstd::prelude::*;
use vstd::string::StringExecFns;

use crate::format::{fenced, to_code_block, truncated, CODE_BLOCK_BUDGET};
use crate::topics::{flatten_list, get_topics, TopicLeaf, TopicNode};

verus! {

/// A postable search result. An empty url or image is held as `None`, never as
/// an empty string.
#[derive(Debug, PartialEq, Eq)]
pub struct SearchResult {
    pub title: String,
    pub text: String,
    pub url: Option<String>,
    pub image: Option<String>,
}

/// The contents of a search result.
pub struct SearchResultView {
    pub title: Seq<char>,
    pub text: Seq<char>,
    pub url: Option<Seq<char>>,
    pub image: Option<Seq<char>>,
}

/// The text of an optional string.
pub open spec fn opt_view(o: Option<String>) -> Option<Seq<char>> {
    match o {
        Some(s) => Some(s@),
        None => None,
    }
}

impl View for SearchResult {
    type V = SearchResultView;

    open spec fn view(&self) -> SearchResultView {
        SearchResultView {
            title: self.title@,
            text: self.text@,
            url: opt_view(self.url),
            image: opt_view(self.image),
        }
    }
}

/// One reply to the channel.
#[derive(Debug, PartialEq, Eq)]
pub enum Post {
    /// Plain message content (execution output in a code block).
    Content(String),
    /// A successful computed result.
    Result(String),
    /// An error reply.
    Error(String),
    /// An informational notice that is not an error.
    Notice(String),
    /// A rich search-result post.
    Search(SearchResult),
}

/// The contents of a reply.
pub enum PostView {
    Content(Seq<char>),
    Result(Seq<char>),
    Error(Seq<char>),
    Notice(Seq<char>),
    Search(SearchResultView),
}

impl View for Post {
    type V = PostView;

    open spec fn view(&self) -> PostView {
        match self {
            Post::Content(s) => PostView::Content(s@),
            Post::Result(s) => PostView::Result(s@),
            Post::Error(s) => PostView::Error(s@),
            Post::Notice(s) => PostView::Notice(s@),
            Post::Search(r) => PostView::Search(r@),
        }
    }
}

/// The kind of answer the search service gave.
#[derive(Debug, PartialEq, Eq)]
pub enum ResponseType {
    Article,
    Name,
    Disambiguation,
    Exclusive,
    Nothing,
    /// Any other kind, by its name.
    Other(String),
}

/// An answer of the search service, with the fields the replies are built from.
#[derive(Debug, PartialEq, Eq)]
pub struct SearchResponse {
    pub response_type: ResponseType,
    pub abstract_text: String,
    pub abstract_url: String,
    pub image: String,
    pub related_topics: Vec<TopicNode>,
    pub redirect: String,
}

/// Empty text is absent; any other text is present, unchanged.
pub open spec fn absent_if_empty(s: Seq<char>) -> Option<Seq<char>> {
    if s.len() == 0 {
        None
    } else {
        Some(s)
    }
}

/// The reply for one flattened result: titled with the query, carrying the
/// result's own text, url and icon.
pub open spec fn leaf_result(query: Seq<char>, l: TopicLeaf) -> SearchResultView {
    SearchResultView {
        title: query,
        text: l.text@,
        url: absent_if_empty(l.url@),
        image: absent_if_empty(l.icon_url@),
    }
}

/// The replies for a sequence of flattened results, in the same order.
pub open spec fn leaf_posts(query: Seq<char>, leaves: Seq<TopicLeaf>) -> Seq<PostView> {
    leaves.map_values(|l: TopicLeaf| PostView::Search(leaf_result(query, l)))
}

/// The replies owed to a search for `query` that the service answered with `r`.
pub open spec fn search_posts(query: Seq<char>, r: SearchResponse) -> Seq<PostView> {
    match r.response_type {
        ResponseType::Article | ResponseType::Name => seq![
            PostView::Search(
                SearchResultView {
                    title: query,
                    text: r.abstract_text@,
                    url: absent_if_empty(r.abstract_url@),
                    image: absent_if_empty(r.image@),
                },
            ),
        ],
        ResponseType::Disambiguation => leaf_posts(query, flatten_list(r.related_topics@)),
        ResponseType::Exclusive => seq![
            PostView::Search(
                SearchResultView {
                    title: query,
                    text: r.redirect@,
                    url: absent_if_empty(r.redirect@),
                    image: None,
                },
            ),
        ],
        ResponseType::Nothing => seq![PostView::Notice("No results."@)],
        ResponseType::Other(tag) => seq![
            PostView::Error(tag@ + " - unrecognized result type"@),
        ],
    }
}

/// Turns empty text into `None`; other text is kept as it is.
pub fn none_if_empty(s: String) -> (r: Option<String>)
    ensures
        opt_view(r) == absent_if_empty(s@),
        r matches Some(v) ==> v == s,
{
    if s.as_str().is_empty() {
        None
    } else {
        Some(s)
    }
}

fn leaf_search_result(query: &str, l: &TopicLeaf) -> (r: SearchResult)
    ensures
        r@ == leaf_result(query@, *l),
{
    SearchResult {
        title: String::from_str(query),
        text: l.text.clone(),
        url: none_if_empty(l.url.clone()),
        image: none_if_empty(l.icon_url.clone()),
    }
}

/// The replies to a search for `query`: one result for an article or a name;
/// one per flattened related topic, in order, for a disambiguation; the
/// redirect for an exclusive answer; a "No results." notice for none; an error
/// naming any other kind of answer.
pub fn route_search(query: &str, response: &SearchResponse) -> (r: Vec<Post>)
    ensures
        r@.map_values(|p: Post| p@) == search_posts(query@, *response),
{
    let mut out: Vec<Post> = Vec::new();
    match &response.response_type {
        ResponseType::Article | ResponseType::Name => {
            out.push(
                Post::Search(
                    SearchResult {
                        title: String::from_str(query),
                        text: response.abstract_text.clone(),
                        url: none_if_empty(response.abstract_url.clone()),
                        image: none_if_empty(response.image.clone()),
                    },
                ),
            );
        },
        ResponseType::Disambiguation => {
            let topics = &response.related_topics;
            let mut i: usize = 0;
            while i < topics.len()
                invariant
                    i <= topics.len(),
                    out@.map_values(|p: Post| p@) == leaf_posts(
                        query@,
                        flatten_list(topics@.take(i as int)),
                    ),
                decreases topics.len() - i,
            {
                let leaves = get_topics(&topics[i]);
                let ghost before = flatten_list(topics@.take(i as int));
                let mut j: usize = 0;
                while j < leaves.len()
                    invariant
                        j <= leaves.len(),
                        out@.map_values(|p: Post| p@) == leaf_posts(
                            query@,
                            before + leaves@.take(j as int),
                        ),
                    decreases leaves.len() - j,
                {
                    let ghost prev = out@;
                    out.push(Post::Search(leaf_search_result(query, &leaves[j])));
                    assert(out@.map_values(|p: Post| p@) =~= prev.map_values(|p: Post| p@).push(
                        PostView::Search(leaf_result(query@, leaves@[j as int])),
                    ));
                    assert(before + leaves@.take(j + 1) =~= (before + leaves@.take(
                        j as int,
                    )).push(leaves@[j as int]));
                    j = j + 1;
                }
                assert(leaves@.take(j as int) =~= leaves@);
                assert(topics@.take(i + 1).drop_last() =~= topics@.take(i as int));
                i = i + 1;
            }
            assert(topics@.take(i as int) =~= topics@);
        },
        ResponseType::Exclusive => {
            out.push(
                Post::Search(
                    SearchResult {
                        title: String::from_str(query),
                        text: response.redirect.clone(),
                        url: none_if_empty(response.redirect.clone()),
                        image: None,
                    },
                ),
            );
        },
        ResponseType::Nothing => {
            out.push(Post::Notice(String::from_str("No results.")));
        },
        ResponseType::Other(tag) => {
            let mut e = tag.clone();
            e.append(" - unrecognized result type");
            out.push(Post::Error(e));
        },
    }
    assert(out@.map_values(|p: Post| p@) =~= search_posts(query@, *response));
    out
}

/// The reply to an execution: the output as a code block, or the transport
/// error's description.
pub fn execution_post(outcome: Result<String, String>) -> (r: Post)
    ensures
        r@ == match outcome {
            Ok(out) => PostView::Content(fenced(truncated(out@, CODE_BLOCK_BUDGET as nat))),
            Err(e) => PostView::Error(e@),
        },
{
    match outcome {
        Ok(out) => Post::Content(to_code_block(out.as_str())),
        Err(e) => Post::Error(e),
    }
}

/// The reply to a computation: its value as a result, or its error.
pub fn result_post(res: Result<String, String>) -> (r: Post)
    ensures
        r@ == match res {
            Ok(v) => PostView::Result(v@),
            Err(e) => PostView::Error(e@),
        },
{
    match res {
        Ok(v) => Post::Result(v),
        Err(e) => Post::Error(e),
    }
}

} // verus!
