use autobotrobot::{
    get_topics, none_if_empty, route_search, Post, ResponseType, SearchResponse, SearchResult,
    TopicLeaf, TopicNode,
};

fn leaf(name: &str) -> TopicLeaf {
    TopicLeaf {
        url: format!("https://example.org/{}", name),
        icon_url: String::new(),
        text: name.to_string(),
    }
}

fn response(kind: ResponseType, topics: Vec<TopicNode>) -> SearchResponse {
    SearchResponse {
        response_type: kind,
        abstract_text: "abstract".to_string(),
        abstract_url: "https://example.org/a".to_string(),
        image: String::new(),
        related_topics: topics,
        redirect: "https://example.org/r".to_string(),
    }
}

fn leaf_post(query: &str, name: &str) -> Post {
    Post::Search(SearchResult {
        title: query.to_string(),
        text: name.to_string(),
        url: Some(format!("https://example.org/{}", name)),
        image: None,
    })
}

#[test]
fn empty_text_becomes_absent() {
    assert_eq!(none_if_empty(String::new()), None);
    assert_eq!(none_if_empty("x".to_string()), Some("x".to_string()));
    assert_eq!(none_if_empty(" ".to_string()), Some(" ".to_string()));
}

#[test]
fn leaf_flattens_to_itself() {
    assert_eq!(get_topics(&TopicNode::Leaf(leaf("a"))), vec![leaf("a")]);
    assert_eq!(get_topics(&TopicNode::Group(vec![])), vec![]);
}

#[test]
fn group_flattens_to_concatenation() {
    let a = TopicNode::Group(vec![TopicNode::Leaf(leaf("a1")), TopicNode::Leaf(leaf("a2"))]);
    let b = TopicNode::Leaf(leaf("b"));
    let mut expected = get_topics(&a);
    expected.extend(get_topics(&b));
    assert_eq!(get_topics(&TopicNode::Group(vec![a, b])), expected);
}

#[test]
fn depth_three_tree_flattens_in_document_order() {
    let tree = TopicNode::Group(vec![
        TopicNode::Leaf(leaf("1")),
        TopicNode::Group(vec![
            TopicNode::Group(vec![TopicNode::Leaf(leaf("2")), TopicNode::Leaf(leaf("3"))]),
            TopicNode::Leaf(leaf("4")),
            TopicNode::Group(vec![]),
        ]),
        TopicNode::Group(vec![TopicNode::Leaf(leaf("5"))]),
        TopicNode::Leaf(leaf("6")),
    ]);
    let names: Vec<String> = get_topics(&tree).into_iter().map(|l| l.text).collect();
    assert_eq!(names, vec!["1", "2", "3", "4", "5", "6"]);
}

#[test]
fn disambiguation_posts_every_leaf_in_order() {
    let topics = vec![
        TopicNode::Group(vec![TopicNode::Leaf(leaf("A")), TopicNode::Leaf(leaf("B"))]),
        TopicNode::Leaf(leaf("C")),
    ];
    let posts = route_search("rust", &response(ResponseType::Disambiguation, topics));
    assert_eq!(posts, vec![leaf_post("rust", "A"), leaf_post("rust", "B"), leaf_post("rust", "C")]);
}

#[test]
fn disambiguation_keeps_icons_and_drops_empty_urls() {
    let topics = vec![TopicNode::Leaf(TopicLeaf {
        url: String::new(),
        icon_url: "https://example.org/i.png".to_string(),
        text: String::new(),
    })];
    let posts = route_search("q", &response(ResponseType::Disambiguation, topics));
    assert_eq!(
        posts,
        vec![Post::Search(SearchResult {
            title: "q".to_string(),
            text: String::new(),
            url: None,
            image: Some("https://example.org/i.png".to_string()),
        })]
    );
}

#[test]
fn nothing_gives_one_notice() {
    let posts = route_search("q", &response(ResponseType::Nothing, vec![]));
    assert_eq!(posts, vec![Post::Notice("No results.".to_string())]);
}

#[test]
fn article_and_name_give_the_abstract() {
    for kind in [ResponseType::Article, ResponseType::Name] {
        let posts = route_search("q", &response(kind, vec![TopicNode::Leaf(leaf("x"))]));
        assert_eq!(
            posts,
            vec![Post::Search(SearchResult {
                title: "q".to_string(),
                text: "abstract".to_string(),
                url: Some("https://example.org/a".to_string()),
                image: None,
            })]
        );
    }
    let mut r = response(ResponseType::Article, vec![]);
    r.abstract_url = String::new();
    r.image = "img".to_string();
    assert_eq!(
        route_search("q", &r),
        vec![Post::Search(SearchResult {
            title: "q".to_string(),
            text: "abstract".to_string(),
            url: None,
            image: Some("img".to_string()),
        })]
    );
}

#[test]
fn exclusive_gives_the_redirect() {
    let posts = route_search("!w rust", &response(ResponseType::Exclusive, vec![]));
    assert_eq!(
        posts,
        vec![Post::Search(SearchResult {
            title: "!w rust".to_string(),
            text: "https://example.org/r".to_string(),
            url: Some("https://example.org/r".to_string()),
            image: None,
        })]
    );
}

#[test]
fn other_kind_is_named_in_an_error() {
    let posts = route_search("q", &response(ResponseType::Other("Category".to_string()), vec![]));
    assert_eq!(posts, vec![Post::Error("Category - unrecognized result type".to_string())]);
}

#[test]
fn exclusive_with_empty_redirect_has_no_url() {
    let mut r = response(ResponseType::Exclusive, vec![]);
    r.redirect = String::new();
    assert_eq!(
        route_search("q", &r),
        vec![Post::Search(SearchResult {
            title: "q".to_string(),
            text: String::new(),
            url: None,
            image: None,
        })]
    );
}
