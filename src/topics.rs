use vstd::prelude::*;

verus! {

/// One result of a search taxonomy, with its fields as the search service gave them.
#[derive(Debug, PartialEq, Eq)]
pub struct TopicLeaf {
    pub url: String,
    pub icon_url: String,
    pub text: String,
}

impl TopicLeaf {
    /// A field-by-field copy.
    pub fn duplicate(&self) -> (r: TopicLeaf)
        ensures
            r == *self,
    {
        TopicLeaf { url: self.url.clone(), icon_url: self.icon_url.clone(), text: self.text.clone() }
    }
}

/// A node of the search taxonomy: a result, or a group of further nodes in order.
#[derive(Debug, PartialEq, Eq)]
pub enum TopicNode {
    Leaf(TopicLeaf),
    Group(Vec<TopicNode>),
}

/// The results under `t`, depth first, left to right.
pub open spec fn flatten(t: TopicNode) -> Seq<TopicLeaf>
    decreases t,
{
    match t {
        TopicNode::Leaf(l) => seq![l],
        TopicNode::Group(children) => flatten_list(children@),
    }
}

/// The results under each node of `ts`, concatenated in order.
pub open spec fn flatten_list(ts: Seq<TopicNode>) -> Seq<TopicLeaf>
    decreases ts,
{
    if ts.len() == 0 {
        Seq::empty()
    } else {
        flatten_list(ts.drop_last()) + flatten(ts.last())
    }
}

/// Flattening a list splits over concatenation.
pub proof fn lemma_flatten_list_concat(xs: Seq<TopicNode>, ys: Seq<TopicNode>)
    ensures
        flatten_list(xs + ys) == flatten_list(xs) + flatten_list(ys),
    decreases ys.len(),
{
    if ys.len() == 0 {
        assert(xs + ys =~= xs);
        assert(flatten_list(ys) =~= Seq::empty());
        assert(flatten_list(xs) + flatten_list(ys) =~= flatten_list(xs));
    } else {
        lemma_flatten_list_concat(xs, ys.drop_last());
        assert((xs + ys).drop_last() =~= xs + ys.drop_last());
        assert((xs + ys).last() == ys.last());
        assert(flatten_list(xs + ys) =~= flatten_list(xs) + flatten_list(ys.drop_last()) + flatten(
            ys.last(),
        ));
    }
}

/// A lone result flattens to itself.
pub proof fn lemma_flatten_leaf(l: TopicLeaf)
    ensures
        flatten(TopicNode::Leaf(l)) == seq![l],
{
}

/// A group of two nodes flattens to the results of the first followed by those
/// of the second; the order of the source is kept.
pub proof fn lemma_flatten_pair(children: Vec<TopicNode>, a: TopicNode, b: TopicNode)
    requires
        children@ == seq![a, b],
    ensures
        flatten(TopicNode::Group(children)) == flatten(a) + flatten(b),
{
    assert(children@.drop_last() =~= seq![a]);
    assert(seq![a].drop_last() =~= Seq::<TopicNode>::empty());
    assert(seq![a].last() == a);
    assert(flatten_list(Seq::<TopicNode>::empty()) =~= Seq::empty());
    assert(flatten_list(seq![a]) =~= flatten(a));
}

/// A group flattens to the concatenation, in order, of what its parts flatten to,
/// however its children are split.
pub proof fn lemma_flatten_group_split(
    children: Vec<TopicNode>,
    xs: Seq<TopicNode>,
    ys: Seq<TopicNode>,
)
    requires
        children@ == xs + ys,
    ensures
        flatten(TopicNode::Group(children)) == flatten_list(xs) + flatten_list(ys),
{
    lemma_flatten_list_concat(xs, ys);
}

/// Collects the results under `t`, depth first and left to right, keeping the
/// order of the source.
pub fn get_topics(t: &TopicNode) -> (r: Vec<TopicLeaf>)
    ensures
        r@ == flatten(*t),
    decreases t,
{
    match t {
        TopicNode::Leaf(l) => {
            let mut out: Vec<TopicLeaf> = Vec::new();
            out.push(l.duplicate());
            assert(out@ =~= seq![*l]);
            out
        },
        TopicNode::Group(children) => {
            let mut out: Vec<TopicLeaf> = Vec::new();
            let mut i: usize = 0;
            while i < children.len()
                invariant
                    *t == TopicNode::Group(*children),
                    i <= children.len(),
                    out@ == flatten_list(children@.take(i as int)),
                decreases children.len() - i,
            {
                proof {
                    vstd::std_specs::vec::axiom_vec_index_decreases(*children, i as int);
                    assert(decreases_to!(*t => (*t)->Group_0));
                    assert(decreases_to!(*children => children[i as int]));
                    assert(decreases_to!(*t => children[i as int]));
                }
                let mut sub = get_topics(&children[i]);
                assert(children@.take(i + 1).drop_last() =~= children@.take(i as int));
                out.append(&mut sub);
                i = i + 1;
            }
            assert(children@.take(i as int) =~= children@);
            out
        },
    }
}

} // verus!
