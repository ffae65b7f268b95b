//! The expression tree: nodes that hold a token and their children.

use vstd::prelude::*;
use vstd::string::StringExecFns;
use crate::tokens::alphabet::Token;
use crate::tokens::display::described;
use crate::util::text::{decimal, push_decimal, string_from_chars};

verus! {

/// A node of the tree.
#[derive(Debug, PartialEq)]
pub struct Node {
    /// The token of this node.
    pub token: Token,
    /// The children of this node, in order.
    pub children: Vec<Node>,
}

impl Node {
    /// A node with the given token and no children.
    pub fn new(token: Token) -> (node: Node)
        ensures
            node.token == token,
            node.children@.len() == 0,
    {
        Node { token, children: Vec::new() }
    }

    /// A leaf with the given token.
    pub fn leaf(token: Token) -> (node: Node)
        ensures
            node.token == token,
            node.children@.len() == 0,
    {
        Node { token, children: Vec::new() }
    }

    /// A node with the given token and the given children.
    pub fn branch(token: Token, children: Vec<Node>) -> (node: Node)
        ensures
            node.token == token,
            node.children == children,
    {
        Node { token, children }
    }

    /// Adds a child behind the children that the node has.
    pub fn add_child(&mut self, child: Node)
        ensures
            final(self).token == old(self).token,
            final(self).children@ == old(self).children@.push(child),
    {
        self.children.push(child);
    }

    /// Whether `other` is the same tree as this one: the same token, and
    /// child by child the same trees.
    pub open spec fn same_tree(self, other: Node) -> bool
        decreases self,
    {
        &&& self.token == other.token
        &&& self.children@.len() == other.children@.len()
        &&& forall|k: int|
            0 <= k < self.children@.len() ==> (#[trigger] self.children@[k]).same_tree(
                other.children@[k],
            )
    }

    /// A copy of the tree of this node.
    pub fn duplicate(&self) -> (copy: Node)
        ensures
            copy.same_tree(*self),
        decreases self,
    {
        let mut children: Vec<Node> = Vec::new();
        let mut i: usize = 0;
        while i < self.children.len()
            invariant
                0 <= i <= self.children@.len(),
                children@.len() == i,
                forall|k: int|
                    0 <= k < i ==> (#[trigger] children@[k]).same_tree(self.children@[k]),
            decreases self.children@.len() - i,
        {
            let child = self.children[i].duplicate();
            children.push(child);
            i = i + 1;
        }
        Node { token: self.token, children }
    }

    /// Whether the node has no children.
    pub fn is_leaf(&self) -> (leaf: bool)
        ensures
            leaf == (self.children@.len() == 0),
    {
        self.children.len() == 0
    }
}

/// A whole tree, which may be empty.
#[derive(Debug, PartialEq)]
pub struct AST {
    pub root: Option<Node>,
}

impl AST {
    /// The empty tree.
    pub fn new() -> (tree: AST)
        ensures
            tree.root is None,
    {
        AST { root: None }
    }

    /// The tree with the given root.
    pub fn with_root(root: Node) -> (tree: AST)
        ensures
            tree.root == Some(root),
    {
        AST { root: Some(root) }
    }

    /// Replaces the root of the tree.
    pub fn set_root(&mut self, root: Node)
        ensures
            final(self).root == Some(root),
    {
        self.root = Some(root);
    }

    /// Whether the tree has no root.
    pub fn is_empty(&self) -> (empty: bool)
        ensures
            empty == (self.root is None),
    {
        self.root.is_none()
    }
}

/// `n` tabs.
pub open spec fn tabs(n: nat) -> Seq<char> {
    Seq::new(n, |i: int| '\t')
}

/// The prefix of the line of the child at `index`.
pub open spec fn child_prefix(index: int) -> Seq<char> {
    "Child "@ + decimal((index + 1) as nat) + ": "@
}

impl Node {
    /// The number of leaves of the tree below and including this node.
    pub open spec fn leaves(self) -> nat
        decreases self,
    {
        if self.children@.len() == 0 {
            1
        } else {
            Self::leaves_of(self.children@, 0)
        }
    }

    /// The number of leaves of the trees of `children` from index `i` on.
    pub open spec fn leaves_of(children: Seq<Node>, i: int) -> nat
        decreases children, children.len() - i,
    {
        if 0 <= i < children.len() {
            children[i].leaves() + Self::leaves_of(children, i + 1)
        } else {
            0
        }
    }

    /// The lines of the tree of this node, one line for each node and the
    /// children of a node below it, one tab deeper, and the number of the
    /// next leaf. A line holds its tabs, the prefix, `L` and the number of
    /// the leaf or `Node` for a node with children, a colon, and the
    /// description of the token. Leaves are numbered as they come.
    pub open spec fn rendered(self, indent: nat, leaf: nat, prefix: Seq<char>) -> (Seq<char>, nat)
        decreases self,
    {
        let kind = if self.children@.len() == 0 {
            "L"@ + decimal(leaf)
        } else {
            "Node"@
        };
        let next = if self.children@.len() == 0 {
            leaf + 1
        } else {
            leaf
        };
        let line = tabs(indent) + prefix + kind + ": "@ + described(self.token) + "\n"@;
        let below = Self::rendered_children(self.children@, 0, indent + 1, next as nat);
        (line + below.0, below.1)
    }

    /// The lines of the trees of `children` from index `i` on, and the
    /// number of the next leaf.
    pub open spec fn rendered_children(children: Seq<Node>, i: int, indent: nat, leaf: nat) -> (
        Seq<char>,
        nat,
    )
        decreases children, children.len() - i,
    {
        if 0 <= i < children.len() {
            let first = children[i].rendered(indent, leaf, child_prefix(i));
            let rest = Self::rendered_children(children, i + 1, indent, first.1);
            (first.0 + rest.0, rest.1)
        } else {
            (Seq::empty(), leaf)
        }
    }

    /// Rendering numbers as many leaves as the tree has.
    pub proof fn lemma_rendered_counts(self, indent: nat, leaf: nat, prefix: Seq<char>)
        ensures
            self.rendered(indent, leaf, prefix).1 == leaf + self.leaves(),
        decreases self,
    {
        if self.children@.len() > 0 {
            Self::lemma_rendered_children_counts(self.children@, 0, indent + 1, leaf);
        }
    }

    /// Rendering children numbers as many leaves as their trees have.
    pub proof fn lemma_rendered_children_counts(
        children: Seq<Node>,
        i: int,
        indent: nat,
        leaf: nat,
    )
        ensures
            Self::rendered_children(children, i, indent, leaf).1 == leaf + Self::leaves_of(
                children,
                i,
            ),
        decreases children, children.len() - i,
    {
        if 0 <= i < children.len() {
            children[i].lemma_rendered_counts(indent, leaf, child_prefix(i));
            Self::lemma_rendered_children_counts(
                children,
                i + 1,
                indent,
                leaf + children[i].leaves(),
            );
        }
    }

    /// Appends the lines of the tree of this node to `text`. `margin` holds
    /// the tabs of this node's depth, and `leaf` the number of the next
    /// leaf, which must not run over.
    pub fn render_into(&self, text: &mut String, margin: &Vec<char>, leaf: u64, prefix: &str) -> (next:
        u64)
        requires
            margin@ == tabs(margin@.len()),
            leaf + self.leaves() <= u64::MAX,
        ensures
            final(text)@ == old(text)@ + self.rendered(margin@.len(), leaf as nat, prefix@).0,
            next == self.rendered(margin@.len(), leaf as nat, prefix@).1,
        decreases self,
    {
        let ghost start = text@;
        let ghost indent = margin@.len();
        text.append(string_from_chars(margin.as_slice()).as_str());
        text.append(prefix);
        let mut next = leaf;
        if self.is_leaf() {
            text.append("L");
            push_decimal(text, leaf);
            next = leaf + 1;
        } else {
            text.append("Node");
        }
        text.append(": ");
        self.token.describe_into(text);
        text.append("\n");
        let ghost kind = if self.children@.len() == 0 {
            "L"@ + decimal(leaf as nat)
        } else {
            "Node"@
        };
        let ghost line = tabs(indent) + prefix@ + kind + ": "@ + described(self.token) + "\n"@;
        assert(text@ =~= start + line);
        let mut deeper = margin.clone();
        deeper.push('\t');
        assert(deeper@ =~= tabs(indent + 1));
        let mut i: usize = 0;
        proof {
            self.lemma_rendered_counts(indent, leaf as nat, prefix@);
            assert(start + line + Seq::<char>::empty() =~= start + line);
        }
        while i < self.children.len()
            invariant
                0 <= i <= self.children@.len(),
                deeper@ == tabs(indent + 1),
                deeper@.len() == indent + 1,
                next + Self::leaves_of(self.children@, i as int) <= u64::MAX,
                exists|done: Seq<char>|
                    {
                        &&& text@ == start + line + done
                        &&& Self::rendered_children(
                            self.children@,
                            0,
                            indent + 1,
                            (if self.children@.len() == 0 {
                                leaf + 1
                            } else {
                                leaf as int
                            }) as nat,
                        ) == ({
                            let rest = Self::rendered_children(
                                self.children@,
                                i as int,
                                indent + 1,
                                next as nat,
                            );
                            (done + rest.0, rest.1)
                        })
                    },
            decreases self.children@.len() - i,
        {
            let ghost done = choose|done: Seq<char>|
                {
                    &&& text@ == start + line + done
                    &&& Self::rendered_children(
                        self.children@,
                        0,
                        indent + 1,
                        (if self.children@.len() == 0 {
                            leaf + 1
                        } else {
                            leaf as int
                        }) as nat,
                    ) == ({
                        let rest = Self::rendered_children(
                            self.children@,
                            i as int,
                            indent + 1,
                            next as nat,
                        );
                        (done + rest.0, rest.1)
                    })
                };
            let mut child_label = String::from_str("Child ");
            push_decimal(&mut child_label, (i + 1) as u64);
            child_label.append(": ");
            assert(child_label@ =~= child_prefix(i as int));
            let ghost before = next;
            proof {
                self.children@[i as int].lemma_rendered_counts(
                    indent + 1,
                    next as nat,
                    child_prefix(i as int),
                );
            }
            next = self.children[i].render_into(text, &deeper, next, child_label.as_str());
            proof {
                let first = self.children@[i as int].rendered(
                    indent + 1,
                    before as nat,
                    child_prefix(i as int),
                );
                let rest = Self::rendered_children(
                    self.children@,
                    i as int + 1,
                    indent + 1,
                    first.1,
                );
                assert(text@ =~= start + line + (done + first.0));
                assert(done + (first.0 + rest.0) =~= (done + first.0) + rest.0);
            }
            i = i + 1;
        }
        proof {
            let done = choose|done: Seq<char>|
                {
                    &&& text@ == start + line + done
                    &&& Self::rendered_children(
                        self.children@,
                        0,
                        indent + 1,
                        (if self.children@.len() == 0 {
                            leaf + 1
                        } else {
                            leaf as int
                        }) as nat,
                    ) == ({
                        let rest = Self::rendered_children(
                            self.children@,
                            i as int,
                            indent + 1,
                            next as nat,
                        );
                        (done + rest.0, rest.1)
                    })
                };
            assert(done + Seq::<char>::empty() =~= done);
            assert(start + line + done =~= start + (line + done));
        }
        next
    }

    /// The lines of the tree of this node, with the leaves numbered from
    /// one. The tree must have fewer leaves than a 64-bit counter can count.
    pub fn render(&self) -> (text: String)
        requires
            self.leaves() < u64::MAX,
        ensures
            text@ == self.rendered(0, 1, Seq::empty()).0,
    {
        let mut text = String::new();
        let margin: Vec<char> = Vec::new();
        assert(margin@ =~= tabs(0));
        let empty = String::new();
        self.render_into(&mut text, &margin, 1, empty.as_str());
        assert(Seq::<char>::empty() + self.rendered(0, 1, Seq::empty()).0 =~= self.rendered(
            0,
            1,
            Seq::empty(),
        ).0);
        text
    }
}

impl AST {
    /// The lines of the tree, or `Empty AST` for the empty tree.
    pub fn render(&self) -> (text: String)
        requires
            self.root matches Some(root) ==> root.leaves() < u64::MAX,
        ensures
            text@ == (match self.root {
                Some(root) => root.rendered(0, 1, Seq::empty()).0,
                None => "Empty AST"@,
            }),
    {
        match &self.root {
            Some(root) => root.render(),
            None => String::from_str("Empty AST"),
        }
    }
}

} // verus!
