//! Token trees: the form in which a description reaches the parser.

use vstd::prelude::*;
use vstd::string::*;

verus! {

/// The brackets around a group of tokens. `Invisible` groups have none.
#[derive(Clone, Copy, Debug, PartialEq, Eq, Structural)]
pub enum Delimiter {
    Parenthesis,
    Brace,
    Bracket,
    Invisible,
}

/// A place in the text of a description. Lines count from 1 and columns from
/// 0; line 0 stands for the end of the text.
#[derive(Clone, Copy, Debug, PartialEq, Eq, Structural)]
pub struct Location {
    pub line: usize,
    pub column: usize,
}

/// A token, or a bracketed group of tokens, with the place where it starts.
///
/// A punctuation character is `joint` where the next token follows it
/// directly and is punctuation too, as the `=` of `=>`.
#[derive(Debug, PartialEq, Eq)]
pub enum TokenTree {
    Group(Delimiter, Vec<TokenTree>, Location),
    Ident(String, Location),
    Punct(char, bool, Location),
    Literal(String, Location),
}

/// The mathematical value of a [`TokenTree`].
pub enum TreeView {
    Group(Delimiter, Seq<TreeView>, Location),
    Ident(Seq<char>, Location),
    Punct(char, bool, Location),
    Literal(Seq<char>, Location),
}

/// The value of a token tree.
pub open spec fn tree_view(tree: TokenTree) -> TreeView
    decreases tree,
{
    match tree {
        TokenTree::Group(delimiter, inner, at) => TreeView::Group(
            delimiter,
            Seq::new(
                inner@.len(),
                |i: int|
                    if 0 <= i < inner@.len() {
                        tree_view(inner@[i])
                    } else {
                        TreeView::Punct(' ', false, at)
                    },
            ),
            at,
        ),
        TokenTree::Ident(name, at) => TreeView::Ident(name@, at),
        TokenTree::Punct(c, joint, at) => TreeView::Punct(c, joint, at),
        TokenTree::Literal(text, at) => TreeView::Literal(text@, at),
    }
}

impl DeepView for TokenTree {
    type V = TreeView;

    open spec fn deep_view(&self) -> TreeView {
        tree_view(*self)
    }
}

impl View for TokenTree {
    type V = TreeView;

    open spec fn view(&self) -> TreeView {
        tree_view(*self)
    }
}

/// The value of a group is made of the values of what it holds.
pub proof fn lemma_group_view(tree: TokenTree)
    ensures
        tree matches TokenTree::Group(delimiter, inner, at) ==> tree@ == TreeView::Group(
            delimiter,
            inner.deep_view(),
            at,
        ),
{
    match tree {
        TokenTree::Group(delimiter, inner, at) => {
            assert(tree@ matches TreeView::Group(_, views, _) && views =~= inner.deep_view());
        },
        _ => {},
    }
}

impl TreeView {
    /// The place where the token starts.
    pub open spec fn location(self) -> Location {
        match self {
            TreeView::Group(_, _, at) => at,
            TreeView::Ident(_, at) => at,
            TreeView::Punct(_, _, at) => at,
            TreeView::Literal(_, at) => at,
        }
    }
}

impl TokenTree {
    /// The place where the token starts.
    pub fn location(&self) -> (r: Location)
        ensures
            r == self@.location(),
    {
        match self {
            TokenTree::Group(_, _, at) => *at,
            TokenTree::Ident(_, at) => *at,
            TokenTree::Punct(_, _, at) => *at,
            TokenTree::Literal(_, at) => *at,
        }
    }
}

/// The text that opens a group.
pub open spec fn opening(delimiter: Delimiter) -> Seq<char> {
    match delimiter {
        Delimiter::Parenthesis => "("@,
        Delimiter::Brace => "{"@,
        Delimiter::Bracket => "["@,
        Delimiter::Invisible => ""@,
    }
}

/// The text that closes a group.
pub open spec fn closing(delimiter: Delimiter) -> Seq<char> {
    match delimiter {
        Delimiter::Parenthesis => ")"@,
        Delimiter::Brace => "}"@,
        Delimiter::Bracket => "]"@,
        Delimiter::Invisible => ""@,
    }
}

/// The text of a token tree.
pub open spec fn tree_text(tree: TreeView) -> Seq<char>
    decreases tree, 0nat,
{
    match tree {
        TreeView::Group(delimiter, inner, _) => opening(delimiter) + range_text(
            inner,
            0,
            inner.len() as int,
        ) + closing(delimiter),
        TreeView::Ident(name, _) => name,
        TreeView::Punct(c, _, _) => seq![c],
        TreeView::Literal(text, _) => text,
    }
}

/// What stands between token `i - 1` and token `i` of a text: nothing after
/// joint punctuation, one blank otherwise.
pub open spec fn gap_before(trees: Seq<TreeView>, i: int) -> Seq<char> {
    if trees[i - 1] matches TreeView::Punct(_, true, _) {
        ""@
    } else {
        " "@
    }
}

/// The text of the tokens from `from` up to, not including, `to`.
pub open spec fn range_text(trees: Seq<TreeView>, from: int, to: int) -> Seq<char>
    decreases trees, to,
{
    if to <= from || from < 0 || to > trees.len() {
        Seq::empty()
    } else if to == from + 1 {
        tree_text(trees[from])
    } else {
        range_text(trees, from, to - 1) + gap_before(trees, to - 1) + tree_text(trees[to - 1])
    }
}

/// Appends what stands between token `i - 1` and token `i`.
fn push_gap(out: &mut String, trees: &Vec<TokenTree>, i: usize)
    requires
        0 < i <= trees.len(),
    ensures
        final(out)@ == old(out)@ + gap_before(trees.deep_view(), i as int),
{
    match &trees[i - 1] {
        TokenTree::Punct(_, true, _) => out.append(""),
        _ => out.append(" "),
    }
}

/// The text of a token tree.
pub fn render_tree(tree: &TokenTree) -> (r: String)
    ensures
        r@ == tree_text(tree@),
    decreases tree,
{
    match tree {
        TokenTree::Group(delimiter, inner, _) => {
            proof {
                lemma_group_view(*tree);
            }
            let mut out = String::new();
            match delimiter {
                Delimiter::Parenthesis => out.append("("),
                Delimiter::Brace => out.append("{"),
                Delimiter::Bracket => out.append("["),
                Delimiter::Invisible => out.append(""),
            }
            let ghost opened = out@;
            let mut i: usize = 0;
            while i < inner.len()
                invariant
                    i <= inner.len(),
                    tree matches TokenTree::Group(_, v, _) && v == inner,
                    out@ == opened + range_text(inner.deep_view(), 0, i as int),
                decreases inner.len() - i,
            {
                if i > 0 {
                    push_gap(&mut out, inner, i);
                }
                let piece = render_tree(&inner[i]);
                out.append(piece.as_str());
                assert(out@ =~= opened + range_text(inner.deep_view(), 0, i as int + 1));
                i += 1;
            }
            match delimiter {
                Delimiter::Parenthesis => out.append(")"),
                Delimiter::Brace => out.append("}"),
                Delimiter::Bracket => out.append("]"),
                Delimiter::Invisible => out.append(""),
            }
            assert(out@ =~= tree_text(tree@));
            out
        },
        TokenTree::Ident(name, _) => name.clone(),
        TokenTree::Punct(c, _, _) => {
            let mut out = String::new();
            out.push(*c);
            assert(out@ =~= seq![*c]);
            out
        },
        TokenTree::Literal(text, _) => text.clone(),
    }
}

/// The text of the tokens from `from` up to, not including, `to`.
pub fn render_range(trees: &Vec<TokenTree>, from: usize, to: usize) -> (r: String)
    requires
        from <= to <= trees.len(),
    ensures
        r@ == range_text(trees.deep_view(), from as int, to as int),
{
    let mut out = String::new();
    let mut i: usize = from;
    while i < to
        invariant
            from <= i <= to,
            to <= trees.len(),
            out@ == range_text(trees.deep_view(), from as int, i as int),
        decreases to - i,
    {
        if i > from {
            push_gap(&mut out, trees, i);
        }
        let piece = render_tree(&trees[i]);
        out.append(piece.as_str());
        assert(out@ =~= range_text(trees.deep_view(), from as int, i as int + 1));
        i += 1;
    }
    out
}

} // verus!
