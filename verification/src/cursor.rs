//! Reading a sequence of token trees: what stands at a position, and what is
//! reported where the description is malformed.

use vstd::prelude::*;
use crate::text::same_text;
use crate::token::{lemma_group_view, Delimiter, Location, TokenTree, TreeView};

verus! {

/// What is wrong with a malformed description.
#[derive(Clone, Copy, Debug, PartialEq, Eq, Structural)]
pub enum ParseErrorKind {
    /// The text cannot be split into tokens.
    Lex,
    /// A name was expected: an identifier that is no keyword.
    ExpectedName,
    /// `=>` was expected.
    ExpectedArrow,
    /// A comma was expected between two members of a list.
    ExpectedComma,
    /// A group in parentheses was expected.
    ExpectedParentheses,
    /// A group in braces was expected.
    ExpectedBraces,
    /// A `use` item does not end in a semicolon.
    ExpectedSemicolon,
    /// A token stands where a group should have ended.
    UnexpectedToken,
    /// A guard, a pattern, a computed output or a hook is no expression.
    InvalidExpression,
    /// The fields of an input are no list of types.
    InvalidType,
    /// The name of an external type is no path.
    InvalidPath,
    /// A `use` item is malformed.
    InvalidUse,
    /// An attribute is malformed.
    InvalidAttribute,
    /// A visibility is malformed.
    InvalidVisibility,
    /// A state is followed by braces that hold no transition.
    EmptyTransitionSet,
    /// The description declares no transition at all.
    NoTransitions,
}

/// A malformed description: what is wrong, and where.
#[derive(Clone, Copy, Debug, PartialEq, Eq, Structural)]
pub struct ParseError {
    pub kind: ParseErrorKind,
    pub at: Location,
}

/// The outcome of reading from a position on: a value and the position after
/// it, or an error. `r` is what was computed and `s` what the grammar says.
pub open spec fn agrees<T: DeepView>(
    r: Result<(T, usize), ParseError>,
    s: Result<(T::V, int), ParseError>,
) -> bool {
    match (r, s) {
        (Ok((value, next)), Ok((v, n))) => value.deep_view() == v && next == n,
        (Err(e), Err(f)) => e == f,
        _ => false,
    }
}

/// The outcome of reading a whole sequence: a value, or an error. `r` is what
/// was computed and `s` what the grammar says.
pub open spec fn agrees_on_all<T: DeepView>(
    r: Result<T, ParseError>,
    s: Result<T::V, ParseError>,
) -> bool {
    match (r, s) {
        (Ok(value), Ok(v)) => value.deep_view() == v,
        (Err(e), Err(f)) => e == f,
        _ => false,
    }
}

/// The place of token `i`, or `end` where the tokens end before it.
pub open spec fn place(tokens: Seq<TreeView>, i: int, end: Location) -> Location {
    if 0 <= i < tokens.len() {
        tokens[i].location()
    } else {
        end
    }
}

/// The error of the given kind at token `i`.
pub open spec fn error_at(
    kind: ParseErrorKind,
    tokens: Seq<TreeView>,
    i: int,
    end: Location,
) -> ParseError {
    ParseError { kind, at: place(tokens, i, end) }
}

/// Token `i` is the punctuation character `c`.
pub open spec fn punct_at(tokens: Seq<TreeView>, i: int, c: char) -> bool {
    0 <= i < tokens.len() && (tokens[i] matches TreeView::Punct(ch, _, _) && ch == c)
}

/// `=>` stands at position `i`.
pub open spec fn arrow_at(tokens: Seq<TreeView>, i: int) -> bool {
    &&& 0 <= i
    &&& i + 1 < tokens.len()
    &&& tokens[i] matches TreeView::Punct(c, joint, _) && c == '=' && joint
    &&& punct_at(tokens, i + 1, '>')
}

/// Token `i` is the identifier `word`.
pub open spec fn word_at(tokens: Seq<TreeView>, i: int, word: Seq<char>) -> bool {
    0 <= i < tokens.len() && (tokens[i] matches TreeView::Ident(name, _) && name == word)
}

/// The words that Rust keeps for itself and that can name nothing.
pub open spec fn is_reserved(word: Seq<char>) -> bool {
    ||| word == "_"@
    ||| word == "abstract"@
    ||| word == "as"@
    ||| word == "async"@
    ||| word == "await"@
    ||| word == "become"@
    ||| word == "box"@
    ||| word == "break"@
    ||| word == "const"@
    ||| word == "continue"@
    ||| word == "crate"@
    ||| word == "do"@
    ||| word == "dyn"@
    ||| word == "else"@
    ||| word == "enum"@
    ||| word == "extern"@
    ||| word == "false"@
    ||| word == "final"@
    ||| word == "fn"@
    ||| word == "for"@
    ||| word == "if"@
    ||| word == "impl"@
    ||| word == "in"@
    ||| word == "let"@
    ||| word == "loop"@
    ||| word == "macro"@
    ||| word == "match"@
    ||| word == "mod"@
    ||| word == "move"@
    ||| word == "mut"@
    ||| word == "override"@
    ||| word == "priv"@
    ||| word == "pub"@
    ||| word == "ref"@
    ||| word == "return"@
    ||| word == "Self"@
    ||| word == "self"@
    ||| word == "static"@
    ||| word == "struct"@
    ||| word == "super"@
    ||| word == "trait"@
    ||| word == "true"@
    ||| word == "try"@
    ||| word == "type"@
    ||| word == "typeof"@
    ||| word == "unsafe"@
    ||| word == "unsized"@
    ||| word == "use"@
    ||| word == "virtual"@
    ||| word == "where"@
    ||| word == "while"@
    ||| word == "yield"@
}

/// The name that token `i` spells, if it is an identifier and no keyword.
pub open spec fn name_at(tokens: Seq<TreeView>, i: int) -> Option<Seq<char>> {
    if 0 <= i < tokens.len() {
        match tokens[i] {
            TreeView::Ident(name, _) => if is_reserved(name) {
                None
            } else {
                Some(name)
            },
            _ => None,
        }
    } else {
        None
    }
}

/// Token `i` is a group with the given delimiter.
pub open spec fn group_at(tokens: Seq<TreeView>, i: int, delimiter: Delimiter) -> bool {
    0 <= i < tokens.len() && (tokens[i] matches TreeView::Group(d, _, _) && d == delimiter)
}

/// What the group at position `i` holds.
pub open spec fn group_content(tokens: Seq<TreeView>, i: int) -> Seq<TreeView> {
    match tokens[i] {
        TreeView::Group(_, inner, _) => inner,
        _ => Seq::empty(),
    }
}

/// The first position at or after `from` where `=>` stands, or the number of
/// tokens where it stands nowhere.
pub open spec fn next_arrow(tokens: Seq<TreeView>, from: int) -> int
    decreases tokens.len() - from,
{
    if from < 0 || from >= tokens.len() {
        tokens.len() as int
    } else if arrow_at(tokens, from) {
        from
    } else {
        next_arrow(tokens, from + 1)
    }
}

/// The first position at or after `from` where the punctuation `c` stands,
/// or the number of tokens where it stands nowhere.
pub open spec fn next_punct(tokens: Seq<TreeView>, from: int, c: char) -> int
    decreases tokens.len() - from,
{
    if from < 0 || from >= tokens.len() {
        tokens.len() as int
    } else if punct_at(tokens, from, c) {
        from
    } else {
        next_punct(tokens, from + 1, c)
    }
}

/// The place of token `i`, or `end` where the tokens end before it.
pub fn location_at(tokens: &Vec<TokenTree>, i: usize, end: Location) -> (r: Location)
    ensures
        r == place(tokens.deep_view(), i as int, end),
{
    if i < tokens.len() {
        tokens[i].location()
    } else {
        end
    }
}

/// The error of the given kind at token `i`.
pub fn fail_at(kind: ParseErrorKind, tokens: &Vec<TokenTree>, i: usize, end: Location) -> (r:
    ParseError)
    ensures
        r == error_at(kind, tokens.deep_view(), i as int, end),
{
    ParseError { kind, at: location_at(tokens, i, end) }
}

/// Whether token `i` is the punctuation character `c`.
pub fn is_punct_at(tokens: &Vec<TokenTree>, i: usize, c: char) -> (r: bool)
    ensures
        r == punct_at(tokens.deep_view(), i as int, c),
        r ==> i < tokens.len(),
{
    if i < tokens.len() {
        match &tokens[i] {
            TokenTree::Punct(ch, _, _) => *ch == c,
            _ => false,
        }
    } else {
        false
    }
}

/// Whether `=>` stands at position `i`.
pub fn is_arrow_at(tokens: &Vec<TokenTree>, i: usize) -> (r: bool)
    ensures
        r == arrow_at(tokens.deep_view(), i as int),
        r ==> i + 1 < tokens.len(),
{
    if i < tokens.len() && tokens.len() - i > 1 {
        match &tokens[i] {
            TokenTree::Punct(c, joint, _) => *c == '=' && *joint && is_punct_at(tokens, i + 1, '>'),
            _ => false,
        }
    } else {
        false
    }
}

/// Whether token `i` is the identifier `word`.
pub fn is_word_at(tokens: &Vec<TokenTree>, i: usize, word: &str) -> (r: bool)
    ensures
        r == word_at(tokens.deep_view(), i as int, word@),
        r ==> i < tokens.len(),
{
    if i < tokens.len() {
        match &tokens[i] {
            TokenTree::Ident(name, _) => same_text(name.as_str(), word),
            _ => false,
        }
    } else {
        false
    }
}

/// Whether the word can name nothing.
pub fn reserved(word: &str) -> (r: bool)
    ensures
        r == is_reserved(word@),
{
    same_text(word, "_") || same_text(word, "abstract") || same_text(word, "as") || same_text(
        word,
        "async",
    ) || same_text(word, "await") || same_text(word, "become") || same_text(word, "box")
        || same_text(word, "break") || same_text(word, "const") || same_text(word, "continue")
        || same_text(word, "crate") || same_text(word, "do") || same_text(word, "dyn") || same_text(
        word,
        "else",
    ) || same_text(word, "enum") || same_text(word, "extern") || same_text(word, "false")
        || same_text(word, "final") || same_text(word, "fn") || same_text(word, "for") || same_text(
        word,
        "if",
    ) || same_text(word, "impl") || same_text(word, "in") || same_text(word, "let") || same_text(
        word,
        "loop",
    ) || same_text(word, "macro") || same_text(word, "match") || same_text(word, "mod")
        || same_text(word, "move") || same_text(word, "mut") || same_text(word, "override")
        || same_text(word, "priv") || same_text(word, "pub") || same_text(word, "ref") || same_text(
        word,
        "return",
    ) || same_text(word, "Self") || same_text(word, "self") || same_text(word, "static")
        || same_text(word, "struct") || same_text(word, "super") || same_text(word, "trait")
        || same_text(word, "true") || same_text(word, "try") || same_text(word, "type")
        || same_text(word, "typeof") || same_text(word, "unsafe") || same_text(word, "unsized")
        || same_text(word, "use") || same_text(word, "virtual") || same_text(word, "where")
        || same_text(word, "while") || same_text(word, "yield")
}

/// The name that token `i` spells, if it is an identifier and no keyword.
pub fn name_of(tokens: &Vec<TokenTree>, i: usize) -> (r: Option<&String>)
    ensures
        r.deep_view() == name_at(tokens.deep_view(), i as int),
        r.is_some() ==> i < tokens.len(),
{
    if i < tokens.len() {
        match &tokens[i] {
            TokenTree::Ident(name, _) => if reserved(name.as_str()) {
                None
            } else {
                Some(name)
            },
            _ => None,
        }
    } else {
        None
    }
}

/// What the group at position `i` holds, if a group with the given delimiter
/// stands there.
pub fn group_of(tokens: &Vec<TokenTree>, i: usize, delimiter: Delimiter) -> (r: Option<
    &Vec<TokenTree>,
>)
    ensures
        r.is_some() == group_at(tokens.deep_view(), i as int, delimiter),
        r.is_some() ==> r.unwrap().deep_view() == group_content(tokens.deep_view(), i as int),
        r.is_some() ==> i < tokens.len(),
{
    if i < tokens.len() {
        match &tokens[i] {
            TokenTree::Group(d, inner, _) => {
                proof {
                    lemma_group_view(tokens[i as int]);
                }
                if *d == delimiter {
                    Some(inner)
                } else {
                    None
                }
            },
            _ => None,
        }
    } else {
        None
    }
}

/// The first position at or after `from` where `=>` stands, or the number of
/// tokens where it stands nowhere.
pub fn find_arrow(tokens: &Vec<TokenTree>, from: usize) -> (r: usize)
    ensures
        r == next_arrow(tokens.deep_view(), from as int),
        from <= r || r == tokens.len(),
        r <= tokens.len(),
        r < tokens.len() ==> arrow_at(tokens.deep_view(), r as int),
{
    let mut i = from;
    while i < tokens.len()
        invariant
            from <= i || i == tokens.len(),
            next_arrow(tokens.deep_view(), from as int) == next_arrow(tokens.deep_view(), i as int),
        decreases tokens.len() - i,
    {
        if is_arrow_at(tokens, i) {
            return i;
        }
        i += 1;
    }
    tokens.len()
}

/// The first position at or after `from` where the punctuation `c` stands,
/// or the number of tokens where it stands nowhere.
pub fn find_punct(tokens: &Vec<TokenTree>, from: usize, c: char) -> (r: usize)
    ensures
        r == next_punct(tokens.deep_view(), from as int, c),
        from <= r || r == tokens.len(),
        r <= tokens.len(),
        r < tokens.len() ==> punct_at(tokens.deep_view(), r as int, c),
{
    let mut i = from;
    while i < tokens.len()
        invariant
            from <= i || i == tokens.len(),
            next_punct(tokens.deep_view(), from as int, c) == next_punct(tokens.deep_view(), i as int, c),
        decreases tokens.len() - i,
    {
        if is_punct_at(tokens, i, c) {
            return i;
        }
        i += 1;
    }
    tokens.len()
}

} // verus!
