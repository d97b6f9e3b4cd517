//! The whole description of a machine.

use vstd::prelude::*;
use crate::cursor::{agrees, agrees_on_all, error_at, fail_at, find_punct, group_at, group_content,
    group_of, is_punct_at, is_word_at, name_at, name_of, next_punct, punct_at, word_at, ParseError,
    ParseErrorKind};
use crate::parser::sm_def_attr::{parse_options, SMDefAttr, SMDefAttrView};
use crate::parser::transition::{parse_transition_defs, TransitionDef, TransitionDefView};
use crate::syntax::{is_rust_meta, is_rust_use, is_rust_visibility, parses_as_meta, parses_as_use,
    parses_as_visibility};
use crate::text::copy_text;
use crate::token::{lemma_group_view, range_text, render_range, Delimiter, Location, TokenTree, TreeView};

verus! {

/// The description of a machine.
///
/// ```text
/// /// Documentation.
/// #[derive(Debug)]
/// #[state_machine(output(MyOutput))]
/// pub circuit_breaker(Closed)
///
/// use super::MyOutput;
///
/// Closed(Unsuccessful) => Open [SetupTimer],
/// Open(TimerTriggered) => HalfOpen,
/// HalfOpen => {
///     Successful => Closed,
///     Unsuccessful => Open [SetupTimer]
/// }
/// ```
#[derive(Debug, Clone, PartialEq, Eq)]
pub struct StateMachineDef {
    /// The documentation attributes.
    pub doc: Vec<String>,
    /// The visibility, which may be empty.
    pub visibility: String,
    pub name: String,
    pub initial_state: String,
    /// The `use` items, which are passed on as they are.
    pub use_statements: Vec<String>,
    pub transitions: Vec<TransitionDef>,
    /// The attributes that are neither documentation nor options.
    pub attributes: Vec<String>,
    /// The options.
    pub def_attrs: SMDefAttr,
}

/// The mathematical value of a [`StateMachineDef`].
pub struct StateMachineDefView {
    pub doc: Seq<Seq<char>>,
    pub visibility: Seq<char>,
    pub name: Seq<char>,
    pub initial_state: Seq<char>,
    pub use_statements: Seq<Seq<char>>,
    pub transitions: Seq<TransitionDefView>,
    pub attributes: Seq<Seq<char>>,
    pub def_attrs: SMDefAttrView,
}

impl DeepView for StateMachineDef {
    type V = StateMachineDefView;

    open spec fn deep_view(&self) -> StateMachineDefView {
        StateMachineDefView {
            doc: self.doc.deep_view(),
            visibility: self.visibility@,
            name: self.name@,
            initial_state: self.initial_state@,
            use_statements: self.use_statements.deep_view(),
            transitions: self.transitions.deep_view(),
            attributes: self.attributes.deep_view(),
            def_attrs: self.def_attrs.deep_view(),
        }
    }
}

impl View for StateMachineDef {
    type V = StateMachineDefView;

    open spec fn view(&self) -> StateMachineDefView {
        self.deep_view()
    }
}

/// The attributes at the head of a description, sorted into documentation,
/// options, and the rest.
pub struct HeadAttributes {
    pub doc: Vec<String>,
    pub attributes: Vec<String>,
    pub def_attrs: SMDefAttr,
}

/// The mathematical value of [`HeadAttributes`].
pub struct HeadAttributesView {
    pub doc: Seq<Seq<char>>,
    pub attributes: Seq<Seq<char>>,
    pub def_attrs: SMDefAttrView,
}

impl DeepView for HeadAttributes {
    type V = HeadAttributesView;

    open spec fn deep_view(&self) -> HeadAttributesView {
        HeadAttributesView {
            doc: self.doc.deep_view(),
            attributes: self.attributes.deep_view(),
            def_attrs: self.def_attrs.deep_view(),
        }
    }
}

impl HeadAttributesView {
    /// No attribute.
    pub open spec fn empty() -> HeadAttributesView {
        HeadAttributesView {
            doc: Seq::empty(),
            attributes: Seq::empty(),
            def_attrs: SMDefAttrView::empty(),
        }
    }
}

/// The attribute whose content is `inner` goes by the name `word`: the word
/// is its first token and no path goes on after it.
pub open spec fn attribute_is(inner: Seq<TreeView>, word: Seq<char>) -> bool {
    word_at(inner, 0, word) && !punct_at(inner, 1, ':')
}

/// The content of a `state_machine` attribute holds its options in a group.
pub open spec fn holds_options(inner: Seq<TreeView>) -> bool {
    inner.len() == 2 && (inner[1] matches TreeView::Group(d, _, _) && d != Delimiter::Invisible)
}

/// The attributes written from position `pos` on, after those `done`, and
/// the position of the first token that starts none. An attribute is `#` and
/// a group in brackets. `doc` attributes are documentation, `state_machine`
/// attributes hold options, and all others are kept as they are.
pub open spec fn parse_attributes(
    tokens: Seq<TreeView>,
    pos: int,
    done: HeadAttributesView,
    end: Location,
) -> Result<(HeadAttributesView, int), ParseError>
    decreases tokens.len() - pos,
{
    if !punct_at(tokens, pos, '#') {
        Ok((done, pos))
    } else if !group_at(tokens, pos + 1, Delimiter::Bracket) {
        Err(error_at(ParseErrorKind::InvalidAttribute, tokens, pos, end))
    } else {
        let inner = group_content(tokens, pos + 1);
        let text = range_text(tokens, pos, pos + 2);
        if !is_rust_meta(range_text(inner, 0, inner.len() as int)) {
            Err(error_at(ParseErrorKind::InvalidAttribute, tokens, pos, end))
        } else if attribute_is(inner, "doc"@) {
            parse_attributes(
                tokens,
                pos + 2,
                HeadAttributesView { doc: done.doc.push(text), ..done },
                end,
            )
        } else if attribute_is(inner, "state_machine"@) {
            if !holds_options(inner) {
                Err(error_at(ParseErrorKind::InvalidAttribute, tokens, pos, end))
            } else {
                match parse_options(
                    group_content(inner, 1),
                    0,
                    done.def_attrs,
                    inner[1].location(),
                ) {
                    Err(e) => Err(e),
                    Ok(def_attrs) => parse_attributes(
                        tokens,
                        pos + 2,
                        HeadAttributesView { def_attrs, ..done },
                        end,
                    ),
                }
            }
        } else {
            parse_attributes(
                tokens,
                pos + 2,
                HeadAttributesView { attributes: done.attributes.push(text), ..done },
                end,
            )
        }
    }
}

/// What stands in the parentheses after `pub` restricts the visibility.
pub open spec fn is_restriction(inner: Seq<TreeView>) -> bool {
    ||| inner.len() == 1 && (word_at(inner, 0, "crate"@) || word_at(inner, 0, "self"@) || word_at(
        inner,
        0,
        "super"@,
    ))
    ||| word_at(inner, 0, "in"@)
}

/// The visibility written at position `pos`: nothing, `pub`, or `pub` and a
/// restriction in parentheses.
pub open spec fn parse_visibility(tokens: Seq<TreeView>, pos: int, end: Location) -> Result<
    (Seq<char>, int),
    ParseError,
> {
    if !word_at(tokens, pos, "pub"@) {
        Ok((Seq::empty(), pos))
    } else if group_at(tokens, pos + 1, Delimiter::Parenthesis) && is_restriction(
        group_content(tokens, pos + 1),
    ) {
        let text = range_text(tokens, pos, pos + 2);
        if is_rust_visibility(text) {
            Ok((text, pos + 2))
        } else {
            Err(error_at(ParseErrorKind::InvalidVisibility, tokens, pos + 1, end))
        }
    } else {
        Ok((range_text(tokens, pos, pos + 1), pos + 1))
    }
}

/// The `use` items written from position `pos` on, after those `done`, and
/// the position of the first token that starts none. An item reaches from
/// `use` to the next semicolon.
pub open spec fn parse_uses(
    tokens: Seq<TreeView>,
    pos: int,
    done: Seq<Seq<char>>,
    end: Location,
) -> Result<(Seq<Seq<char>>, int), ParseError>
    decreases tokens.len() - pos,
{
    if !word_at(tokens, pos, "use"@) {
        Ok((done, pos))
    } else {
        let semicolon = next_punct(tokens, pos, ';');
        let text = range_text(tokens, pos, semicolon + 1);
        if semicolon >= tokens.len() || semicolon < pos {
            Err(error_at(ParseErrorKind::ExpectedSemicolon, tokens, pos, end))
        } else if !is_rust_use(text) {
            Err(error_at(ParseErrorKind::InvalidUse, tokens, pos, end))
        } else {
            parse_uses(tokens, semicolon + 1, done.push(text), end)
        }
    }
}

/// The initial state of a machine, written at position `pos`: one name in
/// parentheses.
pub open spec fn parse_initial_state(tokens: Seq<TreeView>, pos: int, end: Location) -> Result<
    Seq<char>,
    ParseError,
> {
    if !group_at(tokens, pos, Delimiter::Parenthesis) {
        Err(error_at(ParseErrorKind::ExpectedParentheses, tokens, pos, end))
    } else {
        let inner = group_content(tokens, pos);
        match name_at(inner, 0) {
            None => Err(
                error_at(ParseErrorKind::ExpectedName, inner, 0, tokens[pos].location()),
            ),
            Some(name) => if inner.len() == 1 {
                Ok(name)
            } else {
                Err(error_at(ParseErrorKind::UnexpectedToken, inner, 1, end))
            },
        }
    }
}

/// The description that the tokens spell: attributes, a visibility, the
/// machine's name, its initial state in parentheses, `use` items, and the
/// transitions of at least one state.
pub open spec fn parse_machine(tokens: Seq<TreeView>, end: Location) -> Result<
    StateMachineDefView,
    ParseError,
> {
    match parse_attributes(tokens, 0, HeadAttributesView::empty(), end) {
        Err(e) => Err(e),
        Ok((head, after_head)) => match parse_visibility(tokens, after_head, end) {
            Err(e) => Err(e),
            Ok((visibility, at_name)) => match name_at(tokens, at_name) {
                None => Err(error_at(ParseErrorKind::ExpectedName, tokens, at_name, end)),
                Some(name) => match parse_initial_state(tokens, at_name + 1, end) {
                    Err(e) => Err(e),
                    Ok(initial_state) => match parse_uses(tokens, at_name + 2, Seq::empty(), end) {
                        Err(e) => Err(e),
                        Ok((use_statements, at_states)) => match parse_transition_defs(
                            tokens,
                            at_states,
                            Seq::empty(),
                            end,
                        ) {
                            Err(e) => Err(e),
                            Ok(transitions) => if transitions.len() == 0 {
                                Err(error_at(ParseErrorKind::NoTransitions, tokens, at_name, end))
                            } else {
                                Ok(
                                    StateMachineDefView {
                                        doc: head.doc,
                                        visibility,
                                        name,
                                        initial_state,
                                        use_statements,
                                        transitions,
                                        attributes: head.attributes,
                                        def_attrs: head.def_attrs,
                                    },
                                )
                            },
                        },
                    },
                },
            },
        },
    }
}

/// Whether the attribute whose content is `inner` goes by the name `word`.
fn attribute_named(inner: &Vec<TokenTree>, word: &str) -> (r: bool)
    ensures
        r == attribute_is(inner.deep_view(), word@),
{
    is_word_at(inner, 0, word) && !is_punct_at(inner, 1, ':')
}

/// Reads the attributes at the head of a description, from position `pos`
/// on. `end` is the place to report where the tokens run out.
pub fn read_attributes(tokens: &Vec<TokenTree>, pos: usize, end: Location) -> (r: Result<
    (HeadAttributes, usize),
    ParseError,
>)
    ensures
        agrees(r, parse_attributes(tokens.deep_view(), pos as int, HeadAttributesView::empty(), end)),
        r matches Ok((_, next)) ==> pos <= next && (next <= tokens.len() || next == pos),
{
    let mut head = HeadAttributes {
        doc: Vec::new(),
        attributes: Vec::new(),
        def_attrs: SMDefAttr::new(),
    };
    assert(head.deep_view().doc =~= Seq::<Seq<char>>::empty());
    assert(head.deep_view().attributes =~= Seq::<Seq<char>>::empty());
    let mut at: usize = pos;
    while is_punct_at(tokens, at, '#')
        invariant
            pos <= at,
            at <= tokens.len() || at == pos,
            parse_attributes(tokens.deep_view(), pos as int, HeadAttributesView::empty(), end)
                == parse_attributes(tokens.deep_view(), at as int, head.deep_view(), end),
        decreases tokens.len() - at,
    {
        let inner = match group_of(tokens, at + 1, Delimiter::Bracket) {
            Some(inner) => inner,
            None => { return Err(fail_at(ParseErrorKind::InvalidAttribute, tokens, at, end)); },
        };
        let meta = render_range(inner, 0, inner.len());
        if !parses_as_meta(meta.as_str()) {
            return Err(fail_at(ParseErrorKind::InvalidAttribute, tokens, at, end));
        }
        let ghost before = head.deep_view();
        if attribute_named(inner, "doc") {
            head.doc.push(render_range(tokens, at, at + 2));
            assert(head.deep_view().doc =~= before.doc.push(range_text(tokens.deep_view(), at as int, at + 2)));
        } else if attribute_named(inner, "state_machine") {
            if inner.len() != 2 {
                return Err(fail_at(ParseErrorKind::InvalidAttribute, tokens, at, end));
            }
            proof {
                lemma_group_view(inner[1]);
            }
            let options = match &inner[1] {
                TokenTree::Group(d, options, _) => {
                    if *d == Delimiter::Invisible {
                        return Err(fail_at(ParseErrorKind::InvalidAttribute, tokens, at, end));
                    }
                    options
                },
                _ => { return Err(fail_at(ParseErrorKind::InvalidAttribute, tokens, at, end)); },
            };
            let given = head.def_attrs;
            match given.load_all(options, inner[1].location()) {
                Err(e) => { return Err(e); },
                Ok(def_attrs) => {
                    head = HeadAttributes { doc: head.doc, attributes: head.attributes, def_attrs };
                },
            }
        } else {
            head.attributes.push(render_range(tokens, at, at + 2));
            assert(head.deep_view().attributes =~= before.attributes.push(
                range_text(tokens.deep_view(), at as int, at + 2),
            ));
        }
        at = at + 2;
    }
    Ok((head, at))
}

/// Whether what stands in the parentheses after `pub` restricts the
/// visibility.
fn restricts(inner: &Vec<TokenTree>) -> (r: bool)
    ensures
        r == is_restriction(inner.deep_view()),
{
    (inner.len() == 1 && (is_word_at(inner, 0, "crate") || is_word_at(inner, 0, "self")
        || is_word_at(inner, 0, "super"))) || is_word_at(inner, 0, "in")
}

/// Reads the visibility at position `pos`.
pub fn read_visibility(tokens: &Vec<TokenTree>, pos: usize, end: Location) -> (r: Result<
    (String, usize),
    ParseError,
>)
    ensures
        agrees(r, parse_visibility(tokens.deep_view(), pos as int, end)),
        r matches Ok((_, next)) ==> pos <= next && (next <= tokens.len() || next == pos),
{
    if !is_word_at(tokens, pos, "pub") {
        return Ok((String::new(), pos));
    }
    let restricted = match group_of(tokens, pos + 1, Delimiter::Parenthesis) {
        Some(inner) => restricts(inner),
        None => false,
    };
    if restricted {
        let text = render_range(tokens, pos, pos + 2);
        if parses_as_visibility(text.as_str()) {
            Ok((text, pos + 2))
        } else {
            Err(fail_at(ParseErrorKind::InvalidVisibility, tokens, pos + 1, end))
        }
    } else {
        Ok((render_range(tokens, pos, pos + 1), pos + 1))
    }
}

/// Reads the `use` items from position `pos` on.
pub fn read_uses(tokens: &Vec<TokenTree>, pos: usize, end: Location) -> (r: Result<
    (Vec<String>, usize),
    ParseError,
>)
    ensures
        agrees(r, parse_uses(tokens.deep_view(), pos as int, Seq::empty(), end)),
        r matches Ok((_, next)) ==> pos <= next && (next <= tokens.len() || next == pos),
{
    let mut uses: Vec<String> = Vec::new();
    assert(uses.deep_view() =~= Seq::<Seq<char>>::empty());
    let mut at: usize = pos;
    while is_word_at(tokens, at, "use")
        invariant
            pos <= at,
            at <= tokens.len() || at == pos,
            parse_uses(tokens.deep_view(), pos as int, Seq::empty(), end) == parse_uses(
                tokens.deep_view(),
                at as int,
                uses.deep_view(),
                end,
            ),
        decreases tokens.len() - at,
    {
        let semicolon = find_punct(tokens, at, ';');
        if semicolon >= tokens.len() {
            return Err(fail_at(ParseErrorKind::ExpectedSemicolon, tokens, at, end));
        }
        let text = render_range(tokens, at, semicolon + 1);
        if !parses_as_use(text.as_str()) {
            return Err(fail_at(ParseErrorKind::InvalidUse, tokens, at, end));
        }
        let ghost before = uses.deep_view();
        uses.push(text);
        assert(uses.deep_view() =~= before.push(text@));
        at = semicolon + 1;
    }
    Ok((uses, at))
}

/// Reads the initial state at position `pos`: one name in parentheses.
pub fn read_initial_state(tokens: &Vec<TokenTree>, pos: usize, end: Location) -> (r: Result<
    String,
    ParseError,
>)
    ensures
        agrees_on_all(r, parse_initial_state(tokens.deep_view(), pos as int, end)),
        r is Ok ==> pos < tokens.len(),
{
    let inner = match group_of(tokens, pos, Delimiter::Parenthesis) {
        Some(inner) => inner,
        None => { return Err(fail_at(ParseErrorKind::ExpectedParentheses, tokens, pos, end)); },
    };
    match name_of(inner, 0) {
        None => Err(fail_at(ParseErrorKind::ExpectedName, inner, 0, tokens[pos].location())),
        Some(name) => if inner.len() == 1 {
            Ok(copy_text(name.as_str()))
        } else {
            Err(fail_at(ParseErrorKind::UnexpectedToken, inner, 1, end))
        },
    }
}

impl StateMachineDef {
    /// Reads a description: attributes, a visibility, the machine's name,
    /// its initial state in parentheses, `use` items, and the transitions of
    /// at least one state, separated by commas. `end` is the place to report
    /// where the tokens run out.
    pub fn parse(tokens: &Vec<TokenTree>, end: Location) -> (r: Result<StateMachineDef, ParseError>)
        ensures
            agrees_on_all(r, parse_machine(tokens.deep_view(), end)),
    {
        let (head, after_head) = match read_attributes(tokens, 0, end) {
            Ok(found) => found,
            Err(e) => { return Err(e); },
        };
        let (visibility, at_name) = match read_visibility(tokens, after_head, end) {
            Ok(found) => found,
            Err(e) => { return Err(e); },
        };
        let name = match name_of(tokens, at_name) {
            Some(name) => copy_text(name.as_str()),
            None => { return Err(fail_at(ParseErrorKind::ExpectedName, tokens, at_name, end)); },
        };
        let initial_state = match read_initial_state(tokens, at_name + 1, end) {
            Ok(found) => found,
            Err(e) => { return Err(e); },
        };
        let (use_statements, at_states) = match read_uses(tokens, at_name + 2, end) {
            Ok(found) => found,
            Err(e) => { return Err(e); },
        };
        let transitions = match TransitionDef::parse_all(tokens, at_states, end) {
            Ok(found) => found,
            Err(e) => { return Err(e); },
        };
        if transitions.len() == 0 {
            return Err(fail_at(ParseErrorKind::NoTransitions, tokens, at_name, end));
        }
        Ok(
            StateMachineDef {
                doc: head.doc,
                visibility,
                name,
                initial_state,
                use_statements,
                transitions,
                attributes: head.attributes,
                def_attrs: head.def_attrs,
            },
        )
    }
}

} // verus!
