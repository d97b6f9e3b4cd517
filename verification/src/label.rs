//! Guard labels: a guard's text made fit for an edge of a state diagram.

use vstd::prelude::*;
use vstd::string::*;

verus! {

/// The characters that separate words: Unicode's white space.
pub open spec fn is_space(c: char) -> bool {
    ||| c == ' '
    ||| c == '\t'
    ||| c == '\n'
    ||| c == '\u{b}'
    ||| c == '\u{c}'
    ||| c == '\r'
    ||| c == '\u{85}'
    ||| c == '\u{a0}'
    ||| c == '\u{1680}'
    ||| c == '\u{2000}'
    ||| c == '\u{2001}'
    ||| c == '\u{2002}'
    ||| c == '\u{2003}'
    ||| c == '\u{2004}'
    ||| c == '\u{2005}'
    ||| c == '\u{2006}'
    ||| c == '\u{2007}'
    ||| c == '\u{2008}'
    ||| c == '\u{2009}'
    ||| c == '\u{200a}'
    ||| c == '\u{2028}'
    ||| c == '\u{2029}'
    ||| c == '\u{202f}'
    ||| c == '\u{205f}'
    ||| c == '\u{3000}'
}

/// The words of a text, joined by single blanks: white space before the
/// first word and after the last is dropped, and each run between two words
/// becomes one blank.
pub open spec fn collapsed(s: Seq<char>) -> Seq<char>
    decreases s.len(),
{
    if s.len() == 0 {
        s
    } else {
        let before = collapsed(s.drop_last());
        if is_space(s.last()) {
            before
        } else if s.len() >= 2 && is_space(s[s.len() - 2]) && before.len() > 0 {
            before.push(' ').push(s.last())
        } else {
            before.push(s.last())
        }
    }
}

/// A text without its colons.
pub open spec fn without_colons(s: Seq<char>) -> Seq<char>
    decreases s.len(),
{
    if s.len() == 0 {
        s
    } else if s.last() == ':' {
        without_colons(s.drop_last())
    } else {
        without_colons(s.drop_last()).push(s.last())
    }
}

/// A guard's text as it is shown in a diagram: its words joined by single
/// blanks, without colons, in square brackets.
pub open spec fn mermaid_guard(s: Seq<char>) -> Seq<char> {
    seq!['['] + without_colons(collapsed(s)) + seq![']']
}

/// Whether the character separates words.
pub fn separates_words(c: char) -> (r: bool)
    ensures
        r == is_space(c),
{
    c == ' ' || c == '\t' || c == '\n' || c == '\u{b}' || c == '\u{c}' || c == '\r' || c
        == '\u{85}' || c == '\u{a0}' || c == '\u{1680}' || c == '\u{2000}' || c == '\u{2001}' || c
        == '\u{2002}' || c == '\u{2003}' || c == '\u{2004}' || c == '\u{2005}' || c == '\u{2006}'
        || c == '\u{2007}' || c == '\u{2008}' || c == '\u{2009}' || c == '\u{200a}' || c
        == '\u{2028}' || c == '\u{2029}' || c == '\u{202f}' || c == '\u{205f}' || c == '\u{3000}'
}

/// The words of a text joined by single blanks, without the colons.
pub fn sanitize_text(text: &str) -> (r: String)
    ensures
        r@ == without_colons(collapsed(text@)),
{
    let n = text.unicode_len();
    let mut out = String::new();
    let ghost mut joined: Seq<char> = Seq::empty();
    let mut started = false;
    let mut gap = false;
    let mut i: usize = 0;
    proof {
        reveal_strlit(" ");
        assert(text@.take(0) =~= Seq::<char>::empty());
    }
    while i < n
        invariant
            i <= n,
            n == text@.len(),
            " "@ == seq![' '],
            joined == collapsed(text@.take(i as int)),
            out@ == without_colons(joined),
            started == (joined.len() > 0),
            gap == (i > 0 && is_space(text@[i - 1])),
        decreases n - i,
    {
        let c = text.get_char(i);
        proof {
            let upto = text@.take(i as int + 1);
            assert(upto.drop_last() =~= text@.take(i as int));
            assert(upto.last() == c);
            if i > 0 {
                assert(upto[upto.len() - 2] == text@[i - 1]);
            }
        }
        if separates_words(c) {
            gap = true;
        } else {
            if gap && started {
                out.append(" ");
                proof {
                    assert(joined.push(' ').drop_last() =~= joined);
                    assert(without_colons(joined.push(' ')) == without_colons(joined).push(' '));
                    joined = joined.push(' ');
                    assert(out@ =~= without_colons(joined));
                }
            }
            if c != ':' {
                out.append(text.substring_char(i, i + 1));
                assert(text@.subrange(i as int, i + 1) =~= seq![c]);
            }
            proof {
                assert(joined.push(c).drop_last() =~= joined);
                assert(without_colons(joined.push(c)) == if c == ':' {
                    without_colons(joined)
                } else {
                    without_colons(joined).push(c)
                });
                joined = joined.push(c);
                assert(out@ =~= without_colons(joined));
            }
            started = true;
            gap = false;
        }
        i += 1;
    }
    assert(text@.take(n as int) =~= text@);
    out
}

/// A guard's text as it is shown in a diagram: white space is collapsed,
/// colons, which would end the label, are removed, and the whole is put in
/// square brackets.
pub fn as_mermaid_guard(expr_str: &str) -> (r: String)
    ensures
        r@ == mermaid_guard(expr_str@),
{
    let mut out = String::new();
    proof {
        reveal_strlit("[");
        reveal_strlit("]");
    }
    out.append("[");
    let inner = sanitize_text(expr_str);
    out.append(inner.as_str());
    out.append("]");
    assert(out@ =~= mermaid_guard(expr_str@));
    out
}

/// The label of a guard in a diagram.
pub fn sanitize_expr(expr: &str) -> (r: String)
    ensures
        r@ == mermaid_guard(expr@),
{
    as_mermaid_guard(expr)
}

/// The source text of a function whose body is the given expression. A
/// pretty printer that is given this text lays the expression out as Rust
/// code is usually written.
pub open spec fn wrapped_guard(body: Seq<char>) -> Seq<char> {
    "fn __guard_expr() -> bool {\n"@ + body + "\n}\n"@
}

/// The source text of a function whose body is the given expression.
pub fn wrap_guard(body: &str) -> (r: String)
    ensures
        r@ == wrapped_guard(body@),
{
    let mut out = String::new();
    out.append("fn __guard_expr() -> bool {\n");
    out.append(body);
    out.append("\n}\n");
    assert(out@ =~= wrapped_guard(body@));
    out
}

/// Position `i` is where the first `c` of the text stands.
pub open spec fn is_first(s: Seq<char>, c: char, i: int) -> bool {
    0 <= i < s.len() && s[i] == c && forall|j: int| 0 <= j < i ==> s[j] != c
}

/// Position `i` is where the last `c` of the text stands.
pub open spec fn is_last(s: Seq<char>, c: char, i: int) -> bool {
    0 <= i < s.len() && s[i] == c && forall|j: int| i < j < s.len() ==> s[j] != c
}

/// The position of the first `c` of a text, if it holds one.
pub fn find_first(text: &str, c: char) -> (r: Option<usize>)
    ensures
        r matches Some(i) ==> is_first(text@, c, i as int),
        r is None ==> !text@.contains(c),
{
    let n = text.unicode_len();
    let mut i: usize = 0;
    while i < n
        invariant
            i <= n,
            n == text@.len(),
            forall|j: int| 0 <= j < i ==> text@[j] != c,
        decreases n - i,
    {
        if text.get_char(i) == c {
            return Some(i);
        }
        i += 1;
    }
    None
}

/// The position of the last `c` of a text, if it holds one.
pub fn find_last(text: &str, c: char) -> (r: Option<usize>)
    ensures
        r matches Some(i) ==> is_last(text@, c, i as int),
        r is None ==> !text@.contains(c),
{
    let n = text.unicode_len();
    let mut i: usize = n;
    while i > 0
        invariant
            i <= n,
            n == text@.len(),
            forall|j: int| i <= j < n ==> text@[j] != c,
        decreases i,
    {
        i -= 1;
        if text.get_char(i) == c {
            return Some(i);
        }
    }
    None
}

/// The label of a guard, made from what a pretty printer printed for the
/// function that wraps the guard (see `wrap_guard`): what stands between the
/// first `{` and the last `}`, sanitized. `None` where the text holds no
/// such pair.
pub fn sanitize_closure(printed: &str) -> (r: Option<String>)
    ensures
        match r {
            Some(label) => exists|open: int, close: int|
                is_first(printed@, '{', open) && is_last(printed@, '}', close) && open < close
                    && label@ == mermaid_guard(printed@.subrange(open + 1, close)),
            None => forall|open: int, close: int|
                is_first(printed@, '{', open) && is_last(printed@, '}', close) ==> close < open,
        },
{
    let open = match find_first(printed, '{') {
        Some(open) => open,
        None => {
            assert forall|open: int, close: int|
                is_first(printed@, '{', open) && is_last(printed@, '}', close) implies close
                < open by {
                assert(printed@.contains(printed@[open]));
            }
            return None;
        },
    };
    let close = match find_last(printed, '}') {
        Some(close) => close,
        None => {
            assert forall|open: int, close: int|
                is_first(printed@, '{', open) && is_last(printed@, '}', close) implies close
                < open by {
                assert(printed@.contains(printed@[close]));
            }
            return None;
        },
    };
    if close < open {
        return None;
    }
    let inner = printed.substring_char(open + 1, close);
    Some(as_mermaid_guard(inner))
}

} // verus!
