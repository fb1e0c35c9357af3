//! The template renderer: `{name}` placeholders are replaced by the values of
//! a token map, in one pass from left to right.
//!
//! A placeholder is an opening brace, a name without braces, and a closing
//! brace. There is no way to escape a brace: a brace that belongs to no
//! placeholder is ordinary text.

use vstd::prelude::*;
use vstd::string::StringExecFns;
use crate::text::chars_of;
use crate::tokens::TokenMap;

verus! {

pub open spec fn is_brace(c: char) -> bool {
    c == '{' || c == '}'
}

pub open spec fn brace_free(s: Seq<char>) -> bool {
    forall|k: int| 0 <= k < s.len() ==> !is_brace(#[trigger] s[k])
}

/// The text at `i..=j` is a placeholder: `{`, a name without braces, `}`.
pub open spec fn is_placeholder(t: Seq<char>, i: int, j: int) -> bool {
    &&& 0 <= i < j < t.len()
    &&& t[i] == '{'
    &&& t[j] == '}'
    &&& forall|k: int| i < k < j ==> !is_brace(#[trigger] t[k])
}

/// The first position at or after `from` that holds a brace, or the length
/// of `t` if there is none.
pub open spec fn next_brace(t: Seq<char>, from: int) -> int
    decreases t.len() - from,
{
    if from < 0 || from >= t.len() {
        t.len() as int
    } else if is_brace(t[from]) {
        from
    } else {
        next_brace(t, from + 1)
    }
}

/// Where the placeholder that opens at `i` closes, if one opens there.
pub open spec fn placeholder_end(t: Seq<char>, i: int) -> Option<int> {
    let j = next_brace(t, i + 1);
    if 0 <= i < j < t.len() && t[i] == '{' && t[j] == '}' {
        Some(j)
    } else {
        None
    }
}

/// What stands in the output for the placeholder called `name`: its value,
/// or the placeholder itself where the map has none.
pub open spec fn expand(name: Seq<char>, tokens: Map<Seq<char>, Seq<char>>) -> Seq<char> {
    if tokens.contains_key(name) {
        tokens[name]
    } else {
        seq!['{'] + name + seq!['}']
    }
}

/// The rendering of `t` from position `i` on.
pub open spec fn render_from(t: Seq<char>, tokens: Map<Seq<char>, Seq<char>>, i: int) -> Seq<char>
    decreases t.len() - i,
{
    if i < 0 || i >= t.len() {
        Seq::empty()
    } else {
        match placeholder_end(t, i) {
            Some(j) => expand(t.subrange(i + 1, j), tokens) + render_from(t, tokens, j + 1),
            None => seq![t[i]] + render_from(t, tokens, i + 1),
        }
    }
}

/// The rendering of a template: every placeholder whose name the map holds
/// is replaced by its value, and all other text stays as it is. A value that
/// was put in is not looked at again.
pub open spec fn render_spec(t: Seq<char>, tokens: Map<Seq<char>, Seq<char>>) -> Seq<char> {
    render_from(t, tokens, 0)
}

/// `next_brace` finds the first brace: nothing before it is one.
pub proof fn lemma_next_brace(t: Seq<char>, from: int)
    requires
        0 <= from <= t.len(),
    ensures
        from <= next_brace(t, from) <= t.len(),
        forall|k: int| from <= k < next_brace(t, from) ==> !is_brace(#[trigger] t[k]),
        next_brace(t, from) < t.len() ==> is_brace(t[next_brace(t, from)]),
    decreases t.len() - from,
{
    if from < t.len() && !is_brace(t[from]) {
        lemma_next_brace(t, from + 1);
    }
}

/// A run without braces that ends at a brace, or at the end of the text, ends
/// where `next_brace` says.
pub proof fn lemma_next_brace_is(t: Seq<char>, from: int, j: int)
    requires
        0 <= from <= j <= t.len(),
        forall|k: int| from <= k < j ==> !is_brace(#[trigger] t[k]),
        j < t.len() ==> is_brace(t[j]),
    ensures
        next_brace(t, from) == j,
    decreases j - from,
{
    if from < j {
        lemma_next_brace_is(t, from + 1, j);
    }
}

/// `placeholder_end` finds the placeholder that opens at `i`, and there is
/// no other.
pub proof fn lemma_placeholder_end(t: Seq<char>, i: int)
    ensures
        match placeholder_end(t, i) {
            Some(j) => is_placeholder(t, i, j),
            None => forall|j: int| !is_placeholder(t, i, j),
        },
        forall|j: int| is_placeholder(t, i, j) ==> placeholder_end(t, i) == Some(j),
{
    if 0 <= i < t.len() {
        lemma_next_brace(t, i + 1);
        assert forall|j: int| is_placeholder(t, i, j) implies placeholder_end(t, i) == Some(j) by {
            lemma_next_brace_is(t, i + 1, j);
        }
    }
}

/// Renders `template` with the values of `tokens`.
pub fn render(template: &str, tokens: &TokenMap) -> (out: String)
    ensures
        out@ == render_spec(template@, tokens@),
{
    let t = chars_of(template);
    let n = t.len();
    let mut out = String::new();
    let mut i: usize = 0;
    while i < n
        invariant
            n == t@.len(),
            i <= n,
            render_spec(t@, tokens@) == out@ + render_from(t@, tokens@, i as int),
        decreases n - i,
    {
        let ghost before = out@;
        let ghost rest = render_from(t@, tokens@, i as int);
        let mut closed = false;
        if t[i] == '{' {
            let mut name = String::new();
            let mut j: usize = i + 1;
            while j < n && t[j] != '{' && t[j] != '}'
                invariant
                    n == t@.len(),
                    i < j <= n,
                    name@ == t@.subrange(i + 1, j as int),
                    forall|k: int| i < k < j ==> !is_brace(#[trigger] t@[k]),
                decreases n - j,
            {
                name.push(t[j]);
                j += 1;
                assert(t@.subrange(i + 1, j as int) == t@.subrange(i + 1, j - 1).push(t@[j - 1]));
            }
            proof {
                lemma_next_brace_is(t@, i + 1, j as int);
            }
            if j < n && t[j] == '}' {
                closed = true;
                match tokens.get(name.as_str()) {
                    Some(value) => {
                        out.append(value.as_str());
                    },
                    None => {
                        out.push('{');
                        out.append(name.as_str());
                        out.push('}');
                    },
                }
                assert(out@ == before + expand(name@, tokens@));
                assert(rest == expand(name@, tokens@) + render_from(t@, tokens@, j + 1));
                assert(before + rest == out@ + render_from(t@, tokens@, j + 1));
                i = j + 1;
            }
        }
        if !closed {
            assert(rest == seq![t@[i as int]] + render_from(t@, tokens@, i + 1));
            out.push(t[i]);
            assert(before + rest == out@ + render_from(t@, tokens@, i + 1));
            i += 1;
        }
    }
    out
}

/// Text after position `i` renders the same whatever stands before it.
proof fn lemma_render_suffix(a: Seq<char>, b: Seq<char>, tokens: Map<Seq<char>, Seq<char>>, k: int)
    requires
        0 <= k <= b.len(),
    ensures
        render_from(a + b, tokens, a.len() + k) == render_from(b, tokens, k),
    decreases b.len() - k,
{
    let t = a + b;
    let i = a.len() + k;
    if k < b.len() {
        lemma_placeholder_end(t, i);
        lemma_placeholder_end(b, k);
        assert(forall|j: int| is_placeholder(b, k, j) ==> is_placeholder(t, i, a.len() + j)) by {
            assert forall|j: int| is_placeholder(b, k, j) implies is_placeholder(
                t,
                i,
                a.len() + j,
            ) by {
                assert forall|x: int| i < x < a.len() + j implies !is_brace(#[trigger] t[x]) by {
                    assert(t[x] == b[x - a.len()]);
                }
            }
        }
        assert(forall|j: int| is_placeholder(t, i, j) ==> is_placeholder(b, k, j - a.len())) by {
            assert forall|j: int| is_placeholder(t, i, j) implies is_placeholder(
                b,
                k,
                j - a.len(),
            ) by {
                assert forall|x: int| k < x < j - a.len() implies !is_brace(#[trigger] b[x]) by {
                    assert(b[x] == t[x + a.len()]);
                }
            }
        }
        match placeholder_end(b, k) {
            Some(j) => {
                assert(is_placeholder(t, i, a.len() + j));
                assert(placeholder_end(t, i) == Some(a.len() + j));
                assert(t.subrange(i + 1, a.len() + j) == b.subrange(k + 1, j));
                lemma_render_suffix(a, b, tokens, j + 1);
            },
            None => {
                if placeholder_end(t, i) is Some {
                    let j = placeholder_end(t, i)->0;
                    assert(is_placeholder(b, k, j - a.len()));
                }
                lemma_render_suffix(a, b, tokens, k + 1);
            },
        }
    }
}

/// A placeholder renders to its expansion wherever it stands: the text
/// before it and the text after it render as they do alone.
///
/// So a placeholder whose name the map lacks stays as it is, and one whose
/// name the map holds gives way to exactly its value, whatever else the
/// template and the map hold.
pub proof fn lemma_render_placeholder(
    before: Seq<char>,
    name: Seq<char>,
    after: Seq<char>,
    tokens: Map<Seq<char>, Seq<char>>,
)
    requires
        brace_free(name),
    ensures
        render_spec(before + seq!['{'] + name + seq!['}'] + after, tokens) == render_spec(
            before,
            tokens,
        ) + expand(name, tokens) + render_spec(after, tokens),
{
    lemma_render_around(before, name, after, tokens, 0);
}

proof fn lemma_render_around(
    before: Seq<char>,
    name: Seq<char>,
    after: Seq<char>,
    tokens: Map<Seq<char>, Seq<char>>,
    i: int,
)
    requires
        brace_free(name),
        0 <= i <= before.len(),
    ensures
        render_from(before + seq!['{'] + name + seq!['}'] + after, tokens, i) == render_from(
            before,
            tokens,
            i,
        ) + expand(name, tokens) + render_from(after, tokens, 0),
    decreases before.len() - i,
{
    let head = before + seq!['{'] + name + seq!['}'];
    let t = head + after;
    let open = before.len() as int;
    let close = open + 1 + name.len();
    assert(t[open] == '{');
    assert(t[close] == '}');
    assert forall|x: int| open < x < close implies !is_brace(#[trigger] t[x]) by {
        assert(t[x] == name[x - open - 1]);
    }
    assert(is_placeholder(t, open, close));
    lemma_placeholder_end(t, i);
    if i == open {
        assert(t.subrange(open + 1, close) == name);
        assert(head.len() == close + 1);
        lemma_render_suffix(head, after, tokens, 0);
        assert(render_from(before, tokens, i) == Seq::<char>::empty());
        assert(Seq::<char>::empty() + expand(name, tokens) == expand(name, tokens));
    } else {
        lemma_placeholder_end(before, i);
        assert(t[i] == before[i]);
        match placeholder_end(before, i) {
            Some(j) => {
                assert(is_placeholder(t, i, j)) by {
                    assert(t[j] == before[j]);
                    assert forall|x: int| i < x < j implies !is_brace(#[trigger] t[x]) by {
                        assert(t[x] == before[x]);
                    }
                }
                assert(t.subrange(i + 1, j) == before.subrange(i + 1, j));
                lemma_render_around(before, name, after, tokens, j + 1);
                let e = expand(before.subrange(i + 1, j), tokens);
                assert(e + (render_from(before, tokens, j + 1) + expand(name, tokens)
                    + render_from(after, tokens, 0)) == (e + render_from(before, tokens, j + 1))
                    + expand(name, tokens) + render_from(after, tokens, 0));
            },
            None => {
                if placeholder_end(t, i) is Some {
                    let j = placeholder_end(t, i)->0;
                    assert(is_placeholder(t, i, j));
                    if j < open {
                        assert(is_placeholder(before, i, j)) by {
                            assert(t[j] == before[j]);
                            assert forall|x: int| i < x < j implies !is_brace(
                                #[trigger] before[x],
                            ) by {
                                assert(before[x] == t[x]);
                            }
                        }
                    } else if j > open {
                        assert(is_brace(t[open]));
                    }
                    assert(false);
                }
                lemma_render_around(before, name, after, tokens, i + 1);
                let e = seq![before[i]];
                assert(e + (render_from(before, tokens, i + 1) + expand(name, tokens)
                    + render_from(after, tokens, 0)) == (e + render_from(before, tokens, i + 1))
                    + expand(name, tokens) + render_from(after, tokens, 0));
            },
        }
    }
}

/// Where the map holds the name of no placeholder of the template, the
/// template renders to itself.
pub proof fn lemma_render_untouched(t: Seq<char>, tokens: Map<Seq<char>, Seq<char>>)
    requires
        forall|i: int, j: int| #[trigger]
            is_placeholder(t, i, j) ==> !tokens.contains_key(t.subrange(i + 1, j)),
    ensures
        render_spec(t, tokens) == t,
{
    lemma_untouched_from(t, tokens, 0);
    assert(t.subrange(0, t.len() as int) == t);
}

proof fn lemma_untouched_from(t: Seq<char>, tokens: Map<Seq<char>, Seq<char>>, i: int)
    requires
        0 <= i <= t.len(),
        forall|i: int, j: int| #[trigger]
            is_placeholder(t, i, j) ==> !tokens.contains_key(t.subrange(i + 1, j)),
    ensures
        render_from(t, tokens, i) == t.subrange(i, t.len() as int),
    decreases t.len() - i,
{
    if i < t.len() {
        lemma_placeholder_end(t, i);
        match placeholder_end(t, i) {
            Some(j) => {
                assert(is_placeholder(t, i, j));
                lemma_untouched_from(t, tokens, j + 1);
                assert(seq!['{'] + t.subrange(i + 1, j) + seq!['}'] + t.subrange(
                    j + 1,
                    t.len() as int,
                ) == t.subrange(i, t.len() as int));
            },
            None => {
                lemma_untouched_from(t, tokens, i + 1);
                assert(seq![t[i]] + t.subrange(i + 1, t.len() as int) == t.subrange(
                    i,
                    t.len() as int,
                ));
            },
        }
    } else {
        assert(t.subrange(i, t.len() as int) == Seq::<char>::empty());
    }
}

/// With the empty map every template renders to itself.
pub proof fn lemma_render_with_no_tokens(t: Seq<char>)
    ensures
        render_spec(t, Map::empty()) == t,
{
    lemma_render_untouched(t, Map::empty());
}

/// A template without any placeholder renders to itself under every map.
pub proof fn lemma_render_plain_text(t: Seq<char>, tokens: Map<Seq<char>, Seq<char>>)
    requires
        forall|i: int, j: int| !is_placeholder(t, i, j),
    ensures
        render_spec(t, tokens) == t,
{
    lemma_render_untouched(t, tokens);
}

/// Two maps agree on the placeholders of `t`: each name that stands in a
/// placeholder of `t` is in both with one value, or in neither.
pub open spec fn agree_on(
    t: Seq<char>,
    one: Map<Seq<char>, Seq<char>>,
    other: Map<Seq<char>, Seq<char>>,
) -> bool {
    forall|i: int, j: int| #[trigger]
        is_placeholder(t, i, j) ==> expand(t.subrange(i + 1, j), one) == expand(
            t.subrange(i + 1, j),
            other,
        )
}

/// The rendering depends on the map only through the names that stand in
/// placeholders of the template: what else the map holds, and in which
/// order it was filled, makes no difference.
pub proof fn lemma_render_depends_on_placeholders(
    t: Seq<char>,
    one: Map<Seq<char>, Seq<char>>,
    other: Map<Seq<char>, Seq<char>>,
)
    requires
        agree_on(t, one, other),
    ensures
        render_spec(t, one) == render_spec(t, other),
{
    lemma_agree_from(t, one, other, 0);
}

proof fn lemma_agree_from(
    t: Seq<char>,
    one: Map<Seq<char>, Seq<char>>,
    other: Map<Seq<char>, Seq<char>>,
    i: int,
)
    requires
        0 <= i <= t.len(),
        agree_on(t, one, other),
    ensures
        render_from(t, one, i) == render_from(t, other, i),
    decreases t.len() - i,
{
    if i < t.len() {
        lemma_placeholder_end(t, i);
        match placeholder_end(t, i) {
            Some(j) => {
                assert(is_placeholder(t, i, j));
                lemma_agree_from(t, one, other, j + 1);
            },
            None => {
                lemma_agree_from(t, one, other, i + 1);
            },
        }
    }
}

} // verus!
