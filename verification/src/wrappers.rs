//! The XML-like wrappers that stand around messages in a stored transcript.

use vstd::prelude::*;
use crate::text;
use crate::text::{chars_of, contains, find, stands_at, text_of, trim};

verus! {

/// Whether the first `close` of `t`, if `t` has one beside an `open`, stands
/// behind the first `open`.
pub open spec fn in_order(t: Seq<char>, open: Seq<char>, close: Seq<char>) -> bool {
    match (text::found(t, open), text::found(t, close)) {
        (Some(a), Some(b)) => a + open.len() <= b,
        _ => true,
    }
}

/// What stands between the first `open` and the first `close` of `t`, trimmed;
/// `t` itself where one of the two is missing.
pub open spec fn between(t: Seq<char>, open: Seq<char>, close: Seq<char>) -> Seq<char> {
    match (text::found(t, open), text::found(t, close)) {
        (Some(a), Some(b)) => text::trimmed(t.subrange(a + open.len(), b)),
        _ => t,
    }
}

/// Whether `t` is one block: `open` at its front and `close` at its end.
pub open spec fn is_block(t: Seq<char>, open: Seq<char>, close: Seq<char>) -> bool {
    &&& t.len() >= open.len() + close.len()
    &&& t.take(open.len() as int) == open
    &&& t.skip(t.len() - close.len()) == close
}

/// Whether a trimmed message is just environment context.
pub open spec fn is_environment(t: Seq<char>) -> bool {
    is_block(t, "<environment_context>"@, "</environment_context>"@)
}

/// Whether no wrapper of a trimmed message closes before it opens.
pub open spec fn well_ordered(t: Seq<char>) -> bool {
    &&& in_order(t, "<user_instructions>"@, "</user_instructions>"@)
    &&& in_order(
        between(t, "<user_instructions>"@, "</user_instructions>"@),
        "<user_interactions>"@,
        "</user_interactions>"@,
    )
}

/// A trimmed message without its wrappers.
pub open spec fn unwrapped(t: Seq<char>) -> Seq<char> {
    between(
        between(t, "<user_instructions>"@, "</user_instructions>"@),
        "<user_interactions>"@,
        "</user_interactions>"@,
    )
}

/// Whether there is an answer for `s`: it speaks of environment context, or none
/// of its wrappers closes before it opens.
pub open spec fn strippable(s: Seq<char>) -> bool {
    let t = text::trimmed(s);
    text::holds(t, "<environment_context>"@) || well_ordered(t)
}

/// `u`, unless it is just environment context.
pub open spec fn unless_environment(u: Seq<char>) -> Option<Seq<char>> {
    if is_environment(u) {
        None
    } else {
        Some(u)
    }
}

/// The message in `s`: the trimmed text inside the wrappers. There is none where
/// `s` is just environment context, inside its wrappers or with them, or where a
/// wrapper closes before it opens.
pub open spec fn stripped(s: Seq<char>) -> Option<Seq<char>> {
    let t = text::trimmed(s);
    if is_environment(t) || !well_ordered(t) {
        None
    } else {
        unless_environment(unwrapped(t))
    }
}

/// `between`, computed.
fn take_between<'a>(t: &'a [char], open: &str, close: &str) -> (r: &'a [char])
    requires
        in_order(t@, open@, close@),
    ensures
        r@ == between(t@, open@, close@),
{
    let o = chars_of(open);
    let c = chars_of(close);
    match (find(t, o.as_slice()), find(t, c.as_slice())) {
        (Some(a), Some(b)) => trim(vstd::slice::slice_subrange(t, a + o.len(), b)),
        _ => t,
    }
}

/// `in_order`, computed.
fn ordered(t: &[char], open: &str, close: &str) -> (r: bool)
    ensures
        r == in_order(t@, open@, close@),
{
    let o = chars_of(open);
    let c = chars_of(close);
    match (find(t, o.as_slice()), find(t, c.as_slice())) {
        (Some(a), Some(b)) => o.len() <= b && a <= b - o.len(),
        _ => true,
    }
}

/// `is_environment`, computed.
fn just_environment(t: &[char]) -> (r: bool)
    ensures
        r == is_environment(t@),
{
    let o = chars_of("<environment_context>");
    let c = chars_of("</environment_context>");
    let n = t.len();
    if n < o.len() || n - o.len() < c.len() {
        return false;
    }
    assert(t@.subrange(0, o@.len() as int) == t@.take(o@.len() as int));
    assert(t@.subrange(n - c@.len(), n as int) == t@.skip(n - c@.len()));
    stands_at(t, o.as_slice(), 0) && stands_at(t, c.as_slice(), n - c.len())
}

/// Whether `strip_wrappers` can be called on `s`.
pub fn can_strip(s: &str) -> (r: bool)
    ensures
        r == strippable(s@),
{
    let all = chars_of(s);
    let t = trim(all.as_slice());
    if contains(t, "<environment_context>") {
        return true;
    }
    if !ordered(t, "<user_instructions>", "</user_instructions>") {
        return false;
    }
    let t = take_between(t, "<user_instructions>", "</user_instructions>");
    ordered(t, "<user_interactions>", "</user_interactions>")
}

/// Removes the wrappers around a message. A message that is just environment
/// context is skipped as a whole, and so is one that speaks of environment context
/// and has a wrapper that closes before it opens.
pub fn strip_wrappers(s: &str) -> (r: Option<String>)
    requires
        strippable(s@),
    ensures
        r.deep_view() == stripped(s@),
{
    let all = chars_of(s);
    let t = trim(all.as_slice());
    if just_environment(t) || !ordered(t, "<user_instructions>", "</user_instructions>") {
        return None;
    }
    let t = take_between(t, "<user_instructions>", "</user_instructions>");
    if !ordered(t, "<user_interactions>", "</user_interactions>") {
        return None;
    }
    let t = take_between(t, "<user_interactions>", "</user_interactions>");
    if just_environment(t) {
        return None;
    }
    Some(text_of(t))
}

/// Whether `p` starts with `<` and has no second one.
spec fn tag(p: Seq<char>) -> bool {
    &&& p.len() > 1
    &&& p[0] == '<'
    &&& p[1] != '<'
    &&& forall|k: int| 1 <= k < p.len() ==> p[k] != '<'
}

/// Where a tag stands in `open + x + close`, all three of which hold tags only
/// as a whole, it stands inside `x` or is one of the outer two.
proof fn lemma_tag_places(open: Seq<char>, x: Seq<char>, close: Seq<char>, p: Seq<char>, i: int)
    requires
        tag(open),
        tag(close),
        tag(p),
        text::occurs_at(open + x + close, p, i),
    ensures
        i == 0 || i == open.len() + x.len() || text::occurs_at(x, p, i - open.len()),
        forall|k: int| i == 0 && 0 <= k < p.len() && k < open.len() ==> p[k] == open[k],
        forall|k: int|
            i == open.len() + x.len() && 0 <= k < p.len() && k < close.len() ==> p[k] == close[k],
{
    let s = open + x + close;
    let c = open.len() + x.len();
    assert(forall|k: int| 0 <= k < p.len() ==> s[i + k] == #[trigger] p[k]) by {
        assert forall|k: int| 0 <= k < p.len() implies s[i + k] == #[trigger] p[k] by {
            assert(s.subrange(i, i + p.len())[k] == s[i + k]);
        }
    }
    assert(s[i] == p[0]);
    if i == 0 {
        assert forall|k: int| 0 <= k < p.len() && k < open.len() implies p[k] == open[k] by {
            assert(s[i + k] == open[k]);
        }
    } else if i == c {
        assert forall|k: int| 0 <= k < p.len() && k < close.len() implies p[k] == close[k] by {
            assert(s[i + k] == close[k]);
        }
    } else if 0 < i < open.len() {
        assert(s[i] == open[i]);
    } else if i > c {
        assert(s[i] == close[i - c]);
    } else if open.len() <= i < c {
        if i + p.len() > c {
            assert(s[i + (c - i)] == p[c - i]);
            assert(s[c as int] == close[0]);
        }
        assert(x.subrange(i - open.len(), i - open.len() + p.len()) =~= p) by {
            assert forall|k: int| 0 <= k < p.len() implies x.subrange(
                i - open.len(),
                i - open.len() + p.len(),
            )[k] == p[k] by {
                assert(s[i + k] == x[i - open.len() + k]);
            }
        }
    }
}

/// A message in `<user_instructions>` wrappers gives back the trimmed text that
/// was wrapped, without the wrappers that stand inside it in turn, unless that is
/// just environment context.
pub proof fn law_instructions_unwrap(x: Seq<char>)
    requires
        !text::holds(x, "</user_instructions>"@),
        in_order(text::trimmed(x), "<user_interactions>"@, "</user_interactions>"@),
    ensures
        stripped("<user_instructions>"@ + x + "</user_instructions>"@) == unless_environment(
            between(text::trimmed(x), "<user_interactions>"@, "</user_interactions>"@),
        ),
{
    let open = "<user_instructions>"@;
    let close = "</user_instructions>"@;
    reveal_strlit("<user_instructions>");
    reveal_strlit("</user_instructions>");
    lemma_enclosed(open, x, close);
    lemma_no_environment(open, x, close);
}

/// A message in `<user_interactions>` wrappers gives back the trimmed text that
/// was wrapped, unless that is just environment context.
pub proof fn law_interactions_unwrap(x: Seq<char>)
    requires
        !text::holds(x, "</user_interactions>"@),
        !text::holds(x, "<user_instructions>"@) || !text::holds(x, "</user_instructions>"@),
    ensures
        stripped("<user_interactions>"@ + x + "</user_interactions>"@) == unless_environment(
            text::trimmed(x),
        ),
{
    let open = "<user_interactions>"@;
    let close = "</user_interactions>"@;
    let other_open = "<user_instructions>"@;
    let other_close = "</user_instructions>"@;
    reveal_strlit("<user_interactions>");
    reveal_strlit("</user_interactions>");
    reveal_strlit("<user_instructions>");
    reveal_strlit("</user_instructions>");
    lemma_enclosed(open, x, close);
    lemma_no_environment(open, x, close);
    if !text::holds(x, other_open) {
        assert(other_open[8] != open[8]);
        assert(other_open[1] != close[1]);
        lemma_not_outside(open, x, close, other_open, 8, 1);
    } else {
        assert(other_close[1] != open[1]);
        assert(other_close[9] != close[9]);
        lemma_not_outside(open, x, close, other_close, 1, 9);
    }
}

/// A tag that is neither `open` nor `close` and not in `x` is not in
/// `open + x + close`.
proof fn lemma_not_outside(
    open: Seq<char>,
    x: Seq<char>,
    close: Seq<char>,
    p: Seq<char>,
    a: int,
    b: int,
)
    requires
        tag(open),
        tag(close),
        tag(p),
        0 <= a < open.len(),
        a < p.len(),
        p[a] != open[a],
        0 <= b < close.len(),
        b < p.len(),
        p[b] != close[b],
        !text::holds(x, p),
    ensures
        !text::holds(open + x + close, p),
{
    let s = open + x + close;
    if text::holds(s, p) {
        text::lemma_found_occurs(s, p);
        let i = text::found(s, p)->0;
        lemma_tag_places(open, x, close, p, i);
        text::lemma_occurs_found(x, p, i - open.len());
    }
}

/// What starts with a tag of a user's wrapper is not just environment context.
proof fn lemma_no_environment(open: Seq<char>, x: Seq<char>, close: Seq<char>)
    requires
        open.len() > 1,
        open[1] == 'u',
    ensures
        !is_environment(open + x + close),
{
    reveal_strlit("<environment_context>");
    let s = open + x + close;
    let env = "<environment_context>"@;
    if is_environment(s) {
        assert(s.take(env.len() as int)[1] == env[1]);
    }
}

/// Taking `open` and `close` off `open + x + close` leaves the trimmed `x`.
proof fn lemma_enclosed(open: Seq<char>, x: Seq<char>, close: Seq<char>)
    requires
        tag(open),
        tag(close),
        open[1] != close[1],
        close.last() == '>',
        !text::holds(x, close),
    ensures
        text::trimmed(open + x + close) == open + x + close,
        between(open + x + close, open, close) == text::trimmed(x),
        in_order(open + x + close, open, close),
{
    let s = open + x + close;
    let c = (open.len() + x.len()) as int;
    assert(s.first() == '<');
    assert(s.last() == '>');
    assert(text::occurs_at(s, open, 0)) by {
        assert(s.subrange(0, open.len() as int) =~= open);
    }
    assert(text::found(s, open) == Some(0int));
    assert(text::occurs_at(s, close, c)) by {
        assert(s.subrange(c, c + close.len()) =~= close);
    }
    assert forall|i: int| text::occurs_at(s, close, i) implies i >= c by {
        lemma_tag_places(open, x, close, close, i);
        assert(close[1] != open[1]);
        if text::occurs_at(x, close, i - open.len()) {
            text::lemma_occurs_found(x, close, i - open.len());
        }
    }
    text::lemma_least_found(s, close, c);
    assert(s.subrange(open.len() as int, c) =~= x);
}

/// A message that is just environment context, whatever that holds, is skipped.
pub proof fn law_environment_context_skipped(x: Seq<char>)
    ensures
        stripped("<environment_context>"@ + x + "</environment_context>"@) is None,
{
    let open = "<environment_context>"@;
    let close = "</environment_context>"@;
    reveal_strlit("<environment_context>");
    reveal_strlit("</environment_context>");
    let s = open + x + close;
    assert(s.first() == '<');
    assert(s.last() == '>');
    assert(text::trimmed(s) == s);
    assert(s.take(open.len() as int) =~= open);
    assert(s.skip(s.len() - close.len()) =~= close);
}

/// No other message whose wrappers are in order is skipped, though it may speak of
/// environment context: it has to be just that, inside its wrappers or with them.
pub proof fn law_only_environment_context_skipped(s: Seq<char>)
    requires
        well_ordered(text::trimmed(s)),
    ensures
        stripped(s) is None <==> exists|x: Seq<char>|
            {
                let block = #[trigger] ("<environment_context>"@ + x + "</environment_context>"@);
                text::trimmed(s) == block || unwrapped(text::trimmed(s)) == block
            },
{
    let open = "<environment_context>"@;
    let close = "</environment_context>"@;
    let t = text::trimmed(s);
    let u = unwrapped(t);
    if is_environment(t) {
        lemma_block(t, open, close);
    }
    if is_environment(u) {
        lemma_block(u, open, close);
    }
    if exists|x: Seq<char>| t == #[trigger] (open + x + close) || u == open + x + close {
        let x = choose|x: Seq<char>| t == #[trigger] (open + x + close) || u == open + x + close;
        let block = open + x + close;
        assert(block.take(open.len() as int) =~= open);
        assert(block.skip(block.len() - close.len()) =~= close);
    }
}

/// What stands inside a block.
proof fn lemma_block(t: Seq<char>, open: Seq<char>, close: Seq<char>)
    requires
        is_block(t, open, close),
    ensures
        exists|x: Seq<char>| t == #[trigger] (open + x + close),
{
    let x = t.subrange(open.len() as int, t.len() - close.len());
    assert(t =~= t.take(open.len() as int) + x + t.skip(t.len() - close.len()));
    assert(t == open + x + close);
}

/// Stripping twice is stripping once: what is left of a message can be stripped
/// again, and is left as it is.
pub proof fn law_stripped_twice(s: Seq<char>)
    ensures
        stripped(s) matches Some(r) ==> strippable(r) && stripped(r) == Some(r),
{
    if let Some(r) = stripped(s) {
        let t = text::trimmed(s);
        let v = between(t, "<user_instructions>"@, "</user_instructions>"@);
        reveal_strlit("<user_instructions>");
        reveal_strlit("</user_instructions>");
        reveal_strlit("<user_interactions>");
        reveal_strlit("</user_interactions>");
        law_stripped_is_trimmed(s);
        lemma_between_lacks(t, "<user_instructions>"@, "</user_instructions>"@);
        lemma_between_lacks(v, "<user_interactions>"@, "</user_interactions>"@);
        if text::holds(r, "<user_instructions>"@) && text::holds(r, "</user_instructions>"@) {
            lemma_between_inside(
                v,
                "<user_interactions>"@,
                "</user_interactions>"@,
                "<user_instructions>"@,
            );
            lemma_between_inside(
                v,
                "<user_interactions>"@,
                "</user_interactions>"@,
                "</user_instructions>"@,
            );
        }
    }
}

/// What is left between two tags lacks one of the two.
proof fn lemma_between_lacks(t: Seq<char>, open: Seq<char>, close: Seq<char>)
    requires
        in_order(t, open, close),
        close.len() > 0,
    ensures
        ({
            let u = between(t, open, close);
            !text::holds(u, open) || !text::holds(u, close)
        }),
{
    if let (Some(a), Some(b)) = (text::found(t, open), text::found(t, close)) {
        text::lemma_found_occurs(t, open);
        text::lemma_found_occurs(t, close);
        let inner = t.subrange(a + open.len(), b);
        let u = text::trimmed(inner);
        if text::holds(u, close) {
            text::lemma_found_occurs(u, close);
            text::lemma_trimmed_inside(inner, close, text::found(u, close)->0);
            text::lemma_found_occurs(inner, close);
            let i = text::found(inner, close)->0;
            text::lemma_subrange_occurs(t, a + open.len(), b, close, i);
        }
    }
}

/// What stands between two tags of a text stands in the text.
proof fn lemma_between_inside(t: Seq<char>, open: Seq<char>, close: Seq<char>, p: Seq<char>)
    requires
        in_order(t, open, close),
        text::holds(between(t, open, close), p),
    ensures
        text::holds(t, p),
{
    if let (Some(a), Some(b)) = (text::found(t, open), text::found(t, close)) {
        text::lemma_found_occurs(t, open);
        text::lemma_found_occurs(t, close);
        let inner = t.subrange(a + open.len(), b);
        let u = text::trimmed(inner);
        text::lemma_found_occurs(u, p);
        text::lemma_trimmed_inside(inner, p, text::found(u, p)->0);
        text::lemma_found_occurs(inner, p);
        let i = text::found(inner, p)->0;
        text::lemma_subrange_occurs(t, a + open.len(), b, p, i);
        text::lemma_occurs_found(t, p, a + open.len() + i);
    }
}

/// What is left of a message has no white space at its ends.
pub proof fn law_stripped_is_trimmed(s: Seq<char>)
    ensures
        stripped(s) matches Some(t) ==> text::trimmed(t) == t,
{
    text::lemma_trimmed_twice(s);
    let a = text::trimmed(s);
    let b = between(a, "<user_instructions>"@, "</user_instructions>"@);
    lemma_between_trimmed(a, "<user_instructions>"@, "</user_instructions>"@);
    lemma_between_trimmed(b, "<user_interactions>"@, "</user_interactions>"@);
}

proof fn lemma_between_trimmed(t: Seq<char>, open: Seq<char>, close: Seq<char>)
    requires
        text::trimmed(t) == t,
    ensures
        text::trimmed(between(t, open, close)) == between(t, open, close),
{
    if let (Some(a), Some(b)) = (text::found(t, open), text::found(t, close)) {
        text::lemma_trimmed_twice(t.subrange(a + open.len(), b));
    }
}

/// A message that is more than environment context and lacks a tag of each
/// wrapper is left as it is, but trimmed.
pub proof fn law_plain_message_kept(s: Seq<char>)
    requires
        !is_environment(text::trimmed(s)),
        !text::holds(text::trimmed(s), "<user_instructions>"@) || !text::holds(
            text::trimmed(s),
            "</user_instructions>"@,
        ),
        !text::holds(text::trimmed(s), "<user_interactions>"@) || !text::holds(
            text::trimmed(s),
            "</user_interactions>"@,
        ),
    ensures
        strippable(s),
        stripped(s) == Some(text::trimmed(s)),
{
}

/// Where the tags of a wrapper stand in a text: the first ones are those around
/// `x`, whatever stands behind.
proof fn lemma_wrapped(
    pre: Seq<char>,
    open: Seq<char>,
    x: Seq<char>,
    close: Seq<char>,
    post: Seq<char>,
)
    requires
        tag(open),
        tag(close),
        open[1] != close[1],
        !text::holds(pre, open),
        !text::holds(pre, close),
        !text::holds(x, close),
    ensures
        between(pre + open + x + close + post, open, close) == text::trimmed(x),
        in_order(pre + open + x + close + post, open, close),
{
    let t = pre + open + x + close + post;
    let a = pre.len() as int;
    let c = (pre.len() + open.len() + x.len()) as int;
    assert(t.subrange(a, a + open.len()) =~= open);
    assert(t.take(a) =~= pre);
    assert(t.subrange(c, c + close.len()) =~= close);
    assert forall|i: int| text::occurs_at(t, open, i) implies i >= a by {
        if i < a {
            lemma_before(t, pre, open, i);
        }
    }
    text::lemma_least_found(t, open, a);
    assert forall|i: int| text::occurs_at(t, close, i) implies i >= c by {
        let piece = t.subrange(i, i + close.len());
        assert(piece[0] == t[i]);
        assert(piece[1] == t[i + 1]);
        if i < a {
            lemma_before(t, pre, close, i);
        } else if i == a {
            assert(t[a + 1] == open[1]);
        } else if i < a + open.len() {
            assert(t[i] == open[i - a]);
        } else if i < c {
            let d = i - a - open.len();
            if i + close.len() <= c {
                assert(x.subrange(d, d + close.len()) =~= piece);
                text::lemma_occurs_found(x, close, d);
            } else {
                assert(t[c] == close[0]);
                assert(piece[c - i] == t[c]);
            }
        }
    }
    text::lemma_least_found(t, close, c);
    assert(t.subrange(a + open.len(), c) =~= x);
}

/// A tag that stands in front of the end of `pre`, behind which a tag follows,
/// stands in `pre`.
proof fn lemma_before(t: Seq<char>, pre: Seq<char>, p: Seq<char>, i: int)
    requires
        tag(p),
        pre.len() < t.len(),
        t.take(pre.len() as int) == pre,
        t[pre.len() as int] == '<',
        text::occurs_at(t, p, i),
        i < pre.len(),
    ensures
        text::holds(pre, p),
{
    let piece = t.subrange(i, i + p.len());
    if i + p.len() <= pre.len() {
        assert forall|k: int| 0 <= k < pre.len() implies pre[k] == t[k] by {
            assert(t.take(pre.len() as int)[k] == t[k]);
        }
        assert(pre.subrange(i, i + p.len()) =~= piece);
        text::lemma_occurs_found(pre, p, i);
    } else {
        assert(piece[pre.len() - i] == t[pre.len() as int]);
    }
}

/// Instructions are unwrapped wherever their wrapper stands in a message: what is
/// left is the trimmed text between its tags, unless that is just environment
/// context.
pub proof fn law_instructions_anywhere(
    s: Seq<char>,
    pre: Seq<char>,
    x: Seq<char>,
    post: Seq<char>,
)
    requires
        text::trimmed(s) == pre + "<user_instructions>"@ + x + "</user_instructions>"@ + post,
        !is_environment(text::trimmed(s)),
        !text::holds(pre, "<user_instructions>"@),
        !text::holds(pre, "</user_instructions>"@),
        !text::holds(x, "</user_instructions>"@),
        !text::holds(text::trimmed(x), "<user_interactions>"@) || !text::holds(
            text::trimmed(x),
            "</user_interactions>"@,
        ),
    ensures
        strippable(s),
        is_environment(text::trimmed(x)) ==> stripped(s) is None,
        !is_environment(text::trimmed(x)) ==> stripped(s) == Some(text::trimmed(x)),
{
    reveal_strlit("<user_instructions>");
    reveal_strlit("</user_instructions>");
    lemma_wrapped(pre, "<user_instructions>"@, x, "</user_instructions>"@, post);
}

/// Interactions are unwrapped wherever their wrapper stands in a message without
/// instructions.
pub proof fn law_interactions_anywhere(
    s: Seq<char>,
    pre: Seq<char>,
    x: Seq<char>,
    post: Seq<char>,
)
    requires
        text::trimmed(s) == pre + "<user_interactions>"@ + x + "</user_interactions>"@ + post,
        !is_environment(text::trimmed(s)),
        !text::holds(pre, "<user_interactions>"@),
        !text::holds(pre, "</user_interactions>"@),
        !text::holds(x, "</user_interactions>"@),
        !text::holds(text::trimmed(s), "<user_instructions>"@) || !text::holds(
            text::trimmed(s),
            "</user_instructions>"@,
        ),
    ensures
        strippable(s),
        is_environment(text::trimmed(x)) ==> stripped(s) is None,
        !is_environment(text::trimmed(x)) ==> stripped(s) == Some(text::trimmed(x)),
{
    reveal_strlit("<user_interactions>");
    reveal_strlit("</user_interactions>");
    lemma_wrapped(pre, "<user_interactions>"@, x, "</user_interactions>"@, post);
}

/// Interactions inside of instructions are unwrapped too: what is left is the
/// trimmed text between the inner tags.
pub proof fn law_both_unwrapped(
    s: Seq<char>,
    pre: Seq<char>,
    x: Seq<char>,
    post: Seq<char>,
    inner_pre: Seq<char>,
    y: Seq<char>,
    inner_post: Seq<char>,
)
    requires
        text::trimmed(s) == pre + "<user_instructions>"@ + x + "</user_instructions>"@ + post,
        text::trimmed(x) == inner_pre + "<user_interactions>"@ + y + "</user_interactions>"@
            + inner_post,
        !is_environment(text::trimmed(s)),
        !text::holds(pre, "<user_instructions>"@),
        !text::holds(pre, "</user_instructions>"@),
        !text::holds(x, "</user_instructions>"@),
        !text::holds(inner_pre, "<user_interactions>"@),
        !text::holds(inner_pre, "</user_interactions>"@),
        !text::holds(y, "</user_interactions>"@),
    ensures
        strippable(s),
        is_environment(text::trimmed(y)) ==> stripped(s) is None,
        !is_environment(text::trimmed(y)) ==> stripped(s) == Some(text::trimmed(y)),
{
    reveal_strlit("<user_instructions>");
    reveal_strlit("</user_instructions>");
    reveal_strlit("<user_interactions>");
    reveal_strlit("</user_interactions>");
    lemma_wrapped(pre, "<user_instructions>"@, x, "</user_instructions>"@, post);
    lemma_wrapped(inner_pre, "<user_interactions>"@, y, "</user_interactions>"@, inner_post);
}

/// Just environment context is a text between the two tags of it, and nothing else
/// is.
pub proof fn law_environment(t: Seq<char>)
    ensures
        is_environment(t) <==> exists|x: Seq<char>|
            t == #[trigger] ("<environment_context>"@ + x + "</environment_context>"@),
{
    let open = "<environment_context>"@;
    let close = "</environment_context>"@;
    if is_environment(t) {
        lemma_block(t, open, close);
    }
    if exists|x: Seq<char>| t == #[trigger] (open + x + close) {
        assert(t.take(open.len() as int) =~= open);
        assert(t.skip(t.len() - close.len()) =~= close);
    }
}

/// Every message that speaks of environment context has an answer. It is skipped
/// where the first closing tag of instructions stands in front of the first
/// opening one, and likewise for interactions, inside the instructions where there
/// are any.
pub proof fn law_environment_answered(s: Seq<char>)
    requires
        text::holds(text::trimmed(s), "<environment_context>"@),
    ensures
        strippable(s),
        ({
            let t = text::trimmed(s);
            let open = text::found(t, "<user_instructions>"@);
            let close = text::found(t, "</user_instructions>"@);
            let unwrapped = open is Some && close is Some;
            let inner = if unwrapped {
                text::trimmed(t.subrange(open->0 + "<user_instructions>"@.len(), close->0))
            } else {
                t
            };
            let inner_open = text::found(inner, "<user_interactions>"@);
            let inner_close = text::found(inner, "</user_interactions>"@);
            &&& open is Some && close is Some && close->0 < open->0 ==> stripped(s) is None
            &&& inner_open is Some && inner_close is Some && inner_close->0 < inner_open->0
                ==> stripped(s) is None
        }),
{
}

} // verus!
