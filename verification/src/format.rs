//! A naive JSON pretty-printer: a single pass over the characters that adds
//! newlines and two-space indentation around brackets and commas. It never
//! validates its input; any text goes in and a deterministic rendering comes
//! out.

use vstd::prelude::*;

verus! {

/// The indentation emitted for a nesting depth: two spaces per level.
pub open spec fn indent_seq(depth: nat) -> Seq<char>
    decreases depth,
{
    if depth == 0 {
        Seq::empty()
    } else {
        indent_seq((depth - 1) as nat) + seq![' ', ' ']
    }
}

/// What the formatter emits for the input `s`, starting at nesting depth
/// `depth` with the quote-context flag `in_quotes`. Character classes, in
/// order: an opening bracket outside quotes starts an indented line one level
/// deeper; a closing bracket outside quotes moves back one level (never below
/// zero) onto a fresh line; a double quote toggles the quote flag (naively,
/// with no escape awareness); a comma outside quotes starts a fresh line at
/// the current depth; a colon gains a trailing space whatever the quote flag
/// says; everything else passes through unchanged.
pub open spec fn format_from(s: Seq<char>, depth: nat, in_quotes: bool) -> Seq<char>
    decreases s.len(),
{
    if s.len() == 0 {
        Seq::empty()
    } else {
        let c = s[0];
        let rest = s.drop_first();
        if !in_quotes && (c == '{' || c == '[') {
            seq![c, '\n'] + indent_seq((depth + 1) as nat) + format_from(
                rest,
                (depth + 1) as nat,
                in_quotes,
            )
        } else if !in_quotes && (c == '}' || c == ']') {
            let shallower = if depth > 0 {
                (depth - 1) as nat
            } else {
                0
            };
            seq!['\n'] + indent_seq(shallower) + seq![c] + format_from(rest, shallower, in_quotes)
        } else if c == '"' {
            seq![c] + format_from(rest, depth, !in_quotes)
        } else if !in_quotes && c == ',' {
            seq![c, '\n'] + indent_seq(depth) + format_from(rest, depth, in_quotes)
        } else if c == ':' {
            seq![c, ' '] + format_from(rest, depth, in_quotes)
        } else {
            seq![c] + format_from(rest, depth, in_quotes)
        }
    }
}

/// The whole rendering: formatting starts at depth zero, outside any quotes.
pub open spec fn pretty_spec(s: Seq<char>) -> Seq<char> {
    format_from(s, 0, false)
}

/// A character the formatter itself inserts: indentation spaces and the
/// newlines around brackets and commas.
pub open spec fn is_layout_char(c: char) -> bool {
    c == ' ' || c == '\n'
}

/// The text with every space and newline removed: what is left is the
/// meaningful content, whose nesting the brackets alone describe.
pub open spec fn strip_layout(s: Seq<char>) -> Seq<char>
    decreases s.len(),
{
    if s.len() == 0 {
        Seq::empty()
    } else if is_layout_char(s[0]) {
        strip_layout(s.drop_first())
    } else {
        seq![s[0]] + strip_layout(s.drop_first())
    }
}

proof fn lemma_strip_layout_add(a: Seq<char>, b: Seq<char>)
    ensures
        strip_layout(a + b) == strip_layout(a) + strip_layout(b),
    decreases a.len(),
{
    if a.len() == 0 {
        assert(a + b =~= b);
        assert(strip_layout(a) + strip_layout(b) =~= strip_layout(b));
    } else {
        lemma_strip_layout_add(a.drop_first(), b);
        assert((a + b).drop_first() =~= a.drop_first() + b);
        if !is_layout_char(a[0]) {
            assert(seq![a[0]] + (strip_layout(a.drop_first()) + strip_layout(b)) =~= (seq![a[0]]
                + strip_layout(a.drop_first())) + strip_layout(b));
        }
    }
}

proof fn lemma_strip_layout_indent(depth: nat)
    ensures
        strip_layout(indent_seq(depth)) == Seq::<char>::empty(),
    decreases depth,
{
    if depth > 0 {
        lemma_strip_layout_indent((depth - 1) as nat);
        lemma_strip_layout_add(indent_seq((depth - 1) as nat), seq![' ', ' ']);
        lemma_strip_layout_two(' ', ' ');
        lemma_strip_layout_one(' ');
        assert(strip_layout(indent_seq(depth)) =~= Seq::<char>::empty());
    }
}

proof fn lemma_strip_layout_one(c: char)
    ensures
        strip_layout(seq![c]) == if is_layout_char(c) {
            Seq::<char>::empty()
        } else {
            seq![c]
        },
{
    assert(seq![c].len() == 1);
    assert(seq![c][0] == c);
    assert(seq![c].drop_first() =~= Seq::<char>::empty());
    assert(strip_layout(Seq::<char>::empty()) =~= Seq::<char>::empty());
    if !is_layout_char(c) {
        assert(strip_layout(seq![c]) =~= seq![c] + strip_layout(seq![c].drop_first()));
        assert(seq![c] + Seq::<char>::empty() =~= seq![c]);
    }
}

proof fn lemma_strip_layout_two(c1: char, c2: char)
    ensures
        strip_layout(seq![c1, c2]) == strip_layout(seq![c1]) + strip_layout(seq![c2]),
{
    lemma_strip_layout_add(seq![c1], seq![c2]);
    assert(seq![c1] + seq![c2] =~= seq![c1, c2]);
}

proof fn lemma_format_from_preserves_content(s: Seq<char>, depth: nat, in_quotes: bool)
    ensures
        strip_layout(format_from(s, depth, in_quotes)) == strip_layout(s),
    decreases s.len(),
{
    if s.len() > 0 {
        let c = s[0];
        let rest = s.drop_first();
        lemma_strip_layout_one(c);
        if !in_quotes && (c == '{' || c == '[') {
            let deeper = (depth + 1) as nat;
            let tail = format_from(rest, deeper, in_quotes);
            lemma_format_from_preserves_content(rest, deeper, in_quotes);
            lemma_strip_layout_add(seq![c, '\n'] + indent_seq(deeper), tail);
            lemma_strip_layout_add(seq![c, '\n'], indent_seq(deeper));
            lemma_strip_layout_two(c, '\n');
            lemma_strip_layout_one('\n');
            lemma_strip_layout_indent(deeper);
            assert(strip_layout(format_from(s, depth, in_quotes)) =~= strip_layout(s));
        } else if !in_quotes && (c == '}' || c == ']') {
            let shallower = if depth > 0 {
                (depth - 1) as nat
            } else {
                0
            };
            let tail = format_from(rest, shallower, in_quotes);
            lemma_format_from_preserves_content(rest, shallower, in_quotes);
            lemma_strip_layout_add(seq!['\n'] + indent_seq(shallower) + seq![c], tail);
            lemma_strip_layout_add(seq!['\n'] + indent_seq(shallower), seq![c]);
            lemma_strip_layout_add(seq!['\n'], indent_seq(shallower));
            lemma_strip_layout_one('\n');
            lemma_strip_layout_indent(shallower);
            assert(strip_layout(format_from(s, depth, in_quotes)) =~= strip_layout(s));
        } else if c == '"' {
            let tail = format_from(rest, depth, !in_quotes);
            lemma_format_from_preserves_content(rest, depth, !in_quotes);
            lemma_strip_layout_add(seq![c], tail);
            assert(strip_layout(format_from(s, depth, in_quotes)) =~= strip_layout(s));
        } else if !in_quotes && c == ',' {
            let tail = format_from(rest, depth, in_quotes);
            lemma_format_from_preserves_content(rest, depth, in_quotes);
            lemma_strip_layout_add(seq![c, '\n'] + indent_seq(depth), tail);
            lemma_strip_layout_add(seq![c, '\n'], indent_seq(depth));
            lemma_strip_layout_two(c, '\n');
            lemma_strip_layout_one('\n');
            lemma_strip_layout_indent(depth);
            assert(strip_layout(format_from(s, depth, in_quotes)) =~= strip_layout(s));
        } else if c == ':' {
            let tail = format_from(rest, depth, in_quotes);
            lemma_format_from_preserves_content(rest, depth, in_quotes);
            lemma_strip_layout_add(seq![c, ' '], tail);
            lemma_strip_layout_two(c, ' ');
            lemma_strip_layout_one(' ');
            assert(strip_layout(format_from(s, depth, in_quotes)) =~= strip_layout(s));
        } else {
            let tail = format_from(rest, depth, in_quotes);
            lemma_format_from_preserves_content(rest, depth, in_quotes);
            lemma_strip_layout_add(seq![c], tail);
            assert(strip_layout(format_from(s, depth, in_quotes)) =~= strip_layout(s));
        }
    }
}

/// The formatter only inserts spaces and newlines: stripped of those, its
/// output is exactly its input stripped of them. Nothing meaningful is ever
/// added, dropped, or reordered.
pub proof fn lemma_pretty_preserves_content(s: Seq<char>)
    ensures
        strip_layout(pretty_spec(s)) == strip_layout(s),
{
    lemma_format_from_preserves_content(s, 0, false);
}

/// Re-running the formatter on its own output changes nothing meaningful:
/// beyond its own spaces and newlines, a second pass renders the very same
/// content — in particular the same brackets in the same order, hence the
/// same nesting structure.
pub proof fn lemma_pretty_stable(s: Seq<char>)
    ensures
        strip_layout(pretty_spec(pretty_spec(s))) == strip_layout(pretty_spec(s)),
{
    lemma_pretty_preserves_content(pretty_spec(s));
}

/// Relies on `String::push`: appends exactly the given character at the end.
#[verifier::external_body]
fn push_char(out: &mut String, c: char)
    ensures
        final(out)@ == old(out)@ + seq![c],
{
    out.push(c);
}

/// Appends `depth` levels of indentation, two spaces each.
fn push_indent(out: &mut String, depth: usize)
    ensures
        final(out)@ == old(out)@ + indent_seq(depth as nat),
{
    let mut level: usize = 0;
    while level < depth
        invariant
            level <= depth,
            out@ == old(out)@ + indent_seq(level as nat),
        decreases depth - level,
    {
        push_char(out, ' ');
        push_char(out, ' ');
        level = level + 1;
        proof {
            assert(out@ =~= old(out)@ + indent_seq(level as nat));
        }
    }
}

/// Renders any text as indented JSON, one character at a time, without
/// validating it: the result is exactly what `pretty_spec` describes.
pub fn pretty_format_json(json: &str) -> (result: String)
    ensures
        result@ == pretty_spec(json@),
{
    let n = json.unicode_len();
    let mut result = String::new();
    let mut depth: usize = 0;
    let mut in_quotes = false;
    let mut i: usize = 0;
    proof {
        assert(json@.skip(0) =~= json@);
        assert(result@ + format_from(json@, 0, false) =~= format_from(json@, 0, false));
    }
    while i < n
        invariant
            n == json@.len(),
            i <= n,
            depth <= i,
            pretty_spec(json@) == result@ + format_from(
                json@.skip(i as int),
                depth as nat,
                in_quotes,
            ),
        decreases n - i,
    {
        let c = json.get_char(i);
        proof {
            assert(json@.skip(i as int)[0] == json@[i as int]);
            assert(json@.skip(i as int).drop_first() =~= json@.skip(i as int + 1));
        }
        let ghost before = result@;
        let ghost tail = json@.skip(i as int);
        if c == '"' {
            push_char(&mut result, c);
            in_quotes = !in_quotes;
            proof {
                assert(before + format_from(tail, depth as nat, !in_quotes) =~= result@
                    + format_from(json@.skip(i as int + 1), depth as nat, in_quotes));
            }
        } else if !in_quotes && (c == '{' || c == '[') {
            push_char(&mut result, c);
            push_char(&mut result, '\n');
            depth = depth + 1;
            push_indent(&mut result, depth);
            proof {
                assert(before + (seq![c, '\n'] + indent_seq(depth as nat) + format_from(
                    json@.skip(i as int + 1),
                    depth as nat,
                    in_quotes,
                )) =~= result@ + format_from(json@.skip(i as int + 1), depth as nat, in_quotes));
            }
        } else if !in_quotes && (c == '}' || c == ']') {
            push_char(&mut result, '\n');
            if depth > 0 {
                depth = depth - 1;
            }
            push_indent(&mut result, depth);
            push_char(&mut result, c);
            proof {
                assert(before + (seq!['\n'] + indent_seq(depth as nat) + seq![c] + format_from(
                    json@.skip(i as int + 1),
                    depth as nat,
                    in_quotes,
                )) =~= result@ + format_from(json@.skip(i as int + 1), depth as nat, in_quotes));
            }
        } else if !in_quotes && c == ',' {
            push_char(&mut result, c);
            push_char(&mut result, '\n');
            push_indent(&mut result, depth);
            proof {
                assert(before + (seq![c, '\n'] + indent_seq(depth as nat) + format_from(
                    json@.skip(i as int + 1),
                    depth as nat,
                    in_quotes,
                )) =~= result@ + format_from(json@.skip(i as int + 1), depth as nat, in_quotes));
            }
        } else if c == ':' {
            push_char(&mut result, c);
            push_char(&mut result, ' ');
            proof {
                assert(before + (seq![c, ' '] + format_from(
                    json@.skip(i as int + 1),
                    depth as nat,
                    in_quotes,
                )) =~= result@ + format_from(json@.skip(i as int + 1), depth as nat, in_quotes));
            }
        } else {
            push_char(&mut result, c);
            proof {
                assert(before + (seq![c] + format_from(
                    json@.skip(i as int + 1),
                    depth as nat,
                    in_quotes,
                )) =~= result@ + format_from(json@.skip(i as int + 1), depth as nat, in_quotes));
            }
        }
        i = i + 1;
    }
    proof {
        assert(json@.skip(n as int) =~= Seq::<char>::empty());
    }
    result
}

} // verus!
