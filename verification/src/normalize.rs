//! Normalization of the JSON-like report blobs the benchmark binaries
//! emit: identifier tokens are wrapped in quotes, doubled quotes are
//! collapsed, and a trailing comma before a closing bracket is dropped.
//! The result is strict JSON for the blobs the binaries produce.

use vstd::prelude::*;

verus! {

/// A word character: ASCII letter, digit or underscore.
pub open spec fn spec_is_word_char(c: char) -> bool {
    ('a' <= c <= 'z') || ('A' <= c <= 'Z') || ('0' <= c <= '9') || c == '_'
}

fn is_word_char(c: char) -> (r: bool)
    ensures
        r == spec_is_word_char(c),
{
    ('a' <= c && c <= 'z') || ('A' <= c && c <= 'Z') || ('0' <= c && c <= '9') || c == '_'
}

/// An ASCII letter, the only character a quotable token may start with.
pub open spec fn spec_is_letter(c: char) -> bool {
    ('a' <= c <= 'z') || ('A' <= c <= 'Z')
}

fn is_letter(c: char) -> (r: bool)
    ensures
        r == spec_is_letter(c),
{
    ('a' <= c && c <= 'z') || ('A' <= c && c <= 'Z')
}

/// A closing bracket, before which a trailing comma is dropped.
pub open spec fn spec_is_bracket(c: char) -> bool {
    c == ']' || c == '}'
}

fn is_bracket(c: char) -> (r: bool)
    ensures
        r == spec_is_bracket(c),
{
    c == ']' || c == '}'
}

fn is_space(c: char) -> (r: bool)
    ensures
        r == crate::text::spec_is_space(c),
{
    c == ' ' || c == '\t' || c == '\n' || c == '\r'
}

/// How many word characters the sequence starts with.
pub open spec fn spec_word_prefix_len(s: Seq<char>) -> nat
    decreases s.len(),
{
    if s.len() > 0 && spec_is_word_char(s[0]) {
        1 + spec_word_prefix_len(s.skip(1))
    } else {
        0
    }
}

/// How many ASCII whitespace characters the sequence starts with.
pub open spec fn spec_space_prefix_len(s: Seq<char>) -> nat
    decreases s.len(),
{
    if s.len() > 0 && crate::text::spec_is_space(s[0]) {
        1 + spec_space_prefix_len(s.skip(1))
    } else {
        0
    }
}

proof fn lemma_word_prefix_len_bound(s: Seq<char>)
    ensures
        spec_word_prefix_len(s) <= s.len(),
        forall|m: int| 0 <= m < spec_word_prefix_len(s) ==> spec_is_word_char(#[trigger] s[m]),
        spec_word_prefix_len(s) < s.len() ==> !spec_is_word_char(
            s[spec_word_prefix_len(s) as int],
        ),
    decreases s.len(),
{
    if s.len() > 0 && spec_is_word_char(s[0]) {
        lemma_word_prefix_len_bound(s.skip(1));
        assert forall|m: int| 0 <= m < spec_word_prefix_len(s) implies spec_is_word_char(
            #[trigger] s[m],
        ) by {
            if m > 0 {
                assert(spec_is_word_char(s.skip(1)[m - 1]));
                assert(s.skip(1)[m - 1] == s[m]);
            }
        }
        if spec_word_prefix_len(s) < s.len() {
            assert(s.skip(1)[spec_word_prefix_len(s.skip(1)) as int] == s[spec_word_prefix_len(
                s,
            ) as int]);
        }
    }
}

proof fn lemma_space_prefix_len_bound(s: Seq<char>)
    ensures
        spec_space_prefix_len(s) <= s.len(),
        forall|m: int|
            0 <= m < spec_space_prefix_len(s) ==> crate::text::spec_is_space(#[trigger] s[m]),
        spec_space_prefix_len(s) < s.len() ==> !crate::text::spec_is_space(
            s[spec_space_prefix_len(s) as int],
        ),
    decreases s.len(),
{
    if s.len() > 0 && crate::text::spec_is_space(s[0]) {
        lemma_space_prefix_len_bound(s.skip(1));
        assert forall|m: int| 0 <= m < spec_space_prefix_len(s) implies crate::text::spec_is_space(
            #[trigger] s[m],
        ) by {
            if m > 0 {
                assert(crate::text::spec_is_space(s.skip(1)[m - 1]));
                assert(s.skip(1)[m - 1] == s[m]);
            }
        }
        if spec_space_prefix_len(s) < s.len() {
            assert(s.skip(1)[spec_space_prefix_len(s.skip(1)) as int] == s[spec_space_prefix_len(
                s,
            ) as int]);
        }
    }
}

/// The exact prefix length is pinned by its characters: a run of word
/// characters up to a non-word character or the end.
proof fn lemma_word_prefix_len_is(s: Seq<char>, k: int)
    requires
        0 <= k <= s.len(),
        forall|m: int| 0 <= m < k ==> spec_is_word_char(#[trigger] s[m]),
        k < s.len() ==> !spec_is_word_char(s[k]),
    ensures
        spec_word_prefix_len(s) == k,
    decreases k,
{
    if k == 0 {
    } else {
        lemma_word_prefix_len_is(s.skip(1), k - 1);
    }
}

proof fn lemma_space_prefix_len_is(s: Seq<char>, k: int)
    requires
        0 <= k <= s.len(),
        forall|m: int| 0 <= m < k ==> crate::text::spec_is_space(#[trigger] s[m]),
        k < s.len() ==> !crate::text::spec_is_space(s[k]),
    ensures
        spec_space_prefix_len(s) == k,
    decreases k,
{
    if k == 0 {
    } else {
        lemma_space_prefix_len_is(s.skip(1), k - 1);
    }
}

/// The first pass: every maximal word-character run that starts with a
/// letter is wrapped in double quotes; everything else is copied.
pub open spec fn spec_quote_pass(s: Seq<char>) -> Seq<char>
    decreases s.len(),
    via spec_quote_pass_decreases
{
    if s.len() == 0 {
        Seq::empty()
    } else if !spec_is_word_char(s[0]) {
        seq![s[0]] + spec_quote_pass(s.skip(1))
    } else {
        let run = spec_word_prefix_len(s);
        let head = s.take(run as int);
        let tail = spec_quote_pass(s.skip(run as int));
        if spec_is_letter(s[0]) {
            seq!['"'] + head + seq!['"'] + tail
        } else {
            head + tail
        }
    }
}

#[via_fn]
proof fn spec_quote_pass_decreases(s: Seq<char>) {
    if s.len() > 0 && spec_is_word_char(s[0]) {
        lemma_word_prefix_len_bound(s);
        assert(spec_word_prefix_len(s) >= 1);
    }
}

/// The second pass: each pair of adjacent double quotes collapses to one,
/// scanning left to right without rescanning what was already emitted.
pub open spec fn spec_collapse_pass(s: Seq<char>) -> Seq<char>
    decreases s.len(),
{
    if s.len() == 0 {
        Seq::empty()
    } else if s.len() >= 2 && s[0] == '"' && s[1] == '"' {
        seq!['"'] + spec_collapse_pass(s.skip(2))
    } else {
        seq![s[0]] + spec_collapse_pass(s.skip(1))
    }
}

/// The third pass: a comma followed by whitespace and a closing bracket
/// loses the comma and the whitespace, scanning left to right.
pub open spec fn spec_comma_pass(s: Seq<char>) -> Seq<char>
    decreases s.len(),
{
    if s.len() == 0 {
        Seq::empty()
    } else if s[0] == ',' && {
        let w = spec_space_prefix_len(s.skip(1)) as int;
        1 + w < s.len() && spec_is_bracket(s[1 + w])
    } {
        let w = spec_space_prefix_len(s.skip(1)) as int;
        seq![s[1 + w]] + spec_comma_pass(s.skip(2 + w))
    } else {
        seq![s[0]] + spec_comma_pass(s.skip(1))
    }
}

/// What normalization yields: the three passes in order.
pub open spec fn spec_normalize(s: Seq<char>) -> Seq<char> {
    spec_comma_pass(spec_collapse_pass(spec_quote_pass(s)))
}

/// A letter-started maximal word run begins at `i`.
pub open spec fn spec_token_start(t: Seq<char>, i: int) -> bool {
    0 <= i < t.len() && spec_is_letter(t[i]) && (i == 0 || !spec_is_word_char(t[i - 1]))
}

/// No two quotes stand side by side.
pub open spec fn spec_no_adjacent_quotes(t: Seq<char>) -> bool {
    forall|i: int| 0 <= i < t.len() - 1 ==> !(#[trigger] t[i] == '"' && t[i + 1] == '"')
}

/// Every token carries a quote immediately before it and immediately
/// after it.
pub open spec fn spec_tokens_quoted(t: Seq<char>) -> bool {
    forall|i: int|
        #[trigger] spec_token_start(t, i) ==> i > 0 && t[i - 1] == '"' && i + spec_word_prefix_len(
            t.skip(i),
        ) < t.len() && t[i + spec_word_prefix_len(t.skip(i)) as int] == '"'
}

/// No quote serves two tokens at once: a quote with a word character on
/// its left does not have a letter on its right.
pub open spec fn spec_no_shared_quote(t: Seq<char>) -> bool {
    forall|i: int|
        0 < i < t.len() - 1 && #[trigger] t[i] == '"' ==> !(spec_is_word_char(t[i - 1])
            && spec_is_letter(t[i + 1]))
}

/// No comma stands, across whitespace, before a closing bracket.
pub open spec fn spec_no_trailing_comma(t: Seq<char>) -> bool {
    forall|i: int|
        0 <= i < t.len() && #[trigger] t[i] == ',' ==> !(i + 1 + spec_space_prefix_len(
            t.skip(i + 1),
        ) < t.len() && spec_is_bracket(t[i + 1 + spec_space_prefix_len(t.skip(i + 1)) as int]))
}

/// A string in normal form: every token quoted singly, no doubled
/// quotes, no quote shared between tokens, and no trailing comma.  The
/// strict JSON that normalization produces for the benchmark blobs has
/// this shape.
pub open spec fn spec_normal(t: Seq<char>) -> bool {
    spec_no_adjacent_quotes(t) && spec_tokens_quoted(t) && spec_no_shared_quote(t)
        && spec_no_trailing_comma(t)
}

/// A quote-free prefix passes through the collapse pass unchanged.
proof fn lemma_collapse_pass_through(x: Seq<char>, y: Seq<char>)
    requires
        forall|i: int| 0 <= i < x.len() ==> #[trigger] x[i] != '"',
    ensures
        spec_collapse_pass(x + y) == x + spec_collapse_pass(y),
    decreases x.len(),
{
    if x.len() == 0 {
        assert(x + y =~= y);
        assert(x + spec_collapse_pass(y) =~= spec_collapse_pass(y));
    } else {
        assert((x + y)[0] == x[0]);
        assert((x + y).skip(1) =~= x.skip(1) + y);
        assert(forall|i: int| 0 <= i < x.skip(1).len() ==> #[trigger] x.skip(1)[i] != '"');
        lemma_collapse_pass_through(x.skip(1), y);
        assert(spec_collapse_pass(x + y) =~= x + spec_collapse_pass(y));
    }
}

/// The comma pass leaves a string without trailing commas unchanged.
proof fn lemma_comma_pass_identity(t: Seq<char>)
    requires
        spec_no_trailing_comma(t),
    ensures
        spec_comma_pass(t) == t,
    decreases t.len(),
{
    if t.len() == 0 {
    } else {
        if t[0] == ',' {
            let i: int = 0;
            assert(t[i] == ',');
            assert(!(i + 1 + spec_space_prefix_len(t.skip(i + 1)) < t.len() && spec_is_bracket(
                t[i + 1 + spec_space_prefix_len(t.skip(i + 1)) as int],
            )));
        }
        assert forall|i: int|
            0 <= i < t.skip(1).len() && #[trigger] t.skip(1)[i] == ',' implies !(i + 1
            + spec_space_prefix_len(t.skip(1).skip(i + 1)) < t.skip(1).len() && spec_is_bracket(
            t.skip(1)[i + 1 + spec_space_prefix_len(t.skip(1).skip(i + 1)) as int],
        )) by {
            assert(t.skip(1).skip(i + 1) =~= t.skip(i + 2));
            assert(t[i + 1] == ',');
            assert(!(i + 1 + 1 + spec_space_prefix_len(t.skip(i + 2)) < t.len()
                && spec_is_bracket(t[i + 1 + 1 + spec_space_prefix_len(t.skip(i + 2)) as int])));
            if i + 1 + spec_space_prefix_len(t.skip(i + 2)) < t.skip(1).len() {
                assert(t.skip(1)[i + 1 + spec_space_prefix_len(t.skip(i + 2)) as int] == t[i + 2
                    + spec_space_prefix_len(t.skip(i + 2)) as int]);
            }
        }
        lemma_comma_pass_identity(t.skip(1));
        assert(spec_comma_pass(t) =~= t);
    }
}

/// The shape-carrying parts of normal form pass to a suffix cut at a
/// position that does not begin a letter run.
proof fn lemma_normal_skip(t: Seq<char>, k: int)
    requires
        spec_no_adjacent_quotes(t),
        spec_tokens_quoted(t),
        spec_no_shared_quote(t),
        0 <= k <= t.len(),
        k < t.len() ==> !spec_is_letter(t[k]),
    ensures
        spec_no_adjacent_quotes(t.skip(k)),
        spec_tokens_quoted(t.skip(k)),
        spec_no_shared_quote(t.skip(k)),
{
    let s = t.skip(k);
    assert forall|i: int| 0 <= i < s.len() - 1 implies !(#[trigger] s[i] == '"' && s[i + 1]
        == '"') by {
        assert(s[i] == t[k + i] && s[i + 1] == t[k + i + 1]);
    }
    assert forall|i: int| #[trigger] spec_token_start(s, i) implies i > 0 && s[i - 1] == '"' && i
        + spec_word_prefix_len(s.skip(i)) < s.len() && s[i + spec_word_prefix_len(s.skip(i)) as int]
        == '"' by {
        assert(s[i] == t[k + i]);
        if i == 0 {
            assert(spec_is_letter(t[k]));
            assert(false);
        } else {
            assert(s[i - 1] == t[k + i - 1]);
            assert(spec_token_start(t, k + i));
            assert(s.skip(i) =~= t.skip(k + i));
            assert(s[i + spec_word_prefix_len(s.skip(i)) as int] == t[k + i + spec_word_prefix_len(
                t.skip(k + i),
            ) as int]);
        }
    }
    assert forall|i: int|
        0 < i < s.len() - 1 && #[trigger] s[i] == '"' implies !(spec_is_word_char(s[i - 1])
        && spec_is_letter(s[i + 1])) by {
        assert(s[i] == t[k + i] && s[i - 1] == t[k + i - 1] && s[i + 1] == t[k + i + 1]);
    }
}

/// What the quote pass starts its output with: a quote when a token
/// begins the input, the first character itself otherwise.
proof fn lemma_quote_pass_first(x: Seq<char>)
    requires
        x.len() > 0,
    ensures
        spec_quote_pass(x).len() > 0,
        spec_is_letter(x[0]) ==> spec_quote_pass(x)[0] == '"',
        !spec_is_letter(x[0]) ==> spec_quote_pass(x)[0] == x[0],
{
    if !spec_is_word_char(x[0]) {
    } else {
        lemma_word_prefix_len_bound(x);
        if spec_is_letter(x[0]) {
        } else {
            assert(spec_word_prefix_len(x) >= 1);
            assert(x.take(spec_word_prefix_len(x) as int)[0] == x[0]);
            assert(spec_quote_pass(x)[0] == x[0]);
        }
    }
}

/// On a normal string the quote pass and the collapse pass cancel: the
/// quotes the first adds, the second takes away.
#[verifier::rlimit(100)]
proof fn lemma_quote_collapse_identity(t: Seq<char>)
    requires
        spec_no_adjacent_quotes(t),
        spec_tokens_quoted(t),
        spec_no_shared_quote(t),
    ensures
        spec_collapse_pass(spec_quote_pass(t)) == t,
    decreases t.len(),
{
    if t.len() == 0 {
        assert(spec_collapse_pass(spec_quote_pass(t)) =~= t);
    } else if spec_is_word_char(t[0]) {
        // The run cannot start with a letter: a token at the very start
        // would lack its left quote.
        if spec_is_letter(t[0]) {
            assert(spec_token_start(t, 0));
            assert(false);
        }
        let run = spec_word_prefix_len(t) as int;
        lemma_word_prefix_len_bound(t);
        let head = t.take(run);
        let rest = t.skip(run);
        assert(spec_quote_pass(t) == head + spec_quote_pass(rest));
        assert forall|i: int| 0 <= i < head.len() implies #[trigger] head[i] != '"' by {
            assert(head[i] == t[i]);
            assert(spec_is_word_char(t[i]));
        }
        lemma_collapse_pass_through(head, spec_quote_pass(rest));
        assert(run == t.len() || !spec_is_word_char(t[run]));
        lemma_normal_skip(t, run);
        lemma_quote_collapse_identity(rest);
        assert(head + rest =~= t);
    } else if t[0] == '"' && t.len() > 1 && spec_is_letter(t[1]) {
        // A quoted token: the pass doubles both its quotes, the collapse
        // halves them again.
        assert(spec_token_start(t, 1));
        let run = spec_word_prefix_len(t.skip(1)) as int;
        let e = 1 + run;
        assert(e < t.len() && t[e] == '"');
        lemma_word_prefix_len_bound(t.skip(1));
        let tok = t.skip(1).take(run);
        // Unfold the pass over the group.
        assert(spec_quote_pass(t) == seq!['"'] + spec_quote_pass(t.skip(1)));
        assert(spec_quote_pass(t.skip(1)) == seq!['"'] + tok + seq!['"'] + spec_quote_pass(
            t.skip(1).skip(run),
        ));
        assert(t.skip(1).skip(run) =~= t.skip(e));
        assert(t.skip(e)[0] == '"');
        assert(!spec_is_word_char(t.skip(e)[0]));
        assert(spec_quote_pass(t.skip(e)) == seq![t.skip(e)[0]] + spec_quote_pass(
            t.skip(e).skip(1),
        ));
        assert(t.skip(e).skip(1) =~= t.skip(e + 1));
        let x = spec_quote_pass(t.skip(e + 1));
        assert(spec_quote_pass(t) =~= seq!['"', '"'] + tok + seq!['"', '"'] + x);
        // Collapse: the leading pair becomes one quote.
        let after_pair = tok + (seq!['"', '"'] + x);
        assert(seq!['"', '"'] + tok + seq!['"', '"'] + x =~= seq!['"', '"'] + after_pair);
        assert((seq!['"', '"'] + after_pair)[0] == '"' && (seq!['"', '"'] + after_pair)[1]
            == '"');
        assert((seq!['"', '"'] + after_pair).skip(2) =~= after_pair);
        assert(spec_collapse_pass(spec_quote_pass(t)) == seq!['"'] + spec_collapse_pass(
            after_pair,
        ));
        // The token passes through, then the second pair collapses.
        assert forall|i: int| 0 <= i < tok.len() implies #[trigger] tok[i] != '"' by {
            assert(tok[i] == t[1 + i]);
            assert(spec_is_word_char(t[1 + i]));
        }
        lemma_collapse_pass_through(tok, seq!['"', '"'] + x);
        assert((seq!['"', '"'] + x)[0] == '"' && (seq!['"', '"'] + x)[1] == '"');
        assert((seq!['"', '"'] + x).skip(2) =~= x);
        assert(spec_collapse_pass(seq!['"', '"'] + x) == seq!['"'] + spec_collapse_pass(x));
        // The tail is normal again: the closing quote is not shared.
        if e + 1 < t.len() {
            assert(t.skip(1)[run - 1] == t[e - 1]);
            assert(spec_is_word_char(t.skip(1)[run - 1]));
            assert(!spec_is_letter(t[e + 1]));
        }
        lemma_normal_skip(t, e + 1);
        lemma_quote_collapse_identity(t.skip(e + 1));
        assert(spec_collapse_pass(spec_quote_pass(t)) =~= seq!['"'] + tok + seq!['"'] + t.skip(
            e + 1,
        ));
        assert(seq!['"'] + tok + seq!['"'] + t.skip(e + 1) =~= t);
    } else {
        // A single copied character; the collapse pass finds no pair at
        // the boundary.
        assert(spec_quote_pass(t) == seq![t[0]] + spec_quote_pass(t.skip(1)));
        let x = spec_quote_pass(t.skip(1));
        if t.len() > 1 {
            lemma_quote_pass_first(t.skip(1));
            assert(t.skip(1)[0] == t[1]);
            if t[0] == '"' {
                assert(t[1] != '"');
                assert(!spec_is_letter(t[1]));
                assert(x[0] == t[1]);
            }
            assert(!((seq![t[0]] + x).len() >= 2 && (seq![t[0]] + x)[0] == '"' && (seq![t[0]]
                + x)[1] == '"'));
        } else {
            assert(x =~= Seq::<char>::empty());
        }
        assert((seq![t[0]] + x).skip(1) =~= x);
        assert(spec_collapse_pass(seq![t[0]] + x) == seq![t[0]] + spec_collapse_pass(x));
        if t.len() > 1 && spec_is_letter(t[1]) {
            // A letter after the first character makes a token there;
            // its left quote must be t[0], and the group case above took
            // every quoted token.  Normal form leaves nothing here.
            assert(spec_token_start(t, 1));
            assert(t[0] == '"');
            assert(false);
        }
        lemma_normal_skip(t, 1);
        lemma_quote_collapse_identity(t.skip(1));
        assert(seq![t[0]] + t.skip(1) =~= t);
    }
}

/// A string without any quote character, the shape of the blobs the
/// benchmark binaries write.
pub open spec fn spec_quote_free(s: Seq<char>) -> bool {
    forall|i: int| 0 <= i < s.len() ==> #[trigger] s[i] != '"'
}

/// The collapse pass leaves a string without adjacent quotes unchanged.
proof fn lemma_collapse_identity(t: Seq<char>)
    requires
        spec_no_adjacent_quotes(t),
    ensures
        spec_collapse_pass(t) == t,
    decreases t.len(),
{
    if t.len() == 0 {
    } else {
        if t.len() >= 2 {
            let i: int = 0;
            assert(!(t[i] == '"' && t[i + 1] == '"'));
        }
        assert forall|i: int| 0 <= i < t.skip(1).len() - 1 implies !(#[trigger] t.skip(1)[i]
            == '"' && t.skip(1)[i + 1] == '"') by {
            assert(t.skip(1)[i] == t[i + 1] && t.skip(1)[i + 1] == t[i + 2]);
            assert(!(t[i + 1] == '"' && t[i + 1 + 1] == '"'));
        }
        lemma_collapse_identity(t.skip(1));
        assert(spec_collapse_pass(t) =~= t);
    }
}

/// The condition against trailing commas passes to every suffix.
proof fn lemma_ntc_skip(t: Seq<char>, k: int)
    requires
        spec_no_trailing_comma(t),
        0 <= k <= t.len(),
    ensures
        spec_no_trailing_comma(t.skip(k)),
{
    let s = t.skip(k);
    assert forall|i: int| 0 <= i < s.len() && #[trigger] s[i] == ',' implies !(i + 1
        + spec_space_prefix_len(s.skip(i + 1)) < s.len() && spec_is_bracket(
        s[i + 1 + spec_space_prefix_len(s.skip(i + 1)) as int],
    )) by {
        assert(s.skip(i + 1) =~= t.skip(k + i + 1));
        assert(t[k + i] == ',');
        assert(!(k + i + 1 + spec_space_prefix_len(t.skip(k + i + 1)) < t.len()
            && spec_is_bracket(t[k + i + 1 + spec_space_prefix_len(t.skip(k + i + 1)) as int])));
        if i + 1 + spec_space_prefix_len(t.skip(k + i + 1)) < s.len() {
            assert(s[i + 1 + spec_space_prefix_len(t.skip(k + i + 1)) as int] == t[k + i + 1
                + spec_space_prefix_len(t.skip(k + i + 1)) as int]);
        }
    }
}

/// On quote-free input the quote pass emits no adjacent quotes, quotes
/// every token singly, and shares no quote between tokens.
#[verifier::rlimit(100)]
proof fn lemma_quote_pass_normal_parts(s: Seq<char>)
    requires
        spec_quote_free(s),
    ensures
        spec_no_adjacent_quotes(spec_quote_pass(s)),
        spec_tokens_quoted(spec_quote_pass(s)),
        spec_no_shared_quote(spec_quote_pass(s)),
    decreases s.len(),
{
    let x = spec_quote_pass(s);
    if s.len() == 0 {
        assert(x =~= s);
    } else if spec_is_word_char(s[0]) {
        let run = spec_word_prefix_len(s) as int;
        lemma_word_prefix_len_bound(s);
        let rest = s.skip(run);
        let y = spec_quote_pass(rest);
        assert(forall|m: int| 0 <= m < rest.len() ==> rest[m] == s[m + run]);
        lemma_quote_pass_normal_parts(rest);
        if rest.len() > 0 {
            lemma_quote_pass_first(rest);
            assert(!spec_is_word_char(rest[0]));
            assert(y[0] == rest[0]);
        }
        if spec_is_letter(s[0]) {
            let tok = s.take(run);
            assert(x == seq!['"'] + tok + seq!['"'] + y);
            let xlen = x.len() as int;
            assert(xlen == run + 2 + y.len());
            assert forall|p: int| 0 <= p < xlen implies (#[trigger] x[p] == if p == 0 || p == run
                + 1 {
                '"'
            } else if p < run + 1 {
                s[p - 1]
            } else {
                y[p - run - 2]
            }) by {}
            assert forall|p: int| 0 <= p < xlen - 1 implies !(#[trigger] x[p] == '"' && x[p + 1]
                == '"') by {
                if p == 0 {
                    assert(x[1] == s[0]);
                } else if p == run {
                    assert(x[run] == s[run - 1]);
                } else if p == run + 1 {
                    if y.len() > 0 {
                        assert(x[run + 2] == y[0]);
                        assert(y[0] == rest[0]);
                        assert(rest[0] != '"');
                    }
                } else if p > run + 1 {
                    assert(!(y[p - run - 2] == '"' && y[p - run - 2 + 1] == '"'));
                }
            }
            assert forall|p: int| #[trigger] spec_token_start(x, p) implies p > 0 && x[p - 1]
                == '"' && p + spec_word_prefix_len(x.skip(p)) < xlen && x[p
                + spec_word_prefix_len(x.skip(p)) as int] == '"' by {
                if p == 1 {
                    assert(forall|m: int| 0 <= m < run ==> x.skip(1)[m] == s[m]);
                    assert(x.skip(1)[run] == '"');
                    assert(forall|m: int| 0 <= m < run ==> spec_is_word_char(s[m]));
                    lemma_word_prefix_len_is(x.skip(1), run);
                    assert(x[1 + run] == '"');
                } else if 1 < p < run + 1 {
                    assert(spec_is_word_char(x[p - 1]));
                    assert(false);
                } else if p == run + 1 || p == 0 {
                    assert(!spec_is_letter(x[p]));
                    assert(false);
                } else {
                    let q = p - run - 2;
                    assert(x[p] == y[q]);
                    if q == 0 {
                        assert(y[0] == rest[0] && !spec_is_word_char(rest[0]));
                        assert(false);
                    } else {
                        assert(x[p - 1] == y[q - 1]);
                        assert(spec_token_start(y, q));
                        assert(x.skip(p) =~= y.skip(q));
                        assert(x[p + spec_word_prefix_len(y.skip(q)) as int] == y[q
                            + spec_word_prefix_len(y.skip(q)) as int]);
                    }
                }
            }
            assert forall|p: int| 0 < p < xlen - 1 && #[trigger] x[p] == '"' implies !(
            spec_is_word_char(x[p - 1]) && spec_is_letter(x[p + 1])) by {
                if p == run + 1 {
                    assert(x[p + 1] == y[0] && y[0] == rest[0] && !spec_is_word_char(rest[0]));
                } else if p >= run + 2 {
                    let q = p - run - 2;
                    assert(x[p] == y[q]);
                    if q == 0 {
                        assert(y[0] == rest[0] && rest[0] != '"');
                        assert(false);
                    } else if q < y.len() - 1 {
                        assert(x[p - 1] == y[q - 1] && x[p + 1] == y[q + 1]);
                    } else {
                        assert(p + 1 >= xlen);
                        assert(false);
                    }
                } else if 0 < p < run + 1 {
                    assert(x[p] == s[p - 1] && s[p - 1] != '"');
                    assert(false);
                }
            }
        } else {
            let head = s.take(run);
            assert(x == head + y);
            let xlen = x.len() as int;
            assert forall|p: int| 0 <= p < xlen implies (#[trigger] x[p] == if p < run {
                s[p]
            } else {
                y[p - run]
            }) by {}
            assert forall|p: int| 0 <= p < xlen - 1 implies !(#[trigger] x[p] == '"' && x[p + 1]
                == '"') by {
                if p < run {
                    assert(x[p] == s[p] && s[p] != '"');
                } else {
                    assert(!(y[p - run] == '"' && y[p - run + 1] == '"'));
                }
            }
            assert forall|p: int| #[trigger] spec_token_start(x, p) implies p > 0 && x[p - 1]
                == '"' && p + spec_word_prefix_len(x.skip(p)) < xlen && x[p
                + spec_word_prefix_len(x.skip(p)) as int] == '"' by {
                if p == 0 {
                    assert(x[0] == s[0] && !spec_is_letter(s[0]));
                    assert(false);
                } else if p < run {
                    assert(x[p - 1] == s[p - 1] && spec_is_word_char(s[p - 1]));
                    assert(false);
                } else {
                    let q = p - run;
                    assert(x[p] == y[q]);
                    if q == 0 {
                        assert(y[0] == rest[0] && !spec_is_word_char(rest[0]));
                        assert(false);
                    } else {
                        assert(x[p - 1] == y[q - 1]);
                        assert(spec_token_start(y, q));
                        assert(x.skip(p) =~= y.skip(q));
                        assert(x[p + spec_word_prefix_len(y.skip(q)) as int] == y[q
                            + spec_word_prefix_len(y.skip(q)) as int]);
                    }
                }
            }
            assert forall|p: int| 0 < p < xlen - 1 && #[trigger] x[p] == '"' implies !(
            spec_is_word_char(x[p - 1]) && spec_is_letter(x[p + 1])) by {
                if p < run {
                    assert(x[p] == s[p] && s[p] != '"');
                    assert(false);
                } else {
                    let q = p - run;
                    assert(x[p] == y[q]);
                    if q == 0 {
                        assert(y[0] == rest[0] && rest[0] != '"');
                        assert(false);
                    } else if q < y.len() - 1 {
                        assert(x[p - 1] == y[q - 1] && x[p + 1] == y[q + 1]);
                    } else {
                        assert(false);
                    }
                }
            }
        }
    } else {
        let rest = s.skip(1);
        let y = spec_quote_pass(rest);
        assert(forall|m: int| 0 <= m < rest.len() ==> rest[m] == s[m + 1]);
        lemma_quote_pass_normal_parts(rest);
        assert(x == seq![s[0]] + y);
        let xlen = x.len() as int;
        assert forall|p: int| 0 <= p < xlen implies (#[trigger] x[p] == if p == 0 {
            s[0]
        } else {
            y[p - 1]
        }) by {}
        if rest.len() > 0 {
            lemma_quote_pass_first(rest);
        }
        assert forall|p: int| 0 <= p < xlen - 1 implies !(#[trigger] x[p] == '"' && x[p + 1]
            == '"') by {
            if p == 0 {
                assert(s[0] != '"');
            } else {
                assert(!(y[p - 1] == '"' && y[p - 1 + 1] == '"'));
            }
        }
        assert forall|p: int| #[trigger] spec_token_start(x, p) implies p > 0 && x[p - 1] == '"'
            && p + spec_word_prefix_len(x.skip(p)) < xlen && x[p + spec_word_prefix_len(
            x.skip(p),
        ) as int] == '"' by {
            if p == 0 {
                assert(x[0] == s[0] && !spec_is_word_char(s[0]));
                assert(false);
            } else {
                let q = p - 1;
                assert(x[p] == y[q]);
                if q == 0 {
                    if spec_is_letter(rest[0]) {
                        assert(y[0] == '"');
                        assert(false);
                    } else {
                        assert(y[0] == rest[0]);
                        assert(false);
                    }
                } else {
                    assert(x[p - 1] == y[q - 1]);
                    assert(spec_token_start(y, q));
                    assert(x.skip(p) =~= y.skip(q));
                    assert(x[p + spec_word_prefix_len(y.skip(q)) as int] == y[q
                        + spec_word_prefix_len(y.skip(q)) as int]);
                }
            }
        }
        assert forall|p: int| 0 < p < xlen - 1 && #[trigger] x[p] == '"' implies !(
        spec_is_word_char(x[p - 1]) && spec_is_letter(x[p + 1])) by {
            let q = p - 1;
            assert(x[p] == y[q]);
            if q == 0 {
                assert(x[p - 1] == s[0] && !spec_is_word_char(s[0]));
            } else if q < y.len() - 1 {
                assert(x[p - 1] == y[q - 1] && x[p + 1] == y[q + 1]);
            } else {
                assert(false);
            }
        }
    }
}

/// No comma stands, across whitespace, before a second comma that in
/// turn stands, across whitespace, before a closing bracket.  Such
/// stacked commas are the one comma shape whose normalization is not
/// stable: the pass removes only the inner comma.
pub open spec fn spec_no_stacked_commas(t: Seq<char>) -> bool {
    forall|i: int|
        0 <= i < t.len() && #[trigger] t[i] == ',' && i + 1 + spec_space_prefix_len(t.skip(i + 1))
            < t.len() && t[i + 1 + spec_space_prefix_len(t.skip(i + 1)) as int] == ',' ==> {
            let j = i + 2 + spec_space_prefix_len(t.skip(i + 1)) as int;
            !(j + spec_space_prefix_len(t.skip(j)) < t.len() && spec_is_bracket(
                t[j + spec_space_prefix_len(t.skip(j)) as int],
            ))
        }
}

/// The stacked-comma condition passes to every suffix.
proof fn lemma_nsc_skip(t: Seq<char>, k: int)
    requires
        spec_no_stacked_commas(t),
        0 <= k <= t.len(),
    ensures
        spec_no_stacked_commas(t.skip(k)),
{
    let s = t.skip(k);
    assert forall|i: int|
        0 <= i < s.len() && #[trigger] s[i] == ',' && i + 1 + spec_space_prefix_len(s.skip(i + 1))
            < s.len() && s[i + 1 + spec_space_prefix_len(s.skip(i + 1)) as int] == ',' implies {
        let j = i + 2 + spec_space_prefix_len(s.skip(i + 1)) as int;
        !(j + spec_space_prefix_len(s.skip(j)) < s.len() && spec_is_bracket(
            s[j + spec_space_prefix_len(s.skip(j)) as int],
        ))
    } by {
        assert(s.skip(i + 1) =~= t.skip(k + i + 1));
        let w1 = spec_space_prefix_len(t.skip(k + i + 1)) as int;
        assert(t[k + i] == ',');
        assert(s[i + 1 + w1] == t[k + i + 1 + w1]);
        let j = i + 2 + w1;
        assert(s.skip(j) =~= t.skip(k + j));
        let w2 = spec_space_prefix_len(t.skip(k + j)) as int;
        if j + w2 < s.len() {
            assert(s[j + w2] == t[k + j + w2]);
        }
    }
}

/// A comma-free prefix passes through the comma pass unchanged.
proof fn lemma_comma_pass_through(w: Seq<char>, z: Seq<char>)
    requires
        forall|i: int| 0 <= i < w.len() ==> #[trigger] w[i] != ',',
    ensures
        spec_comma_pass(w + z) == w + spec_comma_pass(z),
    decreases w.len(),
{
    if w.len() == 0 {
        assert(w + z =~= z);
        assert(w + spec_comma_pass(z) =~= spec_comma_pass(z));
    } else {
        assert((w + z)[0] == w[0]);
        assert((w + z).skip(1) =~= w.skip(1) + z);
        assert(forall|i: int| 0 <= i < w.skip(1).len() ==> #[trigger] w.skip(1)[i] != ',');
        lemma_comma_pass_through(w.skip(1), z);
        assert(spec_comma_pass(w + z) =~= w + spec_comma_pass(z));
    }
}

/// What the comma pass starts its output with: the input's first
/// character, or the bracket a dropped comma stood before.
proof fn lemma_comma_pass_first(z: Seq<char>)
    requires
        z.len() > 0,
    ensures
        spec_comma_pass(z).len() > 0,
        spec_comma_pass(z)[0] == z[0] || spec_is_bracket(spec_comma_pass(z)[0]),
        z[0] != ',' ==> spec_comma_pass(z)[0] == z[0],
{
}

/// Normal-form parts survive concatenation when the junction starts no
/// token, pairs no quotes, and shares none, and the left part holds no
/// comma.
#[verifier::rlimit(100)]
proof fn lemma_normal_parts_concat(a: Seq<char>, b: Seq<char>)
    requires
        forall|i: int| 0 <= i < a.len() ==> #[trigger] a[i] != ',',
        spec_no_adjacent_quotes(a),
        spec_tokens_quoted(a),
        spec_no_shared_quote(a),
        spec_no_adjacent_quotes(b),
        spec_tokens_quoted(b),
        spec_no_shared_quote(b),
        spec_no_trailing_comma(b),
        !(a.len() > 0 && b.len() > 0 && a.last() == '"' && b[0] == '"'),
        b.len() > 0 ==> !spec_is_letter(b[0]),
        !(a.len() > 0 && b.len() > 1 && b[0] == '"' && spec_is_word_char(a.last())
            && spec_is_letter(b[1])),
    ensures
        spec_no_adjacent_quotes(a + b),
        spec_tokens_quoted(a + b),
        spec_no_shared_quote(a + b),
        spec_no_trailing_comma(a + b),
{
    let x = a + b;
    let al = a.len() as int;
    let xlen = x.len() as int;
    assert forall|p: int| 0 <= p < xlen - 1 implies !(#[trigger] x[p] == '"' && x[p + 1]
        == '"') by {
        if p < al - 1 {
            assert(x[p] == a[p] && x[p + 1] == a[p + 1]);
        } else if p == al - 1 {
            assert(x[p] == a.last() && x[p + 1] == b[0]);
        } else {
            assert(x[p] == b[p - al] && x[p + 1] == b[p - al + 1]);
        }
    }
    assert forall|p: int| #[trigger] spec_token_start(x, p) implies p > 0 && x[p - 1] == '"' && p
        + spec_word_prefix_len(x.skip(p)) < xlen && x[p + spec_word_prefix_len(x.skip(p)) as int]
        == '"' by {
        if p < al {
            if p == 0 {
                assert(spec_token_start(a, 0));
                assert(false);
            } else {
                assert(x[p] == a[p] && x[p - 1] == a[p - 1]);
                assert(spec_token_start(a, p));
                let r = spec_word_prefix_len(a.skip(p)) as int;
                lemma_word_prefix_len_bound(a.skip(p));
                assert(forall|m: int| 0 <= m < r ==> #[trigger] x.skip(p)[m] == a.skip(p)[m]);
                assert(x.skip(p)[r] == a.skip(p)[r]);
                assert(!spec_is_word_char(a.skip(p)[r]));
                lemma_word_prefix_len_is(
                    x.skip(p),
                    r,
                );
                assert(x[p + r] == a[p + r]);
            }
        } else if p == al {
            assert(x[p] == b[0]);
            assert(false);
        } else {
            let q = p - al;
            assert(x[p] == b[q] && x[p - 1] == b[q - 1]);
            assert(spec_token_start(b, q));
            assert(x.skip(p) =~= b.skip(q));
            assert(x[p + spec_word_prefix_len(b.skip(q)) as int] == b[q + spec_word_prefix_len(
                b.skip(q),
            ) as int]);
        }
    }
    assert forall|p: int| 0 < p < xlen - 1 && #[trigger] x[p] == '"' implies !(spec_is_word_char(
        x[p - 1],
    ) && spec_is_letter(x[p + 1])) by {
        if p < al - 1 {
            assert(x[p] == a[p] && x[p - 1] == a[p - 1] && x[p + 1] == a[p + 1]);
        } else if p == al - 1 {
            assert(x[p + 1] == b[0]);
        } else if p == al {
            assert(x[p] == b[0] && x[p - 1] == a.last());
            if 1 < b.len() {
                assert(x[p + 1] == b[1]);
            }
        } else {
            let q = p - al;
            assert(x[p] == b[q] && x[p - 1] == b[q - 1]);
            if q < b.len() - 1 {
                assert(x[p + 1] == b[q + 1]);
            } else {
                assert(false);
            }
        }
    }
    assert forall|p: int| 0 <= p < xlen && #[trigger] x[p] == ',' implies !(p + 1
        + spec_space_prefix_len(x.skip(p + 1)) < xlen && spec_is_bracket(
        x[p + 1 + spec_space_prefix_len(x.skip(p + 1)) as int],
    )) by {
        if p < al {
            assert(x[p] == a[p]);
            assert(false);
        } else {
            let q = p - al;
            assert(x[p] == b[q] && b[q] == ',');
            assert(x.skip(p + 1) =~= b.skip(q + 1));
            assert(!(q + 1 + spec_space_prefix_len(b.skip(q + 1)) < b.len() && spec_is_bracket(
                b[q + 1 + spec_space_prefix_len(b.skip(q + 1)) as int],
            )));
            if p + 1 + spec_space_prefix_len(b.skip(q + 1)) < xlen {
                assert(x[p + 1 + spec_space_prefix_len(b.skip(q + 1)) as int] == b[q + 1
                    + spec_space_prefix_len(b.skip(q + 1)) as int]);
            }
        }
    }
}

/// The comma pass carries a normal-form quote and token structure
/// through, and, without stacked commas, its output carries no trailing
/// comma at all.
#[verifier::rlimit(100)]
proof fn lemma_comma_pass_normal_parts(x: Seq<char>)
    requires
        spec_no_adjacent_quotes(x),
        spec_tokens_quoted(x),
        spec_no_shared_quote(x),
        spec_no_stacked_commas(x),
    ensures
        spec_no_adjacent_quotes(spec_comma_pass(x)),
        spec_tokens_quoted(spec_comma_pass(x)),
        spec_no_shared_quote(spec_comma_pass(x)),
        spec_no_trailing_comma(spec_comma_pass(x)),
    decreases x.len(),
{
    let y = spec_comma_pass(x);
    if x.len() == 0 {
        assert(y =~= x);
    } else if x[0] == '"' && x.len() > 1 && spec_is_letter(x[1]) {
        // A quoted token group: comma-free, so it passes through whole.
        assert(spec_token_start(x, 1));
        let run = spec_word_prefix_len(x.skip(1)) as int;
        lemma_word_prefix_len_bound(x.skip(1));
        let e = 1 + run;
        assert(e < x.len() && x[e] == '"');
        let g = x.take(e + 1);
        let tail = x.skip(e + 1);
        assert(g + tail =~= x);
        assert forall|i: int| 0 <= i < g.len() implies #[trigger] g[i] != ',' by {
            assert(g[i] == x[i]);
            if i == 0 || i == e {
                assert(x[i] == '"');
            } else {
                assert(x.skip(1)[i - 1] == x[i]);
                assert(spec_is_word_char(x.skip(1)[i - 1]));
            }
        }
        lemma_comma_pass_through(g, tail);
        if e + 1 < x.len() {
            assert(x.skip(1)[run - 1] == x[e - 1]);
            assert(spec_is_word_char(x.skip(1)[run - 1]));
            assert(!spec_is_letter(x[e + 1]));
        }
        lemma_normal_skip(x, e + 1);
        lemma_nsc_skip(x, e + 1);
        lemma_comma_pass_normal_parts(tail);
        // Junction facts for the reassembled output.
        assert forall|i: int| 0 <= i < g.len() implies !(#[trigger] g[i] == '"' && i + 1 < g.len()
            && g[i + 1] == '"') by {
            if i + 1 < g.len() {
                assert(g[i] == x[i] && g[i + 1] == x[i + 1]);
            }
        }
        assert(spec_no_adjacent_quotes(g));
        assert(spec_tokens_quoted(g)) by {
            assert forall|i: int| #[trigger] spec_token_start(g, i) implies i > 0 && g[i - 1]
                == '"' && i + spec_word_prefix_len(g.skip(i)) < g.len() && g[i
                + spec_word_prefix_len(g.skip(i)) as int] == '"' by {
                assert(g[i] == x[i]);
                if i == 1 {
                    assert forall|m: int| 0 <= m < run implies spec_is_word_char(
                        #[trigger] g.skip(1)[m],
                    ) by {
                        assert(g.skip(1)[m] == x[m + 1]);
                        assert(x.skip(1)[m] == x[m + 1]);
                        assert(spec_is_word_char(x.skip(1)[m]));
                    }
                    assert(g.skip(1)[run] == x[e]);
                    lemma_word_prefix_len_is(g.skip(1), run);
                } else if i == 0 || i == e {
                    assert(x[i] == '"');
                    assert(false);
                } else {
                    assert(g[i - 1] == x[i - 1]);
                    assert(x.skip(1)[i - 2] == x[i - 1]);
                    assert(spec_is_word_char(x.skip(1)[i - 2]));
                    assert(false);
                }
            }
        }
        assert(spec_no_shared_quote(g)) by {
            assert forall|i: int| 0 < i < g.len() - 1 && #[trigger] g[i] == '"' implies !(
            spec_is_word_char(g[i - 1]) && spec_is_letter(g[i + 1])) by {
                assert(g[i] == x[i]);
                if 0 < i < e {
                    assert(x.skip(1)[i - 1] == x[i]);
                    assert(spec_is_word_char(x.skip(1)[i - 1]));
                    assert(false);
                }
            }
        }
        let z = spec_comma_pass(tail);
        if tail.len() > 0 {
            lemma_comma_pass_first(tail);
            if z[0] == tail[0] {
                assert(tail[0] == x[e + 1]);
            }
        }
        lemma_normal_parts_concat(g, z);
        assert(y == g + z);
    } else if spec_is_word_char(x[0]) {
        // A bare word run, comma-free: it passes through whole.
        if spec_is_letter(x[0]) {
            assert(spec_token_start(x, 0));
            assert(false);
        }
        let run = spec_word_prefix_len(x) as int;
        lemma_word_prefix_len_bound(x);
        let g = x.take(run);
        let tail = x.skip(run);
        assert(g + tail =~= x);
        assert forall|i: int| 0 <= i < g.len() implies #[trigger] g[i] != ',' by {
            assert(g[i] == x[i]);
            assert(spec_is_word_char(x[i]));
        }
        lemma_comma_pass_through(g, tail);
        assert(run == x.len() || !spec_is_word_char(x[run]));
        lemma_normal_skip(x, run);
        lemma_nsc_skip(x, run);
        lemma_comma_pass_normal_parts(tail);
        assert(spec_no_adjacent_quotes(g)) by {
            assert forall|i: int| 0 <= i < g.len() implies #[trigger] g[i] != '"' by {
                assert(g[i] == x[i] && spec_is_word_char(x[i]));
            }
        }
        assert(spec_tokens_quoted(g)) by {
            assert forall|i: int| #[trigger] spec_token_start(g, i) implies i > 0 && g[i - 1]
                == '"' && i + spec_word_prefix_len(g.skip(i)) < g.len() && g[i
                + spec_word_prefix_len(g.skip(i)) as int] == '"' by {
                if i == 0 {
                    assert(g[0] == x[0] && !spec_is_letter(x[0]));
                    assert(false);
                } else {
                    assert(g[i - 1] == x[i - 1] && spec_is_word_char(x[i - 1]));
                    assert(false);
                }
            }
        }
        assert(spec_no_shared_quote(g)) by {
            assert forall|i: int| 0 < i < g.len() - 1 && #[trigger] g[i] == '"' implies !(
            spec_is_word_char(g[i - 1]) && spec_is_letter(g[i + 1])) by {
                assert(g[i] == x[i] && spec_is_word_char(x[i]));
                assert(false);
            }
        }
        let z = spec_comma_pass(tail);
        if tail.len() > 0 {
            lemma_comma_pass_first(tail);
            if z[0] == tail[0] {
                assert(tail[0] == x[run]);
            }
            if z.len() > 1 && z[0] == '"' {
                assert(tail[0] == '"');
                // A letter after that quote would make a shared quote in
                // the source: the run's last character is a word
                // character on its left.
                assert(spec_comma_pass(tail.skip(1)) =~= z.skip(1));
                lemma_comma_pass_first(tail.skip(1));
                if z[1] == tail.skip(1)[0] {
                    assert(tail.skip(1)[0] == x[run + 1]);
                    if spec_is_letter(x[run + 1]) {
                        assert(x[run] == '"' && spec_is_word_char(x[run - 1]));
                        assert(false);
                    }
                } else {
                    assert(spec_is_bracket(z[1]));
                }
            }
        }
        lemma_normal_parts_concat(g, z);
        assert(y == g + z);
    } else if x[0] == ',' && {
        let w = spec_space_prefix_len(x.skip(1)) as int;
        1 + w < x.len() && spec_is_bracket(x[1 + w])
    } {
        // A dropped trailing comma: the bracket stands, the tail follows.
        let w = spec_space_prefix_len(x.skip(1)) as int;
        lemma_space_prefix_len_bound(x.skip(1));
        let k = 1 + w;
        let tail = x.skip(k + 1);
        assert(y == seq![x[k as int]] + spec_comma_pass(tail));
        if k + 1 < x.len() && spec_is_letter(x[k + 1]) {
            assert(spec_token_start(x, k + 1));
            assert(x[k as int] == '"');
            assert(false);
        }
        lemma_normal_skip(x, k + 1);
        lemma_nsc_skip(x, k + 1);
        lemma_comma_pass_normal_parts(tail);
        let g = seq![x[k as int]];
        assert(forall|i: int| 0 <= i < g.len() ==> #[trigger] g[i] != ',');
        assert(spec_no_adjacent_quotes(g));
        assert(spec_tokens_quoted(g)) by {
            assert forall|i: int| #[trigger] spec_token_start(g, i) implies false by {
                assert(g[0] == x[k as int] && spec_is_bracket(x[k as int]));
            }
        }
        assert(spec_no_shared_quote(g));
        let z = spec_comma_pass(tail);
        if tail.len() > 0 {
            lemma_comma_pass_first(tail);
            if z[0] == tail[0] {
                assert(tail[0] == x[k + 1]);
            }
        }
        lemma_normal_parts_concat(g, z);
    } else {
        // One copied character: not a word character, and if a comma,
        // one without a bracket across the whitespace after it.
        let tail = x.skip(1);
        assert(y == seq![x[0]] + spec_comma_pass(tail));
        if x.len() > 1 && spec_is_letter(x[1]) {
            assert(spec_token_start(x, 1));
            assert(x[0] == '"');
            assert(false);
        }
        lemma_normal_skip(x, 1);
        lemma_nsc_skip(x, 1);
        lemma_comma_pass_normal_parts(tail);
        let z = spec_comma_pass(tail);
        let g = seq![x[0]];
        if x[0] == ',' {
            // The copied comma must stay without a bracket across the
            // whitespace in the output as well.  The whitespace is
            // copied; what follows it is the same character, or a
            // bracket that a dropped inner comma left, which the
            // stacked-comma condition rules out.
            let w = spec_space_prefix_len(tail) as int;
            lemma_space_prefix_len_bound(tail);
            assert(!(1 + w < x.len() && spec_is_bracket(x[1 + w])));
            let ws = tail.take(w);
            let after = tail.skip(w);
            assert(ws + after =~= tail);
            assert forall|i: int| 0 <= i < ws.len() implies #[trigger] ws[i] != ',' by {
                assert(ws[i] == tail[i] && crate::text::spec_is_space(tail[i]));
            }
            lemma_comma_pass_through(ws, after);
            assert(z == ws + spec_comma_pass(after));
            if after.len() > 0 {
                assert(tail[w] == after[0]);
                assert(!crate::text::spec_is_space(after[0]));
                lemma_comma_pass_first(after);
                let za = spec_comma_pass(after);
                assert(forall|m: int| 0 <= m < w ==> #[trigger] z[m] == ws[m]);
                assert(forall|m: int|
                    0 <= m < w ==> crate::text::spec_is_space(#[trigger] z[m]));
                assert(z[w] == za[0]);
                assert(!crate::text::spec_is_space(za[0]) || za[0] == after[0]);
                if za[0] == after[0] {
                    assert(!crate::text::spec_is_space(z[w]));
                    lemma_space_prefix_len_is(z, w);
                    assert(!spec_is_bracket(after[0]));
                } else {
                    assert(spec_is_bracket(za[0]));
                    // The bracket came from a dropped comma directly
                    // after the whitespace: stacked commas.
                    assert(after[0] == ',');
                    let w2 = spec_space_prefix_len(after.skip(1)) as int;
                    assert(after.skip(1) =~= x.skip(2 + w));
                    assert(spec_is_bracket(after[1 + w2]));
                    assert(x[1 + w] == ',');
                    assert(x.skip(1).take(w) =~= ws);
                    assert(spec_space_prefix_len(x.skip(1)) == w);
                    assert(after[1 + w2] == x[2 + w + w2]);
                    assert(false);
                }
            } else {
                assert(z =~= ws);
                assert(forall|m: int|
                    0 <= m < w ==> crate::text::spec_is_space(#[trigger] z[m]));
            }
            // With the output's whitespace prefix pinned, the copied
            // comma still faces no bracket.
            assert(spec_no_trailing_comma(seq![x[0]] + z)) by {
                let res = seq![x[0]] + z;
                assert forall|p: int| 0 <= p < res.len() && #[trigger] res[p] == ',' implies !(p
                    + 1 + spec_space_prefix_len(res.skip(p + 1)) < res.len() && spec_is_bracket(
                    res[p + 1 + spec_space_prefix_len(res.skip(p + 1)) as int],
                )) by {
                    if p == 0 {
                        assert(res.skip(1) =~= z);
                        if after.len() > 0 && spec_comma_pass(after)[0] == after[0] {
                            assert(spec_space_prefix_len(z) == w);
                            assert(res[1 + w] == z[w]);
                            assert(z[w] == after[0]);
                        } else if after.len() == 0 {
                            lemma_space_prefix_len_is(z, z.len() as int);
                            assert(1 + spec_space_prefix_len(z) >= res.len());
                        }
                    } else {
                        let q = p - 1;
                        assert(res[p] == z[q]);
                        assert(res.skip(p + 1) =~= z.skip(q + 1));
                        assert(!(q + 1 + spec_space_prefix_len(z.skip(q + 1)) < z.len()
                            && spec_is_bracket(
                            z[q + 1 + spec_space_prefix_len(z.skip(q + 1)) as int],
                        )));
                        if p + 1 + spec_space_prefix_len(z.skip(q + 1)) < res.len() {
                            assert(res[p + 1 + spec_space_prefix_len(z.skip(q + 1)) as int] == z[q
                                + 1 + spec_space_prefix_len(z.skip(q + 1)) as int]);
                        }
                    }
                }
            }
            assert(spec_no_adjacent_quotes(g));
            assert(spec_tokens_quoted(g));
            assert(spec_no_shared_quote(g));
            assert(spec_no_adjacent_quotes(seq![x[0]] + z)) by {
                let res = seq![x[0]] + z;
                assert forall|p: int| 0 <= p < res.len() - 1 implies !(#[trigger] res[p] == '"'
                    && res[p + 1] == '"') by {
                    if p == 0 {
                        assert(res[0] == ',');
                    } else {
                        assert(res[p] == z[p - 1] && res[p + 1] == z[p - 1 + 1]);
                    }
                }
            }
            assert(spec_tokens_quoted(seq![x[0]] + z)) by {
                let res = seq![x[0]] + z;
                assert forall|p: int| #[trigger] spec_token_start(res, p) implies p > 0 && res[p
                    - 1] == '"' && p + spec_word_prefix_len(res.skip(p)) < res.len() && res[p
                    + spec_word_prefix_len(res.skip(p)) as int] == '"' by {
                    if p == 0 {
                        assert(res[0] == ',');
                        assert(false);
                    } else {
                        let q = p - 1;
                        assert(res[p] == z[q]);
                        if q == 0 {
                            assert(z[0] == ',' || crate::text::spec_is_space(z[0]) || z.len()
                                == 0);
                            assert(false);
                        } else {
                            assert(res[p - 1] == z[q - 1]);
                            assert(spec_token_start(z, q));
                            assert(res.skip(p) =~= z.skip(q));
                            assert(res[p + spec_word_prefix_len(z.skip(q)) as int] == z[q
                                + spec_word_prefix_len(z.skip(q)) as int]);
                        }
                    }
                }
            }
            assert(spec_no_shared_quote(seq![x[0]] + z)) by {
                let res = seq![x[0]] + z;
                assert forall|p: int| 0 < p < res.len() - 1 && #[trigger] res[p] == '"' implies !(
                spec_is_word_char(res[p - 1]) && spec_is_letter(res[p + 1])) by {
                    let q = p - 1;
                    assert(res[p] == z[q]);
                    if q == 0 {
                        assert(res[p - 1] == x[0] && x[0] == ',');
                    } else if q < z.len() - 1 {
                        assert(res[p - 1] == z[q - 1] && res[p + 1] == z[q + 1]);
                    } else {
                        assert(false);
                    }
                }
            }
        } else {
            assert(forall|i: int| 0 <= i < g.len() ==> #[trigger] g[i] != ',');
            assert(spec_no_adjacent_quotes(g)) by {
                assert(g.len() == 1);
            }
            assert(spec_tokens_quoted(g)) by {
                assert forall|i: int| #[trigger] spec_token_start(g, i) implies false by {
                    assert(g[0] == x[0] && !spec_is_word_char(x[0]));
                }
            }
            assert(spec_no_shared_quote(g));
            if tail.len() > 0 {
                lemma_comma_pass_first(tail);
                if z[0] == tail[0] {
                    assert(tail[0] == x[1]);
                }
                if x[0] == '"' {
                    assert(x[1] != '"');
                    if z.len() > 1 && z[0] == '"' {
                        assert(false);
                    }
                }
                if z.len() > 1 && z[0] == '"' && spec_is_word_char(x[0]) {
                    assert(false);
                }
            }
            lemma_normal_parts_concat(g, z);
        }
    }
}


/// A run of non-word characters passes through the quote pass unchanged.
proof fn lemma_quote_pass_through(w: Seq<char>, z: Seq<char>)
    requires
        forall|i: int| 0 <= i < w.len() ==> !spec_is_word_char(#[trigger] w[i]),
    ensures
        spec_quote_pass(w + z) == w + spec_quote_pass(z),
    decreases w.len(),
{
    if w.len() == 0 {
        assert(w + z =~= z);
        assert(w + spec_quote_pass(z) =~= spec_quote_pass(z));
    } else {
        assert((w + z)[0] == w[0]);
        assert((w + z).skip(1) =~= w.skip(1) + z);
        assert(forall|i: int|
            0 <= i < w.skip(1).len() ==> !spec_is_word_char(#[trigger] w.skip(1)[i]));
        lemma_quote_pass_through(w.skip(1), z);
        assert(spec_quote_pass(w + z) =~= w + spec_quote_pass(z));
    }
}

/// On quote-free input without stacked commas the quote pass leaves no
/// stacked commas either: it inserts only quotes, never a comma, a space
/// or a bracket.
#[verifier::rlimit(100)]
proof fn lemma_quote_pass_keeps_nsc(s: Seq<char>)
    requires
        spec_quote_free(s),
        spec_no_stacked_commas(s),
    ensures
        spec_no_stacked_commas(spec_quote_pass(s)),
    decreases s.len(),
{
    let x = spec_quote_pass(s);
    if s.len() == 0 {
        assert(x =~= s);
    } else if spec_is_word_char(s[0]) {
        let run = spec_word_prefix_len(s) as int;
        lemma_word_prefix_len_bound(s);
        let rest = s.skip(run);
        let y = spec_quote_pass(rest);
        lemma_nsc_skip(s, run);
        lemma_quote_pass_keeps_nsc(rest);
        let pre_len: int = if spec_is_letter(s[0]) {
            run + 2
        } else {
            run
        };
        if spec_is_letter(s[0]) {
            assert(x == seq!['"'] + s.take(run) + seq!['"'] + y);
        } else {
            assert(x == s.take(run) + y);
        }
        assert forall|p: int|
            0 <= p < x.len() && #[trigger] x[p] == ',' && p + 1 + spec_space_prefix_len(
                x.skip(p + 1),
            ) < x.len() && x[p + 1 + spec_space_prefix_len(x.skip(p + 1)) as int] == ',' implies {
            let j = p + 2 + spec_space_prefix_len(x.skip(p + 1)) as int;
            !(j + spec_space_prefix_len(x.skip(j)) < x.len() && spec_is_bracket(
                x[j + spec_space_prefix_len(x.skip(j)) as int],
            ))
        } by {
            if p < pre_len {
                if spec_is_letter(s[0]) {
                    if p == 0 || p == run + 1 {
                        assert(x[p] == '"');
                    } else {
                        assert(x[p] == s[p - 1] && spec_is_word_char(s[p - 1]));
                    }
                } else {
                    assert(x[p] == s[p] && spec_is_word_char(s[p]));
                }
                assert(false);
            } else {
                let q = p - pre_len;
                assert(x[p] == y[q] && y[q] == ',');
                assert(x.skip(p + 1) =~= y.skip(q + 1));
                let w1 = spec_space_prefix_len(y.skip(q + 1)) as int;
                assert(x[p + 1 + w1] == y[q + 1 + w1]);
                let j = p + 2 + w1;
                assert(x.skip(j) =~= y.skip(q + 2 + w1));
                let w2 = spec_space_prefix_len(y.skip(q + 2 + w1)) as int;
                assert(!(q + 2 + w1 + w2 < y.len() && spec_is_bracket(y[q + 2 + w1 + w2])));
                if j + w2 < x.len() {
                    assert(x[j + w2] == y[q + 2 + w1 + w2]);
                }
            }
        }
    } else {
        let rest = s.skip(1);
        let y = spec_quote_pass(rest);
        lemma_nsc_skip(s, 1);
        lemma_quote_pass_keeps_nsc(rest);
        assert(x == seq![s[0]] + y);
        assert forall|p: int|
            0 <= p < x.len() && #[trigger] x[p] == ',' && p + 1 + spec_space_prefix_len(
                x.skip(p + 1),
            ) < x.len() && x[p + 1 + spec_space_prefix_len(x.skip(p + 1)) as int] == ',' implies {
            let j = p + 2 + spec_space_prefix_len(x.skip(p + 1)) as int;
            !(j + spec_space_prefix_len(x.skip(j)) < x.len() && spec_is_bracket(
                x[j + spec_space_prefix_len(x.skip(j)) as int],
            ))
        } by {
            if p == 0 {
                assert(s[0] == ',');
                // Both whitespace runs are copied; the characters after
                // them are the inserted quote or the source characters.
                let w1 = spec_space_prefix_len(rest) as int;
                lemma_space_prefix_len_bound(rest);
                assert(forall|m: int|
                    0 <= m < w1 ==> !spec_is_word_char(#[trigger] rest.take(w1)[m]));
                lemma_quote_pass_through(rest.take(w1), rest.skip(w1));
                assert(rest.take(w1) + rest.skip(w1) =~= rest);
                let y2 = spec_quote_pass(rest.skip(w1));
                assert(y == rest.take(w1) + y2);
                assert(x.skip(1) =~= y);
                assert(forall|m: int| 0 <= m < w1 ==> #[trigger] y[m] == rest[m]);
                if w1 == rest.len() {
                    // Nothing but whitespace follows the comma.
                    assert(y =~= rest);
                    lemma_space_prefix_len_is(y, w1);
                    assert(1 + spec_space_prefix_len(y) >= x.len());
                } else {
                    lemma_quote_pass_first(rest.skip(w1));
                    assert(rest.skip(w1)[0] == rest[w1]);
                    assert(y2.len() > 0);
                    assert(y[w1] == y2[0]);
                    assert(y2[0] == '"' || y2[0] == rest[w1]);
                    assert(!crate::text::spec_is_space(rest[w1]));
                    assert(!crate::text::spec_is_space(y[w1]));
                    lemma_space_prefix_len_is(y, w1);
                    assert(spec_space_prefix_len(x.skip(1)) == w1);
                    // The second comma forces the source to carry it too.
                    assert(x[1 + w1] == y[w1]);
                    if x[1 + w1] == ',' {
                        assert(y2[0] == ',');
                        assert(rest[w1] == ',');
                        let rest2 = rest.skip(w1 + 1);
                        assert(rest.skip(w1).skip(1) =~= rest2);
                        assert(!spec_is_word_char(rest.skip(w1)[0]));
                        assert(spec_quote_pass(rest.skip(w1)) == seq![rest[w1]]
                            + spec_quote_pass(rest2));
                        let y3 = spec_quote_pass(rest2);
                        let w2 = spec_space_prefix_len(rest2) as int;
                        lemma_space_prefix_len_bound(rest2);
                        assert(forall|m: int|
                            0 <= m < w2 ==> !spec_is_word_char(#[trigger] rest2.take(w2)[m]));
                        lemma_quote_pass_through(rest2.take(w2), rest2.skip(w2));
                        assert(rest2.take(w2) + rest2.skip(w2) =~= rest2);
                        let y4 = spec_quote_pass(rest2.skip(w2));
                        assert(y3 == rest2.take(w2) + y4);
                        assert(x.skip(2 + w1) =~= y3);
                        assert(forall|m: int| 0 <= m < w2 ==> #[trigger] y3[m] == rest2[m]);
                        // The stacked-comma condition speaks of exactly
                        // this source shape.
                        assert(s.skip(1) =~= rest);
                        assert(s[1 + w1] == rest[w1]);
                        assert(s.skip(2 + w1) =~= rest2);
                        assert(!(2 + w1 + w2 < s.len() && spec_is_bracket(s[2 + w1 + w2])));
                        if w2 == rest2.len() {
                            assert(y3 =~= rest2);
                            lemma_space_prefix_len_is(y3, w2);
                            assert(2 + w1 + spec_space_prefix_len(y3) >= x.len());
                        } else {
                            lemma_quote_pass_first(rest2.skip(w2));
                            assert(rest2.skip(w2)[0] == rest2[w2]);
                            assert(y4.len() > 0);
                            assert(y3[w2] == y4[0]);
                            assert(y4[0] == '"' || y4[0] == rest2[w2]);
                            assert(!crate::text::spec_is_space(y3[w2]));
                            lemma_space_prefix_len_is(y3, w2);
                            assert(x[2 + w1 + w2] == y3[w2]);
                            assert(!spec_is_bracket(rest2[w2]));
                            assert(!spec_is_bracket(y3[w2]));
                        }
                    }
                }
            } else {
                let q = p - 1;
                assert(x[p] == y[q] && y[q] == ',');
                assert(x.skip(p + 1) =~= y.skip(q + 1));
                let w1 = spec_space_prefix_len(y.skip(q + 1)) as int;
                assert(x[p + 1 + w1] == y[q + 1 + w1]);
                let j = p + 2 + w1;
                assert(x.skip(j) =~= y.skip(q + 2 + w1));
                let w2 = spec_space_prefix_len(y.skip(q + 2 + w1)) as int;
                assert(!(q + 2 + w1 + w2 < y.len() && spec_is_bracket(y[q + 2 + w1 + w2])));
                if j + w2 < x.len() {
                    assert(x[j + w2] == y[q + 2 + w1 + w2]);
                }
            }
        }
    }
}

/// On a quote-free input without stacked commas — the shape of every blob
/// the benchmark binaries emit — normalization is idempotent: running it
/// a second time returns exactly what the first run produced.
pub proof fn lemma_normalize_idempotent_unquoted(s: Seq<char>)
    requires
        spec_quote_free(s),
        spec_no_stacked_commas(s),
    ensures
        spec_normal(spec_normalize(s)),
        spec_normalize(spec_normalize(s)) == spec_normalize(s),
{
    lemma_quote_pass_normal_parts(s);
    lemma_quote_pass_keeps_nsc(s);
    let x = spec_quote_pass(s);
    lemma_collapse_identity(x);
    lemma_comma_pass_normal_parts(x);
    lemma_normal_fixed_point(spec_normalize(s));
}

/// A normal string is a fixed point of normalization: what is already in
/// the shape normalization produces is left exactly as it is.
pub proof fn lemma_normal_fixed_point(t: Seq<char>)
    requires
        spec_normal(t),
    ensures
        spec_normalize(t) == t,
{
    lemma_quote_collapse_identity(t);
    lemma_comma_pass_identity(t);
}

/// Normalization is idempotent on every input whose normalized form is
/// normal: running it again returns the same string.  The benchmark
/// blobs are such inputs; an input with stacked quotes of its own, such
/// as four quote characters before a letter, normalizes to a string
/// outside normal form and is not covered.
pub proof fn lemma_normalize_idempotent(s: Seq<char>)
    requires
        spec_normal(spec_normalize(s)),
    ensures
        spec_normalize(spec_normalize(s)) == spec_normalize(s),
{
    lemma_normal_fixed_point(spec_normalize(s));
}

fn quote_pass(chars: &Vec<char>) -> (r: Vec<char>)
    ensures
        r@ == spec_quote_pass(chars@),
{
    let n = chars.len();
    let mut out: Vec<char> = Vec::new();
    let mut i: usize = 0;
    proof {
        assert(chars@.skip(0) =~= chars@);
    }
    while i < n
        invariant
            n == chars@.len(),
            i <= n,
            spec_quote_pass(chars@) == out@ + spec_quote_pass(chars@.skip(i as int)),
        decreases n - i,
    {
        let ghost pre = out@;
        let ghost rest = chars@.skip(i as int);
        let c = chars[i];
        if !is_word_char(c) {
            out.push(c);
            proof {
                assert(rest.skip(1) =~= chars@.skip(i + 1));
                assert(out@ =~= pre + seq![c]);
                assert(pre + (seq![c] + spec_quote_pass(rest.skip(1))) =~= out@
                    + spec_quote_pass(chars@.skip(i + 1)));
            }
            i = i + 1;
        } else {
            let mut j: usize = i;
            while j < n && is_word_char(chars[j])
                invariant
                    n == chars@.len(),
                    i <= j <= n,
                    forall|m: int| i <= m < j ==> spec_is_word_char(#[trigger] chars@[m]),
                decreases n - j,
            {
                j = j + 1;
            }
            proof {
                assert(forall|m: int| 0 <= m < j - i ==> rest[m] == chars@[m + i]);
                lemma_word_prefix_len_is(rest, j - i);
            }
            let ghost run = (j - i) as nat;
            if is_letter(c) {
                out.push('"');
                let mut m: usize = i;
                while m < j
                    invariant
                        n == chars@.len(),
                        i <= m <= j <= n,
                        out@ == pre + seq!['"'] + chars@.subrange(i as int, m as int),
                    decreases j - m,
                {
                    out.push(chars[m]);
                    proof {
                        assert(out@ =~= pre + seq!['"'] + chars@.subrange(i as int, m + 1));
                    }
                    m = m + 1;
                }
                out.push('"');
                proof {
                    assert(rest.take(run as int) =~= chars@.subrange(i as int, j as int));
                    assert(rest.skip(run as int) =~= chars@.skip(j as int));
                    assert(out@ =~= pre + (seq!['"'] + rest.take(run as int) + seq!['"']));
                    assert(pre + (seq!['"'] + rest.take(run as int) + seq!['"']
                        + spec_quote_pass(rest.skip(run as int))) =~= out@ + spec_quote_pass(
                        chars@.skip(j as int),
                    ));
                }
            } else {
                let mut m: usize = i;
                while m < j
                    invariant
                        n == chars@.len(),
                        i <= m <= j <= n,
                        out@ == pre + chars@.subrange(i as int, m as int),
                    decreases j - m,
                {
                    out.push(chars[m]);
                    proof {
                        assert(out@ =~= pre + chars@.subrange(i as int, m + 1));
                    }
                    m = m + 1;
                }
                proof {
                    assert(rest.take(run as int) =~= chars@.subrange(i as int, j as int));
                    assert(rest.skip(run as int) =~= chars@.skip(j as int));
                    assert(out@ =~= pre + rest.take(run as int));
                    assert(pre + (rest.take(run as int) + spec_quote_pass(rest.skip(run as int)))
                        =~= out@ + spec_quote_pass(chars@.skip(j as int)));
                }
            }
            i = j;
        }
    }
    proof {
        assert(chars@.skip(n as int) =~= Seq::<char>::empty());
        assert(out@ =~= out@ + spec_quote_pass(chars@.skip(n as int)));
    }
    out
}

fn collapse_pass(chars: &Vec<char>) -> (r: Vec<char>)
    ensures
        r@ == spec_collapse_pass(chars@),
{
    let n = chars.len();
    let mut out: Vec<char> = Vec::new();
    let mut i: usize = 0;
    proof {
        assert(chars@.skip(0) =~= chars@);
    }
    while i < n
        invariant
            n == chars@.len(),
            i <= n,
            spec_collapse_pass(chars@) == out@ + spec_collapse_pass(chars@.skip(i as int)),
        decreases n - i,
    {
        let ghost pre = out@;
        let ghost rest = chars@.skip(i as int);
        if i + 1 < n && chars[i] == '"' && chars[i + 1] == '"' {
            out.push('"');
            proof {
                assert(rest[0] == '"' && rest[1] == '"');
                assert(rest.skip(2) =~= chars@.skip(i + 2));
                assert(out@ =~= pre + seq!['"']);
                assert(pre + (seq!['"'] + spec_collapse_pass(rest.skip(2))) =~= out@
                    + spec_collapse_pass(chars@.skip(i + 2)));
            }
            i = i + 2;
        } else {
            let c = chars[i];
            out.push(c);
            proof {
                assert(!(rest.len() >= 2 && rest[0] == '"' && rest[1] == '"'));
                assert(rest.skip(1) =~= chars@.skip(i + 1));
                assert(out@ =~= pre + seq![c]);
                assert(pre + (seq![c] + spec_collapse_pass(rest.skip(1))) =~= out@
                    + spec_collapse_pass(chars@.skip(i + 1)));
            }
            i = i + 1;
        }
    }
    proof {
        assert(chars@.skip(n as int) =~= Seq::<char>::empty());
        assert(out@ =~= out@ + spec_collapse_pass(chars@.skip(n as int)));
    }
    out
}

fn comma_pass(chars: &Vec<char>) -> (r: Vec<char>)
    ensures
        r@ == spec_comma_pass(chars@),
{
    let n = chars.len();
    let mut out: Vec<char> = Vec::new();
    let mut i: usize = 0;
    proof {
        assert(chars@.skip(0) =~= chars@);
    }
    while i < n
        invariant
            n == chars@.len(),
            i <= n,
            spec_comma_pass(chars@) == out@ + spec_comma_pass(chars@.skip(i as int)),
        decreases n - i,
    {
        let ghost pre = out@;
        let ghost rest = chars@.skip(i as int);
        let c = chars[i];
        let mut matched = false;
        let mut k: usize = i;
        if c == ',' {
            let mut w: usize = i + 1;
            while w < n && is_space(chars[w])
                invariant
                    n == chars@.len(),
                    i + 1 <= w <= n,
                    forall|m: int|
                        i + 1 <= m < w ==> crate::text::spec_is_space(#[trigger] chars@[m]),
                decreases n - w,
            {
                w = w + 1;
            }
            proof {
                assert(forall|m: int| 0 <= m < w - i - 1 ==> rest.skip(1)[m] == chars@[m + i + 1]);
                lemma_space_prefix_len_is(rest.skip(1), w - i - 1);
            }
            if w < n && is_bracket(chars[w]) {
                matched = true;
                k = w;
            }
        }
        if matched {
            out.push(chars[k]);
            proof {
                let w = spec_space_prefix_len(rest.skip(1)) as int;
                assert(w == k - i - 1);
                assert(rest[0] == ',');
                assert(rest[1 + w] == chars@[k as int]);
                assert(spec_is_bracket(rest[1 + w]));
                assert(rest.skip(2 + w) =~= chars@.skip(k + 1));
                assert(out@ =~= pre + seq![chars@[k as int]]);
                assert(pre + (seq![rest[1 + w]] + spec_comma_pass(rest.skip(2 + w))) =~= out@
                    + spec_comma_pass(chars@.skip(k + 1)));
            }
            i = k + 1;
        } else {
            out.push(c);
            proof {
                if rest[0] == ',' {
                    let w = spec_space_prefix_len(rest.skip(1)) as int;
                    lemma_space_prefix_len_bound(rest.skip(1));
                    if 1 + w < rest.len() {
                        assert(rest[1 + w] == chars@[i + 1 + w]);
                    }
                    assert(!(1 + w < rest.len() && spec_is_bracket(rest[1 + w])));
                }
                assert(rest.skip(1) =~= chars@.skip(i + 1));
                assert(out@ =~= pre + seq![c]);
                assert(pre + (seq![c] + spec_comma_pass(rest.skip(1))) =~= out@ + spec_comma_pass(
                    chars@.skip(i + 1),
                ));
            }
            i = i + 1;
        }
    }
    proof {
        assert(chars@.skip(n as int) =~= Seq::<char>::empty());
        assert(out@ =~= out@ + spec_comma_pass(chars@.skip(n as int)));
    }
    out
}

/// Normalizes one report blob: wraps identifier tokens in quotes,
/// collapses the doubled quotes that wrapping may produce, and drops a
/// trailing comma before a closing bracket.
pub fn quote_strings(input: &str) -> (r: String)
    ensures
        r@ == spec_normalize(input@),
{
    let chars = crate::text::str_to_chars(input);
    let pass1 = quote_pass(&chars);
    let pass2 = collapse_pass(&pass1);
    let pass3 = comma_pass(&pass2);
    crate::text::chars_to_string(&pass3)
}

} // verus!
