//! Cutting a line into tokens.
//!
//! A quote mark opens or closes a quoted span and is itself dropped. A
//! delimiter outside a quoted span ends a token. So a line with `n` such
//! delimiters has `n + 1` tokens, and a line with none is one token.

use crate::text::chars_of;
use vstd::prelude::*;

verus! {

/// One delimiter-separated piece of a line, without its quote marks.
#[derive(Debug, PartialEq, Eq)]
pub struct Token {
    pub text: String,
    /// Whether a quote mark stood anywhere in the piece.
    pub is_quoted: bool,
}

/// What the contracts see of a [`Token`]: its text as a sequence of
/// characters.
pub struct TokenView {
    pub text: Seq<char>,
    pub is_quoted: bool,
}

impl View for Token {
    type V = TokenView;

    open spec fn view(&self) -> TokenView {
        TokenView { text: self.text@, is_quoted: self.is_quoted }
    }
}

/// The views of a list of tokens, in order.
pub open spec fn tokens_of(list: Seq<Token>) -> Seq<TokenView> {
    Seq::new(list.len(), |i: int| list[i]@)
}

/// `c` is the quote mark.
pub open spec fn is_quote(c: char, quote: Option<char>) -> bool {
    quote == Some(c)
}

/// The number of quote marks in `s`.
pub open spec fn quote_count(s: Seq<char>, quote: Option<char>) -> nat
    decreases s.len(),
{
    if s.len() == 0 {
        0
    } else if is_quote(s.last(), quote) {
        quote_count(s.drop_last(), quote) + 1
    } else {
        quote_count(s.drop_last(), quote)
    }
}

/// `s` without its quote marks.
pub open spec fn unquoted(s: Seq<char>, quote: Option<char>) -> Seq<char>
    decreases s.len(),
{
    if s.len() == 0 {
        Seq::empty()
    } else if is_quote(s.last(), quote) {
        unquoted(s.drop_last(), quote)
    } else {
        unquoted(s.drop_last(), quote).push(s.last())
    }
}

/// The character at `i` ends a token: it is a delimiter, not a quote mark,
/// and an even number of quote marks stand before it.
pub open spec fn is_separator(line: Seq<char>, delimiter: char, quote: Option<char>, i: int) -> bool {
    &&& 0 <= i < line.len()
    &&& line[i] == delimiter
    &&& !is_quote(line[i], quote)
    &&& quote_count(line.take(i), quote) % 2 == 0
}

/// The place of the first separator at or after `from`; the length of the
/// line where there is none.
pub open spec fn separator_from(
    line: Seq<char>,
    delimiter: char,
    quote: Option<char>,
    from: int,
) -> int
    decreases line.len() - from,
{
    if from < 0 || from >= line.len() {
        line.len() as int
    } else if is_separator(line, delimiter, quote, from) {
        from
    } else {
        separator_from(line, delimiter, quote, from + 1)
    }
}

/// The token that a piece between two separators makes.
pub open spec fn token_of(piece: Seq<char>, quote: Option<char>) -> TokenView {
    TokenView { text: unquoted(piece, quote), is_quoted: quote_count(piece, quote) > 0 }
}

/// The tokens of a line: the piece before the first separator, then the
/// tokens of what follows that separator.
pub open spec fn split_spec(line: Seq<char>, delimiter: char, quote: Option<char>) -> Seq<
    TokenView,
>
    decreases line.len(),
{
    let k = separator_from(line, delimiter, quote, 0);
    if 0 <= k < line.len() {
        seq![token_of(line.take(k), quote)] + split_spec(line.skip(k + 1), delimiter, quote)
    } else {
        seq![token_of(line, quote)]
    }
}

/// No separator stands before `upto`.
pub open spec fn separator_free(
    line: Seq<char>,
    delimiter: char,
    quote: Option<char>,
    upto: int,
) -> bool {
    forall|j: int| 0 <= j < upto ==> !is_separator(line, delimiter, quote, j)
}

/// Where no separator stands in `from..upto`, the search from `from` goes
/// on at `upto`.
pub proof fn lemma_separator_skips(
    line: Seq<char>,
    delimiter: char,
    quote: Option<char>,
    from: int,
    upto: int,
)
    requires
        0 <= from <= upto <= line.len(),
        forall|j: int| from <= j < upto ==> !is_separator(line, delimiter, quote, j),
    ensures
        separator_from(line, delimiter, quote, from) == separator_from(
            line,
            delimiter,
            quote,
            upto,
        ),
    decreases upto - from,
{
    if from < upto {
        lemma_separator_skips(line, delimiter, quote, from + 1, upto);
    }
}

/// Where the first separator stands at `k`, the line splits into the token
/// before `k` and the tokens after it.
pub proof fn lemma_split_at_first(line: Seq<char>, delimiter: char, quote: Option<char>, k: int)
    requires
        separator_free(line, delimiter, quote, k),
        is_separator(line, delimiter, quote, k),
    ensures
        split_spec(line, delimiter, quote) == seq![token_of(line.take(k), quote)] + split_spec(
            line.skip(k + 1),
            delimiter,
            quote,
        ),
{
    lemma_separator_skips(line, delimiter, quote, 0, k);
}

/// A line without a separator is one token.
pub proof fn lemma_split_single(line: Seq<char>, delimiter: char, quote: Option<char>)
    requires
        separator_free(line, delimiter, quote, line.len() as int),
    ensures
        split_spec(line, delimiter, quote) == seq![token_of(line, quote)],
{
    lemma_separator_skips(line, delimiter, quote, 0, line.len() as int);
}

/// The number of separators before `upto`.
pub open spec fn separator_count(
    line: Seq<char>,
    delimiter: char,
    quote: Option<char>,
    upto: int,
) -> nat
    decreases upto,
{
    if upto <= 0 {
        0
    } else if is_separator(line, delimiter, quote, upto - 1) {
        separator_count(line, delimiter, quote, upto - 1) + 1
    } else {
        separator_count(line, delimiter, quote, upto - 1)
    }
}

/// The search for a separator ends at the first one, or at the end of the
/// line where there is none.
pub proof fn lemma_separator_found(
    line: Seq<char>,
    delimiter: char,
    quote: Option<char>,
    from: int,
)
    requires
        0 <= from <= line.len(),
    ensures
        from <= separator_from(line, delimiter, quote, from) <= line.len(),
        separator_from(line, delimiter, quote, from) < line.len() ==> is_separator(
            line,
            delimiter,
            quote,
            separator_from(line, delimiter, quote, from),
        ),
        forall|j: int|
            from <= j < separator_from(line, delimiter, quote, from) ==> !is_separator(
                line,
                delimiter,
                quote,
                j,
            ),
    decreases line.len() - from,
{
    if from < line.len() && !is_separator(line, delimiter, quote, from) {
        lemma_separator_found(line, delimiter, quote, from + 1);
    }
}

/// Where no separator stands before `upto`, none is counted.
pub proof fn lemma_count_of_none(line: Seq<char>, delimiter: char, quote: Option<char>, upto: int)
    requires
        separator_free(line, delimiter, quote, upto),
    ensures
        separator_count(line, delimiter, quote, upto) == 0,
    decreases upto,
{
    if upto > 0 {
        lemma_count_of_none(line, delimiter, quote, upto - 1);
    }
}

/// After a separator at `k`, the line has the separators of what follows
/// it, each moved by `k + 1`.
pub proof fn lemma_count_after_separator(
    line: Seq<char>,
    delimiter: char,
    quote: Option<char>,
    k: int,
    n: int,
)
    requires
        is_separator(line, delimiter, quote, k),
        0 <= n <= line.len() - k - 1,
    ensures
        separator_count(line, delimiter, quote, k + 1 + n) == separator_count(
            line,
            delimiter,
            quote,
            k + 1,
        ) + separator_count(line.skip(k + 1), delimiter, quote, n),
    decreases n,
{
    if n > 0 {
        lemma_count_after_separator(line, delimiter, quote, k, n - 1);
        let rest = line.skip(k + 1);
        let j = n - 1;
        assert(line.take(k + 1).drop_last() =~= line.take(k));
        assert(line.take(k + 1 + j) =~= line.take(k + 1) + rest.take(j));
        lemma_quote_count_concat(line.take(k + 1), rest.take(j), quote);
        assert(rest[j] == line[k + 1 + j]);
        assert(is_separator(line, delimiter, quote, k + 1 + j) == is_separator(
            rest,
            delimiter,
            quote,
            j,
        ));
    }
}

/// A line has one token more than it has separators.
pub proof fn lemma_token_count(line: Seq<char>, delimiter: char, quote: Option<char>)
    ensures
        split_spec(line, delimiter, quote).len() == separator_count(
            line,
            delimiter,
            quote,
            line.len() as int,
        ) + 1,
    decreases line.len(),
{
    let k = separator_from(line, delimiter, quote, 0);
    lemma_separator_found(line, delimiter, quote, 0);
    if k < line.len() {
        let rest = line.skip(k + 1);
        lemma_token_count(rest, delimiter, quote);
        lemma_count_after_separator(line, delimiter, quote, k, rest.len() as int);
        lemma_count_of_none(line, delimiter, quote, k);
    } else {
        lemma_count_of_none(line, delimiter, quote, line.len() as int);
    }
}

/// The quote marks of two pieces put together are those of both.
pub proof fn lemma_quote_count_concat(a: Seq<char>, b: Seq<char>, quote: Option<char>)
    ensures
        quote_count(a + b, quote) == quote_count(a, quote) + quote_count(b, quote),
    decreases b.len(),
{
    if b.len() == 0 {
        assert(a + b =~= a);
    } else {
        assert((a + b).drop_last() =~= a + b.drop_last());
        lemma_quote_count_concat(a, b.drop_last(), quote);
    }
}

/// Dropping the quote marks of two pieces put together drops those of
/// each.
pub proof fn lemma_unquoted_concat(a: Seq<char>, b: Seq<char>, quote: Option<char>)
    ensures
        unquoted(a + b, quote) == unquoted(a, quote) + unquoted(b, quote),
    decreases b.len(),
{
    if b.len() == 0 {
        assert(a + b =~= a);
        assert(unquoted(a, quote) + unquoted(b, quote) =~= unquoted(a, quote));
    } else {
        assert((a + b).drop_last() =~= a + b.drop_last());
        lemma_unquoted_concat(a, b.drop_last(), quote);
        assert(unquoted(a, quote) + unquoted(b.drop_last(), quote).push(b.last()) =~= (unquoted(
            a,
            quote,
        ) + unquoted(b.drop_last(), quote)).push(b.last()));
    }
}

/// No character of `s` is the quote mark.
pub open spec fn quote_free(s: Seq<char>, quote: Option<char>) -> bool {
    forall|i: int| 0 <= i < s.len() ==> !is_quote(#[trigger] s[i], quote)
}

/// A piece without quote marks stays as it is and counts none.
pub proof fn lemma_quote_free(s: Seq<char>, quote: Option<char>)
    requires
        quote_free(s, quote),
    ensures
        quote_count(s, quote) == 0,
        unquoted(s, quote) == s,
    decreases s.len(),
{
    if s.len() > 0 {
        lemma_quote_free(s.drop_last(), quote);
        assert(s.drop_last().push(s.last()) =~= s);
    } else {
        assert(s =~= Seq::<char>::empty());
    }
}

/// A quote mark alone counts one and leaves nothing.
pub proof fn lemma_lone_quote(c: char, quote: Option<char>)
    requires
        is_quote(c, quote),
    ensures
        quote_count(seq![c], quote) == 1,
        unquoted(seq![c], quote) == Seq::<char>::empty(),
{
    reveal_with_fuel(quote_count, 2);
    reveal_with_fuel(unquoted, 2);
    assert(seq![c].drop_last() =~= Seq::<char>::empty());
}

/// A token can be written down and read back: its text holds no quote
/// mark; written between quote marks, there is a quote mark to write it
/// with; written bare, its text holds no delimiter.
pub open spec fn can_encode(t: TokenView, delimiter: char, quote: Option<char>) -> bool {
    &&& quote_free(t.text, quote)
    &&& t.is_quoted ==> quote is Some
    &&& !t.is_quoted ==> !t.text.contains(delimiter)
}

/// A token as it is written in a line: between quote marks if it is marked
/// as quoted, else bare.
pub open spec fn encode_token(t: TokenView, quote: Option<char>) -> Seq<char> {
    if t.is_quoted && quote is Some {
        seq![quote->0] + t.text + seq![quote->0]
    } else {
        t.text
    }
}

/// Tokens as they are written in one line: each as it is written, with a
/// delimiter between one and the next.
pub open spec fn encode_line(tokens: Seq<TokenView>, delimiter: char, quote: Option<char>) -> Seq<
    char,
>
    decreases tokens.len(),
{
    if tokens.len() == 0 {
        Seq::empty()
    } else if tokens.len() == 1 {
        encode_token(tokens[0], quote)
    } else {
        encode_token(tokens[0], quote) + seq![delimiter] + encode_line(
            tokens.skip(1),
            delimiter,
            quote,
        )
    }
}

/// A written token reads back as the token.
pub proof fn lemma_token_of_encoded(t: TokenView, delimiter: char, quote: Option<char>)
    requires
        can_encode(t, delimiter, quote),
    ensures
        token_of(encode_token(t, quote), quote) == t,
        quote_count(encode_token(t, quote), quote) % 2 == 0,
{
    lemma_quote_free(t.text, quote);
    if t.is_quoted {
        let q = seq![quote->0];
        lemma_lone_quote(quote->0, quote);
        lemma_quote_count_concat(q, t.text, quote);
        lemma_quote_count_concat(q + t.text, q, quote);
        lemma_unquoted_concat(q, t.text, quote);
        lemma_unquoted_concat(q + t.text, q, quote);
        assert(unquoted(q, quote) + t.text + unquoted(q, quote) =~= t.text);
    }
}

/// No separator stands inside a written token, whatever follows it.
pub proof fn lemma_encoded_has_no_separator(
    t: TokenView,
    rest: Seq<char>,
    delimiter: char,
    quote: Option<char>,
)
    requires
        can_encode(t, delimiter, quote),
    ensures
        separator_free(
            encode_token(t, quote) + rest,
            delimiter,
            quote,
            encode_token(t, quote).len() as int,
        ),
{
    let written = encode_token(t, quote);
    let line = written + rest;
    assert forall|j: int| 0 <= j < written.len() implies !is_separator(
        line,
        delimiter,
        quote,
        j,
    ) by {
        if t.is_quoted {
            let q = seq![quote->0];
            if 0 < j <= t.text.len() {
                assert(line.take(j) =~= q + t.text.take(j - 1));
                lemma_lone_quote(quote->0, quote);
                lemma_quote_count_concat(q, t.text.take(j - 1), quote);
                assert(quote_free(t.text.take(j - 1), quote)) by {
                    assert forall|i: int| 0 <= i < t.text.take(j - 1).len() implies !is_quote(
                        #[trigger] t.text.take(j - 1)[i],
                        quote,
                    ) by {
                        assert(t.text.take(j - 1)[i] == t.text[i]);
                    }
                }
                lemma_quote_free(t.text.take(j - 1), quote);
            } else {
                assert(is_quote(line[j], quote));
            }
        } else {
            assert(line[j] == t.text[j]);
            assert(t.text.contains(t.text[j]));
        }
    }
}

/// Tokens written in one line read back as they were.
pub proof fn lemma_split_encoded(tokens: Seq<TokenView>, delimiter: char, quote: Option<char>)
    requires
        tokens.len() > 0,
        quote != Some(delimiter),
        forall|i: int| 0 <= i < tokens.len() ==> can_encode(#[trigger] tokens[i], delimiter, quote),
    ensures
        split_spec(encode_line(tokens, delimiter, quote), delimiter, quote) == tokens,
    decreases tokens.len(),
{
    let first = encode_token(tokens[0], quote);
    lemma_token_of_encoded(tokens[0], delimiter, quote);
    if tokens.len() == 1 {
        lemma_encoded_has_no_separator(tokens[0], Seq::empty(), delimiter, quote);
        assert(first + Seq::<char>::empty() =~= first);
        lemma_split_single(first, delimiter, quote);
        assert(seq![tokens[0]] =~= tokens);
    } else {
        let rest = tokens.skip(1);
        let tail = seq![delimiter] + encode_line(rest, delimiter, quote);
        let line = encode_line(tokens, delimiter, quote);
        let k = first.len() as int;
        assert(line =~= first + tail);
        lemma_encoded_has_no_separator(tokens[0], tail, delimiter, quote);
        assert(line.take(k) =~= first);
        assert(line[k] == delimiter);
        lemma_split_at_first(line, delimiter, quote, k);
        assert(line.skip(k + 1) =~= encode_line(rest, delimiter, quote));
        assert forall|i: int| 0 <= i < rest.len() implies can_encode(
            #[trigger] rest[i],
            delimiter,
            quote,
        ) by {
            assert(rest[i] == tokens[i + 1]);
        }
        lemma_split_encoded(rest, delimiter, quote);
        assert(seq![tokens[0]] + rest =~= tokens);
    }
}

/// Cuts `chars[from..to]` into tokens.
pub(crate) fn split_chars(
    chars: &Vec<char>,
    from: usize,
    to: usize,
    delimiter: char,
    quote: Option<char>,
) -> (tokens: Vec<Token>)
    requires
        from <= to <= chars.len(),
    ensures
        tokens_of(tokens@) == split_spec(
            chars@.subrange(from as int, to as int),
            delimiter,
            quote,
        ),
{
    let ghost line = chars@.subrange(from as int, to as int);
    let mut tokens: Vec<Token> = Vec::new();
    let mut text = String::new();
    let mut in_quoted = false;
    let mut is_quoted = false;
    let mut start: usize = from;
    let mut i: usize = from;
    proof {
        assert(line.skip(0) =~= line);
        assert(tokens_of(tokens@) =~= Seq::<TokenView>::empty());
        assert(line.skip(0).take(0) =~= Seq::<char>::empty());
    }
    while i < to
        invariant
            from <= start <= i <= to <= chars.len(),
            line == chars@.subrange(from as int, to as int),
            tokens_of(tokens@) + split_spec(line.skip(start - from), delimiter, quote)
                == split_spec(line, delimiter, quote),
            separator_free(line.skip(start - from), delimiter, quote, i - start),
            text@ == unquoted(line.skip(start - from).take(i - start), quote),
            is_quoted == (quote_count(line.skip(start - from).take(i - start), quote) > 0),
            in_quoted == (quote_count(line.skip(start - from).take(i - start), quote) % 2 == 1),
        decreases to - i,
    {
        let c = chars[i];
        let ghost piece = line.skip(start - from);
        let ghost p = i - start;
        proof {
            assert(piece[p] == c);
            assert(piece.take(p + 1).drop_last() =~= piece.take(p));
            assert(piece.take(p + 1).last() == c);
        }
        let at_quote = match quote {
            Some(q) => c == q,
            None => false,
        };
        if at_quote {
            in_quoted = !in_quoted;
            is_quoted = true;
        } else if c == delimiter && !in_quoted {
            proof {
                lemma_split_at_first(piece, delimiter, quote, p);
                assert(piece.skip(p + 1) =~= line.skip(i + 1 - from));
                assert(line.skip(i + 1 - from).take(0) =~= Seq::<char>::empty());
            }
            let ghost before = tokens_of(tokens@);
            tokens.push(Token { text, is_quoted });
            proof {
                assert(tokens_of(tokens@) =~= before + seq![token_of(piece.take(p), quote)]);
                assert(tokens_of(tokens@) + split_spec(line.skip(i + 1 - from), delimiter, quote)
                    =~= before + split_spec(piece, delimiter, quote));
            }
            text = String::new();
            is_quoted = false;
            start = i + 1;
        } else {
            text.push(c);
        }
        i += 1;
    }
    proof {
        let piece = line.skip(start - from);
        assert(piece.take(i - start) =~= piece);
        lemma_split_single(piece, delimiter, quote);
    }
    let ghost before = tokens_of(tokens@);
    tokens.push(Token { text, is_quoted });
    proof {
        assert(tokens_of(tokens@) =~= before + seq![
            token_of(line.skip(start - from), quote),
        ]);
    }
    tokens
}

/// Cuts a line into tokens.
///
/// A quote mark opens or closes a quoted span and is dropped; a token in
/// which one stood is marked as quoted. A delimiter outside a quoted span
/// ends the token. The end of the line ends the last token.
pub fn split_line(line: &str, delimiter: char, quote: Option<char>) -> (tokens: Vec<Token>)
    ensures
        tokens_of(tokens@) == split_spec(line@, delimiter, quote),
{
    let chars = chars_of(line);
    assert(chars@.subrange(0, chars@.len() as int) =~= line@);
    split_chars(&chars, 0, chars.len(), delimiter, quote)
}

} // verus!
