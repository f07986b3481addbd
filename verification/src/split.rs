//! Shell-like splitting of a command line into arguments.
//!
//! Arguments are separated by ASCII whitespace. An argument may be wrapped in
//! single or double quotes, inside which whitespace is kept and a backslash
//! escapes one of `'`, `"`, `\`, line feed, carriage return, tab or NUL.
use vstd::prelude::*;
use crate::text::{ascii_lower, is_ascii_ws, is_ascii_whitespace, chars_of, push_char};

verus! {

/// Where the splitter currently is.
#[derive(Clone, Copy, PartialEq, Eq, Structural, Debug)]
pub enum SplitMode {
    Normal,
    QuoteDouble,
    QuoteSingle,
}

/// Why a command line could not be split.
#[derive(Clone, Copy, PartialEq, Eq, Structural, Debug)]
pub enum SplitError {
    IllegalCharacter(char),
    IllegalEscapeCodeSequence(char),
    UnexpectedQuote,
    UnexpectedEndOfLineInEscapeSequence,
    UnexpectedEndOfLineInQuote,
}

/// Printable ASCII, or ASCII whitespace.
pub open spec fn is_legal(c: char) -> bool {
    (' ' <= c && c < '\x7f') || is_ascii_ws(c)
}

/// The characters that may follow a backslash inside quotes (each stands for itself).
pub open spec fn is_escapable(c: char) -> bool {
    c == '\'' || c == '"' || c == '\\' || c == '\n' || c == '\r' || c == '\t' || c == '\0'
}

pub open spec fn quote_of(mode: SplitMode) -> char {
    match mode {
        SplitMode::QuoteSingle => '\'',
        _ => '"',
    }
}

/// `args` with `arg` appended when `arg` is not empty.
pub open spec fn flush(args: Seq<Seq<char>>, arg: Seq<char>) -> Seq<Seq<char>> {
    if arg.len() > 0 { args.push(arg) } else { args }
}

/// The result of splitting `input` from position `i`, given the mode, the
/// arguments completed so far and the argument being built.
pub open spec fn split_from(
    input: Seq<char>,
    i: int,
    mode: SplitMode,
    args: Seq<Seq<char>>,
    arg: Seq<char>,
) -> Result<Seq<Seq<char>>, SplitError>
    decreases input.len() - i,
{
    if 0 <= i < input.len() {
        let ch = input[i];
        if !is_legal(ch) {
            Err(SplitError::IllegalCharacter(ch))
        } else {
            match mode {
                SplitMode::Normal => {
                    if is_ascii_ws(ch) {
                        split_from(input, i + 1, SplitMode::Normal, flush(args, arg), seq![])
                    } else if arg.len() == 0 && ch == '"' {
                        split_from(input, i + 1, SplitMode::QuoteDouble, args, arg)
                    } else if arg.len() == 0 && ch == '\'' {
                        split_from(input, i + 1, SplitMode::QuoteSingle, args, arg)
                    } else if ch == '"' || ch == '\'' {
                        Err(SplitError::UnexpectedQuote)
                    } else {
                        split_from(input, i + 1, SplitMode::Normal, args, arg.push(ch))
                    }
                },
                _ => {
                    if ch == '\\' {
                        if i + 1 >= input.len() {
                            Err(SplitError::UnexpectedEndOfLineInEscapeSequence)
                        } else if is_escapable(input[i + 1]) {
                            split_from(input, i + 2, mode, args, arg.push(input[i + 1]))
                        } else {
                            Err(SplitError::IllegalEscapeCodeSequence(input[i + 1]))
                        }
                    } else if ch == quote_of(mode) {
                        split_from(input, i + 1, SplitMode::Normal, args.push(arg), seq![])
                    } else {
                        split_from(input, i + 1, mode, args, arg.push(ch))
                    }
                },
            }
        }
    } else {
        match mode {
            SplitMode::Normal => Ok(flush(args, arg)),
            _ => Err(SplitError::UnexpectedEndOfLineInQuote),
        }
    }
}

/// The arguments of a command line, or why it has none.
pub open spec fn split_spec(input: Seq<char>) -> Result<Seq<Seq<char>>, SplitError> {
    split_from(input, 0, SplitMode::Normal, seq![], seq![])
}

pub open spec fn strings_view(v: Seq<String>) -> Seq<Seq<char>> {
    v.map_values(|s: String| s@)
}

/// A character that needs neither quoting nor escaping.
pub open spec fn is_plain_char(c: char) -> bool {
    is_legal(c) && !is_ascii_ws(c) && c != '"' && c != '\''
}

pub open spec fn is_plain_word(w: Seq<char>) -> bool {
    w.len() > 0 && forall|k: int| 0 <= k < w.len() ==> is_plain_char(#[trigger] w[k])
}

/// Words joined by single spaces.
pub open spec fn join_words(ws: Seq<Seq<char>>) -> Seq<char>
    decreases ws.len(),
{
    if ws.len() == 0 {
        seq![]
    } else if ws.len() == 1 {
        ws[0]
    } else {
        ws[0] + seq![' '] + join_words(ws.drop_first())
    }
}

proof fn lemma_split_word(input: Seq<char>, i: int, args: Seq<Seq<char>>, arg: Seq<char>, w: Seq<char>)
    requires
        0 <= i,
        i + w.len() <= input.len(),
        input.subrange(i, i + w.len()) == w,
        forall|k: int| 0 <= k < w.len() ==> is_plain_char(#[trigger] w[k]),
    ensures
        split_from(input, i, SplitMode::Normal, args, arg)
            == split_from(input, i + w.len(), SplitMode::Normal, args, arg + w),
    decreases w.len(),
{
    if w.len() == 0 {
        assert(arg + w =~= arg);
    } else {
        assert(input[i] == w[0]);
        assert(is_plain_char(w[0]));
        let rest = w.drop_first();
        assert(input.subrange(i + 1, i + 1 + rest.len()) =~= rest);
        assert forall|k: int| 0 <= k < rest.len() implies is_plain_char(#[trigger] rest[k]) by {
            assert(rest[k] == w[k + 1]);
        }
        lemma_split_word(input, i + 1, args, arg.push(w[0]), rest);
        assert(arg.push(w[0]) + rest =~= arg + w);
    }
}

proof fn lemma_split_join(input: Seq<char>, i: int, args: Seq<Seq<char>>, ws: Seq<Seq<char>>)
    requires
        0 <= i <= input.len(),
        input.subrange(i, input.len() as int) == join_words(ws),
        forall|k: int| 0 <= k < ws.len() ==> is_plain_word(#[trigger] ws[k]),
    ensures
        split_from(input, i, SplitMode::Normal, args, seq![]) == Ok::<Seq<Seq<char>>, SplitError>(args + ws),
    decreases ws.len(),
{
    if ws.len() == 0 {
        assert(i == input.len());
        assert(args + ws =~= args);
        assert(flush(args, seq![]) == args);
    } else {
        let w = ws[0];
        assert(is_plain_word(w));
        if ws.len() == 1 {
            assert(input.subrange(i, i + w.len()) =~= w);
            lemma_split_word(input, i, args, seq![], w);
            assert(seq![] + w =~= w);
            assert(args + ws =~= args.push(w));
        } else {
            let rest = ws.drop_first();
            let whole = input.subrange(i, input.len() as int);
            assert(whole == w + seq![' '] + join_words(rest));
            assert(whole.len() == w.len() + 1 + join_words(rest).len());
            assert(whole.len() == input.len() - i);
            assert(input.subrange(i, i + w.len()) =~= whole.subrange(0, w.len() as int));
            assert(input.subrange(i, i + w.len()) =~= w);
            lemma_split_word(input, i, args, seq![], w);
            assert(seq![] + w =~= w);
            let j = i + w.len();
            assert(input[j] == whole[w.len() as int]);
            assert(input[j] == ' ');
            assert forall|k: int| 0 <= k < join_words(rest).len()
                implies input[j + 1 + k] == #[trigger] join_words(rest)[k] by {
                assert(input[j + 1 + k] == whole[w.len() + 1 + k]);
            }
            assert(input.subrange(j + 1, input.len() as int) =~= join_words(rest));
            assert forall|k: int| 0 <= k < rest.len() implies is_plain_word(#[trigger] rest[k]) by {
                assert(rest[k] == ws[k + 1]);
            }
            lemma_split_join(input, j + 1, args.push(w), rest);
            assert(args.push(w) + rest =~= args + ws);
        }
    }
}

/// Splitting words that need no quoting, joined by single spaces, gives the
/// words back.
pub proof fn law_split_join_round_trip(ws: Seq<Seq<char>>)
    requires
        forall|k: int| 0 <= k < ws.len() ==> is_plain_word(#[trigger] ws[k]),
    ensures
        split_spec(join_words(ws)) == Ok::<Seq<Seq<char>>, SplitError>(ws),
{
    let input = join_words(ws);
    assert(input.subrange(0, input.len() as int) =~= input);
    lemma_split_join(input, 0, seq![], ws);
    assert(Seq::<Seq<char>>::empty() + ws =~= ws);
}

/// The words of `input[i..]` separated by ASCII whitespace, appended to
/// `args` after the word `arg` being built (as `str::split_ascii_whitespace`
/// gives them: no empty words).
pub open spec fn ascii_words_from(input: Seq<char>, i: int, args: Seq<Seq<char>>, arg: Seq<char>) -> Seq<Seq<char>>
    decreases input.len() - i,
{
    if 0 <= i < input.len() {
        if is_ascii_ws(input[i]) {
            ascii_words_from(input, i + 1, flush(args, arg), seq![])
        } else {
            ascii_words_from(input, i + 1, args, arg.push(input[i]))
        }
    } else {
        flush(args, arg)
    }
}

/// The words of `input` separated by ASCII whitespace.
pub open spec fn ascii_words(input: Seq<char>) -> Seq<Seq<char>> {
    ascii_words_from(input, 0, seq![], seq![])
}

/// The first character of `input[i..]` that is neither printable ASCII nor
/// ASCII whitespace.
pub open spec fn first_illegal_from(input: Seq<char>, i: int) -> Option<char>
    decreases input.len() - i,
{
    if 0 <= i < input.len() {
        if !is_legal(input[i]) { Some(input[i]) } else { first_illegal_from(input, i + 1) }
    } else {
        None
    }
}

proof fn lemma_plain_split_from(input: Seq<char>, i: int, args: Seq<Seq<char>>, arg: Seq<char>)
    requires
        0 <= i,
        forall|k: int| 0 <= k < input.len() ==> #[trigger] input[k] != '"' && input[k] != '\'',
    ensures
        split_from(input, i, SplitMode::Normal, args, arg) == match first_illegal_from(input, i) {
            Some(c) => Err::<Seq<Seq<char>>, SplitError>(SplitError::IllegalCharacter(c)),
            None => Ok(ascii_words_from(input, i, args, arg)),
        },
    decreases input.len() - i,
{
    if i < input.len() {
        let ch = input[i];
        if is_legal(ch) {
            if is_ascii_ws(ch) {
                lemma_plain_split_from(input, i + 1, flush(args, arg), seq![]);
            } else {
                lemma_plain_split_from(input, i + 1, args, arg.push(ch));
            }
        }
    }
}

/// A command line without quotes splits as `str::split_ascii_whitespace`
/// splits it, unless it holds a character that is neither printable ASCII
/// nor ASCII whitespace, and then it fails on the first such character.
pub proof fn law_quote_free_input_splits_on_whitespace(input: Seq<char>)
    requires forall|k: int| 0 <= k < input.len() ==> #[trigger] input[k] != '"' && input[k] != '\'',
    ensures
        split_spec(input) == match first_illegal_from(input, 0) {
            Some(c) => Err::<Seq<Seq<char>>, SplitError>(SplitError::IllegalCharacter(c)),
            None => Ok(ascii_words(input)),
        },
{
    lemma_plain_split_from(input, 0, seq![], seq![]);
}

/// A character that stands for itself between quotes.
pub open spec fn is_quotable_char(c: char) -> bool {
    is_legal(c) && c != '"' && c != '\'' && c != '\\'
}

proof fn lemma_split_quoted(input: Seq<char>, i: int, mode: SplitMode, args: Seq<Seq<char>>, arg: Seq<char>)
    requires
        mode != SplitMode::Normal,
        0 <= i < input.len(),
        input[input.len() - 1] == quote_of(mode),
        forall|k: int| i <= k < input.len() - 1 ==> is_quotable_char(#[trigger] input[k]),
    ensures
        split_from(input, i, mode, args, arg)
            == Ok::<Seq<Seq<char>>, SplitError>(args.push(arg + input.subrange(i, input.len() - 1))),
    decreases input.len() - i,
{
    let n = input.len() - 1;
    if i == n {
        assert(arg + input.subrange(i, n) =~= arg);
        let q = quote_of(mode);
        assert(q == '"' || q == '\'');
        assert(is_legal(input[i]));
        assert(input[i] != '\\');
        assert(flush(args.push(arg), seq![]) == args.push(arg));
        assert(split_from(input, i + 1, SplitMode::Normal, args.push(arg), seq![])
            == Ok::<Seq<Seq<char>>, SplitError>(args.push(arg)));
    } else {
        let ch = input[i];
        assert(is_quotable_char(ch));
        lemma_split_quoted(input, i + 1, mode, args, arg.push(ch));
        assert(arg.push(ch) + input.subrange(i + 1, n) =~= arg + input.subrange(i, n));
    }
}

/// Quoting keeps an argument whole: any text of printable ASCII and ASCII
/// whitespace without quotes or backslashes, wrapped in single or in double
/// quotes, splits into exactly that one argument, whitespace included.
pub proof fn law_quoted_argument_round_trip(w: Seq<char>)
    requires forall|k: int| 0 <= k < w.len() ==> is_quotable_char(#[trigger] w[k]),
    ensures
        split_spec(seq!['\''] + w + seq!['\'']) == Ok::<Seq<Seq<char>>, SplitError>(seq![w]),
        split_spec(seq!['"'] + w + seq!['"']) == Ok::<Seq<Seq<char>>, SplitError>(seq![w]),
{
    let single = seq!['\''] + w + seq!['\''];
    let double = seq!['"'] + w + seq!['"'];
    assert forall|k: int| 1 <= k < single.len() - 1 implies is_quotable_char(#[trigger] single[k]) by {
        assert(single[k] == w[k - 1]);
    }
    assert forall|k: int| 1 <= k < double.len() - 1 implies is_quotable_char(#[trigger] double[k]) by {
        assert(double[k] == w[k - 1]);
    }
    assert(is_legal(single[0]));
    assert(is_legal(double[0]));
    lemma_split_quoted(single, 1, SplitMode::QuoteSingle, seq![], seq![]);
    lemma_split_quoted(double, 1, SplitMode::QuoteDouble, seq![], seq![]);
    assert(Seq::<char>::empty() + single.subrange(1, single.len() - 1) =~= w);
    assert(Seq::<char>::empty() + double.subrange(1, double.len() - 1) =~= w);
    assert(Seq::<Seq<char>>::empty().push(w) =~= seq![w]);
}

proof fn lemma_split_words_then(input: Seq<char>, i: int, args: Seq<Seq<char>>, ws: Seq<Seq<char>>)
    requires
        0 <= i,
        ws.len() > 0,
        i + join_words(ws).len() < input.len(),
        input.subrange(i, i + join_words(ws).len()) == join_words(ws),
        input[i + join_words(ws).len()] == ' ',
        forall|k: int| 0 <= k < ws.len() ==> is_plain_word(#[trigger] ws[k]),
    ensures
        split_from(input, i, SplitMode::Normal, args, seq![])
            == split_from(input, i + join_words(ws).len() + 1, SplitMode::Normal, args + ws, seq![]),
    decreases ws.len(),
{
    let w = ws[0];
    assert(is_plain_word(w));
    if ws.len() == 1 {
        assert(input.subrange(i, i + w.len()) =~= w);
        lemma_split_word(input, i, args, seq![], w);
        assert(seq![] + w =~= w);
        assert(args + ws =~= args.push(w));
        assert(is_legal(' '));
    } else {
        let rest = ws.drop_first();
        let jw = join_words(ws);
        assert(jw == w + seq![' '] + join_words(rest));
        assert(input.subrange(i, i + w.len()) =~= jw.subrange(0, w.len() as int));
        assert(input.subrange(i, i + w.len()) =~= w);
        lemma_split_word(input, i, args, seq![], w);
        assert(seq![] + w =~= w);
        let j = i + w.len();
        assert(input[j] == jw[w.len() as int]);
        assert(input[j] == ' ');
        assert(is_legal(' '));
        assert forall|k: int| 0 <= k < join_words(rest).len()
            implies input[j + 1 + k] == #[trigger] join_words(rest)[k] by {
            assert(input[j + 1 + k] == jw[w.len() + 1 + k]);
        }
        assert(input.subrange(j + 1, j + 1 + join_words(rest).len()) =~= join_words(rest));
        assert forall|k: int| 0 <= k < rest.len() implies is_plain_word(#[trigger] rest[k]) by {
            assert(rest[k] == ws[k + 1]);
        }
        lemma_split_words_then(input, j + 1, args.push(w), rest);
        assert(args.push(w) + rest =~= args + ws);
    }
}

/// A quoted argument after plain words keeps its whitespace: words that need
/// no quoting, each followed by a space, and then a text of printable ASCII
/// and ASCII whitespace without quotes or backslashes in single or double
/// quotes, split into those words and then that text as one argument.
pub proof fn law_words_then_quoted_argument(ws: Seq<Seq<char>>, w: Seq<char>, quote: char)
    requires
        ws.len() > 0,
        forall|k: int| 0 <= k < ws.len() ==> is_plain_word(#[trigger] ws[k]),
        forall|k: int| 0 <= k < w.len() ==> is_quotable_char(#[trigger] w[k]),
        quote == '\'' || quote == '"',
    ensures
        split_spec(join_words(ws) + seq![' ', quote] + w + seq![quote])
            == Ok::<Seq<Seq<char>>, SplitError>(ws.push(w)),
{
    let head = join_words(ws);
    let input = head + seq![' ', quote] + w + seq![quote];
    let n: int = head.len() as int;
    assert(input.subrange(0, n) =~= head);
    assert(input[n] == ' ');
    lemma_split_words_then(input, 0, seq![], ws);
    assert(Seq::<Seq<char>>::empty() + ws =~= ws);
    assert(input[n + 1] == quote);
    assert(is_legal(quote));
    let mode = if quote == '\'' { SplitMode::QuoteSingle } else { SplitMode::QuoteDouble };
    assert(split_from(input, n + 1, SplitMode::Normal, ws, seq![])
        == split_from(input, n + 2, mode, ws, seq![]));
    assert forall|k: int| n + 2 <= k < input.len() - 1 implies is_quotable_char(#[trigger] input[k]) by {
        assert(input[k] == w[k - n - 2]);
    }
    lemma_split_quoted(input, n + 2, mode, ws, seq![]);
    assert(Seq::<char>::empty() + input.subrange(n + 2, input.len() - 1) =~= w);
}

fn is_legal_char(ch: char) -> (r: bool)
    ensures r == is_legal(ch),
{
    (' ' <= ch && ch < '\x7f') || is_ascii_whitespace(ch)
}

fn is_escapable_char(ch: char) -> (r: bool)
    ensures r == is_escapable(ch),
{
    ch == '\'' || ch == '"' || ch == '\\' || ch == '\n' || ch == '\r' || ch == '\t' || ch == '\0'
}

fn push_arg(args: &mut Vec<String>, arg: String)
    ensures strings_view(final(args)@) == strings_view(old(args)@).push(arg@),
{
    args.push(arg);
    assert(strings_view(args@) =~= strings_view(old(args)@).push(arg@));
}

/// Splits a command line into its arguments, as `split_spec` describes.
pub fn split_command_line(input: &str) -> (r: Result<Vec<String>, SplitError>)
    ensures
        match r {
            Ok(args) => split_spec(input@) == Ok::<Seq<Seq<char>>, SplitError>(strings_view(args@)),
            Err(e) => split_spec(input@) == Err::<Seq<Seq<char>>, SplitError>(e),
        },
{
    let chars = chars_of(input);
    let n = chars.len();
    let mut mode = SplitMode::Normal;
    let mut args: Vec<String> = Vec::new();
    let mut arg = String::new();
    let mut i: usize = 0;
    assert(strings_view(args@) =~= Seq::<Seq<char>>::empty());
    while i < n
        invariant
            n == chars@.len(),
            chars@ == input@,
            i <= n,
            split_spec(input@) == split_from(input@, i as int, mode, strings_view(args@), arg@),
        decreases n - i,
    {
        let ch = chars[i];
        if !is_legal_char(ch) {
            return Err(SplitError::IllegalCharacter(ch));
        }
        match mode {
            SplitMode::Normal => {
                if is_ascii_whitespace(ch) {
                    let taken = arg;
                    arg = String::new();
                    if !taken.as_str().is_empty() {
                        push_arg(&mut args, taken);
                    }
                } else if arg.as_str().is_empty() && ch == '"' {
                    mode = SplitMode::QuoteDouble;
                } else if arg.as_str().is_empty() && ch == '\'' {
                    mode = SplitMode::QuoteSingle;
                } else if ch == '"' || ch == '\'' {
                    return Err(SplitError::UnexpectedQuote);
                } else {
                    push_char(&mut arg, ch);
                }
                i = i + 1;
            },
            _ => {
                let quote = match mode { SplitMode::QuoteSingle => '\'', _ => '"' };
                if ch == '\\' {
                    if i + 1 >= n {
                        return Err(SplitError::UnexpectedEndOfLineInEscapeSequence);
                    }
                    let next = chars[i + 1];
                    if !is_escapable_char(next) {
                        return Err(SplitError::IllegalEscapeCodeSequence(next));
                    }
                    push_char(&mut arg, next);
                    i = i + 2;
                } else if ch == quote {
                    let taken = arg;
                    arg = String::new();
                    push_arg(&mut args, taken);
                    mode = SplitMode::Normal;
                    i = i + 1;
                } else {
                    push_char(&mut arg, ch);
                    i = i + 1;
                }
            },
        }
    }
    if !arg.as_str().is_empty() {
        push_arg(&mut args, arg);
    }
    match mode {
        SplitMode::Normal => Ok(args),
        _ => Err(SplitError::UnexpectedEndOfLineInQuote),
    }
}

} // verus!
