//! Text tokens of a piece of markup: what stands between tags, split where
//! ten or more spaces follow each other.

use vstd::prelude::*;
use vstd::std_specs::iter::IteratorSpec;

verus! {

/// Number of consecutive spaces at which a token ends.
pub const SPACE_RUN_SPLIT: usize = 10;

/// `String::push` of std appends one character at the end of the string and
/// leaves what was there as it was.
pub assume_specification[ String::push ](s: &mut String, ch: char)
    ensures
        final(s)@ == old(s)@.push(ch),
;

/// What the scanner knows after a prefix of the text.
pub ghost struct ScanModel {
    /// A `<` was read and no `>` after it.
    pub in_tag: bool,
    /// The tokens that are finished.
    pub tokens: Seq<Seq<char>>,
    /// The token that is being read.
    pub current: Seq<char>,
    /// How many spaces were read in a row just now.
    pub space_count: nat,
}

/// `tokens` with `current` added at the end, unless `current` is empty.
pub open spec fn spec_flush(tokens: Seq<Seq<char>>, current: Seq<char>) -> Seq<Seq<char>> {
    if current.len() > 0 {
        tokens.push(current)
    } else {
        tokens
    }
}

/// The scanner before any character.
pub open spec fn spec_scan_start() -> ScanModel {
    ScanModel { in_tag: false, tokens: Seq::empty(), current: Seq::empty(), space_count: 0 }
}

/// The scanner after one more character.
///
/// `<` ends the current token and opens a tag; `>` closes the tag; anything
/// inside a tag is skipped. Outside a tag a space joins the current token
/// (never as its first character) while fewer than ten spaces have followed
/// each other; the tenth ends the token and later ones are skipped. Any
/// other character joins the current token.
pub open spec fn spec_scan_step(s: ScanModel, c: char) -> ScanModel {
    if c == '<' {
        ScanModel {
            in_tag: true,
            tokens: spec_flush(s.tokens, s.current),
            current: Seq::empty(),
            space_count: 0,
        }
    } else if c == '>' {
        ScanModel { in_tag: false, space_count: 0, ..s }
    } else if s.in_tag {
        ScanModel { space_count: 0, ..s }
    } else if c == ' ' {
        let run = s.space_count + 1;
        if run < SPACE_RUN_SPLIT {
            ScanModel {
                current: if s.current.len() > 0 {
                    s.current.push(' ')
                } else {
                    s.current
                },
                space_count: run,
                ..s
            }
        } else if run == SPACE_RUN_SPLIT {
            ScanModel {
                tokens: spec_flush(s.tokens, s.current),
                current: Seq::empty(),
                space_count: run,
                ..s
            }
        } else {
            ScanModel { space_count: run, ..s }
        }
    } else {
        ScanModel { current: s.current.push(c), space_count: 0, ..s }
    }
}

/// The scanner after all of `html`, read first character to last.
pub open spec fn spec_scan(html: Seq<char>) -> ScanModel
    decreases html.len(),
{
    if html.len() == 0 {
        spec_scan_start()
    } else {
        spec_scan_step(spec_scan(html.drop_last()), html.last())
    }
}

/// The tokens of `html`: the finished ones, then the one still being read
/// when the text ends, if it is not empty.
pub open spec fn spec_extract_tokens(html: Seq<char>) -> Seq<Seq<char>> {
    spec_flush(spec_scan(html).tokens, spec_scan(html).current)
}

/// The character sequences of a list of strings.
pub open spec fn spec_texts(tokens: Seq<String>) -> Seq<Seq<char>> {
    tokens.map_values(|t: String| t@)
}

/// A character that no token holds: the two brackets of a tag.
pub open spec fn spec_is_bracket(c: char) -> bool {
    c == '<' || c == '>'
}

/// What holds of a token while it is read: it holds no bracket and does not
/// begin with a space.
pub open spec fn spec_clean(text: Seq<char>) -> bool {
    &&& forall|j: int| 0 <= j < text.len() ==> !spec_is_bracket(#[trigger] text[j])
    &&& text.len() > 0 ==> text[0] != ' '
}

/// What holds of a finished token: it is not empty, holds no bracket and
/// does not begin with a space.
pub open spec fn spec_token_ok(token: Seq<char>) -> bool {
    token.len() > 0 && spec_clean(token)
}

/// After any text the finished tokens are well shaped and so is the token
/// that is being read.
pub proof fn lemma_scan_shape(html: Seq<char>)
    ensures
        forall|i: int|
            0 <= i < spec_scan(html).tokens.len() ==> spec_token_ok(
                #[trigger] spec_scan(html).tokens[i],
            ),
        spec_clean(spec_scan(html).current),
    decreases html.len(),
{
    if html.len() > 0 {
        lemma_scan_shape(html.drop_last());
    }
}

/// Every token of a text is not empty, holds neither `<` nor `>`, and does
/// not begin with a space.
pub proof fn lemma_tokens_shape(html: Seq<char>)
    ensures
        forall|i: int|
            0 <= i < spec_extract_tokens(html).len() ==> spec_token_ok(
                #[trigger] spec_extract_tokens(html)[i],
            ),
{
    lemma_scan_shape(html);
}

/// Moves `current` to the end of `tokens` unless it is empty, and leaves it empty.
fn flush_token(tokens: &mut Vec<String>, current: &mut String)
    ensures
        spec_texts(final(tokens)@) == spec_flush(spec_texts(old(tokens)@), old(current)@),
        final(current)@ == Seq::<char>::empty(),
{
    if !current.as_str().is_empty() {
        let mut token = String::new();
        std::mem::swap(current, &mut token);
        tokens.push(token);
        assert(spec_texts(tokens@) =~= spec_texts(old(tokens)@).push(old(current)@));
    } else {
        assert(current@ =~= Seq::<char>::empty());
    }
}

/// Splits markup into its text tokens.
pub fn extract_tokens(html: &str) -> (tokens: Vec<String>)
    ensures
        spec_texts(tokens@) == spec_extract_tokens(html@),
        forall|i: int| 0 <= i < tokens@.len() ==> spec_token_ok(#[trigger] tokens@[i]@),
{
    let mut in_tag = false;
    let mut tokens: Vec<String> = Vec::new();
    let mut current_token = String::new();
    let mut space_count: usize = 0;
    let mut chars = html.chars();
    let ghost mut read: int = 0;
    assert(html@.take(0) =~= Seq::<char>::empty());
    assert(html@.skip(0) =~= html@);
    assert(spec_texts(tokens@) =~= Seq::<Seq<char>>::empty());
    loop
        invariant
            0 <= read <= html@.len(),
            chars.obeys_prophetic_iter_laws(),
            chars.remaining() == html@.skip(read),
            in_tag == spec_scan(html@.take(read)).in_tag,
            spec_texts(tokens@) == spec_scan(html@.take(read)).tokens,
            current_token@ == spec_scan(html@.take(read)).current,
            space_count as nat == if spec_scan(html@.take(read)).space_count <= usize::MAX {
                spec_scan(html@.take(read)).space_count
            } else {
                usize::MAX as nat
            },
        ensures
            read == html@.len(),
            spec_texts(tokens@) == spec_scan(html@.take(read)).tokens,
            current_token@ == spec_scan(html@.take(read)).current,
        decreases html@.len() - read,
    {
        let ghost before = spec_scan(html@.take(read));
        let next = chars.next();
        if next.is_none() {
            break;
        }
        let c = next.unwrap();
        proof {
            assert(c == html@[read]);
            assert(html@.skip(read).drop_first() =~= html@.skip(read + 1));
            assert(html@.take(read + 1).drop_last() =~= html@.take(read));
            assert(html@.take(read + 1).last() == c);
            assert(spec_scan(html@.take(read + 1)) == spec_scan_step(before, c));
            read = read + 1;
        }
        if c == '<' {
            in_tag = true;
            flush_token(&mut tokens, &mut current_token);
            space_count = 0;
        } else if c == '>' {
            in_tag = false;
            space_count = 0;
        } else if in_tag {
            space_count = 0;
        } else if c == ' ' {
            space_count = space_count.saturating_add(1);
            if space_count < SPACE_RUN_SPLIT {
                if !current_token.as_str().is_empty() {
                    current_token.push(' ');
                }
            } else if space_count == SPACE_RUN_SPLIT {
                flush_token(&mut tokens, &mut current_token);
            }
        } else {
            space_count = 0;
            current_token.push(c);
        }
    }
    assert(html@.take(read) =~= html@);
    flush_token(&mut tokens, &mut current_token);
    proof {
        lemma_tokens_shape(html@);
        assert forall|i: int| 0 <= i < tokens@.len() implies spec_token_ok(
            #[trigger] tokens@[i]@,
        ) by {
            assert(spec_texts(tokens@) == spec_extract_tokens(html@));
            assert(spec_texts(tokens@)[i] == tokens@[i]@);
            assert(spec_token_ok(spec_extract_tokens(html@)[i]));
        }
    }
    tokens
}

} // verus!
