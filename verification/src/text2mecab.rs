//! Text normalization: turns free-form text into the analyzer's input
//! grammar. Line-break characters are stripped, text that cannot be
//! represented is rejected, and the result must fit a fixed-size working
//! buffer together with its terminator byte.

use vstd::prelude::*;

verus! {

/// Size in bytes of the normalizer's fixed working buffer; the normalized
/// text and its terminator byte must fit in it.
pub const MAX_TEXT2MECAB_SIZE: usize = 8192;

/// How `text2mecab` fails.
#[derive(Clone, Copy, Debug, PartialEq, Eq, Structural)]
pub enum Text2MecabError {
    /// The normalized text does not fit the fixed working buffer.
    Range,
    /// The input holds a character that the normalizer rejects.
    InvalidArgument,
}

/// The characters that the normalizer strips from its input.
pub open spec fn is_line_break(c: char) -> bool {
    c == '\n' || c == '\r'
}

/// The normalized form of a text: its characters with line breaks removed,
/// in order.
pub open spec fn strip_line_breaks(s: Seq<char>) -> Seq<char> {
    s.filter(|c: char| !is_line_break(c))
}

/// Whether a text holds an embedded terminator character, which the
/// normalizer rejects.
pub open spec fn contains_nul(s: Seq<char>) -> bool {
    exists|i: int| 0 <= i < s.len() && s[i] == '\0'
}

/// Whether the normalized form of a text, encoded with its terminator byte,
/// fits the fixed working buffer.
pub open spec fn fits_working_buffer(s: Seq<char>) -> bool {
    vstd::utf8::encode_utf8(strip_line_breaks(s)).len() + 1 <= MAX_TEXT2MECAB_SIZE
}

/// Whether a text holds an embedded terminator character, decided at run
/// time.
pub fn str_contains_nul(s: &str) -> (b: bool)
    ensures
        b == contains_nul(s@),
{
    let n = s.unicode_len();
    let mut i: usize = 0;
    while i < n
        invariant
            i <= n,
            n == s@.len(),
            forall|j: int| 0 <= j < i ==> s@[j] != '\0',
        decreases n - i,
    {
        if s.get_char(i) == '\0' {
            return true;
        }
        i += 1;
    }
    false
}

/// Normalize text for analysis. Rejects text holding an embedded terminator
/// character; rejects text whose normalized form does not fit the working
/// buffer; otherwise returns exactly the input with line breaks stripped,
/// never a truncated text.
pub fn text2mecab(input: &str) -> (r: Result<String, Text2MecabError>)
    ensures
        match r {
            Ok(out) => !contains_nul(input@) && fits_working_buffer(input@) && out@
                == strip_line_breaks(input@),
            Err(Text2MecabError::InvalidArgument) => contains_nul(input@),
            Err(Text2MecabError::Range) => !contains_nul(input@) && !fits_working_buffer(input@),
        },
{
    if str_contains_nul(input) {
        return Err(Text2MecabError::InvalidArgument);
    }
    let n = input.unicode_len();
    let mut out = String::new();
    let mut k: usize = 0;
    while k < n
        invariant
            k <= n,
            n == input@.len(),
            out@ == strip_line_breaks(input@.take(k as int)),
        decreases n - k,
    {
        let c = input.get_char(k);
        proof {
            broadcast use Seq::lemma_filter_push;

            assert(input@.take(k + 1 as int) =~= input@.take(k as int).push(input@[k as int]));
            assert(input@.subrange(k as int, k + 1 as int) =~= seq![input@[k as int]]);
            assert(strip_line_breaks(input@.take(k as int)).push(c) =~= strip_line_breaks(
                input@.take(k as int),
            ) + seq![c]);
        }
        if !(c == '\n' || c == '\r') {
            let piece = input.substring_char(k, k + 1);
            out.append(piece);
        }
        k += 1;
    }
    proof {
        assert(input@.take(n as int) =~= input@);
    }
    proof {
        broadcast use vstd::slice::axiom_spec_len;

    }
    // The byte length of the normalized text, read off its encoding.
    if out.as_str().as_bytes().len() >= MAX_TEXT2MECAB_SIZE {
        return Err(Text2MecabError::Range);
    }
    Ok(out)
}

/// Normalized text never holds a line break, whatever the input was; and the
/// normalized form of the empty text is the empty text.
pub proof fn lemma_normalized_has_no_line_breaks(s: Seq<char>)
    ensures
        forall|i: int|
            0 <= i < strip_line_breaks(s).len() ==> !is_line_break(
                #[trigger] strip_line_breaks(s)[i],
            ),
        strip_line_breaks(Seq::<char>::empty()) == Seq::<char>::empty(),
{
    broadcast use vstd::seq_lib::group_filter_ensures;

    reveal(Seq::filter);
    assert forall|i: int| 0 <= i < strip_line_breaks(s).len() implies !is_line_break(
        #[trigger] strip_line_breaks(s)[i],
    ) by {
        s.lemma_filter_pred(|c: char| !is_line_break(c), i);
    }
}

} // verus!
