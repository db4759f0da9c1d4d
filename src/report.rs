//! The player's raw status output, cut into lines of tokens and read.

use vstd::prelude::*;
use crate::status::{lines_to_status, snapshot_of, Song};
use crate::text::push_char;
use vstd::std_specs::iter::IteratorSpec;

verus! {

/// The text that lossy UTF-8 decoding makes of some bytes.
pub uninterp spec fn lossy_text(b: Seq<u8>) -> Seq<char>;

/// Unicode's White_Space property, which `char::is_whitespace` tests: tab to
/// carriage return, space, next line, no-break space, ogham space mark, the
/// spaces from en quad to hair space, line and paragraph separators, narrow
/// no-break space, medium mathematical space and ideographic space.
pub open spec fn white_space(c: char) -> bool {
    ('\u{9}' <= c && c <= '\u{d}') || c == ' ' || c == '\u{85}' || c == '\u{a0}' || c
        == '\u{1680}' || ('\u{2000}' <= c && c <= '\u{200a}') || c == '\u{2028}' || c
        == '\u{2029}' || c == '\u{202f}' || c == '\u{205f}' || c == '\u{3000}'
}

/// Whether the character is white space.
pub fn is_white_space(c: char) -> (r: bool)
    ensures
        r == white_space(c),
{
    ('\u{9}' <= c && c <= '\u{d}') || c == ' ' || c == '\u{85}' || c == '\u{a0}' || c
        == '\u{1680}' || ('\u{2000}' <= c && c <= '\u{200a}') || c == '\u{2028}' || c
        == '\u{2029}' || c == '\u{202f}' || c == '\u{205f}' || c == '\u{3000}'
}

/// Relies on `String::from_utf8_lossy`: the bytes decoded as UTF-8, each
/// invalid sequence replaced by U+FFFD.
#[verifier::external_body]
fn decode_lossy(b: &[u8]) -> (r: String)
    ensures
        r@ == lossy_text(b@),
{
    String::from_utf8_lossy(b).into_owned()
}

/// The characters of a text, in order.
fn chars_of(s: &str) -> (r: Vec<char>)
    ensures
        r@ == s@,
{
    broadcast use vstd::string::group_string_axioms;

    let mut it = s.chars();
    let mut out: Vec<char> = Vec::new();
    loop
        invariant
            it.remaining() == s@.skip(out@.len() as int),
            out@ == s@.take(out@.len() as int),
            out@.len() <= s@.len(),
        ensures
            out@ == s@,
        decreases s@.len() - out@.len(),
    {
        match it.next() {
            Some(c) => {
                assert(s@.skip(out@.len() as int)[0] == c);
                out.push(c);
                assert(s@.skip(out@.len() - 1).drop_first() =~= s@.skip(out@.len() as int));
                assert(out@ =~= s@.take(out@.len() as int));
            },
            None => {
                assert(out@ =~= s@);
                break;
            },
        }
    }
    out
}

/// A character that ends a token.
pub open spec fn separates(c: char) -> bool {
    c == '\n' || c == '\r' || white_space(c)
}

/// Where the cutting stands after some characters: the lines finished, the
/// tokens of the current line, the token being read, and whether the current
/// line has no character yet.
pub struct Cut {
    pub done: Seq<Seq<Seq<char>>>,
    pub line: Seq<Seq<char>>,
    pub word: Seq<char>,
    pub fresh: bool,
}

/// The tokens of a line once the token being read, if any, is added.
pub open spec fn close_word(line: Seq<Seq<char>>, word: Seq<char>) -> Seq<Seq<char>> {
    if word.len() == 0 {
        line
    } else {
        line.push(word)
    }
}

/// What one more character does to the cutting.
pub open spec fn cut_step(st: Cut, c: char) -> Cut {
    if c == '\n' {
        Cut { done: st.done.push(close_word(st.line, st.word)), line: seq![], word: seq![], fresh: true }
    } else if separates(c) {
        Cut { done: st.done, line: close_word(st.line, st.word), word: seq![], fresh: false }
    } else {
        Cut { done: st.done, line: st.line, word: st.word.push(c), fresh: false }
    }
}

/// Where the cutting stands after all of `s`, read from first to last.
pub open spec fn cut(s: Seq<char>) -> Cut
    decreases s.len(),
{
    if s.len() == 0 {
        Cut { done: seq![], line: seq![], word: seq![], fresh: true }
    } else {
        cut_step(cut(s.drop_last()), s.last())
    }
}

/// The lines of a text (cut at `\n`; a last line left empty by a final `\n`
/// is no line), each as its tokens: the runs of characters between
/// whitespace.
pub open spec fn tokens_of(s: Seq<char>) -> Seq<Seq<Seq<char>>> {
    let st = cut(s);
    if st.fresh {
        st.done
    } else {
        st.done.push(close_word(st.line, st.word))
    }
}

/// A token: one or more characters, none of which ends a token.
pub open spec fn is_token(w: Seq<char>) -> bool {
    w.len() > 0 && forall|k: int| 0 <= k < w.len() ==> !separates(#[trigger] w[k])
}

/// How many `\n` a text holds.
pub open spec fn newlines(s: Seq<char>) -> nat
    decreases s.len(),
{
    if s.len() == 0 {
        0
    } else {
        newlines(s.drop_last()) + if s.last() == '\n' {
            1nat
        } else {
            0nat
        }
    }
}

proof fn lemma_cut_shape(s: Seq<char>)
    ensures
        forall|i: int, j: int|
            0 <= i < cut(s).done.len() && 0 <= j < cut(s).done[i].len() ==> is_token(
                #[trigger] cut(s).done[i][j],
            ),
        forall|j: int| 0 <= j < cut(s).line.len() ==> is_token(#[trigger] cut(s).line[j]),
        forall|k: int| 0 <= k < cut(s).word.len() ==> !separates(#[trigger] cut(s).word[k]),
        cut(s).done.len() == newlines(s),
        cut(s).fresh == (s.len() == 0 || s.last() == '\n'),
    decreases s.len(),
{
    if s.len() > 0 {
        lemma_cut_shape(s.drop_last());
        let st = cut(s.drop_last());
        let c = s.last();
        let closed = close_word(st.line, st.word);
        assert forall|j: int| 0 <= j < closed.len() implies is_token(#[trigger] closed[j]) by {
            if j < st.line.len() {
                assert(closed[j] == st.line[j]);
            } else {
                assert(closed[j] == st.word);
            }
        }
        let next = cut(s);
        if c != '\n' && !separates(c) {
            assert forall|k: int| 0 <= k < next.word.len() implies !separates(
                #[trigger] next.word[k],
            ) by {
                if k < st.word.len() {
                    assert(next.word[k] == st.word[k]);
                }
            }
        }
        if c == '\n' {
            assert forall|i: int, j: int|
                0 <= i < next.done.len() && 0 <= j < next.done[i].len() implies is_token(
                #[trigger] next.done[i][j],
            ) by {
                if i < st.done.len() {
                    assert(next.done[i] == st.done[i]);
                } else {
                    assert(next.done[i] == closed);
                }
            }
        }
    }
}

/// What cutting a text gives: one line for each `\n`, and one more where the
/// text does not end with `\n` and is not empty; each token is non-empty and
/// holds no white space, `\r` or `\n`.
pub proof fn tokens_are_words(s: Seq<char>)
    ensures
        tokens_of(s).len() == newlines(s) + if s.len() == 0 || s.last() == '\n' {
            0nat
        } else {
            1nat
        },
        forall|i: int, j: int|
            0 <= i < tokens_of(s).len() && 0 <= j < tokens_of(s)[i].len() ==> is_token(
                #[trigger] tokens_of(s)[i][j],
            ),
{
    lemma_cut_shape(s);
    let st = cut(s);
    let closed = close_word(st.line, st.word);
    assert forall|j: int| 0 <= j < closed.len() implies is_token(#[trigger] closed[j]) by {
        if j < st.line.len() {
            assert(closed[j] == st.line[j]);
        } else {
            assert(closed[j] == st.word);
        }
    }
    if !st.fresh {
        assert forall|i: int, j: int|
            0 <= i < tokens_of(s).len() && 0 <= j < tokens_of(s)[i].len() implies is_token(
            #[trigger] tokens_of(s)[i][j],
        ) by {
            if i < st.done.len() {
                assert(tokens_of(s)[i] == st.done[i]);
            } else {
                assert(tokens_of(s)[i] == closed);
            }
        }
    }
}

/// Cuts a text into lines, and each line into its whitespace-separated tokens.
pub fn tokenize(text: &str) -> (r: Vec<Vec<String>>)
    ensures
        r.deep_view() == tokens_of(text@),
{
    let cs = chars_of(text);
    let mut done: Vec<Vec<String>> = Vec::new();
    let mut line: Vec<String> = Vec::new();
    let mut word = String::new();
    let mut fresh = true;
    let mut i: usize = 0;
    assert(text@.take(0) =~= Seq::<char>::empty());
    while i < cs.len()
        invariant
            cs@ == text@,
            i <= cs.len(),
            done.deep_view() == cut(text@.take(i as int)).done,
            line.deep_view() == cut(text@.take(i as int)).line,
            word@ == cut(text@.take(i as int)).word,
            fresh == cut(text@.take(i as int)).fresh,
        decreases cs.len() - i,
    {
        let c = cs[i];
        assert(text@.take(i + 1).drop_last() =~= text@.take(i as int));
        assert(text@.take(i + 1).last() == c);
        let ghost old_line = line.deep_view();
        let ghost old_done = done.deep_view();
        if c == '\n' || c == '\r' || is_white_space(c) {
            if word.unicode_len() > 0 {
                let w = word;
                line.push(w);
                word = String::new();
                assert(line.deep_view() =~= old_line.push(w@));
            }
            if c == '\n' {
                let l = line;
                done.push(l);
                line = Vec::new();
                assert(done.deep_view() =~= old_done.push(l.deep_view()));
                assert(line.deep_view() =~= Seq::<Seq<char>>::empty());
                fresh = true;
            } else {
                fresh = false;
            }
        } else {
            push_char(&mut word, c);
            fresh = false;
        }
        proof {
            assert(word@ =~= cut(text@.take(i + 1)).word);
        }
        i += 1;
    }
    assert(text@.take(cs.len() as int) =~= text@);
    if !fresh {
        let ghost old_line = line.deep_view();
        let ghost old_done = done.deep_view();
        if word.unicode_len() > 0 {
            let w = word;
            line.push(w);
            assert(line.deep_view() =~= old_line.push(w@));
        }
        let l = line;
        done.push(l);
        assert(done.deep_view() =~= old_done.push(l.deep_view()));
    }
    done
}

/// Reads the player's raw status output into a snapshot: the bytes decoded
/// (invalid sequences replaced), cut into token lines, and read.
pub fn cmus_status(stdout: &[u8]) -> (r: Option<Song>)
    ensures
        match r {
            Some(song) => snapshot_of(tokens_of(lossy_text(stdout@))) == Some(song@) && song.wf(),
            None => snapshot_of(tokens_of(lossy_text(stdout@))) is None,
        },
{
    let text = decode_lossy(stdout);
    let lines = tokenize(text.as_str());
    lines_to_status(lines)
}

} // verus!
