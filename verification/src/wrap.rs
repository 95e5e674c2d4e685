//! Greedy monospace line wrapping.
//!
//! Content is split on literal newlines into paragraphs; each paragraph is
//! split into whitespace-separated tokens and wrapped first-fit into lines of
//! at most `m` characters; a token longer than a whole line is hard-broken
//! into chunks of `m` characters.

use vstd::prelude::*;

use crate::text::chars_of;
use crate::text::string_of;

verus! {

/// Whitespace that separates tokens inside a paragraph. Newlines never occur
/// inside a paragraph, since paragraphs are split on them first.
pub open spec fn is_wrap_space_v(c: char) -> bool {
    c == ' ' || c == '\t' || c == '\r' || c == '\x0b' || c == '\x0c'
}

pub fn is_wrap_space(c: char) -> (r: bool)
    ensures
        r == is_wrap_space_v(c),
{
    match c {
        ' ' | '\t' | '\r' | '\x0b' | '\x0c' => true,
        _ => false,
    }
}

/// Split on literal newline characters. Always yields at least one piece;
/// a trailing newline yields a trailing empty piece.
pub open spec fn split_paragraphs_v(text: Seq<char>) -> Seq<Seq<char>>
    decreases text.len(),
{
    if text.len() == 0 {
        seq![Seq::<char>::empty()]
    } else if text[0] == '\n' {
        seq![Seq::<char>::empty()] + split_paragraphs_v(text.skip(1))
    } else {
        let rest = split_paragraphs_v(text.skip(1));
        seq![seq![text[0]] + rest[0]] + rest.skip(1)
    }
}

pub proof fn lemma_split_paragraphs_len(text: Seq<char>)
    ensures
        split_paragraphs_v(text).len() >= 1,
    decreases text.len(),
{
    if text.len() == 0 {
    } else if text[0] == '\n' {
        lemma_split_paragraphs_len(text.skip(1));
    } else {
        lemma_split_paragraphs_len(text.skip(1));
    }
}

/// Whitespace-separated tokens: the maximal runs of non-whitespace characters.
pub open spec fn tokens_v(s: Seq<char>) -> Seq<Seq<char>>
    decreases s.len(),
{
    if s.len() == 0 {
        Seq::<Seq<char>>::empty()
    } else if is_wrap_space_v(s[0]) {
        tokens_v(s.skip(1))
    } else if s.len() > 1 && !is_wrap_space_v(s[1]) {
        let rest = tokens_v(s.skip(1));
        seq![seq![s[0]] + rest[0]] + rest.skip(1)
    } else {
        seq![seq![s[0]]] + tokens_v(s.skip(1))
    }
}

/// A nonempty whitespace-free run followed by whitespace (or the end) is one
/// whole token.
pub proof fn lemma_tokens_word(w: Seq<char>, y: Seq<char>)
    requires
        w.len() >= 1,
        forall|i: int| 0 <= i < w.len() ==> !is_wrap_space_v(w[i]),
        y.len() == 0 || is_wrap_space_v(y[0]),
    ensures
        tokens_v(w + y) == seq![w] + tokens_v(y),
    decreases w.len(),
{
    let s = w + y;
    assert(s[0] == w[0]);
    assert(!is_wrap_space_v(s[0]));
    if w.len() == 1 {
        assert(s.skip(1) =~= y);
        if s.len() > 1 && !is_wrap_space_v(s[1]) {
            assert(s[1] == y[0]);
            assert(false);
        }
        assert(tokens_v(s) == seq![seq![s[0]]] + tokens_v(y));
        assert(seq![s[0]] =~= w);
    } else {
        let w1 = w.skip(1);
        lemma_tokens_word(w1, y);
        assert(s.skip(1) =~= w1 + y);
        assert(s.len() > 1);
        assert(s[1] == w[1]);
        assert(!is_wrap_space_v(s[1]));
        let rest = tokens_v(s.skip(1));
        assert(rest == seq![w1] + tokens_v(y));
        assert(rest[0] == w1);
        assert(tokens_v(s) == seq![seq![s[0]] + rest[0]] + rest.skip(1));
        assert(seq![s[0]] + rest[0] =~= w);
        assert(rest.skip(1) =~= tokens_v(y));
    }
}

/// Hard-break a token into chunks of `m` characters; the last chunk may be
/// shorter.
pub open spec fn chunks_v(w: Seq<char>, m: nat) -> Seq<Seq<char>>
    decreases w.len(),
{
    if m == 0 || w.len() == 0 {
        Seq::<Seq<char>>::empty()
    } else if w.len() <= m {
        seq![w]
    } else {
        seq![w.take(m as int)] + chunks_v(w.skip(m as int), m)
    }
}

/// The number of chunks is the length of the word divided by `m`, rounded up.
pub proof fn lemma_chunks_len(w: Seq<char>, m: nat)
    requires
        m >= 1,
        w.len() >= 1,
    ensures
        chunks_v(w, m).len() == (w.len() + m - 1) / (m as int),
    decreases w.len(),
{
    if w.len() <= m {
        assert((w.len() + m - 1) / (m as int) == 1) by (nonlinear_arith)
            requires 1 <= w.len() <= m;
    } else {
        lemma_chunks_len(w.skip(m as int), m);
        assert((w.len() + m - 1) / (m as int) == 1 + ((w.len() - m) + m - 1) / (m as int))
            by (nonlinear_arith)
            requires m >= 1 && w.len() > m;
    }
}

/// Greedy first-fit wrapping of the tokens `words[i..]`, with `buf` holding
/// the (possibly empty) line currently being filled.
pub open spec fn wrap_words_v(words: Seq<Seq<char>>, m: nat, i: int, buf: Seq<char>) -> Seq<
    Seq<char>,
>
    decreases words.len() - i,
{
    if i < 0 || i >= words.len() {
        if buf.len() > 0 {
            seq![buf]
        } else {
            Seq::<Seq<char>>::empty()
        }
    } else {
        let w = words[i];
        if buf.len() == 0 {
            if w.len() > m {
                chunks_v(w, m) + wrap_words_v(words, m, i + 1, Seq::<char>::empty())
            } else {
                wrap_words_v(words, m, i + 1, w)
            }
        } else if buf.len() + 1 + w.len() <= m {
            wrap_words_v(words, m, i + 1, buf + seq![' '] + w)
        } else {
            seq![buf] + (if w.len() > m {
                chunks_v(w, m) + wrap_words_v(words, m, i + 1, Seq::<char>::empty())
            } else {
                wrap_words_v(words, m, i + 1, w)
            })
        }
    }
}

/// Wrap one paragraph: an empty or all-whitespace paragraph becomes a single
/// empty line.
pub open spec fn wrap_paragraph_v(para: Seq<char>, m: nat) -> Seq<Seq<char>> {
    if para.len() == 0 {
        seq![Seq::<char>::empty()]
    } else if tokens_v(para).len() == 0 {
        seq![Seq::<char>::empty()]
    } else {
        wrap_words_v(tokens_v(para), m, 0, Seq::<char>::empty())
    }
}

/// Concatenation of the wrapped lines of the paragraphs `paras[i..]`.
pub open spec fn wrap_paras_v(paras: Seq<Seq<char>>, m: nat, i: int) -> Seq<Seq<char>>
    decreases paras.len() - i,
{
    if i < 0 || i >= paras.len() {
        Seq::<Seq<char>>::empty()
    } else {
        wrap_paragraph_v(paras[i], m) + wrap_paras_v(paras, m, i + 1)
    }
}

/// The whole wrapping computation: paragraphs, tokens, greedy fill. A zero
/// character limit returns the text as a single unwrapped line; empty text
/// yields no lines at all.
pub open spec fn wrap_text_v(text: Seq<char>, m: nat) -> Seq<Seq<char>> {
    if m == 0 {
        seq![text]
    } else if text.len() == 0 {
        Seq::<Seq<char>>::empty()
    } else {
        let lines = wrap_paras_v(split_paragraphs_v(text), m, 0);
        if lines.len() == 0 {
            seq![Seq::<char>::empty()]
        } else {
            lines
        }
    }
}

/// The character sequences held by a vector of character vectors.
pub open spec fn char_views(v: Seq<Vec<char>>) -> Seq<Seq<char>> {
    v.map_values(|x: Vec<char>| x@)
}

/// The character sequences held by a vector of strings.
pub open spec fn string_views(v: Seq<String>) -> Seq<Seq<char>> {
    v.map_values(|s: String| s@)
}

/// Copy of `w[a..b]`.
fn sub_vec(w: &Vec<char>, a: usize, b: usize) -> (r: Vec<char>)
    requires
        a <= b <= w@.len(),
    ensures
        r@ == w@.subrange(a as int, b as int),
{
    let mut r: Vec<char> = Vec::new();
    let mut k: usize = a;
    while k < b
        invariant
            a <= k <= b <= w@.len(),
            r@ == w@.subrange(a as int, k as int),
        decreases b - k,
    {
        r.push(w[k]);
        k = k + 1;
        proof {
            assert(r@ =~= w@.subrange(a as int, k as int));
        }
    }
    r
}

/// Append all of `w` to `buf`.
fn extend_chars(buf: &mut Vec<char>, w: &Vec<char>)
    ensures
        final(buf)@ == old(buf)@ + w@,
{
    let mut k: usize = 0;
    while k < w.len()
        invariant
            0 <= k <= w@.len(),
            buf@ == old(buf)@ + w@.take(k as int),
        decreases w@.len() - k,
    {
        buf.push(w[k]);
        k = k + 1;
        proof {
            assert(buf@ =~= old(buf)@ + w@.take(k as int));
        }
    }
    proof {
        assert(buf@ =~= old(buf)@ + w@);
    }
}

fn split_paragraphs(chars: &Vec<char>) -> (out: Vec<Vec<char>>)
    ensures
        char_views(out@) == split_paragraphs_v(chars@),
{
    let text = Ghost(chars@);
    let mut out: Vec<Vec<char>> = Vec::new();
    let mut buf: Vec<char> = Vec::new();
    let mut j: usize = 0;
    proof {
        lemma_split_paragraphs_len(text@);
        assert(text@.skip(0) =~= text@);
        assert(char_views(out@) + seq![buf@ + split_paragraphs_v(text@)[0]]
            + split_paragraphs_v(text@).skip(1) =~= split_paragraphs_v(text@));
    }
    while j < chars.len()
        invariant
            chars@ == text@,
            0 <= j <= text@.len(),
            split_paragraphs_v(text@) == char_views(out@) + seq![
                buf@ + split_paragraphs_v(text@.skip(j as int))[0],
            ] + split_paragraphs_v(text@.skip(j as int)).skip(1),
        decreases text@.len() - j,
    {
        let ghost rem = text@.skip(j as int);
        let ghost rem1 = text@.skip(j as int + 1);
        proof {
            assert(rem.len() > 0);
            assert(rem[0] == text@[j as int]);
            assert(rem.skip(1) =~= rem1);
        }
        let c = chars[j];
        let ghost rest = split_paragraphs_v(rem1);
        if c == '\n' {
            proof {
                lemma_split_paragraphs_len(rem1);
                assert(split_paragraphs_v(rem) == seq![Seq::<char>::empty()] + rest);
                assert(split_paragraphs_v(rem)[0] =~= Seq::<char>::empty());
                assert(split_paragraphs_v(rem).skip(1) =~= rest);
                assert(buf@ + Seq::<char>::empty() =~= buf@);
            }
            let ghost old_out = out@;
            let ghost bv = buf@;
            out.push(buf);
            buf = Vec::new();
            proof {
                assert(char_views(out@) =~= char_views(old_out).push(bv));
                assert(buf@ + rest[0] =~= rest[0]);
                assert(char_views(out@) + seq![buf@ + rest[0]] + rest.skip(1)
                    =~= char_views(old_out) + seq![bv + split_paragraphs_v(rem)[0]]
                    + split_paragraphs_v(rem).skip(1));
            }
        } else {
            proof {
                assert(split_paragraphs_v(rem) == seq![seq![rem[0]] + rest[0]] + rest.skip(1));
                assert(split_paragraphs_v(rem)[0] == seq![c] + rest[0]);
                assert(split_paragraphs_v(rem).skip(1) =~= rest.skip(1));
            }
            let ghost old_buf = buf@;
            buf.push(c);
            proof {
                assert(buf@ + rest[0] =~= old_buf + (seq![c] + rest[0]));
                assert(char_views(out@) + seq![buf@ + rest[0]] + rest.skip(1)
                    =~= char_views(out@) + seq![old_buf + split_paragraphs_v(rem)[0]]
                    + split_paragraphs_v(rem).skip(1));
            }
        }
        j = j + 1;
        proof {
            assert(text@.skip(j as int) =~= rem1);
        }
    }
    proof {
        let rem = text@.skip(j as int);
        assert(rem =~= Seq::<char>::empty());
        assert(split_paragraphs_v(rem) == seq![Seq::<char>::empty()]);
        assert(buf@ + Seq::<char>::empty() =~= buf@);
        assert(split_paragraphs_v(rem).skip(1) =~= Seq::<Seq<char>>::empty());
    }
    let ghost old_out = out@;
    out.push(buf);
    proof {
        assert(char_views(out@) =~= char_views(old_out).push(out@[out@.len() - 1]@));
        assert(char_views(out@) =~= split_paragraphs_v(text@));
    }
    out
}

fn tokens_of(para: &Vec<char>) -> (out: Vec<Vec<char>>)
    ensures
        char_views(out@) == tokens_v(para@),
{
    let text = Ghost(para@);
    let mut out: Vec<Vec<char>> = Vec::new();
    let mut buf: Vec<char> = Vec::new();
    let mut j: usize = 0;
    proof {
        assert(text@.skip(0) =~= text@);
        assert(buf@ + text@ =~= text@);
        assert(char_views(out@) + tokens_v(text@) =~= tokens_v(text@));
    }
    while j < para.len()
        invariant
            para@ == text@,
            0 <= j <= text@.len(),
            forall|k: int| 0 <= k < buf@.len() ==> !is_wrap_space_v(buf@[k]),
            tokens_v(text@) == char_views(out@) + tokens_v(buf@ + text@.skip(j as int)),
        decreases text@.len() - j,
    {
        let ghost rem = text@.skip(j as int);
        let ghost rem1 = text@.skip(j as int + 1);
        proof {
            assert(rem.len() > 0);
            assert(rem[0] == text@[j as int]);
            assert(rem.skip(1) =~= rem1);
        }
        let c = para[j];
        if is_wrap_space(c) {
            if buf.len() > 0 {
                proof {
                    lemma_tokens_word(buf@, seq![c] + rem1);
                    assert(buf@ + (seq![c] + rem1) =~= buf@ + rem);
                    assert((seq![c] + rem1).skip(1) =~= rem1);
                    assert(tokens_v(seq![c] + rem1) == tokens_v(rem1));
                }
                let ghost old_out = out@;
                let ghost bv = buf@;
                out.push(buf);
                buf = Vec::new();
                proof {
                    assert(char_views(out@) =~= char_views(old_out).push(bv));
                    assert(buf@ + rem1 =~= rem1);
                    assert(char_views(out@) + tokens_v(rem1) =~= char_views(old_out) + (seq![bv]
                        + tokens_v(rem1)));
                }
            } else {
                proof {
                    assert(buf@ + rem =~= rem);
                    assert(tokens_v(rem) == tokens_v(rem1));
                    assert(buf@ + rem1 =~= rem1);
                }
            }
        } else {
            let ghost old_buf = buf@;
            buf.push(c);
            proof {
                assert(buf@ + rem1 =~= old_buf + rem);
            }
        }
        j = j + 1;
        proof {
            assert(text@.skip(j as int) =~= rem1);
        }
    }
    proof {
        assert(buf@ + text@.skip(j as int) =~= buf@);
    }
    if buf.len() > 0 {
        proof {
            lemma_tokens_word(buf@, Seq::<char>::empty());
            assert(buf@ + Seq::<char>::empty() =~= buf@);
            assert(tokens_v(buf@) == seq![buf@] + tokens_v(Seq::<char>::empty()));
        }
        let ghost old_out = out@;
        let ghost bv = buf@;
        out.push(buf);
        proof {
            assert(char_views(out@) =~= char_views(old_out).push(bv));
            assert(char_views(out@) =~= tokens_v(text@));
        }
    } else {
        proof {
            assert(char_views(out@) + tokens_v(buf@) =~= char_views(out@));
        }
    }
    out
}

/// Hard-break a word that is longer than a line.
fn break_long_word(w: &Vec<char>, m: usize) -> (out: Vec<Vec<char>>)
    requires
        m >= 1,
    ensures
        char_views(out@) == chunks_v(w@, m as nat),
{
    let mut out: Vec<Vec<char>> = Vec::new();
    let mut p: usize = 0;
    proof {
        assert(w@.skip(0) =~= w@);
        assert(char_views(out@) + chunks_v(w@, m as nat) =~= chunks_v(w@, m as nat));
    }
    while w.len() - p > m
        invariant
            m >= 1,
            0 <= p <= w@.len(),
            chunks_v(w@, m as nat) == char_views(out@) + chunks_v(w@.skip(p as int), m as nat),
        decreases w@.len() - p,
    {
        let ghost rem = w@.skip(p as int);
        let chunk = sub_vec(w, p, p + m);
        proof {
            assert(rem.len() > m);
            assert(chunk@ =~= rem.take(m as int));
            assert(chunks_v(rem, m as nat) == seq![rem.take(m as int)] + chunks_v(
                rem.skip(m as int),
                m as nat,
            ));
        }
        let ghost old_out = out@;
        out.push(chunk);
        p = p + m;
        proof {
            assert(char_views(out@) =~= char_views(old_out).push(rem.take(m as int)));
            assert(w@.skip(p as int) =~= rem.skip(m as int));
            assert(char_views(out@) + chunks_v(w@.skip(p as int), m as nat) =~= char_views(old_out)
                + (seq![rem.take(m as int)] + chunks_v(rem.skip(m as int), m as nat)));
        }
    }
    if p < w.len() {
        let ghost rem = w@.skip(p as int);
        let chunk = sub_vec(w, p, w.len());
        proof {
            assert(chunk@ =~= rem);
            assert(1 <= rem.len() <= m);
            assert(chunks_v(rem, m as nat) == seq![rem]);
        }
        let ghost old_out = out@;
        out.push(chunk);
        proof {
            assert(char_views(out@) =~= char_views(old_out).push(rem));
            assert(char_views(out@) =~= chunks_v(w@, m as nat));
        }
    } else {
        proof {
            assert(w@.skip(p as int) =~= Seq::<char>::empty());
            assert(char_views(out@) + chunks_v(Seq::<char>::empty(), m as nat) =~= char_views(
                out@,
            ));
        }
    }
    out
}

/// Greedy first-fit wrapping of a token list.
fn wrap_words(words: &Vec<Vec<char>>, m: usize) -> (out: Vec<Vec<char>>)
    requires
        m >= 1,
    ensures
        char_views(out@) == wrap_words_v(char_views(words@), m as nat, 0, Seq::<char>::empty()),
{
    let ghost ws = char_views(words@);
    let mut out: Vec<Vec<char>> = Vec::new();
    let mut buf: Vec<char> = Vec::new();
    let mut i: usize = 0;
    proof {
        assert(char_views(out@) + wrap_words_v(ws, m as nat, 0, buf@) =~= wrap_words_v(
            ws,
            m as nat,
            0,
            Seq::<char>::empty(),
        ));
    }
    while i < words.len()
        invariant
            m >= 1,
            ws == char_views(words@),
            0 <= i <= ws.len(),
            buf@.len() <= m,
            wrap_words_v(ws, m as nat, 0, Seq::<char>::empty()) == char_views(out@)
                + wrap_words_v(ws, m as nat, i as int, buf@),
        decreases ws.len() - i,
    {
        let w = &words[i];
        proof {
            assert(ws[i as int] == w@);
        }
        if buf.len() == 0 {
            if w.len() > m {
                let mut chunk_lines = break_long_word(w, m);
                let ghost cl = char_views(chunk_lines@);
                let ghost old_out = out@;
                out.append(&mut chunk_lines);
                proof {
                    assert(char_views(out@) =~= char_views(old_out) + cl);
                    assert(wrap_words_v(ws, m as nat, i as int, Seq::<char>::empty()) == cl
                        + wrap_words_v(ws, m as nat, i as int + 1, Seq::<char>::empty()));
                    assert(char_views(out@) + wrap_words_v(
                        ws,
                        m as nat,
                        i as int + 1,
                        Seq::<char>::empty(),
                    ) =~= char_views(old_out) + (cl + wrap_words_v(
                        ws,
                        m as nat,
                        i as int + 1,
                        Seq::<char>::empty(),
                    )));
                }
            } else {
                buf = sub_vec(w, 0, w.len());
                proof {
                    assert(buf@ =~= w@);
                    assert(wrap_words_v(ws, m as nat, i as int, Seq::<char>::empty())
                        == wrap_words_v(ws, m as nat, i as int + 1, w@));
                }
            }
        } else if buf.len() < m && w.len() <= m - buf.len() - 1 {
            let ghost old_buf = buf@;
            buf.push(' ');
            extend_chars(&mut buf, w);
            proof {
                assert(buf@ =~= old_buf + seq![' '] + w@);
                assert(old_buf.len() + 1 + w@.len() <= m);
                assert(wrap_words_v(ws, m as nat, i as int, old_buf) == wrap_words_v(
                    ws,
                    m as nat,
                    i as int + 1,
                    old_buf + seq![' '] + w@,
                ));
            }
        } else {
            proof {
                assert(buf@.len() + 1 + w@.len() > m);
            }
            let ghost old_buf = buf@;
            let ghost old_out = out@;
            out.push(buf);
            proof {
                assert(char_views(out@) =~= char_views(old_out).push(old_buf));
            }
            if w.len() > m {
                let mut chunk_lines = break_long_word(w, m);
                let ghost cl = char_views(chunk_lines@);
                let ghost mid_out = out@;
                out.append(&mut chunk_lines);
                buf = Vec::new();
                proof {
                    assert(char_views(out@) =~= char_views(mid_out) + cl);
                    assert(wrap_words_v(ws, m as nat, i as int, old_buf) == seq![old_buf] + (cl
                        + wrap_words_v(ws, m as nat, i as int + 1, Seq::<char>::empty())));
                    assert(char_views(out@) + wrap_words_v(
                        ws,
                        m as nat,
                        i as int + 1,
                        buf@,
                    ) =~= char_views(old_out) + (seq![old_buf] + (cl + wrap_words_v(
                        ws,
                        m as nat,
                        i as int + 1,
                        Seq::<char>::empty(),
                    ))));
                }
            } else {
                buf = sub_vec(w, 0, w.len());
                proof {
                    assert(buf@ =~= w@);
                    assert(wrap_words_v(ws, m as nat, i as int, old_buf) == seq![old_buf]
                        + wrap_words_v(ws, m as nat, i as int + 1, w@));
                    assert(char_views(out@) + wrap_words_v(ws, m as nat, i as int + 1, buf@)
                        =~= char_views(old_out) + (seq![old_buf] + wrap_words_v(
                        ws,
                        m as nat,
                        i as int + 1,
                        w@,
                    )));
                }
            }
        }
        i = i + 1;
    }
    if buf.len() > 0 {
        proof {
            assert(wrap_words_v(ws, m as nat, i as int, buf@) == seq![buf@]);
        }
        let ghost old_out = out@;
        let ghost bv = buf@;
        out.push(buf);
        proof {
            assert(char_views(out@) =~= char_views(old_out).push(bv));
            assert(char_views(out@) =~= char_views(old_out) + seq![bv]);
        }
    } else {
        proof {
            assert(wrap_words_v(ws, m as nat, i as int, buf@) == Seq::<Seq<char>>::empty());
            assert(char_views(out@) + Seq::<Seq<char>>::empty() =~= char_views(out@));
        }
    }
    out
}

/// Wrap one paragraph into lines of at most `m` characters.
fn wrap_paragraph(para: &Vec<char>, m: usize) -> (out: Vec<Vec<char>>)
    requires
        m >= 1,
    ensures
        char_views(out@) == wrap_paragraph_v(para@, m as nat),
{
    if para.len() == 0 {
        let mut out: Vec<Vec<char>> = Vec::new();
        out.push(Vec::new());
        proof {
            assert(char_views(out@) =~= seq![Seq::<char>::empty()]);
        }
        return out;
    }
    let toks = tokens_of(para);
    if toks.len() == 0 {
        let mut out: Vec<Vec<char>> = Vec::new();
        out.push(Vec::new());
        proof {
            assert(tokens_v(para@).len() == 0);
            assert(char_views(out@) =~= seq![Seq::<char>::empty()]);
        }
        return out;
    }
    proof {
        assert(tokens_v(para@).len() > 0);
    }
    wrap_words(&toks, m)
}

/// Word-wrap text to fit within a character limit.
pub fn wrap_text(text: &str, m: usize) -> (out: Vec<String>)
    ensures
        string_views(out@) == wrap_text_v(text@, m as nat),
{
    if m == 0 {
        let mut out: Vec<String> = Vec::new();
        out.push(text.to_owned());
        proof {
            assert(string_views(out@) =~= seq![text@]);
        }
        return out;
    }
    let chars = chars_of(text);
    if chars.len() == 0 {
        let out: Vec<String> = Vec::new();
        proof {
            assert(text@.len() == 0);
            assert(string_views(out@) =~= Seq::<Seq<char>>::empty());
        }
        return out;
    }
    let paras = split_paragraphs(&chars);
    let ghost pv = char_views(paras@);
    let mut lines: Vec<Vec<char>> = Vec::new();
    let mut k: usize = 0;
    proof {
        assert(char_views(lines@) + wrap_paras_v(pv, m as nat, 0) =~= wrap_paras_v(
            pv,
            m as nat,
            0,
        ));
    }
    while k < paras.len()
        invariant
            m >= 1,
            pv == char_views(paras@),
            0 <= k <= pv.len(),
            wrap_paras_v(pv, m as nat, 0) == char_views(lines@) + wrap_paras_v(
                pv,
                m as nat,
                k as int,
            ),
        decreases pv.len() - k,
    {
        let mut para_lines = wrap_paragraph(&paras[k], m);
        proof {
            assert(pv[k as int] == paras@[k as int]@);
        }
        let ghost pl = char_views(para_lines@);
        let ghost old_lines = lines@;
        lines.append(&mut para_lines);
        k = k + 1;
        proof {
            assert(char_views(lines@) =~= char_views(old_lines) + pl);
            assert(wrap_paras_v(pv, m as nat, k as int - 1) == pl + wrap_paras_v(
                pv,
                m as nat,
                k as int,
            ));
            assert(char_views(lines@) + wrap_paras_v(pv, m as nat, k as int) =~= char_views(
                old_lines,
            ) + (pl + wrap_paras_v(pv, m as nat, k as int)));
        }
    }
    proof {
        assert(wrap_paras_v(pv, m as nat, k as int) == Seq::<Seq<char>>::empty());
        assert(char_views(lines@) + Seq::<Seq<char>>::empty() =~= char_views(lines@));
        assert(char_views(lines@) == wrap_paras_v(pv, m as nat, 0));
    }
    if lines.len() == 0 {
        lines.push(Vec::new());
        proof {
            assert(char_views(lines@) =~= seq![Seq::<char>::empty()]);
        }
    }
    let mut out: Vec<String> = Vec::new();
    let mut t: usize = 0;
    while t < lines.len()
        invariant
            0 <= t <= lines@.len(),
            string_views(out@) == char_views(lines@).take(t as int),
        decreases lines@.len() - t,
    {
        let s = string_of(&lines[t]);
        proof {
            assert(s@ == char_views(lines@)[t as int]);
        }
        let ghost old_out = out@;
        out.push(s);
        t = t + 1;
        proof {
            assert(string_views(out@) =~= string_views(old_out).push(s@));
            assert(string_views(out@) =~= char_views(lines@).take(t as int));
        }
    }
    proof {
        assert(string_views(out@) =~= char_views(lines@));
    }
    out
}

} // verus!
