//! The concrete text form of a wallet record document, its renderer and its
//! parser, and the proof that parsing inverts rendering.
//!
//! The document is a four-field object: the seed phrase as an array of quoted
//! words, then the secret key, the public key and the public address, each a
//! quoted string, one field per line. The renderer produces exactly this
//! canonical layout; the parser accepts it and rejects everything else with a
//! parse failure, in particular any document with a missing or misnamed field.

use vstd::prelude::*;

verus! {

/// A character that may stand inside a quoted string of the document:
/// anything but the quote, the backslash and the control characters.
pub open spec fn text_char(c: char) -> bool {
    c != '"' && c != '\\' && (c as u32) >= 32
}

/// Whether every character of a string may stand inside quotes.
pub open spec fn wf_text(s: Seq<char>) -> bool {
    forall|k: int| 0 <= k < s.len() ==> text_char(#[trigger] s[k])
}

/// The length of the longest run of in-string characters starting at `i`.
pub open spec fn run_len(t: Seq<char>, i: int) -> nat
    decreases t.len() - i,
{
    if i < 0 || i >= t.len() || !text_char(t[i]) {
        0
    } else {
        (1 + run_len(t, i + 1)) as nat
    }
}

/// A run is exactly as long as a well-formed string laid down at its start
/// and ended by a terminator that cannot stand inside quotes.
pub proof fn lemma_run_len_exact(t: Seq<char>, i: int, w: Seq<char>)
    requires
        0 <= i,
        i + w.len() <= t.len(),
        t.subrange(i, i + w.len() as int) == w,
        wf_text(w),
        i + w.len() == t.len() || !text_char(t[i + w.len()]),
    ensures
        run_len(t, i) == w.len(),
    decreases w.len(),
{
    if w.len() == 0 {
    } else {
        assert(t[i] == w[0]);
        assert(text_char(t[i]));
        assert(t.subrange(i + 1, i + w.len() as int) =~= w.drop_first());
        lemma_run_len_exact(t, i + 1, w.drop_first());
    }
}

/// Whether the text carries the literal `l` starting at position `i`.
pub open spec fn lit_at(t: Seq<char>, i: int, l: Seq<char>) -> bool {
    0 <= i && i + l.len() <= t.len() && t.subrange(i, i + l.len() as int) == l
}

/// Whether a character may stand inside a quoted string of the document.
fn text_char_exec(c: char) -> (r: bool)
    ensures
        r == text_char(c),
{
    c != '"' && c != '\\' && (c as u32) >= 32
}

/// Measures the run of in-string characters starting at `i`.
fn scan_text_run(s: &str, i: usize) -> (r: usize)
    requires
        i <= s@.len(),
    ensures
        r == run_len(s@, i as int),
        i + r <= s@.len(),
    decreases s@.len() - i,
{
    let n = s.unicode_len();
    let mut k = i;
    while k < n && text_char_exec(s.get_char(k))
        invariant
            i <= k <= n,
            n == s@.len(),
            run_len(s@, i as int) == (k - i) + run_len(s@, k as int),
        decreases n - k,
    {
        assert(run_len(s@, k as int) == 1 + run_len(s@, k + 1));
        k = k + 1;
    }
    assert(run_len(s@, k as int) == 0);
    k - i
}

/// Checks that the text carries the literal `lit` at position `i`; returns
/// the position just past it.
pub(crate) fn expect_lit(s: &str, i: usize, lit: &str) -> (r: Option<usize>)
    requires
        i <= s@.len(),
    ensures
        r is Some <==> lit_at(s@, i as int, lit@),
        r matches Some(j) ==> j == i + lit@.len() && j <= s@.len(),
{
    let n = s.unicode_len();
    let m = lit.unicode_len();
    if m > n - i {
        assert(!lit_at(s@, i as int, lit@));
        return None;
    }
    let mut k: usize = 0;
    while k < m
        invariant
            0 <= k <= m,
            m == lit@.len(),
            n == s@.len(),
            i + m <= n,
            forall|q: int| 0 <= q < k ==> s@[i + q] == lit@[q],
        decreases m - k,
    {
        if s.get_char(i + k) != lit.get_char(k) {
            assert(s@.subrange(i as int, i + m) != lit@) by {
                assert(s@.subrange(i as int, i + m)[k as int] == s@[i + k]);
            }
            return None;
        }
        k = k + 1;
    }
    assert(s@.subrange(i as int, i + m) =~= lit@);
    Some(i + m)
}

/// The quoted-string field starting at `i` (just past its opening quote):
/// the characters up to the closing quote, and the quote's position.
pub open spec fn parse_field_at(t: Seq<char>, i: int) -> Option<(Seq<char>, int)> {
    if i < 0 || i > t.len() {
        None
    } else {
        let j = i + run_len(t, i);
        if j < t.len() && t[j] == '"' {
            Some((t.subrange(i, j), j))
        } else {
            None
        }
    }
}

/// Reads the quoted-string field starting at `i`; returns the field and the
/// position of its closing quote.
pub(crate) fn parse_field(s: &str, i: usize) -> (r: Option<(String, usize)>)
    requires
        i <= s@.len(),
    ensures
        r is Some <==> parse_field_at(s@, i as int) is Some,
        r matches Some((w, j)) ==> parse_field_at(s@, i as int) == Some((w@, j as int)) && j < s@.len(),
{
    let n = s.unicode_len();
    let run = scan_text_run(s, i);
    let j = i + run;
    if j < n && s.get_char(j) == '"' {
        let w = s.substring_char(i, j).to_owned();
        Some((w, j))
    } else {
        None
    }
}

/// The word array starting at `i` (just past the opening bracket): the quoted
/// words up to the closing bracket, and the position just past that bracket.
pub open spec fn parse_words_at(t: Seq<char>, i: int) -> Option<(Seq<Seq<char>>, int)>
    decreases t.len() - i,
{
    if i < 0 || i >= t.len() {
        None
    } else if t[i] == ']' {
        Some((Seq::<Seq<char>>::empty(), i + 1))
    } else if t[i] == '"' {
        let j = i + 1 + run_len(t, i + 1);
        if j >= t.len() || t[j] != '"' {
            None
        } else {
            let w = t.subrange(i + 1, j);
            if j + 1 < t.len() && t[j + 1] == ']' {
                Some((seq![w], j + 2))
            } else if j + 3 < t.len() && t[j + 1] == ',' && t[j + 2] == ' ' && t[j + 3] == '"' {
                match parse_words_at(t, j + 3) {
                    Some((ws, k)) => Some((seq![w] + ws, k)),
                    None => None,
                }
            } else {
                None
            }
        }
    } else {
        None
    }
}

/// Reads the word array starting at `i`; returns the words and the position
/// just past the closing bracket.
pub(crate) fn parse_words(s: &str, i: usize) -> (r: Option<(Vec<String>, usize)>)
    requires
        i <= s@.len(),
    ensures
        r is Some <==> parse_words_at(s@, i as int) is Some,
        r matches Some((ws, j)) ==> parse_words_at(s@, i as int) == Some((ws.deep_view(), j as int))
            && j <= s@.len(),
    decreases s@.len() - i,
{
    let n = s.unicode_len();
    if i >= n {
        return None;
    }
    let c = s.get_char(i);
    if c == ']' {
        let ws: Vec<String> = Vec::new();
        assert(ws.deep_view() =~= Seq::<Seq<char>>::empty());
        return Some((ws, i + 1));
    }
    if c != '"' {
        return None;
    }
    let run = scan_text_run(s, i + 1);
    let j = i + 1 + run;
    if j >= n || s.get_char(j) != '"' {
        return None;
    }
    let w = s.substring_char(i + 1, j).to_owned();
    if j + 1 < n && s.get_char(j + 1) == ']' {
        let mut ws: Vec<String> = Vec::new();
        ws.push(w);
        assert(ws.deep_view() =~= seq![s@.subrange(i + 1, j as int)]);
        return Some((ws, j + 2));
    }
    if n - j >= 4 && s.get_char(j + 1) == ',' && s.get_char(j + 2) == ' ' && s.get_char(j + 3)
        == '"' {
        match parse_words(s, j + 3) {
            Some((tail, k)) => {
                let mut ws: Vec<String> = Vec::new();
                ws.push(w);
                let mut tail = tail;
                ws.append(&mut tail);
                proof {
                    let (tws, _tk) = parse_words_at(s@, j + 3).unwrap();
                    assert(ws.deep_view() =~= seq![s@.subrange(i + 1, j as int)] + tws);
                }
                Some((ws, k))
            },
            None => None,
        }
    } else {
        None
    }
}

/// A word as it stands in the document: between two quotes.
pub open spec fn quoted(w: Seq<char>) -> Seq<char> {
    seq!['"'] + w + seq!['"']
}

/// The inside of the seed-phrase array: the quoted words, separated by a
/// comma and a space.
pub open spec fn render_words(ws: Seq<Seq<char>>) -> Seq<char>
    decreases ws.len(),
{
    if ws.len() == 0 {
        Seq::<char>::empty()
    } else if ws.len() == 1 {
        quoted(ws[0])
    } else {
        quoted(ws[0]) + ", "@ + render_words(ws.drop_first())
    }
}

/// One more word extends the rendered array by a separator and the quoted word.
pub proof fn lemma_render_words_push(ws: Seq<Seq<char>>, w: Seq<char>)
    ensures
        render_words(ws.push(w)) == if ws.len() == 0 {
            quoted(w)
        } else {
            render_words(ws) + ", "@ + quoted(w)
        },
    decreases ws.len(),
{
    let p = ws.push(w);
    if ws.len() == 0 {
        assert(p.len() == 1);
        assert(p[0] == w);
    } else if ws.len() == 1 {
        assert(p.len() == 2);
        assert(p[0] == ws[0]);
        assert(p.drop_first() =~= seq![w]);
        assert(render_words(p.drop_first()) == quoted(w));
        assert(render_words(p) =~= render_words(ws) + ", "@ + quoted(w));
    } else {
        assert(p[0] == ws[0]);
        assert(p.drop_first() =~= ws.drop_first().push(w));
        lemma_render_words_push(ws.drop_first(), w);
        assert(render_words(p) == quoted(p[0]) + ", "@ + render_words(p.drop_first()));
        assert(render_words(p) =~= render_words(ws) + ", "@ + quoted(w));
    }
}

/// Whether every word of a sequence may stand inside quotes.
pub open spec fn wf_words(ws: Seq<Seq<char>>) -> bool {
    forall|k: int| 0 <= k < ws.len() ==> wf_text(#[trigger] ws[k])
}

/// Parsing a rendered word array laid down in a larger text, with the closing
/// bracket right after it, recovers exactly the words and stops just past the
/// bracket.
pub proof fn lemma_parse_words_render(t: Seq<char>, i: int, ws: Seq<Seq<char>>)
    requires
        0 <= i,
        i + render_words(ws).len() < t.len(),
        t.subrange(i, i + render_words(ws).len() as int) == render_words(ws),
        t[i + render_words(ws).len()] == ']',
        wf_words(ws),
    ensures
        parse_words_at(t, i) == Some((ws, i + render_words(ws).len() + 1)),
    decreases ws.len(),
{
    reveal_strlit(", ");
    let r = render_words(ws);
    let e = i + r.len();
    if ws.len() == 0 {
        assert(t[i] == ']');
    } else {
        let w0 = ws[0];
        let q0 = quoted(w0);
        assert(r[0] == '"');
        assert(t[i] == '"');
        assert(t[i] != ']');
        // the word itself
        assert forall|k: int| 0 <= k < w0.len() implies t[i + 1 + k] == w0[k] by {
            assert(r[1 + k] == q0[1 + k]);
            assert(q0[1 + k] == w0[k]);
        }
        assert(t.subrange(i + 1, i + 1 + w0.len() as int) =~= w0);
        let j = i + 1 + w0.len() as int;
        // the terminator after the word
        if ws.len() == 1 {
            assert(r.len() == w0.len() + 2);
            assert(t[j] == r[j - i]) by {
                assert(j - i < r.len());
            }
            assert(r[w0.len() + 1 as int] == q0[w0.len() + 1 as int]);
            assert(q0[w0.len() + 1 as int] == '"');
            assert(t[j] == '"');
            lemma_run_len_exact(t, i + 1, w0);
            assert(t[j + 1] == ']');
            assert(j + 1 < t.len());
            assert(parse_words_at(t, i) == Some((seq![t.subrange(i + 1, j)], j + 2)));
            assert(seq![t.subrange(i + 1, j)] =~= ws);
            assert(j + 2 == e + 1);
        } else {
            let rest = ws.drop_first();
            let rr = render_words(rest);
            assert(r == q0 + ", "@ + rr);
            assert(r.len() == w0.len() + 4 + rr.len());
            assert forall|k: int| 0 <= k < r.len() implies t[i + k] == r[k] by {
                assert(t.subrange(i, e)[k] == t[i + k]);
            }
            assert(r[w0.len() + 1 as int] == '"');
            assert(t[j] == '"');
            lemma_run_len_exact(t, i + 1, w0);
            assert(r[w0.len() + 2 as int] == ", "@[0]);
            assert(t[j + 1] == ',');
            assert(r[w0.len() + 3 as int] == ", "@[1]);
            assert(t[j + 2] == ' ');
            // the next word opens with a quote
            assert(rest.len() >= 1);
            assert(rr[0] == quoted(rest[0])[0]);
            assert(r[w0.len() + 4 as int] == rr[0]);
            assert(t[j + 3] == '"');
            assert(t[j + 1] != ']');
            // the tail array is laid down from j + 3 with the same bracket after it
            assert forall|k: int| 0 <= k < rr.len() implies t[j + 3 + k] == rr[k] by {
                assert(r[(w0.len() + 4 + k) as int] == rr[k]);
            }
            assert(t.subrange(j + 3, j + 3 + rr.len() as int) =~= rr);
            assert(j + 3 + rr.len() == e);
            assert(forall|k: int| 0 <= k < rest.len() ==> rest[k] == ws[k + 1]);
            assert(wf_words(rest));
            lemma_parse_words_render(t, j + 3, rest);
            assert(parse_words_at(t, j + 3) == Some((rest, e + 1)));
            assert(parse_words_at(t, i) == Some((seq![t.subrange(i + 1, j)] + rest, e + 1)));
            assert(seq![t.subrange(i + 1, j)] + rest =~= ws);
        }
    }
}

/// Parsing a rendered field laid down in a larger text, with its closing
/// quote right after it, recovers exactly the field and stops at the quote.
pub proof fn lemma_parse_field_render(t: Seq<char>, i: int, w: Seq<char>)
    requires
        0 <= i,
        i + w.len() < t.len(),
        t.subrange(i, i + w.len() as int) == w,
        t[i + w.len()] == '"',
        wf_text(w),
    ensures
        parse_field_at(t, i) == Some((w, i + w.len() as int)),
{
    lemma_run_len_exact(t, i, w);
    assert(t.subrange(i, i + run_len(t, i)) == w);
}

} // verus!
