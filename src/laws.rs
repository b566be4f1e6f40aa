//! Properties of the scanner that hold of every text.
use vstd::prelude::*;

use crate::lexer::{
    lemma_run_end_bounds, lemma_scan_progress, lex_from, lex_spec, run_end, scan_at, starts_word, is_digit,
    is_blank, char_at, in_run, operator_at, Run, TokenView, LexError,
};

verus! {

/// Where each token of `s` from position `i` on begins and ends, for as long
/// as scanning succeeds.
pub open spec fn spans_from(s: Seq<char>, i: int) -> Seq<(int, int)>
    decreases s.len() - i,
{
    if i < 0 || i >= s.len() {
        Seq::empty()
    } else {
        match scan_at(s, i) {
            Ok((_, j)) => {
                proof {
                    lemma_scan_progress(s, i);
                }
                seq![(i, j)] + spans_from(s, j)
            },
            Err(_) => Seq::empty(),
        }
    }
}

proof fn lemma_run_end_shift(s: Seq<char>, i: int, j: int, k: int, r: Run)
    requires
        0 <= i <= k <= j <= s.len(),
        run_end(s, k, r) <= j,
    ensures
        run_end(s.subrange(i, j), k - i, r) == run_end(s, k, r) - i,
    decreases j - k,
{
    let u = s.subrange(i, j);
    lemma_run_end_bounds(s, k, r);
    if k < j {
        assert(u[k - i] == s[k]);
        if in_run(r, s[k]) {
            lemma_run_end_shift(s, i, j, k + 1, r);
        }
    }
}

/// A token scanned at `i` is scanned the same way from its own text alone.
proof fn lemma_scan_local(s: Seq<char>, i: int)
    requires
        0 <= i < s.len(),
        scan_at(s, i) is Ok,
    ensures
        ({
            let (t, j) = scan_at(s, i)->Ok_0;
            scan_at(s.subrange(i, j), 0) == Ok::<(TokenView, int), LexError>((t, j - i))
        }),
{
    lemma_scan_progress(s, i);
    let j = scan_at(s, i)->Ok_0.1;
    let u = s.subrange(i, j);
    assert(u[0] == s[i]);
    assert(forall|m: int| 0 <= m < j - i ==> char_at(u, m) == char_at(s, i + m));
    assert(forall|m: int| m >= j - i ==> char_at(u, m) is None);
    let c = s[i];
    if starts_word(c) {
        lemma_run_end_bounds(s, i + 1, Run::Word);
        lemma_run_end_shift(s, i, j, i + 1, Run::Word);
        assert(u.subrange(0, j - i) =~= s.subrange(i, j));
    } else if operator_at(s, i) {
    } else if is_digit(c) {
        lemma_run_end_bounds(s, i, Run::Digit);
        lemma_run_end_shift(s, i, j, i, Run::Digit);
        assert(u.subrange(0, j - i) =~= s.subrange(i, j));
    } else if c == '\'' {
    } else if c == '"' {
        lemma_run_end_bounds(s, i + 1, Run::StringBody);
        lemma_run_end_shift(s, i, j, i + 1, Run::StringBody);
        assert(u.subrange(0, j - i) =~= s.subrange(i, j));
    } else if c == '#' {
        lemma_run_end_bounds(s, i + 1, Run::LineComment);
        lemma_run_end_shift(s, i, j, i + 1, Run::LineComment);
    } else if c == '{' {
        lemma_run_end_bounds(s, i + 1, Run::BlockComment);
        lemma_run_end_shift(s, i, j, i + 1, Run::BlockComment);
    } else if is_blank(c) {
        lemma_run_end_bounds(s, i, Run::Blank);
        lemma_run_end_shift(s, i, j, i, Run::Blank);
    } else {
    }
}

/// Scanning is local: the text of a token, scanned on its own, is that one
/// token and nothing more.
pub proof fn lemma_rescan_token(s: Seq<char>, i: int)
    requires
        0 <= i < s.len(),
        scan_at(s, i) is Ok,
    ensures
        ({
            let (t, j) = scan_at(s, i)->Ok_0;
            lex_spec(s.subrange(i, j)) == Ok::<Seq<TokenView>, LexError>(seq![t])
        }),
{
    lemma_scan_progress(s, i);
    lemma_scan_local(s, i);
    let (t, j) = scan_at(s, i)->Ok_0;
    let u = s.subrange(i, j);
    assert(lex_from(u, j - i) == Ok::<Seq<TokenView>, LexError>(Seq::empty()));
    assert(seq![t] + Seq::<TokenView>::empty() =~= seq![t]);
}

/// The tokens of a text that scans without error are the tokens scanned at
/// the positions `spans_from` lists, each ending where the next begins.
pub proof fn lemma_spans(s: Seq<char>, i: int)
    requires
        0 <= i,
        lex_from(s, i) is Ok,
    ensures
        ({
            let ts = lex_from(s, i)->Ok_0;
            let sp = spans_from(s, i);
            &&& sp.len() == ts.len()
            &&& forall|k: int| 0 <= k < sp.len() ==> {
                &&& 0 <= #[trigger] sp[k].0 < sp[k].1 <= s.len()
                &&& scan_at(s, sp[k].0) == Ok::<(TokenView, int), LexError>((ts[k], sp[k].1))
            }
        }),
    decreases s.len() - i,
{
    if i < s.len() {
        lemma_scan_progress(s, i);
        let j = scan_at(s, i)->Ok_0.1;
        lemma_spans(s, j);
        let ts = lex_from(s, i)->Ok_0;
        let sp = spans_from(s, i);
        let rest = spans_from(s, j);
        assert forall|k: int| 0 <= k < sp.len() implies {
            &&& 0 <= #[trigger] sp[k].0 < sp[k].1 <= s.len()
            &&& scan_at(s, sp[k].0) == Ok::<(TokenView, int), LexError>((ts[k], sp[k].1))
        } by {
            if k > 0 {
                assert(sp[k] == rest[k - 1]);
            }
        }
    }
}

/// For every text that scans without error, the text spanned by any one of
/// its tokens, scanned in isolation, yields exactly that token.
pub proof fn lemma_rescan_stream(s: Seq<char>, k: int)
    requires
        lex_spec(s) is Ok,
        0 <= k < lex_spec(s)->Ok_0.len(),
    ensures
        ({
            let (a, b) = spans_from(s, 0)[k];
            lex_spec(s.subrange(a, b)) == Ok::<Seq<TokenView>, LexError>(seq![lex_spec(s)->Ok_0[k]])
        }),
{
    lemma_spans(s, 0);
    let (a, b) = spans_from(s, 0)[k];
    lemma_rescan_token(s, a);
}

} // verus!
