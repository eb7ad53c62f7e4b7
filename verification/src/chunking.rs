//! The chunking engine: splitting arbitrarily long text into bounded,
//! word-safe segments.
//!
//! The text is read as a sequence of tokens — a maximal run of non-whitespace
//! characters together with its trailing whitespace — and tokens are packed
//! greedily into segments of at most [`CHUNK_SIZE`] characters. A token is
//! never split, even when it alone exceeds the budget. Concatenating the
//! segments reproduces the input exactly; see the lemmas at the end.

use vstd::prelude::*;

use crate::text::is_whitespace_char;
use crate::text::is_ws;

verus! {

use vstd::string::StrSliceExecFns;

/// The character budget of one segment: a safe token-budget proxy for an
/// embedding model limit.
pub const CHUNK_SIZE: usize = 24000;

// ---------------------------------------------------------------------------
// Tokenization
// ---------------------------------------------------------------------------

/// The first position at or after `i` where the run of characters whose
/// whitespace-ness equals `white` breaks.
pub open spec fn scan_run(s: Seq<char>, i: int, white: bool) -> int
    decreases s.len() - i,
{
    if 0 <= i < s.len() && is_ws(s[i]) == white {
        scan_run(s, i + 1, white)
    } else {
        i
    }
}

/// Where the token that starts at `i` ends: its non-whitespace run followed
/// by its whitespace run.
pub open spec fn token_end(s: Seq<char>, i: int) -> int {
    scan_run(s, scan_run(s, i, false), true)
}

pub proof fn lemma_scan_run_bounds(s: Seq<char>, i: int, white: bool)
    requires
        0 <= i <= s.len(),
    ensures
        i <= scan_run(s, i, white) <= s.len(),
    decreases s.len() - i,
{
    if 0 <= i < s.len() && is_ws(s[i]) == white {
        lemma_scan_run_bounds(s, i + 1, white);
    }
}

pub proof fn lemma_token_end_bounds(s: Seq<char>, i: int)
    requires
        0 <= i < s.len(),
    ensures
        i < token_end(s, i) <= s.len(),
{
    lemma_scan_run_bounds(s, i, false);
    lemma_scan_run_bounds(s, scan_run(s, i, false), true);
    if is_ws(s[i]) {
        assert(scan_run(s, i, false) == i);
        assert(scan_run(s, i, true) == scan_run(s, i + 1, true));
        lemma_scan_run_bounds(s, i + 1, true);
    } else {
        assert(scan_run(s, i, false) == scan_run(s, i + 1, false));
        lemma_scan_run_bounds(s, i + 1, false);
    }
}

/// The tokens of `s` from position `i` on.
pub open spec fn tokens_from(s: Seq<char>, i: int) -> Seq<Seq<char>>
    decreases s.len() - i,
{
    if 0 <= i < s.len() {
        let e = token_end(s, i);
        if i < e <= s.len() {
            seq![s.subrange(i, e)] + tokens_from(s, e)
        } else {
            seq![s.subrange(i, s.len() as int)]
        }
    } else {
        Seq::empty()
    }
}

/// The tokens of `s`: each a maximal non-whitespace run with its trailing
/// whitespace.
pub open spec fn tokenize(s: Seq<char>) -> Seq<Seq<char>> {
    tokens_from(s, 0)
}

/// The concatenation of a sequence of segments.
pub open spec fn concat_segs(segs: Seq<Seq<char>>) -> Seq<char>
    decreases segs.len(),
{
    if segs.len() == 0 {
        Seq::empty()
    } else {
        segs.first() + concat_segs(segs.drop_first())
    }
}

/// The concatenation of the segments from index `i` on.
pub open spec fn concat_from(segs: Seq<Seq<char>>, i: int) -> Seq<char>
    decreases segs.len() - i,
{
    if 0 <= i < segs.len() {
        segs[i] + concat_from(segs, i + 1)
    } else {
        Seq::empty()
    }
}

pub proof fn lemma_concat_from_is_concat_of_skip(segs: Seq<Seq<char>>, i: int)
    requires
        0 <= i <= segs.len(),
    ensures
        concat_from(segs, i) == concat_segs(segs.skip(i)),
    decreases segs.len() - i,
{
    if i < segs.len() {
        lemma_concat_from_is_concat_of_skip(segs, i + 1);
        assert(segs.skip(i).drop_first() =~= segs.skip(i + 1));
        assert(segs.skip(i).first() == segs[i]);
    } else {
        assert(segs.skip(i) =~= Seq::<Seq<char>>::empty());
    }
}

/// Tokenization loses nothing: the tokens from `i` concatenate back to the
/// suffix of `s` from `i`.
pub proof fn lemma_tokens_reassemble(s: Seq<char>, i: int)
    requires
        0 <= i <= s.len(),
    ensures
        concat_segs(tokens_from(s, i)) == s.skip(i),
    decreases s.len() - i,
{
    if 0 <= i < s.len() {
        lemma_token_end_bounds(s, i);
        let e = token_end(s, i);
        lemma_tokens_reassemble(s, e);
        let toks = tokens_from(s, i);
        assert(toks == seq![s.subrange(i, e)] + tokens_from(s, e));
        assert(toks.first() == s.subrange(i, e));
        assert(toks.drop_first() =~= tokens_from(s, e));
        assert(concat_segs(toks) == s.subrange(i, e) + concat_segs(tokens_from(s, e)));
        assert(s.subrange(i, e) + s.skip(e) =~= s.skip(i));
    } else {
        assert(s.skip(i) =~= Seq::<char>::empty());
    }
}

// ---------------------------------------------------------------------------
// Greedy packing
// ---------------------------------------------------------------------------

/// Greedy packing of the tokens from index `i` on, with `cur` the buffer
/// accumulated so far: a token that would push the buffer past the budget
/// flushes the buffer first; a trailing non-empty buffer is flushed at the
/// end.
pub open spec fn pack_from(tokens: Seq<Seq<char>>, i: int, cur: Seq<char>) -> Seq<Seq<char>>
    decreases tokens.len() - i,
{
    if 0 <= i < tokens.len() {
        let t = tokens[i];
        if cur.len() + t.len() > CHUNK_SIZE && cur.len() > 0 {
            seq![cur] + pack_from(tokens, i + 1, t)
        } else {
            pack_from(tokens, i + 1, cur + t)
        }
    } else {
        if cur.len() == 0 {
            Seq::empty()
        } else {
            seq![cur]
        }
    }
}

/// What the chunking engine returns for `s`: the greedy packing of its
/// tokens; a non-empty input that packed into nothing falls back to one
/// segment holding the whole text.
pub open spec fn spec_split(s: Seq<char>) -> Seq<Seq<char>> {
    let packed = pack_from(tokenize(s), 0, Seq::empty());
    if packed.len() == 0 && s.len() > 0 {
        seq![s]
    } else {
        packed
    }
}

/// Packing loses nothing: the packed segments concatenate back to the buffer
/// followed by the remaining tokens.
pub proof fn lemma_pack_reassembles(tokens: Seq<Seq<char>>, i: int, cur: Seq<char>)
    requires
        0 <= i <= tokens.len(),
    ensures
        concat_segs(pack_from(tokens, i, cur)) == cur + concat_from(tokens, i),
    decreases tokens.len() - i,
{
    if 0 <= i < tokens.len() {
        let t = tokens[i];
        if cur.len() + t.len() > CHUNK_SIZE && cur.len() > 0 {
            lemma_pack_reassembles(tokens, i + 1, t);
            let packed = pack_from(tokens, i, cur);
            assert(packed == seq![cur] + pack_from(tokens, i + 1, t));
            assert(packed.first() == cur);
            assert(packed.drop_first() =~= pack_from(tokens, i + 1, t));
            assert(concat_segs(packed) == cur + concat_segs(pack_from(tokens, i + 1, t)));
            assert(cur + (t + concat_from(tokens, i + 1)) =~= cur + concat_from(tokens, i));
        } else {
            lemma_pack_reassembles(tokens, i + 1, cur + t);
            assert((cur + t) + concat_from(tokens, i + 1) =~= cur + (t + concat_from(
                tokens,
                i + 1,
            )));
        }
    } else {
        if cur.len() == 0 {
            assert(cur + concat_from(tokens, i) =~= Seq::<char>::empty());
        } else {
            let packed = pack_from(tokens, i, cur);
            assert(packed == seq![cur]);
            assert(packed.first() == cur);
            assert(packed.drop_first() =~= Seq::<Seq<char>>::empty());
            assert(concat_segs(packed) == cur + concat_segs(Seq::<Seq<char>>::empty()));
            assert(cur + concat_from(tokens, i) =~= cur);
            assert(cur + Seq::<char>::empty() =~= cur);
        }
    }
}

/// Every packed segment stays within the budget or is a single token.
pub proof fn lemma_pack_budget(tokens: Seq<Seq<char>>, i: int, cur: Seq<char>)
    requires
        0 <= i <= tokens.len(),
        cur.len() <= CHUNK_SIZE || tokens.contains(cur),
    ensures
        forall|k: int|
            0 <= k < pack_from(tokens, i, cur).len() ==> (#[trigger] pack_from(tokens, i, cur)[k]).len()
                <= CHUNK_SIZE || tokens.contains(pack_from(tokens, i, cur)[k]),
    decreases tokens.len() - i,
{
    if 0 <= i < tokens.len() {
        let t = tokens[i];
        assert(tokens.contains(t));
        if cur.len() + t.len() > CHUNK_SIZE && cur.len() > 0 {
            lemma_pack_budget(tokens, i + 1, t);
            let packed = pack_from(tokens, i, cur);
            assert(packed == seq![cur] + pack_from(tokens, i + 1, t));
            assert forall|k: int|
                0 <= k < packed.len() implies (#[trigger] packed[k]).len() <= CHUNK_SIZE
                || tokens.contains(packed[k]) by {
                if k > 0 {
                    assert(packed[k] == pack_from(tokens, i + 1, t)[k - 1]);
                }
            }
        } else {
            lemma_pack_budget(tokens, i + 1, cur + t);
            assert(pack_from(tokens, i, cur) == pack_from(tokens, i + 1, cur + t));
        }
    }
}

/// When everything left fits in one budget, packing yields at most one
/// segment, holding the buffer and every remaining token.
pub proof fn lemma_pack_all_fits(tokens: Seq<Seq<char>>, i: int, cur: Seq<char>)
    requires
        0 <= i <= tokens.len(),
        cur.len() + concat_from(tokens, i).len() <= CHUNK_SIZE,
    ensures
        pack_from(tokens, i, cur) == if cur.len() + concat_from(tokens, i).len() == 0 {
            Seq::<Seq<char>>::empty()
        } else {
            seq![cur + concat_from(tokens, i)]
        },
    decreases tokens.len() - i,
{
    if 0 <= i < tokens.len() {
        let t = tokens[i];
        assert(concat_from(tokens, i) == t + concat_from(tokens, i + 1));
        lemma_pack_all_fits(tokens, i + 1, cur + t);
        assert((cur + t) + concat_from(tokens, i + 1) =~= cur + concat_from(tokens, i));
    } else {
        assert(cur + concat_from(tokens, i) =~= cur);
    }
}

// ---------------------------------------------------------------------------
// The executable splitter
// ---------------------------------------------------------------------------

/// Splits `text` into word-safe segments of at most [`CHUNK_SIZE`]
/// characters, never cutting a token, so that the segments concatenate back
/// to `text` exactly.
pub fn split_into_segments(text: &str) -> (r: Vec<String>)
    ensures
        r.deep_view() == spec_split(text@),
{
    let cs = crate::text::chars_of(text);
    let n = cs.len();
    let ghost s = text@;

    // Phase 1: token boundaries.
    let mut token_bounds: Vec<(usize, usize)> = Vec::new();
    let ghost mut toks: Seq<Seq<char>> = Seq::empty();
    let mut pos: usize = 0;
    while pos < n
        invariant
            pos <= n,
            n == s.len(),
            cs@ == s,
            tokenize(s) == toks + tokens_from(s, pos as int),
            toks.len() == token_bounds@.len(),
            forall|j: int|
                0 <= j < toks.len() ==> (#[trigger] token_bounds@[j]).0 <= token_bounds@[j].1
                    <= s.len() && toks[j] == s.subrange(
                    token_bounds@[j].0 as int,
                    token_bounds@[j].1 as int,
                ),
            forall|j: int| 0 <= j < toks.len() - 1 ==> (#[trigger] token_bounds@[j]).1
                == token_bounds@[j + 1].0,
            toks.len() > 0 ==> token_bounds@[0].0 == 0 && token_bounds@[toks.len() - 1].1
                == pos,
            toks.len() == 0 ==> pos == 0,
        decreases n - pos,
    {
        // Scan the non-whitespace run, then the whitespace run.
        let mut j: usize = pos;
        while j < n && !is_whitespace_char(cs[j])
            invariant
                pos <= j <= n,
                n == s.len(),
                cs@ == s,
                scan_run(s, pos as int, false) == scan_run(s, j as int, false),
            decreases n - j,
        {
            j = j + 1;
        }
        proof {
            assert(scan_run(s, j as int, false) == j);
        }
        let mut e: usize = j;
        while e < n && is_whitespace_char(cs[e])
            invariant
                j <= e <= n,
                n == s.len(),
                cs@ == s,
                scan_run(s, j as int, true) == scan_run(s, e as int, true),
            decreases n - e,
        {
            e = e + 1;
        }
        proof {
            assert(scan_run(s, e as int, true) == e);
            assert(token_end(s, pos as int) == e);
            lemma_token_end_bounds(s, pos as int);
        }
        token_bounds.push((pos, e));
        proof {
            assert(tokens_from(s, pos as int) =~= seq![s.subrange(pos as int, e as int)]
                + tokens_from(s, e as int));
            toks = toks.push(s.subrange(pos as int, e as int));
            assert(tokenize(s) =~= toks + tokens_from(s, e as int));
        }
        pos = e;
    }
    proof {
        assert(tokens_from(s, pos as int) =~= Seq::<Seq<char>>::empty());
        assert(tokenize(s) =~= toks);
    }

    // Phase 2: greedy packing into segment boundaries.
    let mut seg_bounds: Vec<(usize, usize)> = Vec::new();
    let ghost mut segs: Seq<Seq<char>> = Seq::empty();
    let mut seg_start: usize = if token_bounds.len() > 0 {
        token_bounds[0].0
    } else {
        0
    };
    let mut cur_end: usize = seg_start;
    let mut k: usize = 0;
    proof {
        assert(s.subrange(seg_start as int, seg_start as int) =~= Seq::<char>::empty());
        assert(segs + pack_from(toks, 0, Seq::<char>::empty()) =~= pack_from(
            toks,
            0,
            Seq::<char>::empty(),
        ));
    }
    while k < token_bounds.len()
        invariant
            k <= toks.len(),
            n == s.len(),
            toks.len() == token_bounds@.len(),
            forall|j: int|
                0 <= j < toks.len() ==> (#[trigger] token_bounds@[j]).0 <= token_bounds@[j].1
                    <= s.len() && toks[j] == s.subrange(
                    token_bounds@[j].0 as int,
                    token_bounds@[j].1 as int,
                ),
            forall|j: int| 0 <= j < toks.len() - 1 ==> (#[trigger] token_bounds@[j]).1
                == token_bounds@[j + 1].0,
            seg_start <= cur_end <= s.len(),
            k < toks.len() ==> cur_end == token_bounds@[k as int].0,
            pack_from(toks, 0, Seq::empty()) == segs + pack_from(
                toks,
                k as int,
                s.subrange(seg_start as int, cur_end as int),
            ),
            segs.len() == seg_bounds@.len(),
            forall|j: int|
                0 <= j < segs.len() ==> (#[trigger] seg_bounds@[j]).0 <= seg_bounds@[j].1
                    <= s.len() && segs[j] == s.subrange(
                    seg_bounds@[j].0 as int,
                    seg_bounds@[j].1 as int,
                ),
        decreases toks.len() - k,
    {
        let (ts, te) = token_bounds[k];
        let ghost cur = s.subrange(seg_start as int, cur_end as int);
        proof {
            assert(toks[k as int] == s.subrange(ts as int, te as int));
            assert(ts == cur_end);
        }
        let cur_len = cur_end - seg_start;
        let tok_len = te - ts;
        let over = if cur_len > CHUNK_SIZE {
            true
        } else {
            tok_len > CHUNK_SIZE - cur_len
        };
        if over && cur_len > 0 {
            seg_bounds.push((seg_start, cur_end));
            proof {
                segs = segs.push(cur);
                assert(pack_from(toks, k as int, cur) =~= seq![cur] + pack_from(
                    toks,
                    k + 1,
                    toks[k as int],
                ));
                assert(segs + pack_from(toks, k + 1, toks[k as int]) =~= (segs.drop_last()
                    + seq![cur]) + pack_from(toks, k + 1, toks[k as int]));
            }
            seg_start = ts;
            cur_end = te;
        } else {
            proof {
                assert(cur + toks[k as int] =~= s.subrange(seg_start as int, te as int));
            }
            cur_end = te;
        }
        proof {
            if k + 1 < toks.len() {
                assert(token_bounds@[k as int].1 == token_bounds@[k + 1].0);
            }
        }
        k = k + 1;
    }
    if cur_end > seg_start {
        seg_bounds.push((seg_start, cur_end));
        proof {
            let cur = s.subrange(seg_start as int, cur_end as int);
            assert(pack_from(toks, toks.len() as int, cur) =~= seq![cur]);
            segs = segs.push(cur);
        }
    } else {
        proof {
            let cur = s.subrange(seg_start as int, cur_end as int);
            assert(cur.len() == 0);
            assert(pack_from(toks, toks.len() as int, cur) =~= Seq::<Seq<char>>::empty());
        }
    }
    proof {
        assert(pack_from(toks, 0, Seq::empty()) =~= segs);
    }

    // Phase 3: materialize the segments; fall back to the whole text when a
    // non-empty input packed into nothing.
    let mut r: Vec<String> = Vec::new();
    let mut q: usize = 0;
    while q < seg_bounds.len()
        invariant
            q <= segs.len(),
            n == s.len(),
            text@ == s,
            segs.len() == seg_bounds@.len(),
            forall|j: int|
                0 <= j < segs.len() ==> (#[trigger] seg_bounds@[j]).0 <= seg_bounds@[j].1
                    <= s.len() && segs[j] == s.subrange(
                    seg_bounds@[j].0 as int,
                    seg_bounds@[j].1 as int,
                ),
            r.deep_view() == segs.take(q as int),
        decreases segs.len() - q,
    {
        let (a, b) = seg_bounds[q];
        let ghost prior = r.deep_view();
        let piece = text.substring_char(a, b).to_owned();
        proof {
            assert(piece@ == s.subrange(a as int, b as int));
        }
        r.push(piece);
        proof {
            assert(r.deep_view() =~= prior.push(s.subrange(a as int, b as int)));
            assert(prior.push(s.subrange(a as int, b as int)) =~= segs.take(q + 1));
        }
        q = q + 1;
    }
    proof {
        assert(segs.take(segs.len() as int) =~= segs);
    }
    if r.len() == 0 && text.unicode_len() > 0 {
        r.push(text.to_owned());
        proof {
            assert(r.deep_view() =~= seq![s]);
        }
    }
    r
}

// ---------------------------------------------------------------------------
// The guarantees of the engine
// ---------------------------------------------------------------------------

/// Chunking loses and duplicates nothing: concatenating the returned
/// segments reproduces the input exactly.
pub proof fn lemma_split_reassembles(s: Seq<char>)
    ensures
        concat_segs(spec_split(s)) == s,
{
    lemma_tokens_reassemble(s, 0);
    lemma_concat_from_is_concat_of_skip(tokenize(s), 0);
    assert(tokenize(s).skip(0) =~= tokenize(s));
    lemma_pack_reassembles(tokenize(s), 0, Seq::empty());
    assert(Seq::<char>::empty() + concat_from(tokenize(s), 0) =~= concat_from(tokenize(s), 0));
    assert(s.skip(0) =~= s);
    if pack_from(tokenize(s), 0, Seq::empty()).len() == 0 && s.len() > 0 {
        assert(concat_segs(seq![s]) =~= s);
    }
}

/// No segment exceeds the budget unless it is a single token that alone
/// exceeds it.
pub proof fn lemma_split_budget(s: Seq<char>)
    ensures
        forall|k: int|
            0 <= k < spec_split(s).len() ==> (#[trigger] spec_split(s)[k]).len() <= CHUNK_SIZE
                || tokenize(s).contains(spec_split(s)[k]),
{
    lemma_pack_budget(tokenize(s), 0, Seq::empty());
    let packed = pack_from(tokenize(s), 0, Seq::empty());
    if packed.len() == 0 && s.len() > 0 {
        // A non-empty input always packs into at least one segment, so the
        // fallback branch never carries an oversized segment.
        lemma_split_reassembles(s);
        assert(concat_segs(spec_split(s)) == s);
        assert(spec_split(s) == seq![s]);
        assert(false) by {
            lemma_tokens_reassemble(s, 0);
            lemma_concat_from_is_concat_of_skip(tokenize(s), 0);
            assert(tokenize(s).skip(0) =~= tokenize(s));
            lemma_pack_reassembles(tokenize(s), 0, Seq::empty());
            assert(concat_segs(packed) =~= Seq::<char>::empty());
            assert(Seq::<char>::empty() + concat_from(tokenize(s), 0) =~= concat_from(
                tokenize(s),
                0,
            ));
        }
    } else {
        assert forall|k: int|
            0 <= k < spec_split(s).len() implies (#[trigger] spec_split(s)[k]).len() <= CHUNK_SIZE
            || tokenize(s).contains(spec_split(s)[k]) by {
            assert(spec_split(s)[k] == packed[k]);
        }
    }
}

/// Splitting is idempotent on short text: a non-empty input within the
/// budget comes back as exactly one segment, itself.
pub proof fn lemma_split_short_text(s: Seq<char>)
    requires
        0 < s.len() <= CHUNK_SIZE,
    ensures
        spec_split(s) == seq![s],
{
    lemma_tokens_reassemble(s, 0);
    lemma_concat_from_is_concat_of_skip(tokenize(s), 0);
    assert(tokenize(s).skip(0) =~= tokenize(s));
    assert(s.skip(0) =~= s);
    lemma_pack_all_fits(tokenize(s), 0, Seq::empty());
    assert(Seq::<char>::empty() + concat_from(tokenize(s), 0) =~= s);
}

} // verus!
