//! The AI-provider configuration cell and response cleaning.
//!
//! [`RigAIService`] holds the provider configuration that the live client is
//! built from, replaced atomically as a whole on an administrative update,
//! and owns the cleaning step that strips markdown code fences from a
//! model's JSON reply before it is decoded.

use vstd::prelude::*;

use crate::chunking::scan_run;
use crate::models::AIConfig;
use crate::models::AIConfigView;
use crate::text::chars_of;
use crate::text::is_whitespace_char;
use crate::text::is_ws;

verus! {

use vstd::string::StrSliceExecFns;

/// The largest index `j <= i` such that every character in `s[j..i]` is
/// whitespace.
pub open spec fn scan_ws_back(s: Seq<char>, i: int) -> int
    decreases i,
{
    if 0 < i <= s.len() && is_ws(s[i - 1]) {
        scan_ws_back(s, i - 1)
    } else {
        i
    }
}

pub proof fn lemma_scan_ws_back_bounds(s: Seq<char>, i: int)
    requires
        0 <= i <= s.len(),
    ensures
        0 <= scan_ws_back(s, i) <= i,
    decreases i,
{
    if 0 < i <= s.len() && is_ws(s[i - 1]) {
        lemma_scan_ws_back_bounds(s, i - 1);
    }
}

/// `s` with leading and trailing whitespace removed, as `str::trim` does it.
pub open spec fn trim_of(s: Seq<char>) -> Seq<char> {
    let a = scan_run(s, 0, true);
    let b = scan_ws_back(s, s.len() as int);
    if a <= b {
        s.subrange(a, b)
    } else {
        Seq::empty()
    }
}

/// Whether `p` is a prefix of `s`.
pub open spec fn has_prefix(s: Seq<char>, p: Seq<char>) -> bool {
    p.len() <= s.len() && s.subrange(0, p.len() as int) == p
}

/// Whether `p` is a suffix of `s`.
pub open spec fn has_suffix(s: Seq<char>, p: Seq<char>) -> bool {
    p.len() <= s.len() && s.subrange(s.len() - p.len(), s.len() as int) == p
}

/// `s` with every leading repetition of `p` removed, as
/// `str::trim_start_matches` does it.
pub open spec fn strip_prefix_rep(s: Seq<char>, p: Seq<char>) -> Seq<char>
    decreases s.len(),
{
    if p.len() > 0 && has_prefix(s, p) {
        strip_prefix_rep(s.skip(p.len() as int), p)
    } else {
        s
    }
}

/// `s` with every trailing repetition of `p` removed, as
/// `str::trim_end_matches` does it.
pub open spec fn strip_suffix_rep(s: Seq<char>, p: Seq<char>) -> Seq<char>
    decreases s.len(),
{
    if p.len() > 0 && has_suffix(s, p) {
        strip_suffix_rep(s.take(s.len() - p.len()), p)
    } else {
        s
    }
}

/// What cleaning a model reply returns: trim whitespace, then strip leading
/// ```` ```json ```` fences, then leading and trailing ```` ``` ```` fences.
pub open spec fn clean_json_spec(raw: Seq<char>) -> Seq<char> {
    strip_suffix_rep(
        strip_prefix_rep(strip_prefix_rep(trim_of(raw), "```json"@), "```"@),
        "```"@,
    )
}

/// Whether `pat` occurs at the start of `cs[lo..hi]`.
fn matches_prefix_at(cs: &Vec<char>, lo: usize, hi: usize, pat: &Vec<char>) -> (r: bool)
    requires
        lo <= hi <= cs@.len(),
    ensures
        r == has_prefix(cs@.subrange(lo as int, hi as int), pat@),
{
    if pat.len() > hi - lo {
        return false;
    }
    let mut j: usize = 0;
    while j < pat.len()
        invariant
            j <= pat@.len(),
            pat@.len() <= hi - lo,
            lo <= hi <= cs@.len(),
            forall|t: int| 0 <= t < j ==> cs@[lo + t] == #[trigger] pat@[t],
        decreases pat@.len() - j,
    {
        if cs[lo + j] != pat[j] {
            proof {
                assert(cs@.subrange(lo as int, hi as int).subrange(0, pat@.len() as int)[j as int]
                    == cs@[lo + j]);
            }
            return false;
        }
        j = j + 1;
    }
    proof {
        assert(cs@.subrange(lo as int, hi as int).subrange(0, pat@.len() as int) =~= pat@);
    }
    true
}

/// Whether `pat` occurs at the end of `cs[lo..hi]`.
fn matches_suffix_at(cs: &Vec<char>, lo: usize, hi: usize, pat: &Vec<char>) -> (r: bool)
    requires
        lo <= hi <= cs@.len(),
    ensures
        r == has_suffix(cs@.subrange(lo as int, hi as int), pat@),
{
    if pat.len() > hi - lo {
        return false;
    }
    let base = hi - pat.len();
    let mut j: usize = 0;
    while j < pat.len()
        invariant
            j <= pat@.len(),
            pat@.len() <= hi - lo,
            lo <= hi <= cs@.len(),
            base == hi - pat@.len(),
            forall|t: int| 0 <= t < j ==> cs@[base + t] == #[trigger] pat@[t],
        decreases pat@.len() - j,
    {
        if cs[base + j] != pat[j] {
            proof {
                let sub = cs@.subrange(lo as int, hi as int);
                assert(sub.subrange(sub.len() - pat@.len(), sub.len() as int)[j as int] == cs@[base
                    + j]);
            }
            return false;
        }
        j = j + 1;
    }
    proof {
        let sub = cs@.subrange(lo as int, hi as int);
        assert(sub.subrange(sub.len() - pat@.len(), sub.len() as int) =~= pat@);
    }
    true
}

/// The instruction under which knowledge extraction is requested: strict
/// JSON with `entities` and `relations`.
pub open spec fn extraction_preamble_spec() -> Seq<char> {
    "You are an expert Ontology Engineer. Extract entities and relationships from the text. Return strictly JSON format matching this structure: { \"entities\": [{\"name\": \"...\", \"category\": \"...\"}], \"relations\": [{\"source\": \"...\", \"target\": \"...\", \"relation_type\": \"...\"}] }"@
}

/// The fixed extraction instruction handed to the completion model.
pub fn extraction_preamble() -> (r: String)
    ensures
        r@ == extraction_preamble_spec(),
{
    String::from_str(
        "You are an expert Ontology Engineer. Extract entities and relationships from the text. Return strictly JSON format matching this structure: { \"entities\": [{\"name\": \"...\", \"category\": \"...\"}], \"relations\": [{\"source\": \"...\", \"target\": \"...\", \"relation_type\": \"...\"}] }",
    )
}

/// The configuration cell for the LLM client: the whole value is replaced on
/// an update, so a reader always sees one coherent configuration.
pub struct RigAIService {
    config: AIConfig,
}

impl RigAIService {
    /// The configuration currently held.
    pub closed spec fn config_view(&self) -> AIConfigView {
        self.config@
    }

    /// Starts the cell with the process-start configuration.
    pub fn new(config: AIConfig) -> (r: RigAIService)
        ensures
            r.config_view() == config@,
    {
        RigAIService { config }
    }

    /// Replaces the whole configuration atomically.
    pub fn update_config(&mut self, config: AIConfig) -> (r: Result<(), crate::errors::AppError>)
        ensures
            r is Ok,
            final(self).config_view() == config@,
    {
        self.config = config;
        Ok(())
    }

    /// Reads the current configuration, fully formed.
    pub fn get_config(&self) -> (r: AIConfig)
        ensures
            r@ == self.config_view(),
    {
        self.config.duplicate()
    }

    /// Strips surrounding whitespace and markdown code fences from a model
    /// reply, leaving the JSON payload.
    pub fn clean_json_response(&self, raw: &str) -> (r: String)
        ensures
            r@ == clean_json_spec(raw@),
    {
        let cs = chars_of(raw);
        let n = cs.len();
        let ghost s = raw@;

        // Trim leading whitespace.
        let mut lo: usize = 0;
        while lo < n && is_whitespace_char(cs[lo])
            invariant
                lo <= n,
                n == s.len(),
                cs@ == s,
                scan_run(s, 0, true) == scan_run(s, lo as int, true),
            decreases n - lo,
        {
            lo = lo + 1;
        }
        proof {
            assert(scan_run(s, lo as int, true) == lo);
        }

        // Trim trailing whitespace.
        let mut hi: usize = n;
        while hi > lo && is_whitespace_char(cs[hi - 1])
            invariant
                lo <= hi <= n,
                n == s.len(),
                cs@ == s,
                scan_ws_back(s, n as int) == scan_ws_back(s, hi as int),
            decreases hi,
        {
            hi = hi - 1;
        }
        proof {
            lemma_scan_ws_back_bounds(s, n as int);
            if hi > lo {
                assert(scan_ws_back(s, hi as int) == hi);
                assert(cs@.subrange(lo as int, hi as int) =~= trim_of(s));
            } else {
                lemma_scan_ws_back_bounds(s, lo as int);
                assert(scan_ws_back(s, lo as int) <= lo);
                assert(cs@.subrange(lo as int, hi as int) =~= Seq::<char>::empty());
                if scan_run(s, 0, true) <= scan_ws_back(s, n as int) {
                    assert(trim_of(s) =~= Seq::<char>::empty());
                }
            }
            assert(cs@.subrange(lo as int, hi as int) == trim_of(s));
        }

        // Strip every leading "```json" fence.
        let fence_json = chars_of("```json");
        let ghost pj = "```json"@;
        while matches_prefix_at(&cs, lo, hi, &fence_json)
            invariant
                lo <= hi <= n,
                n == s.len(),
                cs@ == s,
                pj == "```json"@,
                fence_json@ == pj,
                strip_prefix_rep(trim_of(s), pj) == strip_prefix_rep(
                    cs@.subrange(lo as int, hi as int),
                    pj,
                ),
            decreases hi - lo,
        {
            proof {
                reveal_strlit("```json");
                assert(pj.len() == 7);
                assert(cs@.subrange(lo as int, hi as int).skip(7) =~= cs@.subrange(
                    lo + 7,
                    hi as int,
                ));
            }
            lo = lo + 7;
        }
        let ghost stage1 = strip_prefix_rep(trim_of(s), pj);
        proof {
            assert(stage1 == cs@.subrange(lo as int, hi as int));
        }

        // Strip every leading "```" fence.
        let fence = chars_of("```");
        let ghost pf = "```"@;
        while matches_prefix_at(&cs, lo, hi, &fence)
            invariant
                lo <= hi <= n,
                n == s.len(),
                cs@ == s,
                pf == "```"@,
                fence@ == pf,
                strip_prefix_rep(stage1, pf) == strip_prefix_rep(
                    cs@.subrange(lo as int, hi as int),
                    pf,
                ),
            decreases hi - lo,
        {
            proof {
                reveal_strlit("```");
                assert(pf.len() == 3);
                assert(cs@.subrange(lo as int, hi as int).skip(3) =~= cs@.subrange(
                    lo + 3,
                    hi as int,
                ));
            }
            lo = lo + 3;
        }
        let ghost stage2 = strip_prefix_rep(stage1, pf);
        proof {
            assert(stage2 == cs@.subrange(lo as int, hi as int));
        }

        // Strip every trailing "```" fence.
        while matches_suffix_at(&cs, lo, hi, &fence)
            invariant
                lo <= hi <= n,
                n == s.len(),
                cs@ == s,
                pf == "```"@,
                fence@ == pf,
                strip_suffix_rep(stage2, pf) == strip_suffix_rep(
                    cs@.subrange(lo as int, hi as int),
                    pf,
                ),
            decreases hi - lo,
        {
            proof {
                reveal_strlit("```");
                assert(pf.len() == 3);
                assert(cs@.subrange(lo as int, hi as int).take(cs@.subrange(
                    lo as int,
                    hi as int,
                ).len() - 3) =~= cs@.subrange(lo as int, hi - 3));
            }
            hi = hi - 3;
        }
        proof {
            assert(clean_json_spec(s) == cs@.subrange(lo as int, hi as int));
        }
        raw.substring_char(lo, hi).to_owned()
    }
}

} // verus!
