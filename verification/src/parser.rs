//! Parse LLM responses to extract motion/expression tags and produce clean text.
//!
//! The LLM is instructed to prefix every response with tag pairs like
//! `[motion:idle][exp:lazy] おはようございます、ご主人様。`.
//! A tag is `[motion:ID]` or `[exp:ID]` where `ID` is one or more ASCII
//! letters, digits or underscores.  The first tag of each kind selects the
//! motion / expression (validated against a whitelist), and every tag is
//! removed from the text.

use vstd::prelude::*;
use crate::text::{chars_of, push_char, same_text, string_from_range};

verus! {

/// Default motion when the parsed value is missing or invalid.
pub const DEFAULT_MOTION: &'static str = "idle";

/// Default expression when the parsed value is missing or invalid.
pub const DEFAULT_EXPRESSION: &'static str = "lazy";

/// Opening of a motion tag.
pub const MOTION_TAG_OPEN: &'static str = "[motion:";

/// Opening of an expression tag.
pub const EXP_TAG_OPEN: &'static str = "[exp:";

/// Whitelist of valid motion identifiers.
pub open spec fn valid_motions() -> Seq<Seq<char>> {
    seq!["idle"@, "idle2"@, "lazy_stretch"@, "alert"@, "shy_fidget"@, "hangry_sway"@]
}

/// Whitelist of valid expression identifiers.
pub open spec fn valid_expressions() -> Seq<Seq<char>> {
    seq!["lazy"@, "maid"@, "predator"@, "hangry"@, "shy"@, "surprised"@, "happy"@]
}

/// Characters allowed in a tag identifier: `[a-zA-Z0-9_]`.
pub open spec fn is_id_char(c: char) -> bool {
    ('a' <= c && c <= 'z') || ('A' <= c && c <= 'Z') || ('0' <= c && c <= '9') || c == '_'
}

/// The end of the run of identifier characters that starts at `k`.
pub open spec fn id_run_end(s: Seq<char>, k: int) -> int
    decreases s.len() - k,
{
    if 0 <= k < s.len() && is_id_char(s[k]) {
        id_run_end(s, k + 1)
    } else {
        k
    }
}

/// If a tag `open ID ]` starts at position `i` of `s`, the position just past
/// its closing bracket.
pub open spec fn tag_end_at(s: Seq<char>, i: int, open: Seq<char>) -> Option<int> {
    if 0 <= i && i + open.len() <= s.len() && s.subrange(i, i + open.len()) == open {
        let e = id_run_end(s, i + open.len());
        if e > i + open.len() && e < s.len() && s[e] == ']' {
            Some(e + 1)
        } else {
            None
        }
    } else {
        None
    }
}

/// The leftmost tag `open ID ]` that starts at or after `i`, as (start, end).
pub open spec fn first_tag_from(s: Seq<char>, i: int, open: Seq<char>) -> Option<(int, int)>
    decreases s.len() - i,
{
    if i < 0 || i >= s.len() {
        None
    } else {
        match tag_end_at(s, i, open) {
            Some(e) => Some((i, e)),
            None => first_tag_from(s, i + 1, open),
        }
    }
}

/// The identifier inside the leftmost `open ID ]` tag of `s`, if any.
pub open spec fn first_tag_id(s: Seq<char>, open: Seq<char>) -> Option<Seq<char>> {
    match first_tag_from(s, 0, open) {
        Some((start, end)) => Some(s.subrange(start + open.len(), end - 1)),
        None => None,
    }
}

/// The end of a motion or expression tag starting at `i`, if there is one.
pub open spec fn any_tag_end_at(s: Seq<char>, i: int) -> Option<int> {
    match tag_end_at(s, i, MOTION_TAG_OPEN@) {
        Some(e) => Some(e),
        None => tag_end_at(s, i, EXP_TAG_OPEN@),
    }
}

/// `s[i..]` with every tag removed, scanning left to right.
pub open spec fn strip_tags_from(s: Seq<char>, i: int) -> Seq<char>
    decreases s.len() - i,
{
    if i < 0 || i >= s.len() {
        Seq::empty()
    } else {
        match any_tag_end_at(s, i) {
            Some(e) => {
                proof {
                    lemma_tag_end_bounds(s, i);
                }
                strip_tags_from(s, e)
            },
            None => seq![s[i]] + strip_tags_from(s, i + 1),
        }
    }
}

/// `s` with every motion and expression tag removed.
pub open spec fn strip_tags(s: Seq<char>) -> Seq<char> {
    strip_tags_from(s, 0)
}

/// The motion that a response selects.
pub open spec fn chosen_motion(s: Seq<char>) -> Seq<char> {
    match first_tag_id(s, MOTION_TAG_OPEN@) {
        Some(id) => if valid_motions().contains(id) { id } else { DEFAULT_MOTION@ },
        None => DEFAULT_MOTION@,
    }
}

/// The expression that a response selects.
pub open spec fn chosen_expression(s: Seq<char>) -> Seq<char> {
    match first_tag_id(s, EXP_TAG_OPEN@) {
        Some(id) => if valid_expressions().contains(id) { id } else { DEFAULT_EXPRESSION@ },
        None => DEFAULT_EXPRESSION@,
    }
}

/// Result of parsing a raw LLM response string.
#[derive(Debug, Clone, Default)]
pub struct ParsedResponse {
    /// Extracted motion ID (validated against whitelist).
    pub motion_id: String,
    /// Extracted expression ID (validated against whitelist).
    pub expression_id: String,
    /// The original text with all `[motion:…]` and `[exp:…]` tags removed.
    pub clean_text: String,
    /// The original, unmodified response text.
    pub raw_text: String,
}

impl ParsedResponse {
    /// What parsing `raw` yields.
    pub open spec fn parses(&self, raw: Seq<char>) -> bool {
        &&& self.motion_id@ == chosen_motion(raw)
        &&& self.expression_id@ == chosen_expression(raw)
        &&& self.clean_text@ == strip_tags(raw)
        &&& self.raw_text@ == raw
    }
}

fn is_id_char_exec(c: char) -> (r: bool)
    ensures
        r == is_id_char(c),
{
    ('a' <= c && c <= 'z') || ('A' <= c && c <= 'Z') || ('0' <= c && c <= '9') || c == '_'
}

/// Executable form of [`tag_end_at`].
fn tag_end_exec(s: &Vec<char>, i: usize, open: &Vec<char>) -> (r: Option<usize>)
    requires
        i <= s@.len(),
    ensures
        match r {
            Some(e) => tag_end_at(s@, i as int, open@) == Some(e as int),
            None => tag_end_at(s@, i as int, open@) is None,
        },
{
    let n = s.len();
    let p = open.len();
    if n - i < p {
        return None;
    }
    let mut k: usize = 0;
    while k < p
        invariant
            i + p <= n,
            n == s@.len(),
            p == open@.len(),
            k <= p,
            forall|j: int| 0 <= j < k ==> s@[i + j] == open@[j],
        decreases p - k,
    {
        if s[i + k] != open[k] {
            assert(s@.subrange(i as int, i + p)[k as int] != open@[k as int]);
            return None;
        }
        k += 1;
    }
    assert(s@.subrange(i as int, i + p) =~= open@);
    let start = i + p;
    let mut e = start;
    while e < n && is_id_char_exec(s[e])
        invariant
            start <= e <= n,
            n == s@.len(),
            id_run_end(s@, start as int) == id_run_end(s@, e as int),
        decreases n - e,
    {
        e += 1;
    }
    assert(id_run_end(s@, e as int) == e);
    if e > start && e < n && s[e] == ']' {
        Some(e + 1)
    } else {
        None
    }
}

/// Executable form of [`first_tag_from`] from position 0.
fn first_tag_exec(s: &Vec<char>, open: &Vec<char>) -> (r: Option<(usize, usize)>)
    ensures
        match r {
            Some((a, b)) => first_tag_from(s@, 0, open@) == Some((a as int, b as int)),
            None => first_tag_from(s@, 0, open@) is None,
        },
{
    let n = s.len();
    let mut i: usize = 0;
    while i < n
        invariant
            i <= n,
            n == s@.len(),
            first_tag_from(s@, 0, open@) == first_tag_from(s@, i as int, open@),
        decreases n - i,
    {
        match tag_end_exec(s, i, open) {
            Some(e) => {
                return Some((i, e));
            },
            None => {},
        }
        i += 1;
    }
    None
}

/// The tag that [`first_tag_from`] reports does start there and end there.
proof fn lemma_first_tag_is_tag(s: Seq<char>, i: int, open: Seq<char>)
    ensures
        first_tag_from(s, i, open) matches Some((a, b)) ==> {
            &&& i <= a
            &&& tag_end_at(s, a, open) == Some(b)
            &&& a + open.len() < b - 1 < s.len()
            &&& s[b - 1] == ']'
        },
    decreases s.len() - i,
{
    if 0 <= i < s.len() && tag_end_at(s, i, open) is None {
        lemma_first_tag_is_tag(s, i + 1, open);
    }
}

/// The identifier of the first `open ID ]` tag of `s`, as a string.
fn first_tag_text(s: &Vec<char>, open: &str) -> (r: Option<String>)
    ensures
        match r {
            Some(t) => first_tag_id(s@, open@) == Some(t@),
            None => first_tag_id(s@, open@) is None,
        },
{
    let open_chars = chars_of(open);
    match first_tag_exec(s, &open_chars) {
        Some((a, b)) => {
            proof {
                lemma_first_tag_is_tag(s@, 0, open@);
            }
            Some(string_from_range(s, a + open_chars.len(), b - 1))
        },
        None => None,
    }
}

/// Validates a motion ID against the whitelist.
pub fn validate_motion<'a>(id: &'a str) -> (r: &'a str)
    ensures
        r@ == (if valid_motions().contains(id@) { id@ } else { DEFAULT_MOTION@ }),
{
    let known = same_text(id, "idle") || same_text(id, "idle2") || same_text(id, "lazy_stretch")
        || same_text(id, "alert") || same_text(id, "shy_fidget") || same_text(id, "hangry_sway");
    proof {
        let v = valid_motions();
        if v.contains(id@) {
            let k = choose|k: int| 0 <= k < v.len() && v[k] == id@;
            assert(v[k] == id@);
        }
        if known {
            if id@ == "idle"@ { assert(v[0] == id@); }
            if id@ == "idle2"@ { assert(v[1] == id@); }
            if id@ == "lazy_stretch"@ { assert(v[2] == id@); }
            if id@ == "alert"@ { assert(v[3] == id@); }
            if id@ == "shy_fidget"@ { assert(v[4] == id@); }
            if id@ == "hangry_sway"@ { assert(v[5] == id@); }
        }
    }
    if known {
        id
    } else {
        DEFAULT_MOTION
    }
}

/// Validates an expression ID against the whitelist.
pub fn validate_expression<'a>(id: &'a str) -> (r: &'a str)
    ensures
        r@ == (if valid_expressions().contains(id@) { id@ } else { DEFAULT_EXPRESSION@ }),
{
    let known = same_text(id, "lazy") || same_text(id, "maid") || same_text(id, "predator")
        || same_text(id, "hangry") || same_text(id, "shy") || same_text(id, "surprised")
        || same_text(id, "happy");
    proof {
        let v = valid_expressions();
        if v.contains(id@) {
            let k = choose|k: int| 0 <= k < v.len() && v[k] == id@;
            assert(v[k] == id@);
        }
        if known {
            if id@ == "lazy"@ { assert(v[0] == id@); }
            if id@ == "maid"@ { assert(v[1] == id@); }
            if id@ == "predator"@ { assert(v[2] == id@); }
            if id@ == "hangry"@ { assert(v[3] == id@); }
            if id@ == "shy"@ { assert(v[4] == id@); }
            if id@ == "surprised"@ { assert(v[5] == id@); }
            if id@ == "happy"@ { assert(v[6] == id@); }
        }
    }
    if known {
        id
    } else {
        DEFAULT_EXPRESSION
    }
}

/// Removes every motion and expression tag from `s`.
fn strip_tags_exec(s: &Vec<char>) -> (out: String)
    ensures
        out@ == strip_tags(s@),
{
    let motion_open = chars_of(MOTION_TAG_OPEN);
    let exp_open = chars_of(EXP_TAG_OPEN);
    let n = s.len();
    let mut out = String::new();
    let mut i: usize = 0;
    while i < n
        invariant
            i <= n,
            n == s@.len(),
            motion_open@ == MOTION_TAG_OPEN@,
            exp_open@ == EXP_TAG_OPEN@,
            out@ + strip_tags_from(s@, i as int) == strip_tags(s@),
        decreases n - i,
    {
        let found = match tag_end_exec(s, i, &motion_open) {
            Some(e) => Some(e),
            None => tag_end_exec(s, i, &exp_open),
        };
        assert(found matches Some(e) ==> any_tag_end_at(s@, i as int) == Some(e as int));
        assert(found is None ==> any_tag_end_at(s@, i as int) is None);
        match found {
            Some(e) => {
                i = e;
            },
            None => {
                let ghost before = out@;
                push_char(&mut out, s[i]);
                assert(out@ + strip_tags_from(s@, i + 1) =~= before + strip_tags_from(
                    s@,
                    i as int,
                ));
                i += 1;
            },
        }
    }
    assert(out@ =~= strip_tags(s@));
    out
}

/// Parse a raw LLM response string.
///
/// Extracts `[motion:…]` and `[exp:…]` tags, validates them against the
/// whitelist of known values, strips the tags to produce clean text, and
/// stores the original raw text for reference.
pub fn parse_llm_response(raw: &str) -> (parsed: ParsedResponse)
    ensures
        parsed.parses(raw@),
{
    let chars = chars_of(raw);
    let motion_id = match first_tag_text(&chars, MOTION_TAG_OPEN) {
        Some(id) => validate_motion(id.as_str()).to_owned(),
        None => DEFAULT_MOTION.to_owned(),
    };
    let expression_id = match first_tag_text(&chars, EXP_TAG_OPEN) {
        Some(id) => validate_expression(id.as_str()).to_owned(),
        None => DEFAULT_EXPRESSION.to_owned(),
    };
    let clean_text = strip_tags_exec(&chars);
    ParsedResponse { motion_id, expression_id, clean_text, raw_text: raw.to_owned() }
}

/// A tag `open ID ]` written out.
pub open spec fn tag_text(open: Seq<char>, id: Seq<char>) -> Seq<char> {
    open + id + seq![']']
}

/// A non-empty run of identifier characters.
pub open spec fn is_tag_id(id: Seq<char>) -> bool {
    id.len() > 0 && forall|k: int| 0 <= k < id.len() ==> is_id_char(#[trigger] id[k])
}

proof fn lemma_id_run_shift(a: Seq<char>, b: Seq<char>, k: int)
    requires
        0 <= k <= b.len(),
    ensures
        id_run_end(a + b, a.len() + k) == a.len() + id_run_end(b, k),
    decreases b.len() - k,
{
    if k < b.len() && is_id_char(b[k]) {
        lemma_id_run_shift(a, b, k + 1);
    }
}

proof fn lemma_tag_end_shift(a: Seq<char>, b: Seq<char>, j: int, open: Seq<char>)
    requires
        0 <= j <= b.len(),
    ensures
        tag_end_at(a + b, a.len() + j, open) == (match tag_end_at(b, j, open) {
            Some(e) => Some(a.len() + e),
            None => None,
        }),
{
    let s = a + b;
    let i = a.len() + j;
    if i + open.len() <= s.len() {
        assert(s.subrange(i, i + open.len()) =~= b.subrange(j, j + open.len()));
        lemma_id_run_shift(a, b, j + open.len());
    }
}

proof fn lemma_strip_shift(a: Seq<char>, b: Seq<char>, j: int)
    requires
        0 <= j <= b.len(),
    ensures
        strip_tags_from(a + b, a.len() + j) == strip_tags_from(b, j),
    decreases b.len() - j,
{
    if j < b.len() {
        lemma_tag_end_shift(a, b, j, MOTION_TAG_OPEN@);
        lemma_tag_end_shift(a, b, j, EXP_TAG_OPEN@);
        match any_tag_end_at(b, j) {
            Some(e) => {
                lemma_tag_end_bounds(b, j);
                lemma_strip_shift(a, b, e);
            },
            None => {
                lemma_strip_shift(a, b, j + 1);
            },
        }
    }
}

/// A tag found at `i` ends after `i`, within the text.
pub proof fn lemma_tag_end_bounds(s: Seq<char>, i: int)
    ensures
        any_tag_end_at(s, i) matches Some(e) ==> i < e <= s.len(),
{
}

/// A run of identifier characters from `from` that stops at `to` ends there.
pub proof fn lemma_id_run_over(s: Seq<char>, from: int, to: int, k: int)
    requires
        0 <= from <= k <= to < s.len(),
        forall|x: int| from <= x < to ==> is_id_char(#[trigger] s[x]),
        !is_id_char(s[to]),
    ensures
        id_run_end(s, k) == to,
    decreases to - k,
{
    if k < to {
        lemma_id_run_over(s, from, to, k + 1);
    }
}

/// A tag written at the very start of a text is recognised there.
proof fn lemma_tag_at_start(open: Seq<char>, id: Seq<char>, tail: Seq<char>)
    requires
        is_tag_id(id),
    ensures
        tag_end_at(tag_text(open, id) + tail, 0, open) == Some(open.len() + id.len() + 1int),
{
    let s = tag_text(open, id) + tail;
    assert(s.subrange(0, open.len() as int) =~= open);
    assert forall|x: int| open.len() <= x < open.len() + id.len() implies is_id_char(
        #[trigger] s[x],
    ) by {
        assert(s[x] == id[x - open.len()]);
    }
    assert(s[open.len() + id.len() as int] == ']');
    lemma_id_run_over(s, open.len() as int, open.len() + id.len() as int, open.len() as int);
}

proof fn lemma_no_tag_between(s: Seq<char>, lo: int, hi: int, open: Seq<char>)
    requires
        0 <= lo <= hi <= s.len(),
        forall|i: int| lo <= i < hi ==> tag_end_at(s, i, open) is None,
    ensures
        first_tag_from(s, lo, open) == first_tag_from(s, hi, open),
    decreases hi - lo,
{
    if lo < hi {
        lemma_no_tag_between(s, lo + 1, hi, open);
    }
}

/// Every response selects a whitelisted motion and a whitelisted expression.
pub proof fn law_choices_are_whitelisted(s: Seq<char>)
    ensures
        valid_motions().contains(chosen_motion(s)),
        valid_expressions().contains(chosen_expression(s)),
{
    assert(valid_motions()[0] == DEFAULT_MOTION@);
    assert(valid_expressions()[0] == DEFAULT_EXPRESSION@);
}

/// A text without any `[` holds no tag: it is kept as it is, and the default
/// motion and expression are chosen.
pub proof fn law_untagged_text_is_kept(s: Seq<char>)
    requires
        !s.contains('['),
    ensures
        strip_tags(s) == s,
        chosen_motion(s) == DEFAULT_MOTION@,
        chosen_expression(s) == DEFAULT_EXPRESSION@,
{
    reveal_strlit("[motion:");
    reveal_strlit("[exp:");
    assert forall|i: int| 0 <= i < s.len() implies tag_end_at(s, i, MOTION_TAG_OPEN@) is None
        && tag_end_at(s, i, EXP_TAG_OPEN@) is None by {
        assert(s[i] != '[');
        if i + 5 <= s.len() {
            assert(s.subrange(i, i + 5)[0] == s[i]);
        }
        if i + 8 <= s.len() {
            assert(s.subrange(i, i + 8)[0] == s[i]);
        }
    }
    lemma_no_tag_between(s, 0, s.len() as int, MOTION_TAG_OPEN@);
    lemma_no_tag_between(s, 0, s.len() as int, EXP_TAG_OPEN@);
    lemma_strip_untagged(s, 0);
}

proof fn lemma_strip_untagged(s: Seq<char>, j: int)
    requires
        0 <= j <= s.len(),
        forall|i: int| 0 <= i < s.len() ==> tag_end_at(s, i, MOTION_TAG_OPEN@) is None
            && tag_end_at(s, i, EXP_TAG_OPEN@) is None,
    ensures
        strip_tags_from(s, j) == s.subrange(j, s.len() as int),
    decreases s.len() - j,
{
    if j < s.len() {
        lemma_strip_untagged(s, j + 1);
        assert(seq![s[j]] + s.subrange(j + 1, s.len() as int) =~= s.subrange(j, s.len() as int));
    } else {
        assert(s.subrange(j, s.len() as int) =~= Seq::<char>::empty());
    }
}

/// A response that opens with a motion tag and then an expression tag, as the
/// persona prompt asks, selects those two (when whitelisted), and its clean
/// text is the rest of the response with its own tags removed.
pub proof fn law_leading_tag_pair(motion: Seq<char>, expression: Seq<char>, rest: Seq<char>)
    requires
        is_tag_id(motion),
        is_tag_id(expression),
    ensures
        ({
            let s = tag_text(MOTION_TAG_OPEN@, motion) + tag_text(EXP_TAG_OPEN@, expression) + rest;
            &&& first_tag_id(s, MOTION_TAG_OPEN@) == Some(motion)
            &&& first_tag_id(s, EXP_TAG_OPEN@) == Some(expression)
            &&& strip_tags(s) == strip_tags(rest)
            &&& valid_motions().contains(motion) ==> chosen_motion(s) == motion
            &&& valid_expressions().contains(expression) ==> chosen_expression(s) == expression
        }),
{
    reveal_strlit("[motion:");
    reveal_strlit("[exp:");
    let mp = MOTION_TAG_OPEN@;
    let ep = EXP_TAG_OPEN@;
    let tm = tag_text(mp, motion);
    let te = tag_text(ep, expression);
    let s = tm + te + rest;
    // The motion tag sits at position 0.
    assert(s =~= tm + (te + rest));
    lemma_tag_at_start(mp, motion, te + rest);
    assert(s.subrange(mp.len() as int, tm.len() - 1) =~= motion);
    // The expression tag sits right after it, and none starts before.
    lemma_tag_at_start(ep, expression, rest);
    lemma_tag_end_shift(tm, te + rest, 0, ep);
    lemma_tag_end_shift(tm, te + rest, 0, mp);
    assert(tm + (te + rest) =~= tm + (te + rest));
    assert forall|i: int| 0 <= i < tm.len() implies tag_end_at(s, i, ep) is None by {
        if i == 0 {
            assert(s.subrange(0, 5)[1] == s[1]);
            assert(s[1] == 'm');
        } else if i + 5 <= s.len() {
            assert(s.subrange(i, i + 5)[0] == s[i]);
            if i < mp.len() {
                assert(s[i] == mp[i]);
            } else if i < mp.len() + motion.len() {
                assert(s[i] == motion[i - mp.len()]);
                assert(is_id_char(motion[i - mp.len()]));
            } else {
                assert(s[i] == ']');
            }
        }
    }
    lemma_no_tag_between(s, 0, tm.len() as int, ep);
    assert(s.subrange(tm.len() + ep.len() as int, tm.len() + te.len() - 1) =~= expression);
    // Stripping removes both tags and continues with the rest.
    let lm: int = tm.len() as int;
    let le: int = te.len() as int;
    assert(first_tag_from(s, 0, mp) == Some((0int, lm)));
    assert(first_tag_id(s, mp) == Some(motion));
    assert(tag_end_at(s, lm, ep) == Some(lm + le));
    assert(first_tag_from(s, lm, ep) == Some((lm, lm + le)));
    assert(first_tag_id(s, ep) == Some(expression));
    // Stripping removes both tags and continues with the rest.
    assert(s =~= (tm + te) + rest);
    lemma_strip_shift(tm + te, rest, 0);
    assert(any_tag_end_at(s, 0) == Some(lm));
    assert(s[lm + 1] == te[1]);
    if lm + 8 <= s.len() {
        assert(s.subrange(lm, lm + 8)[1] == s[lm + 1]);
    }
    assert(tag_end_at(s, lm, mp) is None);
    assert(any_tag_end_at(s, lm) == Some(lm + le));
    assert(strip_tags_from(s, lm) == strip_tags_from(s, lm + le));
}

} // verus!
