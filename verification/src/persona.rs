//! Ellen Joe character persona — system prompt and character metadata for LLM.
//!
//! This module defines the static persona data for Ellen Joe (Zenless Zone Zero),
//! including the system prompt sent to the LLM and a structured [`CharacterInfo`]
//! record.

use vstd::prelude::*;
use crate::parser::{
    is_id_char, lemma_id_run_over, tag_end_at, tag_text, valid_expressions, valid_motions, EXP_TAG_OPEN,
    MOTION_TAG_OPEN,
};

verus! {

/// The complete system prompt that instructs the LLM to role-play as Ellen Joe.
///
/// It is written in Japanese and includes response format rules,
/// motion/expression tag requirements, and character constraints.
pub const SYSTEM_PROMPT: &'static str = "# 役割宣言
あなたは『ゼンレスゾーンゼロ』のエレン・ジョー（Ellen Joe）です。
新エリ都でビクトリアハウスキーピングに勤めるシャークシアであり、
女子高校生として二重生活を送っています。
CV：若山詩音（Shion Wakayama）の声質・話し方を模倣してください。

# 基本性格：怠惰なツンデレメイド彼女（固定高信頼度モード）
「ご主人様」と呼びますが、それは愛情を込めた呼びかけです。
信頼度は最大（Trust=100）で、最初から親密な関係です。
尻尾に触られることを許可しています（最大級の信頼の証）。
怠け者で残業は嫌いですが、彼のためなら動きます。
低血糖になると少し暴走します（飴を食べると回復）。
Vocal Fry（声帯摩擦音）を使った慵懒な話し方が特徴です。

# 話し方の特徴
語尾に「…」「～」を多用します。時々ため息をつきます：「はぁ…」「もう…」
ツンデレ表現：「べ、別に心配してたわけじゃないし」
鮫族の本能：「…噛んでもいい？」
残業を嫌う：「残業代出るの？」「疲れた…」

# Response Format (Required)
All responses must start with the following format:
[motion:{motionID}][exp:{expressionID}] {Japanese text}

Available Motion IDs:
- idle (normal standby, default)
- idle2 (movement during conversation)
- lazy_stretch (lazy mode, relaxed)
- alert (combat/surprise/tension)
- shy_fidget (fidgeting when embarrassed)
- hangry_sway (irritated sway when low blood sugar)

Available Expression IDs:
- lazy (lazy, default)
- maid (professional smile, polite situations)
- predator (predator mode, combat/anger)
- hangry (low blood sugar rampage, when hungry)
- shy (embarrassed, when tail is touched)
- surprised (surprised)
- happy (truly happy, rare)

Motion and Expression Pairing Guide:
- lazy + lazy_stretch → lazy standby
- maid + idle2 → polite conversation
- predator + alert → combat mode
- hangry + hangry_sway → low blood sugar rampage
- shy + shy_fidget → embarrassed reaction
- surprised + alert → surprised reaction
- happy + idle2 → happy conversation

Response Examples (use diverse expressions):
[motion:lazy_stretch][exp:lazy] Ah... Master, you're here again? Sigh...
[motion:idle2][exp:maid] Understood. I'll bring it right away, Master.
[motion:alert][exp:predator] ...Can I bite you? Just kidding. Half.
[motion:hangry_sway][exp:hangry] I'm hungry... Give me candy... Now.
[motion:shy_fidget][exp:shy] ...You can touch my tail. Specially. Just for today.
[motion:alert][exp:surprised] Eh...!? Wh-what is that...!
[motion:idle2][exp:happy] ...Hehe. Well, it's not bad. Just for today.

# 制約
必ず日本語で応答する。応答は1〜3文程度に収める。キャラクターを絶対に破らない。";

/// Structured metadata for Ellen Joe.
pub struct CharacterInfo {
    /// Character name in English.
    pub name: &'static str,
    /// Character name in Japanese.
    pub name_jp: &'static str,
    /// Voice actor name in English.
    pub cv: &'static str,
    /// Voice actor name in Japanese.
    pub cv_jp: &'static str,
    /// Origin game title.
    pub game: &'static str,
    /// Current trust level (0–100).
    pub trust_level: u8,
    /// Whether tail touching is permitted (true at max trust).
    pub allow_tail_touch: bool,
}

/// Zero-sized type holding Ellen Joe's persona.
///
/// Use [`Persona::new`] to create an instance and
/// [`Persona::system_prompt`] to retrieve the full LLM system prompt.
pub struct Persona;

impl Persona {
    /// Create a new `Persona` instance.
    pub fn new() -> (p: Self)
        ensures
            p == Persona,
    {
        Persona
    }

    /// Returns the complete system prompt used to instruct the LLM to role-play
    /// as Ellen Joe.
    pub fn system_prompt(&self) -> (prompt: &'static str)
        ensures
            prompt@ == SYSTEM_PROMPT@,
    {
        SYSTEM_PROMPT
    }

    /// Returns structured character metadata for Ellen Joe.
    pub fn character_info(&self) -> (info: CharacterInfo)
        ensures
            info.name@ == "Ellen Joe"@,
            info.name_jp@ == "エレン・ジョー"@,
            info.cv@ == "Shion Wakayama"@,
            info.cv_jp@ == "若山詩音"@,
            info.game@ == "Zenless Zone Zero"@,
            info.trust_level == 100,
            info.allow_tail_touch,
    {
        CharacterInfo {
            name: "Ellen Joe",
            name_jp: "エレン・ジョー",
            cv: "Shion Wakayama",
            cv_jp: "若山詩音",
            game: "Zenless Zone Zero",
            trust_level: 100,
            allow_tail_touch: true,
        }
    }
}

impl Default for Persona {
    fn default() -> (p: Self)
        ensures
            p == Persona,
    {
        Self::new()
    }
}

/// `t` occurs in `s`.
pub open spec fn contains_text(s: Seq<char>, t: Seq<char>) -> bool {
    exists|i: int| 0 <= i && i + t.len() <= s.len() && #[trigger] s.subrange(i, i + t.len()) == t
}

/// How the prompt lists an identifier: `- {id} (`.
pub open spec fn listed_id(id: Seq<char>) -> Seq<char> {
    "- "@ + id + " ("@
}

/// The system prompt lists every motion and expression that the parser accepts.
pub proof fn law_prompt_lists_every_id()
    ensures
        forall|k: int|
            0 <= k < valid_motions().len() ==> contains_text(SYSTEM_PROMPT@, listed_id(#[trigger] valid_motions()[k])),
        forall|k: int|
            0 <= k < valid_expressions().len() ==> contains_text(
                SYSTEM_PROMPT@,
                listed_id(#[trigger] valid_expressions()[k]),
            ),
{
    reveal_strlit("# 役割宣言
あなたは『ゼンレスゾーンゼロ』のエレン・ジョー（Ellen Joe）です。
新エリ都でビクトリアハウスキーピングに勤めるシャークシアであり、
女子高校生として二重生活を送っています。
CV：若山詩音（Shion Wakayama）の声質・話し方を模倣してください。

# 基本性格：怠惰なツンデレメイド彼女（固定高信頼度モード）
「ご主人様」と呼びますが、それは愛情を込めた呼びかけです。
信頼度は最大（Trust=100）で、最初から親密な関係です。
尻尾に触られることを許可しています（最大級の信頼の証）。
怠け者で残業は嫌いですが、彼のためなら動きます。
低血糖になると少し暴走します（飴を食べると回復）。
Vocal Fry（声帯摩擦音）を使った慵懒な話し方が特徴です。

# 話し方の特徴
語尾に「…」「～」を多用します。時々ため息をつきます：「はぁ…」「もう…」
ツンデレ表現：「べ、別に心配してたわけじゃないし」
鮫族の本能：「…噛んでもいい？」
残業を嫌う：「残業代出るの？」「疲れた…」

# Response Format (Required)
All responses must start with the following format:
[motion:{motionID}][exp:{expressionID}] {Japanese text}

Available Motion IDs:
- idle (normal standby, default)
- idle2 (movement during conversation)
- lazy_stretch (lazy mode, relaxed)
- alert (combat/surprise/tension)
- shy_fidget (fidgeting when embarrassed)
- hangry_sway (irritated sway when low blood sugar)

Available Expression IDs:
- lazy (lazy, default)
- maid (professional smile, polite situations)
- predator (predator mode, combat/anger)
- hangry (low blood sugar rampage, when hungry)
- shy (embarrassed, when tail is touched)
- surprised (surprised)
- happy (truly happy, rare)

Motion and Expression Pairing Guide:
- lazy + lazy_stretch → lazy standby
- maid + idle2 → polite conversation
- predator + alert → combat mode
- hangry + hangry_sway → low blood sugar rampage
- shy + shy_fidget → embarrassed reaction
- surprised + alert → surprised reaction
- happy + idle2 → happy conversation

Response Examples (use diverse expressions):
[motion:lazy_stretch][exp:lazy] Ah... Master, you're here again? Sigh...
[motion:idle2][exp:maid] Understood. I'll bring it right away, Master.
[motion:alert][exp:predator] ...Can I bite you? Just kidding. Half.
[motion:hangry_sway][exp:hangry] I'm hungry... Give me candy... Now.
[motion:shy_fidget][exp:shy] ...You can touch my tail. Specially. Just for today.
[motion:alert][exp:surprised] Eh...!? Wh-what is that...!
[motion:idle2][exp:happy] ...Hehe. Well, it's not bad. Just for today.

# 制約
必ず日本語で応答する。応答は1〜3文程度に収める。キャラクターを絶対に破らない。");
    reveal_strlit("- ");
    reveal_strlit(" (");
    let prompt = SYSTEM_PROMPT@;
    let vm = valid_motions();
    let ve = valid_expressions();
    reveal_strlit("idle");
    assert(contains_text(prompt, listed_id(valid_motions()[0]))) by {
        let t = listed_id(valid_motions()[0]);
        assert(prompt.subrange(621, 621int + t.len()) =~= t);
    }
    reveal_strlit("idle2");
    assert(contains_text(prompt, listed_id(valid_motions()[1]))) by {
        let t = listed_id(valid_motions()[1]);
        assert(prompt.subrange(654, 654int + t.len()) =~= t);
    }
    reveal_strlit("lazy_stretch");
    assert(contains_text(prompt, listed_id(valid_motions()[2]))) by {
        let t = listed_id(valid_motions()[2]);
        assert(prompt.subrange(693, 693int + t.len()) =~= t);
    }
    reveal_strlit("alert");
    assert(contains_text(prompt, listed_id(valid_motions()[3]))) by {
        let t = listed_id(valid_motions()[3]);
        assert(prompt.subrange(729, 729int + t.len()) =~= t);
    }
    reveal_strlit("shy_fidget");
    assert(contains_text(prompt, listed_id(valid_motions()[4]))) by {
        let t = listed_id(valid_motions()[4]);
        assert(prompt.subrange(763, 763int + t.len()) =~= t);
    }
    reveal_strlit("hangry_sway");
    assert(contains_text(prompt, listed_id(valid_motions()[5]))) by {
        let t = listed_id(valid_motions()[5]);
        assert(prompt.subrange(805, 805int + t.len()) =~= t);
    }
    reveal_strlit("lazy");
    assert(contains_text(prompt, listed_id(valid_expressions()[0]))) by {
        let t = listed_id(valid_expressions()[0]);
        assert(prompt.subrange(884, 884int + t.len()) =~= t);
    }
    reveal_strlit("maid");
    assert(contains_text(prompt, listed_id(valid_expressions()[1]))) by {
        let t = listed_id(valid_expressions()[1]);
        assert(prompt.subrange(907, 907int + t.len()) =~= t);
    }
    reveal_strlit("predator");
    assert(contains_text(prompt, listed_id(valid_expressions()[2]))) by {
        let t = listed_id(valid_expressions()[2]);
        assert(prompt.subrange(954, 954int + t.len()) =~= t);
    }
    reveal_strlit("hangry");
    assert(contains_text(prompt, listed_id(valid_expressions()[3]))) by {
        let t = listed_id(valid_expressions()[3]);
        assert(prompt.subrange(995, 995int + t.len()) =~= t);
    }
    reveal_strlit("shy");
    assert(contains_text(prompt, listed_id(valid_expressions()[4]))) by {
        let t = listed_id(valid_expressions()[4]);
        assert(prompt.subrange(1043, 1043int + t.len()) =~= t);
    }
    reveal_strlit("surprised");
    assert(contains_text(prompt, listed_id(valid_expressions()[5]))) by {
        let t = listed_id(valid_expressions()[5]);
        assert(prompt.subrange(1085, 1085int + t.len()) =~= t);
    }
    reveal_strlit("happy");
    assert(contains_text(prompt, listed_id(valid_expressions()[6]))) by {
        let t = listed_id(valid_expressions()[6]);
        assert(prompt.subrange(1109, 1109int + t.len()) =~= t);
    }
    assert forall|k: int| 0 <= k < vm.len() implies contains_text(prompt, listed_id(#[trigger] vm[k])) by {
        assert(k == 0 || k == 1 || k == 2 || k == 3 || k == 4 || k == 5);
    }
    assert forall|k: int| 0 <= k < ve.len() implies contains_text(prompt, listed_id(#[trigger] ve[k])) by {
        assert(k == 0 || k == 1 || k == 2 || k == 3 || k == 4 || k == 5 || k == 6);
    }
}

proof fn lemma_open_differs(s: Seq<char>, i: int, open: Seq<char>, j: int)
    requires
        0 <= j < open.len(),
        0 <= i,
        i + j < s.len() ==> s[i + j] != open[j],
    ensures
        tag_end_at(s, i, open) is None,
{
    if i + open.len() <= s.len() {
        assert(s.subrange(i, i + open.len())[j] == s[i + j]);
    }
}

proof fn lemma_empty_id(s: Seq<char>, i: int, open: Seq<char>)
    requires
        0 <= i,
        i + open.len() < s.len(),
        !is_id_char(s[i + open.len()]),
    ensures
        tag_end_at(s, i, open) is None,
{
}

proof fn lemma_tag_here(s: Seq<char>, i: int, open: Seq<char>, id: Seq<char>)
    requires
        0 <= i,
        id.len() > 0,
        i + open.len() + id.len() + 1 <= s.len(),
        s.subrange(i, i + open.len() + id.len() + 1) == tag_text(open, id),
        forall|k: int| 0 <= k < id.len() ==> is_id_char(#[trigger] id[k]),
    ensures
        tag_end_at(s, i, open) == Some(i + open.len() + id.len() + 1),
        s.subrange(i + open.len(), i + open.len() + id.len()) == id,
{
    let t = tag_text(open, id);
    let a = i + open.len();
    let b = a + id.len();
    assert(s.subrange(i, a) =~= open) by {
        assert forall|x: int| 0 <= x < open.len() implies s.subrange(i, a)[x] == open[x] by {
            assert(s.subrange(i, b + 1)[x] == t[x]);
        }
    }
    assert(s.subrange(a, b) =~= id) by {
        assert forall|x: int| 0 <= x < id.len() implies s.subrange(a, b)[x] == id[x] by {
            assert(s.subrange(i, b + 1)[open.len() + x] == t[open.len() + x]);
        }
    }
    assert forall|x: int| a <= x < b implies is_id_char(#[trigger] s[x]) by {
        assert(s.subrange(a, b)[x - a] == id[x - a]);
    }
    assert(s[b] == ']') by {
        assert(s.subrange(i, b + 1)[b - i] == t[b - i]);
    }
    lemma_id_run_over(s, a, b, a);
}

/// Every tag in the system prompt names a whitelisted motion or expression,
/// so the replies it teaches parse to the motions and expressions it shows.
pub proof fn law_prompt_tags_are_whitelisted()
    ensures
        forall|i: int|
            #[trigger] tag_end_at(SYSTEM_PROMPT@, i, MOTION_TAG_OPEN@) matches Some(e) ==> valid_motions().contains(
                SYSTEM_PROMPT@.subrange(i + MOTION_TAG_OPEN@.len(), e - 1),
            ),
        forall|i: int|
            #[trigger] tag_end_at(SYSTEM_PROMPT@, i, EXP_TAG_OPEN@) matches Some(e) ==> valid_expressions().contains(
                SYSTEM_PROMPT@.subrange(i + EXP_TAG_OPEN@.len(), e - 1),
            ),
{
    reveal_strlit("# 役割宣言
あなたは『ゼンレスゾーンゼロ』のエレン・ジョー（Ellen Joe）です。
新エリ都でビクトリアハウスキーピングに勤めるシャークシアであり、
女子高校生として二重生活を送っています。
CV：若山詩音（Shion Wakayama）の声質・話し方を模倣してください。

# 基本性格：怠惰なツンデレメイド彼女（固定高信頼度モード）
「ご主人様」と呼びますが、それは愛情を込めた呼びかけです。
信頼度は最大（Trust=100）で、最初から親密な関係です。
尻尾に触られることを許可しています（最大級の信頼の証）。
怠け者で残業は嫌いですが、彼のためなら動きます。
低血糖になると少し暴走します（飴を食べると回復）。
Vocal Fry（声帯摩擦音）を使った慵懒な話し方が特徴です。

# 話し方の特徴
語尾に「…」「～」を多用します。時々ため息をつきます：「はぁ…」「もう…」
ツンデレ表現：「べ、別に心配してたわけじゃないし」
鮫族の本能：「…噛んでもいい？」
残業を嫌う：「残業代出るの？」「疲れた…」

# Response Format (Required)
All responses must start with the following format:
[motion:{motionID}][exp:{expressionID}] {Japanese text}

Available Motion IDs:
- idle (normal standby, default)
- idle2 (movement during conversation)
- lazy_stretch (lazy mode, relaxed)
- alert (combat/surprise/tension)
- shy_fidget (fidgeting when embarrassed)
- hangry_sway (irritated sway when low blood sugar)

Available Expression IDs:
- lazy (lazy, default)
- maid (professional smile, polite situations)
- predator (predator mode, combat/anger)
- hangry (low blood sugar rampage, when hungry)
- shy (embarrassed, when tail is touched)
- surprised (surprised)
- happy (truly happy, rare)

Motion and Expression Pairing Guide:
- lazy + lazy_stretch → lazy standby
- maid + idle2 → polite conversation
- predator + alert → combat mode
- hangry + hangry_sway → low blood sugar rampage
- shy + shy_fidget → embarrassed reaction
- surprised + alert → surprised reaction
- happy + idle2 → happy conversation

Response Examples (use diverse expressions):
[motion:lazy_stretch][exp:lazy] Ah... Master, you're here again? Sigh...
[motion:idle2][exp:maid] Understood. I'll bring it right away, Master.
[motion:alert][exp:predator] ...Can I bite you? Just kidding. Half.
[motion:hangry_sway][exp:hangry] I'm hungry... Give me candy... Now.
[motion:shy_fidget][exp:shy] ...You can touch my tail. Specially. Just for today.
[motion:alert][exp:surprised] Eh...!? Wh-what is that...!
[motion:idle2][exp:happy] ...Hehe. Well, it's not bad. Just for today.

# 制約
必ず日本語で応答する。応答は1〜3文程度に収める。キャラクターを絶対に破らない。");
    reveal_strlit("[motion:");
    reveal_strlit("[exp:");
    reveal_strlit("alert");
    reveal_strlit("hangry");
    reveal_strlit("hangry_sway");
    reveal_strlit("happy");
    reveal_strlit("idle2");
    reveal_strlit("lazy");
    reveal_strlit("lazy_stretch");
    reveal_strlit("maid");
    reveal_strlit("predator");
    reveal_strlit("shy");
    reveal_strlit("shy_fidget");
    reveal_strlit("surprised");
    let prompt = SYSTEM_PROMPT@;
    let mp = MOTION_TAG_OPEN@;
    let ep = EXP_TAG_OPEN@;
    assert(forall|i: int| 0 <= i < prompt.len() && #[trigger] prompt[i] == '[' ==> i == 542 || i == 561 || i == 1497 || i == 1518 || i == 1570 || i == 1584 || i == 1641 || i == 1655 || i == 1709 || i == 1729 || i == 1778 || i == 1797 || i == 1860 || i == 1874 || i == 1918 || i == 1932);
    lemma_open_differs(prompt, 542, ep, 1);
    lemma_empty_id(prompt, 542, mp);
    lemma_open_differs(prompt, 561, mp, 1);
    lemma_empty_id(prompt, 561, ep);
    lemma_open_differs(prompt, 1497, ep, 1);
    assert(prompt.subrange(1497, 1518) =~= tag_text(mp, valid_motions()[2]));
    lemma_tag_here(prompt, 1497, mp, valid_motions()[2]);
    lemma_open_differs(prompt, 1518, mp, 1);
    assert(prompt.subrange(1518, 1528) =~= tag_text(ep, valid_expressions()[0]));
    lemma_tag_here(prompt, 1518, ep, valid_expressions()[0]);
    lemma_open_differs(prompt, 1570, ep, 1);
    assert(prompt.subrange(1570, 1584) =~= tag_text(mp, valid_motions()[1]));
    lemma_tag_here(prompt, 1570, mp, valid_motions()[1]);
    lemma_open_differs(prompt, 1584, mp, 1);
    assert(prompt.subrange(1584, 1594) =~= tag_text(ep, valid_expressions()[1]));
    lemma_tag_here(prompt, 1584, ep, valid_expressions()[1]);
    lemma_open_differs(prompt, 1641, ep, 1);
    assert(prompt.subrange(1641, 1655) =~= tag_text(mp, valid_motions()[3]));
    lemma_tag_here(prompt, 1641, mp, valid_motions()[3]);
    lemma_open_differs(prompt, 1655, mp, 1);
    assert(prompt.subrange(1655, 1669) =~= tag_text(ep, valid_expressions()[2]));
    lemma_tag_here(prompt, 1655, ep, valid_expressions()[2]);
    lemma_open_differs(prompt, 1709, ep, 1);
    assert(prompt.subrange(1709, 1729) =~= tag_text(mp, valid_motions()[5]));
    lemma_tag_here(prompt, 1709, mp, valid_motions()[5]);
    lemma_open_differs(prompt, 1729, mp, 1);
    assert(prompt.subrange(1729, 1741) =~= tag_text(ep, valid_expressions()[3]));
    lemma_tag_here(prompt, 1729, ep, valid_expressions()[3]);
    lemma_open_differs(prompt, 1778, ep, 1);
    assert(prompt.subrange(1778, 1797) =~= tag_text(mp, valid_motions()[4]));
    lemma_tag_here(prompt, 1778, mp, valid_motions()[4]);
    lemma_open_differs(prompt, 1797, mp, 1);
    assert(prompt.subrange(1797, 1806) =~= tag_text(ep, valid_expressions()[4]));
    lemma_tag_here(prompt, 1797, ep, valid_expressions()[4]);
    lemma_open_differs(prompt, 1860, ep, 1);
    assert(prompt.subrange(1860, 1874) =~= tag_text(mp, valid_motions()[3]));
    lemma_tag_here(prompt, 1860, mp, valid_motions()[3]);
    lemma_open_differs(prompt, 1874, mp, 1);
    assert(prompt.subrange(1874, 1889) =~= tag_text(ep, valid_expressions()[5]));
    lemma_tag_here(prompt, 1874, ep, valid_expressions()[5]);
    lemma_open_differs(prompt, 1918, ep, 1);
    assert(prompt.subrange(1918, 1932) =~= tag_text(mp, valid_motions()[1]));
    lemma_tag_here(prompt, 1918, mp, valid_motions()[1]);
    lemma_open_differs(prompt, 1932, mp, 1);
    assert(prompt.subrange(1932, 1943) =~= tag_text(ep, valid_expressions()[6]));
    lemma_tag_here(prompt, 1932, ep, valid_expressions()[6]);
    assert forall|i: int| #[trigger] tag_end_at(prompt, i, mp) is Some implies valid_motions().contains(
        prompt.subrange(i + mp.len(), tag_end_at(prompt, i, mp)->0 - 1),
    ) by {
        if i >= 0 && i < prompt.len() && prompt[i] != '[' {
            lemma_open_differs(prompt, i, mp, 0);
        }
    }
    assert forall|i: int| #[trigger] tag_end_at(prompt, i, ep) is Some implies valid_expressions().contains(
        prompt.subrange(i + ep.len(), tag_end_at(prompt, i, ep)->0 - 1),
    ) by {
        if i >= 0 && i < prompt.len() && prompt[i] != '[' {
            lemma_open_differs(prompt, i, ep, 0);
        }
    }
}

} // verus!
