use vstd::prelude::*;
use vstd::string::*;
use crate::orthography::Orthography;
use crate::phonemes::Phonemes;
use crate::random::RandomSource;
use crate::text::char_to_string;
use crate::text::str_chars;

verus! {

/// The template codes that name a phoneme class: an uppercase code always
/// draws a character, its lowercase form does so only on a coin flip.
pub open spec fn valid_code(code: char) -> bool {
    code == 'C' || code == 'c' || code == 'V' || code == 'v' || code == 'E' || code == 'e'
        || code == 'G' || code == 'g' || code == 'S' || code == 's'
}

/// Whether a template code always contributes a character.
pub open spec fn mandatory(code: char) -> bool {
    code == 'C' || code == 'V' || code == 'E' || code == 'G' || code == 'S'
}

/// The phoneme class a template code draws from.
pub open spec fn class_of(ph: Phonemes, code: char) -> Seq<char> {
    if code == 'C' || code == 'c' {
        ph.consonants@
    } else if code == 'V' || code == 'v' {
        ph.vowels@
    } else if code == 'E' || code == 'e' {
        ph.endings@
    } else if code == 'G' || code == 'g' {
        ph.glides@
    } else {
        ph.sibilants@
    }
}

/// Every code of a template is one of the recognized class codes.
pub open spec fn codes_ok(t: Seq<char>) -> bool {
    forall|i: int| 0 <= i < t.len() ==> valid_code(#[trigger] t[i])
}

/// At least one code of the template always contributes a character, so no
/// syllable comes out empty.
pub open spec fn has_mandatory(t: Seq<char>) -> bool {
    exists|i: int| 0 <= i < t.len() && mandatory(#[trigger] t[i])
}

/// A syllable `s` is one the template `t` can produce: walking the codes in
/// order, every mandatory code contributed one character of its class, and
/// every optional code contributed one such character or nothing.
pub open spec fn syllable_matches(ph: Phonemes, t: Seq<char>, s: Seq<char>) -> bool
    decreases t.len(),
{
    if t.len() == 0 {
        s.len() == 0
    } else {
        let code = t.last();
        let took = s.len() >= 1 && class_of(ph, code).contains(s.last()) && syllable_matches(
            ph,
            t.drop_last(),
            s.drop_last(),
        );
        if mandatory(code) {
            took
        } else {
            took || syllable_matches(ph, t.drop_last(), s)
        }
    }
}

/// Whether a code is one of the recognized class codes.
fn valid_code_exec(c: char) -> (r: bool)
    ensures
        r == valid_code(c),
{
    c == 'C' || c == 'c' || c == 'V' || c == 'v' || c == 'E' || c == 'e' || c == 'G' || c == 'g'
        || c == 'S' || c == 's'
}

/// Checks that a template holds recognized codes only and at least one
/// mandatory one.
fn check_template(t: &Vec<char>) -> (b: bool)
    ensures
        b == (codes_ok(t@) && has_mandatory(t@)),
{
    let n = t.len();
    let mut ok = true;
    let mut mand = false;
    let mut i: usize = 0;
    proof {
        assert(t@.take(0) =~= Seq::<char>::empty());
    }
    while i < n
        invariant
            i <= n,
            n == t@.len(),
            ok == codes_ok(t@.take(i as int)),
            mand == has_mandatory(t@.take(i as int)),
        decreases n - i,
    {
        let c = t[i];
        let okc = valid_code_exec(c);
        let mc = mandatory_code(c);
        let ghost pre = t@.take(i as int);
        let ghost post = t@.take(i + 1);
        proof {
            assert(post[i as int] == t@[i as int]);
            if codes_ok(pre) && valid_code(t@[i as int]) {
                assert forall|j: int| 0 <= j < post.len() implies valid_code(
                    #[trigger] post[j],
                ) by {
                    if j < i as int {
                        assert(post[j] == pre[j]);
                    }
                }
            }
            if codes_ok(post) {
                assert forall|j: int| 0 <= j < pre.len() implies valid_code(#[trigger] pre[j]) by {
                    assert(pre[j] == post[j]);
                }
            }
            if has_mandatory(pre) {
                let k = choose|k: int| 0 <= k < pre.len() && mandatory(pre[k]);
                assert(post[k] == pre[k]);
                assert(has_mandatory(post));
            }
            if mandatory(t@[i as int]) {
                assert((i as int) < post.len() && mandatory(post[i as int]));
                assert(has_mandatory(post));
            }
            if has_mandatory(post) && !has_mandatory(pre) && !mandatory(t@[i as int]) {
                let k = choose|k: int| 0 <= k < post.len() && mandatory(post[k]);
                if k < i as int {
                    assert(pre[k] == post[k]);
                    assert(has_mandatory(pre));
                }
                assert(false);
            }
        }
        ok = ok && okc;
        mand = mand || mc;
        i += 1;
    }
    proof {
        assert(t@.take(n as int) =~= t@);
    }
    ok && mand
}

/// The template every language can fall back on: one consonant, one vowel,
/// one consonant, all mandatory.
fn base_template() -> (t: Vec<char>)
    ensures
        codes_ok(t@),
        has_mandatory(t@),
{
    let mut t: Vec<char> = Vec::new();
    t.push('C');
    t.push('V');
    t.push('C');
    proof {
        assert forall|i: int| 0 <= i < t@.len() implies valid_code(#[trigger] t@[i]) by {
            if i == 0 {
                assert(t@[0] == 'C');
            } else if i == 1 {
                assert(t@[1] == 'V');
            } else {
                assert(t@[2] == 'C');
            }
        }
        assert(mandatory(t@[0]));
        assert(has_mandatory(t@));
    }
    t
}

/// The characters of one catalog template. The catalog is fixed and its
/// entries all pass the code check, so the fallback never stands in at run
/// time; it only keeps the catalog's guarantee free of any error path.
fn checked_template(s: &str) -> (t: Vec<char>)
    ensures
        codes_ok(t@),
        has_mandatory(t@),
{
    let t = str_chars(s);
    if check_template(&t) {
        t
    } else {
        base_template()
    }
}

/// The fixed catalog of syllable templates a language draws one of.
pub(crate) fn syllable_templates() -> (r: Vec<Vec<char>>)
    ensures
        r@.len() == 22,
        forall|i: int|
            0 <= i < r@.len() ==> codes_ok((#[trigger] r@[i])@) && has_mandatory(r@[i]@),
{
    let mut v: Vec<Vec<char>> = Vec::new();
    v.push(checked_template("CVC"));
    v.push(checked_template("CVvC"));
    v.push(checked_template("CVVc"));
    v.push(checked_template("CVc"));
    v.push(checked_template("CV"));
    v.push(checked_template("VC"));
    v.push(checked_template("CVE"));
    v.push(checked_template("cVC"));
    v.push(checked_template("CVe"));
    v.push(checked_template("CgVC"));
    v.push(checked_template("CgVE"));
    v.push(checked_template("sCVC"));
    v.push(checked_template("sCVE"));
    v.push(checked_template("sCVc"));
    v.push(checked_template("cVE"));
    v.push(checked_template("cVc"));
    v.push(checked_template("cVe"));
    v.push(checked_template("cgVC"));
    v.push(checked_template("VC"));
    v.push(checked_template("CVgc"));
    v.push(checked_template("cVgC"));
    v.push(checked_template("cVGc"));
    proof {
        assert(forall|i: int|
            0 <= i < v@.len() ==> codes_ok((#[trigger] v@[i])@) && has_mandatory(v@[i]@));
    }
    v
}

/// One character of the class, drawn with the squared-uniform bias toward
/// the front of the list: the front of a permuted class is its most
/// frequent member.
pub(crate) fn weighted_char<S: RandomSource>(rs: &mut S, chars: &Vec<char>) -> (r: char)
    requires
        chars@.len() >= 1,
    ensures
        chars@.contains(r),
{
    let idx = rs.biased_index(chars.len());
    chars[idx]
}

/// The phonetic core of one language: its phoneme classes, its spelling
/// rules, one syllable template, and the bounds on how many syllables a
/// word is built from.
#[derive(Debug, Clone)]
pub struct BaseLanguage {
    pub phonemes: Phonemes,
    pub orthography: Orthography,
    pub syllable: Vec<char>,
    pub min_syllable: u8,
    pub max_syllable: u8,
}

/// One syllable slot of a word: either a fresh syllable the template can
/// produce, or, where a morpheme list was supplied, one of its entries.
pub open spec fn part_ok(
    ph: Phonemes,
    t: Seq<char>,
    morphs: Option<Seq<Seq<char>>>,
    p: Seq<char>,
) -> bool {
    syllable_matches(ph, t, p) || match morphs {
        Some(ms) => ms.contains(p),
        None => false,
    }
}

/// A rendered word `out` is one the language can compose: between
/// `min_syllable` and `max_syllable` parts, each a template syllable or a
/// supplied morpheme, concatenated as raw symbols and then spelled out
/// through the orthography in one pass.
pub open spec fn word_shape(
    base: BaseLanguage,
    morphs: Option<Seq<Seq<char>>>,
    parts: Seq<Seq<char>>,
    out: Seq<char>,
) -> bool {
    &&& base.min_syllable <= parts.len() <= base.max_syllable
    &&& forall|i: int|
        0 <= i < parts.len() ==> part_ok(base.phonemes, base.syllable@, morphs, #[trigger] parts[i])
    &&& out == base.orthography.transform_spec(parts.flatten())
}

/// Some decomposition into admissible syllable parts yields `out`.
pub open spec fn is_word_of(
    base: BaseLanguage,
    morphs: Option<Seq<Seq<char>>>,
    out: Seq<char>,
) -> bool {
    exists|parts: Seq<Seq<char>>| word_shape(base, morphs, parts, out)
}

/// The morpheme list as the contracts see it: each entry as its character
/// sequence.
pub open spec fn morph_view(m: Option<&Vec<String>>) -> Option<Seq<Seq<char>>> {
    match m {
        Some(v) => Some(v.deep_view()),
        None => None,
    }
}

impl BaseLanguage {
    /// The classes are populated, the template is a recognized one that
    /// cannot produce empty syllables, the spelling rules lose no symbol,
    /// and the syllable-count bounds are ordered and within range.
    pub open spec fn wf(self) -> bool {
        &&& self.phonemes.wf()
        &&& self.orthography.wf()
        &&& codes_ok(self.syllable@)
        &&& has_mandatory(self.syllable@)
        &&& 1 <= self.min_syllable < self.max_syllable <= 6
    }

    /// Walks the template codes in order: a mandatory code appends one
    /// weighted-random character of its class; an optional code flips a
    /// coin and on true does the same. Returns the raw symbol sequence,
    /// not yet spelled out.
    pub fn make_syllable<S: RandomSource>(&self, rs: &mut S) -> (r: String)
        requires
            self.wf(),
        ensures
            syllable_matches(self.phonemes, self.syllable@, r@),
            r@.len() >= 1,
    {
        let n = self.syllable.len();
        let mut acc = String::new();
        let mut i: usize = 0;
        proof {
            assert(self.syllable@.take(0) =~= Seq::<char>::empty());
        }
        while i < n
            invariant
                i <= n,
                n == self.syllable@.len(),
                self.wf(),
                syllable_matches(self.phonemes, self.syllable@.take(i as int), acc@),
                has_mandatory(self.syllable@.take(i as int)) ==> acc@.len() >= 1,
            decreases n - i,
        {
            let code = self.syllable[i];
            let ghost t_pre = self.syllable@.take(i as int);
            let ghost t_post = self.syllable@.take(i + 1);
            let ghost acc_pre = acc@;
            proof {
                assert(valid_code(self.syllable@[i as int]));
                assert(t_post.drop_last() =~= t_pre);
                assert(t_post.last() == self.syllable@[i as int]);
            }
            let take_it: bool = if mandatory_code(code) {
                true
            } else {
                rs.coin()
            };
            if take_it {
                let ch: char = match code {
                    'C' | 'c' => weighted_char(rs, &self.phonemes.consonants),
                    'V' | 'v' => weighted_char(rs, &self.phonemes.vowels),
                    'E' | 'e' => weighted_char(rs, &self.phonemes.endings),
                    'G' | 'g' => weighted_char(rs, &self.phonemes.glides),
                    'S' | 's' => weighted_char(rs, &self.phonemes.sibilants),
                    _ => {
                        proof {
                            assert(false);
                        }
                        ' '
                    },
                };
                let unit = char_to_string(ch);
                acc.append(unit.as_str());
                proof {
                    assert(class_of(self.phonemes, code).contains(ch));
                    assert(acc@.drop_last() =~= acc_pre);
                    assert(acc@.last() == ch);
                    assert(syllable_matches(self.phonemes, t_post, acc@));
                }
            } else {
                proof {
                    assert(!mandatory(code));
                    assert(syllable_matches(self.phonemes, t_post, acc@));
                }
            }
            proof {
                if has_mandatory(t_post) && acc@.len() == 0 {
                    let k = choose|k: int| 0 <= k < t_post.len() && mandatory(t_post[k]);
                    assert(t_post[i as int] == code);
                    if k < i as int {
                        assert(t_pre[k] == t_post[k]);
                        assert(has_mandatory(t_pre));
                    }
                    assert(false);
                }
            }
            i += 1;
        }
        proof {
            assert(self.syllable@.take(n as int) =~= self.syllable@);
        }
        acc
    }

    /// Composes one word: a syllable count drawn with the squared-uniform
    /// bias toward `min_syllable`; for each slot, a supplied morpheme (with
    /// probability one quarter, picked front-biased) or a fresh syllable;
    /// the raw symbols concatenated and spelled out through the orthography
    /// in one pass over the whole word.
    pub fn make_word<S: RandomSource>(&self, rs: &mut S, morphemes: Option<&Vec<String>>) -> (r:
        String)
        requires
            self.wf(),
            match morphemes {
                Some(m) => m@.len() >= 1,
                None => true,
            },
        ensures
            is_word_of(*self, morph_view(morphemes), r@),
            morphemes is None ==> r@.len() >= 1,
    {
        let min = self.min_syllable;
        let width = self.max_syllable + 1 - self.min_syllable;
        let count = rs.biased_count(min, width);
        let mut ipa = String::new();
        let ghost mut parts: Seq<Seq<char>> = Seq::empty();
        let mut k: u8 = 0;
        proof {
            assert(parts.flatten() =~= Seq::<char>::empty());
        }
        while k < count
            invariant
                k <= count,
                self.wf(),
                match morphemes {
                    Some(m) => m@.len() >= 1,
                    None => true,
                },
                self.min_syllable <= count <= self.max_syllable,
                parts.len() == k as int,
                forall|i: int|
                    0 <= i < parts.len() ==> part_ok(
                        self.phonemes,
                        self.syllable@,
                        morph_view(morphemes),
                        #[trigger] parts[i],
                    ),
                ipa@ == parts.flatten(),
            decreases count - k,
        {
            let syl: String = match morphemes {
                Some(morph) => {
                    if rs.chance(25) {
                        let mi = rs.biased_index(morph.len());
                        let m = morph[mi].clone();
                        proof {
                            assert(morph.deep_view()[mi as int] == morph@[mi as int]@);
                            assert(morph.deep_view().contains(m@));
                        }
                        m
                    } else {
                        self.make_syllable(rs)
                    }
                },
                None => self.make_syllable(rs),
            };
            ipa.append(syl.as_str());
            proof {
                parts.lemma_flatten_push(syl@);
                parts = parts.push(syl@);
                assert(ipa@ =~= parts.flatten());
            }
            k += 1;
        }
        let r = self.orthography.transform(ipa.as_str());
        proof {
            assert(word_shape(*self, morph_view(morphemes), parts, r@));
            if morphemes is None {
                assert(syllable_matches(self.phonemes, self.syllable@, parts[0]));
                lemma_matched_syllable_nonempty(self.phonemes, self.syllable@, parts[0]);
                parts.lemma_flatten_and_flatten_alt_are_equivalent();
                parts.lemma_flatten_length_ge_single_element_length(0);
                crate::orthography::lemma_transform_keeps_every_symbol(
                    self.orthography,
                    parts.flatten(),
                );
            }
        }
        r
    }
}

/// An uppercase class code always contributes a character; a lowercase one
/// only on a coin flip.
fn mandatory_code(code: char) -> (r: bool)
    ensures
        r == mandatory(code),
{
    code == 'C' || code == 'V' || code == 'E' || code == 'G' || code == 'S'
}

/// A template with a mandatory code never produces an empty syllable.
pub proof fn lemma_matched_syllable_nonempty(ph: Phonemes, t: Seq<char>, s: Seq<char>)
    requires
        syllable_matches(ph, t, s),
        has_mandatory(t),
    ensures
        s.len() >= 1,
    decreases t.len(),
{
    let k = choose|k: int| 0 <= k < t.len() && mandatory(t[k]);
    let code = t.last();
    if mandatory(code) {
    } else {
        assert(k < t.len() - 1);
        let took = s.len() >= 1 && class_of(ph, code).contains(s.last()) && syllable_matches(
            ph,
            t.drop_last(),
            s.drop_last(),
        );
        if !took {
            assert(t.drop_last()[k] == t[k]);
            assert(has_mandatory(t.drop_last()));
            lemma_matched_syllable_nonempty(ph, t.drop_last(), s);
        }
    }
}

/// Every word the composer can produce is built from between `min_syllable`
/// and `max_syllable` syllable parts.
pub proof fn lemma_word_syllable_count(
    base: BaseLanguage,
    morphs: Option<Seq<Seq<char>>>,
    parts: Seq<Seq<char>>,
    out: Seq<char>,
)
    requires
        word_shape(base, morphs, parts, out),
    ensures
        base.min_syllable as int <= parts.len() <= base.max_syllable as int,
{
}

} // verus!
