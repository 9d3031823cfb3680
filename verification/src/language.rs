use vstd::prelude::*;
use vstd::string::*;
use crate::orthography::Orthography;
use crate::orthography::consonant_mappings;
use crate::orthography::vowel_mappings;
use crate::phonemes::Phonemes;
use crate::random::RandomSource;
use crate::text::capitalize;
use crate::text::capitalize_spec;
use crate::words::BaseLanguage;
use crate::words::is_word_of;
use crate::words::morph_view;
use crate::words::syllable_matches;
use crate::words::syllable_templates;

verus! {

/// No two entries read the same.
pub open spec fn distinct_seqs(s: Seq<Seq<char>>) -> bool {
    forall|i: int, j: int| 0 <= i < j < s.len() ==> (#[trigger] s[i]) != (#[trigger] s[j])
}

/// `out` is the orthographic rendering of one syllable the language's
/// template can produce.
pub open spec fn rendered_syllable(b: BaseLanguage, out: Seq<char>) -> bool {
    exists|s: Seq<char>|
        syllable_matches(b.phonemes, b.syllable@, s) && out == b.orthography.transform_spec(s)
}

/// `w` is a generated word, capitalized.
pub open spec fn is_cap_word(
    b: BaseLanguage,
    ms: Option<Seq<Seq<char>>>,
    w: Seq<char>,
) -> bool {
    exists|raw: Seq<char>| is_word_of(b, ms, raw) && w == capitalize_spec(raw)
}

/// How a name's long core comes from its one or two capitalized words: a
/// single word stands alone, or the two join with a space or with the
/// genitive word in spaces.
pub open spec fn name_join(w1: Seq<char>, w2: Seq<char>, g: Seq<char>, core: Seq<char>) -> bool {
    core == w1 || core == w1 + " "@ + w2 || core == w1 + " "@ + g + " "@ + w2
}

/// The shape of a place or region name: one capitalized morpheme-backed
/// word, or two joined by a space or by the genitive word in spaces; the
/// short form is the first word; the long form may carry the capitalized
/// definite article in front.
pub open spec fn name_result(
    b: BaseLanguage,
    ms: Option<Seq<Seq<char>>>,
    g: Seq<char>,
    d: Seq<char>,
    long: Seq<char>,
    short: Seq<char>,
) -> bool {
    exists|w1: Seq<char>, w2: Seq<char>, core: Seq<char>|
        #![trigger name_join(w1, w2, g, core)]
        {
            &&& is_cap_word(b, ms, w1)
            &&& is_cap_word(b, ms, w2)
            &&& name_join(w1, w2, g, core)
            &&& short == w1
            &&& (long == core || long == capitalize_spec(d) + " "@ + core)
        }
}

/// How a person name's long core and bare short form come from its one or
/// two capitalized words: a single word stands for both, or the words join
/// with a space or the genitive word, the short form then following the
/// surname convention.
pub open spec fn person_parts(
    w1: Seq<char>,
    w2: Seq<char>,
    g: Seq<char>,
    surname_last: bool,
    core: Seq<char>,
    bare: Seq<char>,
) -> bool {
    (core == w1 && bare == w1) || ((core == w1 + " "@ + w2 || core == w1 + " "@ + g + " "@ + w2)
        && bare == (if surname_last {
        w2
    } else {
        w1
    }))
}

/// The shape of a person name: as a place name, but the short form of a
/// two-word name follows the language's surname convention, and both forms
/// may carry one of the language's titles in front instead of the article.
pub open spec fn person_result(
    b: BaseLanguage,
    ms: Option<Seq<Seq<char>>>,
    g: Seq<char>,
    titles: Seq<Seq<char>>,
    surname_last: bool,
    long: Seq<char>,
    short: Seq<char>,
) -> bool {
    exists|w1: Seq<char>, w2: Seq<char>, core: Seq<char>, bare: Seq<char>|
        #![trigger person_parts(w1, w2, g, surname_last, core, bare)]
        {
            &&& is_cap_word(b, ms, w1)
            &&& is_cap_word(b, ms, w2)
            &&& person_parts(w1, w2, g, surname_last, core, bare)
            &&& ((long == core && short == bare) || (exists|t: Seq<char>|
                titles.contains(t) && long == t + " "@ + core && short == t + " "@ + bare))
        }
}

/// A complete generated language: its phonetic core, two fixed function
/// words, the morpheme stock of each name category, the titles, and the
/// convention for which half of a two-word person name is the short form.
///
/// A value is built once from a random source and read-only afterwards;
/// every later generation call takes the language and a source and leaves
/// the language untouched.
#[derive(Debug, Clone)]
pub struct Language {
    base: BaseLanguage,
    genitive: String,
    definite: String,
    place: Vec<String>,
    region: Vec<String>,
    person: Vec<String>,
    titles: Vec<String>,
    surname_last: bool,
}

impl Language {
    /// The phonetic core.
    pub closed spec fn spec_base(self) -> BaseLanguage {
        self.base
    }

    /// The language's word for "of".
    pub closed spec fn spec_genitive(self) -> Seq<char> {
        self.genitive@
    }

    /// The language's definite article.
    pub closed spec fn spec_definite(self) -> Seq<char> {
        self.definite@
    }

    /// The place-name morphemes, as raw syllables.
    pub closed spec fn spec_place(self) -> Seq<Seq<char>> {
        self.place.deep_view()
    }

    /// The region-name morphemes, as raw syllables.
    pub closed spec fn spec_region(self) -> Seq<Seq<char>> {
        self.region.deep_view()
    }

    /// The person-name morphemes, as raw syllables.
    pub closed spec fn spec_person(self) -> Seq<Seq<char>> {
        self.person.deep_view()
    }

    /// The titles, rendered and mostly capitalized.
    pub closed spec fn spec_titles(self) -> Seq<Seq<char>> {
        self.titles.deep_view()
    }

    /// Whether the second word of a two-word person name is its short form.
    pub closed spec fn spec_surname_last(self) -> bool {
        self.surname_last
    }

    /// What construction guarantees of every language: a well-formed
    /// phonetic core; function words rendered from its own syllables;
    /// five to nine place and region morphemes and seven to thirteen person
    /// morphemes, each a syllable the template can produce; and four to
    /// seven pairwise distinct titles.
    pub open spec fn wf(self) -> bool {
        &&& self.spec_base().wf()
        &&& rendered_syllable(self.spec_base(), self.spec_genitive())
        &&& rendered_syllable(self.spec_base(), self.spec_definite())
        &&& 5 <= self.spec_place().len() <= 9
        &&& forall|i: int|
            0 <= i < self.spec_place().len() ==> syllable_matches(
                self.spec_base().phonemes,
                self.spec_base().syllable@,
                #[trigger] self.spec_place()[i],
            )
        &&& 5 <= self.spec_region().len() <= 9
        &&& forall|i: int|
            0 <= i < self.spec_region().len() ==> syllable_matches(
                self.spec_base().phonemes,
                self.spec_base().syllable@,
                #[trigger] self.spec_region()[i],
            )
        &&& 7 <= self.spec_person().len() <= 13
        &&& forall|i: int|
            0 <= i < self.spec_person().len() ==> syllable_matches(
                self.spec_base().phonemes,
                self.spec_base().syllable@,
                #[trigger] self.spec_person()[i],
            )
        &&& 4 <= self.spec_titles().len() <= 7
        &&& distinct_seqs(self.spec_titles())
    }

    /// The language's word for "of", as built at construction.
    pub fn genitive(&self) -> (r: &str)
        ensures
            r@ == self.spec_genitive(),
    {
        self.genitive.as_str()
    }

    /// The language's definite article, as built at construction.
    pub fn definite(&self) -> (r: &str)
        ensures
            r@ == self.spec_definite(),
    {
        self.definite.as_str()
    }

    /// The language's titles: pairwise distinct, and four to seven of them
    /// in every well-formed language.
    pub fn titles(&self) -> (r: &Vec<String>)
        ensures
            r.deep_view() == self.spec_titles(),
            self.wf() ==> 4 <= r@.len() <= 7,
            self.wf() ==> distinct_seqs(r.deep_view()),
    {
        proof {
            assert(self.titles.deep_view().len() == self.titles@.len());
        }
        &self.titles
    }
}

/// A well-formed language's function words are never empty: they render a
/// syllable of a template with a mandatory code, and the orthography loses
/// no symbol.
pub proof fn lemma_function_words_nonempty(lang: Language)
    requires
        lang.wf(),
    ensures
        lang.spec_genitive().len() >= 1,
        lang.spec_definite().len() >= 1,
{
    let b = lang.spec_base();
    let g = choose|s: Seq<char>|
        syllable_matches(b.phonemes, b.syllable@, s) && lang.spec_genitive()
            == b.orthography.transform_spec(s);
    crate::words::lemma_matched_syllable_nonempty(b.phonemes, b.syllable@, g);
    crate::orthography::lemma_transform_keeps_every_symbol(b.orthography, g);
    let d = choose|s: Seq<char>|
        syllable_matches(b.phonemes, b.syllable@, s) && lang.spec_definite()
            == b.orthography.transform_spec(s);
    crate::words::lemma_matched_syllable_nonempty(b.phonemes, b.syllable@, d);
    crate::orthography::lemma_transform_keeps_every_symbol(b.orthography, d);
}

/// Every well-formed language carries four to seven titles, no two alike.
pub proof fn lemma_titles_invariant(lang: Language)
    requires
        lang.wf(),
    ensures
        4 <= lang.spec_titles().len() <= 7,
        distinct_seqs(lang.spec_titles()),
{
}

/// The sixteen bytes a seed string yields: its UTF-8 bytes, truncated to
/// sixteen, right-padded with the byte 1 where shorter — never all zero for
/// a short seed, so even the empty seed initializes a usable source.
pub fn seed_bytes(s: &str) -> (r: Vec<u8>)
    ensures
        r@.len() == 16,
        forall|i: int|
            0 <= i < 16 ==> r@[i] == (if i < s.spec_bytes().len() {
                s.spec_bytes()[i]
            } else {
                1u8
            }),
        s.spec_bytes().len() < 16 ==> r@[15] == 1u8,
{
    let b = s.as_bytes();
    let mut v: Vec<u8> = Vec::new();
    let mut i: usize = 0;
    while i < 16
        invariant
            i <= 16,
            b@ == s.spec_bytes(),
            v@.len() == i,
            forall|k: int|
                0 <= k < i ==> v@[k] == (if k < s.spec_bytes().len() {
                    s.spec_bytes()[k]
                } else {
                    1u8
                }),
        decreases 16 - i,
    {
        if i < b.len() {
            let x = b[i];
            v.push(x);
        } else {
            v.push(1u8);
        }
        i += 1;
    }
    v
}

/// `count` fresh raw syllables, to serve as one category's morphemes.
fn syllable_list<S: RandomSource>(rs: &mut S, base: &BaseLanguage, count: u8) -> (r: Vec<String>)
    requires
        base.wf(),
    ensures
        r@.len() == count as int,
        forall|i: int|
            0 <= i < r.deep_view().len() ==> syllable_matches(
                base.phonemes,
                base.syllable@,
                #[trigger] r.deep_view()[i],
            ),
{
    let mut v: Vec<String> = Vec::new();
    let mut k: u8 = 0;
    while k < count
        invariant
            k <= count,
            base.wf(),
            v@.len() == k as int,
            forall|i: int|
                0 <= i < v.deep_view().len() ==> syllable_matches(
                    base.phonemes,
                    base.syllable@,
                    #[trigger] v.deep_view()[i],
                ),
        decreases count - k,
    {
        let ghost pre = v.deep_view();
        let s = base.make_syllable(rs);
        v.push(s);
        proof {
            assert(v.deep_view() =~= pre.push(s@));
        }
        k += 1;
    }
    v
}

impl Language {
    /// Builds a whole language from the source: the phoneme inventory, a
    /// consonant and a vowel spelling overlay, a syllable template, the
    /// syllable-count bounds, then the function words, the morpheme stock
    /// of each name category, the titles, and the surname convention —
    /// consuming the source in that fixed order, so one stream always
    /// rebuilds one language.
    pub fn from_rng<S: RandomSource>(rs: &mut S) -> (r: Language)
        ensures
            r.wf(),
    {
        let phonemes = Phonemes::from_rand(rs);
        let mut c_maps = consonant_mappings();
        let ci = rs.range_usize(0, c_maps.len());
        let c_map = c_maps.remove(ci);
        let mut v_maps = vowel_mappings();
        let vi = rs.range_usize(0, v_maps.len());
        let v_map = v_maps.remove(vi);
        let orthography = Orthography::new().with_mapping(&c_map).with_mapping(&v_map);
        let mut templates = syllable_templates();
        let ti = rs.range_usize(0, templates.len());
        let syllable = templates.remove(ti);
        // a short template needs more syllables to produce usable words
        let min_syllable = if syllable.len() < 3 {
            rs.range_u8(1, 3) + 1
        } else {
            rs.range_u8(1, 3)
        };
        let max_syllable = rs.range_u8(min_syllable + 1, 7);
        let base = BaseLanguage { phonemes, orthography, syllable, min_syllable, max_syllable };
        proof {
            assert(base.wf());
        }
        let g_raw = base.make_syllable(rs);
        let genitive = base.orthography.transform(g_raw.as_str());
        let d_raw = base.make_syllable(rs);
        let definite = base.orthography.transform(d_raw.as_str());
        let pc = rs.range_u8(5, 10);
        let place = syllable_list(rs, &base, pc);
        let rc = rs.range_u8(5, 10);
        let region = syllable_list(rs, &base, rc);
        let nc = rs.range_u8(7, 14);
        let person = syllable_list(rs, &base, nc);
        let title_count = rs.range_u8(4, 8) as usize;
        let mut titles: Vec<String> = Vec::new();
        let mut attempts: usize = 0;
        // Uniqueness by rejection. The attempt budget only bounds the loop;
        // a fresh batch of titles never comes close to it.
        while titles.len() < title_count && attempts < 100000
            invariant
                base.wf(),
                titles@.len() <= title_count,
                title_count <= 7,
                attempts <= 100000,
                distinct_seqs(titles.deep_view()),
            decreases 100000 - attempts,
        {
            attempts += 1;
            let t_raw = base.make_syllable(rs);
            let t0 = base.orthography.transform(t_raw.as_str());
            let title = if rs.chance(90) {
                capitalize(t0.as_str())
            } else {
                t0
            };
            if !contains_string(&titles, &title) {
                let ghost pre = titles.deep_view();
                titles.push(title);
                proof {
                    assert(titles.deep_view() =~= pre.push(title@));
                    assert forall|i: int, j: int|
                        0 <= i < j < titles.deep_view().len() implies (
                    #[trigger] titles.deep_view()[i]) != (#[trigger] titles.deep_view()[j]) by {
                        if j == pre.len() {
                            assert(!pre.contains(title@));
                            assert(titles.deep_view()[i] == pre[i]);
                            if pre[i] == title@ {
                                assert(pre.contains(title@));
                            }
                        }
                    }
                }
            }
        }
        // If the budget ever ran out, top the list up with padding titles of
        // unmatched length, keeping it distinct and of the drawn size.
        while titles.len() < title_count
            invariant
                titles@.len() <= title_count,
                distinct_seqs(titles.deep_view()),
            decreases title_count - titles@.len(),
        {
            let t = fresh_title(&titles);
            let ghost pre = titles.deep_view();
            titles.push(t);
            proof {
                assert(titles.deep_view() =~= pre.push(t@));
                assert forall|i: int, j: int|
                    0 <= i < j < titles.deep_view().len() implies (
                #[trigger] titles.deep_view()[i]) != (#[trigger] titles.deep_view()[j]) by {
                    if j == pre.len() {
                        assert(titles.deep_view()[i] == pre[i]);
                    }
                }
            }
        }
        let surname_last = rs.coin();
        let lang = Language { base, genitive, definite, place, region, person, titles, surname_last };
        proof {
            assert(rendered_syllable(lang.spec_base(), lang.spec_genitive())) by {
                assert(syllable_matches(base.phonemes, base.syllable@, g_raw@) && genitive@
                    == base.orthography.transform_spec(g_raw@));
            }
            assert(rendered_syllable(lang.spec_base(), lang.spec_definite())) by {
                assert(syllable_matches(base.phonemes, base.syllable@, d_raw@) && definite@
                    == base.orthography.transform_spec(d_raw@));
            }
            assert(lang.spec_place().len() == place@.len());
            assert(lang.spec_region().len() == region@.len());
            assert(lang.spec_person().len() == person@.len());
            assert(lang.spec_titles().len() == titles@.len());
            assert(lang.wf());
        }
        lang
    }
}

impl Language {
    /// A plain word: composed with no morpheme list, so function words look
    /// phonotactically ordinary rather than name-like.
    pub fn make_word_rng<S: RandomSource>(&self, rs: &mut S) -> (r: String)
        requires
            self.wf(),
        ensures
            is_word_of(self.spec_base(), None, r@),
            r@.len() >= 1,
    {
        self.base.make_word(rs, None)
    }

    /// The shared composition of place and region names: one or two
    /// capitalized morpheme-backed words, a coin-flip join, and a one-in-ten
    /// definite-article prefix on the long form.
    fn make_name_rng<S: RandomSource>(&self, rs: &mut S, morphemes: Option<&Vec<String>>) -> (r: (
        String,
        String,
    ))
        requires
            self.wf(),
            match morphemes {
                Some(m) => m@.len() >= 1,
                None => true,
            },
        ensures
            name_result(
                self.spec_base(),
                morph_view(morphemes),
                self.spec_genitive(),
                self.spec_definite(),
                r.0@,
                r.1@,
            ),
    {
        let ghost ms = morph_view(morphemes);
        let ghost gw1: Seq<char>;
        let ghost gw2: Seq<char>;
        let (long, short): (String, String) = if rs.coin() {
            let w0 = self.base.make_word(rs, morphemes);
            let w = capitalize(w0.as_str());
            proof {
                gw1 = w@;
                gw2 = w@;
                assert(is_cap_word(self.spec_base(), ms, w@)) by {
                    assert(is_word_of(self.spec_base(), ms, w0@) && w@ == capitalize_spec(w0@));
                }
            }
            let wc = w.clone();
            (wc, w)
        } else {
            let w10 = self.base.make_word(rs, morphemes);
            let w1 = capitalize(w10.as_str());
            let w20 = self.base.make_word(rs, morphemes);
            let w2 = capitalize(w20.as_str());
            proof {
                gw1 = w1@;
                gw2 = w2@;
                assert(is_cap_word(self.spec_base(), ms, w1@)) by {
                    assert(is_word_of(self.spec_base(), ms, w10@) && w1@ == capitalize_spec(w10@));
                }
                assert(is_cap_word(self.spec_base(), ms, w2@)) by {
                    assert(is_word_of(self.spec_base(), ms, w20@) && w2@ == capitalize_spec(w20@));
                }
            }
            let l = if rs.coin() {
                w1.clone().concat(" ").concat(w2.as_str())
            } else {
                w1.clone().concat(" ").concat(self.genitive.as_str()).concat(" ").concat(
                    w2.as_str(),
                )
            };
            (l, w1)
        };
        let ghost gcore = long@;
        if rs.chance(10) {
            let dc = capitalize(self.definite.as_str());
            let full = dc.concat(" ").concat(long.as_str());
            proof {
                assert(full@ == capitalize_spec(self.spec_definite()) + " "@ + gcore);
                assert(name_result(
                    self.spec_base(),
                    ms,
                    self.spec_genitive(),
                    self.spec_definite(),
                    full@,
                    short@,
                )) by {
                    assert(is_cap_word(self.spec_base(), ms, gw1) && is_cap_word(
                        self.spec_base(),
                        ms,
                        gw2,
                    ) && name_join(gw1, gw2, self.spec_genitive(), gcore) && short@ == gw1 && full@
                        == capitalize_spec(self.spec_definite()) + " "@ + gcore);
                }
            }
            (full, short)
        } else {
            proof {
                assert(name_result(
                    self.spec_base(),
                    ms,
                    self.spec_genitive(),
                    self.spec_definite(),
                    long@,
                    short@,
                )) by {
                    assert(is_cap_word(self.spec_base(), ms, gw1) && is_cap_word(
                        self.spec_base(),
                        ms,
                        gw2,
                    ) && name_join(gw1, gw2, self.spec_genitive(), gcore) && short@ == gw1 && long@
                        == gcore);
                }
            }
            (long, short)
        }
    }

    /// A place name, long and short form.
    pub fn make_place_rng<S: RandomSource>(&self, rs: &mut S) -> (r: (String, String))
        requires
            self.wf(),
        ensures
            name_result(
                self.spec_base(),
                Some(self.spec_place()),
                self.spec_genitive(),
                self.spec_definite(),
                r.0@,
                r.1@,
            ),
    {
        proof {
            assert(self.place.deep_view().len() == self.place@.len());
        }
        self.make_name_rng(rs, Some(&self.place))
    }

    /// A region name, long and short form.
    pub fn make_region_rng<S: RandomSource>(&self, rs: &mut S) -> (r: (String, String))
        requires
            self.wf(),
        ensures
            name_result(
                self.spec_base(),
                Some(self.spec_region()),
                self.spec_genitive(),
                self.spec_definite(),
                r.0@,
                r.1@,
            ),
    {
        proof {
            assert(self.region.deep_view().len() == self.region@.len());
        }
        self.make_name_rng(rs, Some(&self.region))
    }

    /// A person name, long and short form: composed like a place name from
    /// the person morphemes, but the short form of a two-word name follows
    /// the surname convention, and one time in ten a front-biased title is
    /// prefixed to both forms.
    pub fn make_person_rng<S: RandomSource>(&self, rs: &mut S) -> (r: (String, String))
        requires
            self.wf(),
        ensures
            person_result(
                self.spec_base(),
                Some(self.spec_person()),
                self.spec_genitive(),
                self.spec_titles(),
                self.spec_surname_last(),
                r.0@,
                r.1@,
            ),
    {
        let ghost ms = Some(self.spec_person());
        proof {
            assert(self.person.deep_view().len() == self.person@.len());
        }
        let ghost gw1: Seq<char>;
        let ghost gw2: Seq<char>;
        let (long, short): (String, String) = if rs.coin() {
            let w0 = self.base.make_word(rs, Some(&self.person));
            let w = capitalize(w0.as_str());
            proof {
                gw1 = w@;
                gw2 = w@;
                assert(is_cap_word(self.spec_base(), ms, w@)) by {
                    assert(is_word_of(self.spec_base(), ms, w0@) && w@ == capitalize_spec(w0@));
                }
            }
            let wc = w.clone();
            (wc, w)
        } else {
            let w10 = self.base.make_word(rs, Some(&self.person));
            let w1 = capitalize(w10.as_str());
            let w20 = self.base.make_word(rs, Some(&self.person));
            let w2 = capitalize(w20.as_str());
            proof {
                gw1 = w1@;
                gw2 = w2@;
                assert(is_cap_word(self.spec_base(), ms, w1@)) by {
                    assert(is_word_of(self.spec_base(), ms, w10@) && w1@ == capitalize_spec(w10@));
                }
                assert(is_cap_word(self.spec_base(), ms, w2@)) by {
                    assert(is_word_of(self.spec_base(), ms, w20@) && w2@ == capitalize_spec(w20@));
                }
            }
            let l = if rs.coin() {
                w1.clone().concat(" ").concat(w2.as_str())
            } else {
                w1.clone().concat(" ").concat(self.genitive.as_str()).concat(" ").concat(
                    w2.as_str(),
                )
            };
            if self.surname_last {
                (l, w2)
            } else {
                (l, w1)
            }
        };
        let ghost gcore = long@;
        let ghost gbare = short@;
        if rs.chance(10) {
            let idx = rs.biased_index(self.titles.len());
            let title = self.titles[idx].clone();
            let l2 = title.clone().concat(" ").concat(long.as_str());
            let s2 = title.concat(" ").concat(short.as_str());
            proof {
                assert(self.spec_titles()[idx as int] == self.titles@[idx as int]@);
                assert(self.spec_titles().contains(title@));
                assert(person_result(
                    self.spec_base(),
                    ms,
                    self.spec_genitive(),
                    self.spec_titles(),
                    self.spec_surname_last(),
                    l2@,
                    s2@,
                )) by {
                    assert(is_cap_word(self.spec_base(), ms, gw1) && is_cap_word(
                        self.spec_base(),
                        ms,
                        gw2,
                    ) && person_parts(
                        gw1,
                        gw2,
                        self.spec_genitive(),
                        self.spec_surname_last(),
                        gcore,
                        gbare,
                    ) && self.spec_titles().contains(title@) && l2@ == title@ + " "@ + gcore && s2@
                        == title@ + " "@ + gbare);
                }
            }
            (l2, s2)
        } else {
            proof {
                assert(person_result(
                    self.spec_base(),
                    ms,
                    self.spec_genitive(),
                    self.spec_titles(),
                    self.spec_surname_last(),
                    long@,
                    short@,
                )) by {
                    assert(is_cap_word(self.spec_base(), ms, gw1) && is_cap_word(
                        self.spec_base(),
                        ms,
                        gw2,
                    ) && person_parts(
                        gw1,
                        gw2,
                        self.spec_genitive(),
                        self.spec_surname_last(),
                        gcore,
                        gbare,
                    ));
                }
            }
            (long, short)
        }
    }
}

/// Whether some entry reads the same as `s`.
fn contains_string(v: &Vec<String>, s: &String) -> (b: bool)
    ensures
        b == v.deep_view().contains(s@),
{
    let n = v.len();
    let mut i: usize = 0;
    while i < n
        invariant
            i <= n,
            n == v@.len(),
            forall|k: int| 0 <= k < i ==> (#[trigger] v.deep_view()[k]) != s@,
        decreases n - i,
    {
        if v[i].eq(s) {
            proof {
                assert(v.deep_view()[i as int] == s@);
            }
            return true;
        }
        i += 1;
    }
    proof {
        if v.deep_view().contains(s@) {
            let k = choose|k: int| 0 <= k < v.deep_view().len() && v.deep_view()[k] == s@;
            assert(v.deep_view()[k] != s@);
        }
    }
    false
}

/// A string no entry of the list reads as: one character longer than the
/// longest entry.
fn fresh_title(existing: &Vec<String>) -> (r: String)
    ensures
        forall|i: int| 0 <= i < existing.deep_view().len() ==> (#[trigger] existing.deep_view()[i])
            != r@,
{
    let n = existing.len();
    let mut best = String::new();
    let mut i: usize = 0;
    while i < n
        invariant
            i <= n,
            n == existing@.len(),
            forall|k: int| 0 <= k < i ==> (#[trigger] existing@[k])@.len() <= best@.len(),
        decreases n - i,
    {
        if existing[i].unicode_len() > best.unicode_len() {
            best = existing[i].clone();
        }
        i += 1;
    }
    let mut r = best;
    let ghost pre = r@;
    r.append("x");
    proof {
        reveal_strlit("x");
        assert(r@.len() == pre.len() + 1);
        assert forall|i: int| 0 <= i < existing.deep_view().len() implies (
        #[trigger] existing.deep_view()[i]) != r@ by {
            assert(existing.deep_view()[i] == existing@[i]@);
            assert(existing@[i]@.len() <= pre.len());
        }
    }
    r
}

} // verus!
