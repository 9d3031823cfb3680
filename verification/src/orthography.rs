use vstd::prelude::*;
use vstd::string::*;
use crate::text::char_to_string;

verus! {

/// The spelling a layered substitution table gives one phonetic symbol: the
/// value of the symbol's last entry, or the symbol itself where no entry
/// names it.
pub open spec fn lookup_in(m: Seq<(char, String)>, c: char) -> Seq<char>
    decreases m.len(),
{
    if m.len() == 0 {
        seq![c]
    } else if m.last().0 == c {
        m.last().1@
    } else {
        lookup_in(m.drop_last(), c)
    }
}

/// Every entry of a substitution table writes its symbol out as at least one
/// character.
pub open spec fn entries_wf(m: Seq<(char, String)>) -> bool {
    forall|i: int| 0 <= i < m.len() ==> (#[trigger] m[i]).1@.len() >= 1
}

/// Mapping of international phonetic symbols to their written-out spelling.
///
/// Built by layering: a base table first, then overlay tables, later entries
/// overwriting earlier ones for the same symbol. A symbol with no entry
/// passes through unchanged, so lookup never fails.
#[derive(Debug, Clone)]
pub struct Orthography {
    entries: Vec<(char, String)>,
}

/// The symbols the base substitution table names.
pub open spec fn default_key(c: char) -> bool {
    c == 'ʃ' || c == 'ʒ' || c == 'ʧ' || c == 'ʤ' || c == 'ŋ' || c == 'j' || c == 'x' || c == 'ɣ'
        || c == 'ʔ' || c == 'A' || c == 'E' || c == 'I' || c == 'O' || c == 'U'
}

/// The base substitution table: fixed spellings for the common phonetic
/// symbols, applied before any style overlay.
fn default_map() -> (r: Vec<(char, String)>)
    ensures
        entries_wf(r@),
        lookup_in(r@, 'ʃ') == "sh"@,
        lookup_in(r@, 'ʒ') == "zh"@,
        lookup_in(r@, 'ʧ') == "ch"@,
        lookup_in(r@, 'ʤ') == "j"@,
        lookup_in(r@, 'ŋ') == "ng"@,
        lookup_in(r@, 'j') == "y"@,
        lookup_in(r@, 'x') == "kh"@,
        lookup_in(r@, 'ɣ') == "gh"@,
        lookup_in(r@, 'ʔ') == "‘"@,
        lookup_in(r@, 'A') == "á"@,
        lookup_in(r@, 'E') == "é"@,
        lookup_in(r@, 'I') == "í"@,
        lookup_in(r@, 'O') == "ó"@,
        lookup_in(r@, 'U') == "ú"@,
        forall|c: char| !default_key(c) ==> lookup_in(r@, c) == seq![c],
{
    let mut v: Vec<(char, String)> = Vec::new();
    v.push(('ʃ', String::from_str("sh")));
    v.push(('ʒ', String::from_str("zh")));
    v.push(('ʧ', String::from_str("ch")));
    v.push(('ʤ', String::from_str("j")));
    v.push(('ŋ', String::from_str("ng")));
    v.push(('j', String::from_str("y")));
    v.push(('x', String::from_str("kh")));
    v.push(('ɣ', String::from_str("gh")));
    v.push(('ʔ', String::from_str("‘")));
    v.push(('A', String::from_str("á")));
    v.push(('E', String::from_str("é")));
    v.push(('I', String::from_str("í")));
    v.push(('O', String::from_str("ó")));
    v.push(('U', String::from_str("ú")));
    proof {
        reveal_strlit("sh");
        reveal_strlit("zh");
        reveal_strlit("ch");
        reveal_strlit("j");
        reveal_strlit("ng");
        reveal_strlit("y");
        reveal_strlit("kh");
        reveal_strlit("gh");
        reveal_strlit("‘");
        reveal_strlit("á");
        reveal_strlit("é");
        reveal_strlit("í");
        reveal_strlit("ó");
        reveal_strlit("ú");
        reveal_with_fuel(lookup_in, 16);
        assert(entries_wf(v@)) by {
            assert(forall|i: int| 0 <= i < v@.len() ==> (#[trigger] v@[i]).1@.len() >= 1);
        }
    }
    v
}

impl Orthography {
    /// The layered entries, in the order they were added.
    pub closed spec fn entries_of(self) -> Seq<(char, String)> {
        self.entries@
    }

    /// The spelling this orthography gives one symbol.
    pub open spec fn spec_get(self, c: char) -> Seq<char> {
        lookup_in(self.entries_of(), c)
    }

    /// The spelling of a whole symbol sequence: each symbol's spelling, in
    /// order, concatenated. Every input symbol contributes its own mapped
    /// unit to the output.
    pub open spec fn transform_spec(self, s: Seq<char>) -> Seq<char> {
        s.flat_map(|c: char| self.spec_get(c))
    }

    /// No entry maps a symbol to the empty string, so no symbol can vanish
    /// from a transformed word.
    pub open spec fn wf(self) -> bool {
        entries_wf(self.entries_of())
    }

    /// The orthography holding exactly the base substitution table: the
    /// fixed spellings for the common phonetic symbols, and passthrough for
    /// every other symbol.
    pub fn new() -> (r: Orthography)
        ensures
            r.wf(),
            r.spec_get('ʃ') == "sh"@,
            r.spec_get('ʒ') == "zh"@,
            r.spec_get('ʧ') == "ch"@,
            r.spec_get('ʤ') == "j"@,
            r.spec_get('ŋ') == "ng"@,
            r.spec_get('j') == "y"@,
            r.spec_get('x') == "kh"@,
            r.spec_get('ɣ') == "gh"@,
            r.spec_get('ʔ') == "‘"@,
            r.spec_get('A') == "á"@,
            r.spec_get('E') == "é"@,
            r.spec_get('I') == "í"@,
            r.spec_get('O') == "ó"@,
            r.spec_get('U') == "ú"@,
            forall|c: char| !default_key(c) ==> r.spec_get(c) == seq![c],
    {
        let base = Orthography { entries: Vec::new() };
        let dm = default_map();
        let r = base.with_mapping(&dm);
        proof {
            assert(r.entries_of() =~= dm@);
        }
        r
    }

    /// Layers further entries over this table; for a symbol named twice, the
    /// later entry wins.
    pub fn with_mapping(self, mapping: &Vec<(char, String)>) -> (r: Orthography)
        ensures
            r.entries_of() == self.entries_of() + mapping@,
            self.wf() && entries_wf(mapping@) ==> r.wf(),
    {
        let mut entries = self.entries;
        let ghost orig = entries@;
        let mut i: usize = 0;
        while i < mapping.len()
            invariant
                i <= mapping.len(),
                entries@ == orig + mapping@.subrange(0, i as int),
            decreases mapping.len() - i,
        {
            let key = mapping[i].0;
            let value = mapping[i].1.clone();
            entries.push((key, value));
            proof {
                assert(entries@ =~= orig + mapping@.subrange(0, i + 1));
            }
            i += 1;
        }
        proof {
            assert(entries@ =~= orig + mapping@);
        }
        let r = Orthography { entries };
        proof {
            if self.wf() && entries_wf(mapping@) {
                assert forall|j: int| 0 <= j < r.entries_of().len() implies (
                #[trigger] r.entries_of()[j]).1@.len() >= 1 by {
                    if j < orig.len() {
                        assert(r.entries_of()[j] == orig[j]);
                    } else {
                        assert(r.entries_of()[j] == mapping@[j - orig.len()]);
                    }
                }
            }
        }
        r
    }

    /// The written-out spelling of one symbol: the value of its last entry,
    /// or the symbol itself where the table has none.
    pub fn get_mapping(&self, ch: &char) -> (r: String)
        ensures
            r@ == self.spec_get(*ch),
    {
        let mut i: usize = self.entries.len();
        proof {
            assert(self.entries@.subrange(0, self.entries@.len() as int) =~= self.entries@);
        }
        while i > 0
            invariant
                i <= self.entries.len(),
                lookup_in(self.entries@, *ch) == lookup_in(
                    self.entries@.subrange(0, i as int),
                    *ch,
                ),
            decreases i,
        {
            i = i - 1;
            let ghost pre = self.entries@.subrange(0, i + 1);
            proof {
                assert(pre.last() == self.entries@[i as int]);
                assert(pre.drop_last() =~= self.entries@.subrange(0, i as int));
            }
            if self.entries[i].0 == *ch {
                return self.entries[i].1.clone();
            }
        }
        proof {
            assert(self.entries@.subrange(0, 0) =~= Seq::<(char, String)>::empty());
        }
        char_to_string(*ch)
    }

    /// Maps each symbol of a word independently and concatenates the
    /// results in order; a total function over any symbol sequence.
    pub fn transform(&self, word: &str) -> (r: String)
        ensures
            r@ == self.transform_spec(word@),
    {
        let n = word.unicode_len();
        let mut r = String::new();
        let mut i: usize = 0;
        proof {
            assert(word@.take(0).flat_map(|c: char| self.spec_get(c)) =~= Seq::<char>::empty());
        }
        while i < n
            invariant
                i <= n,
                n == word@.len(),
                r@ == word@.take(i as int).flat_map(|c: char| self.spec_get(c)),
            decreases n - i,
        {
            let c = word.get_char(i);
            let unit = self.get_mapping(&c);
            r.append(unit.as_str());
            proof {
                word@.lemma_flat_map_take_append(|c: char| self.spec_get(c), i as int);
            }
            i += 1;
        }
        proof {
            assert(word@.take(n as int) =~= word@);
        }
        r
    }
}

/// No style overlay: the base spellings stand as they are.
fn null_map() -> (r: Vec<(char, String)>)
    ensures
        entries_wf(r@),
        r@.len() == 0,
{
    let v: Vec<(char, String)> = Vec::new();
    v
}

/// Slavic-flavoured consonant spellings.
fn slavic_map() -> (r: Vec<(char, String)>)
    ensures
        entries_wf(r@),
{
    let mut v: Vec<(char, String)> = Vec::new();
    v.push(('ʃ', String::from_str("š")));
    v.push(('ʒ', String::from_str("ž")));
    v.push(('ʧ', String::from_str("č")));
    v.push(('ʤ', String::from_str("ǧ")));
    v.push(('j', String::from_str("j")));
    proof {
        reveal_strlit("š");
        reveal_strlit("ž");
        reveal_strlit("č");
        reveal_strlit("ǧ");
        reveal_strlit("j");
        assert(forall|i: int| 0 <= i < v@.len() ==> (#[trigger] v@[i]).1@.len() >= 1);
    }
    v
}

/// German-flavoured consonant spellings.
fn german_map() -> (r: Vec<(char, String)>)
    ensures
        entries_wf(r@),
{
    let mut v: Vec<(char, String)> = Vec::new();
    v.push(('ʃ', String::from_str("sch")));
    v.push(('ʒ', String::from_str("zh")));
    v.push(('ʧ', String::from_str("tsch")));
    v.push(('ʤ', String::from_str("dz")));
    v.push(('j', String::from_str("j")));
    v.push(('x', String::from_str("ch")));
    proof {
        reveal_strlit("sch");
        reveal_strlit("zh");
        reveal_strlit("tsch");
        reveal_strlit("dz");
        reveal_strlit("j");
        reveal_strlit("ch");
        assert(forall|i: int| 0 <= i < v@.len() ==> (#[trigger] v@[i]).1@.len() >= 1);
    }
    v
}

/// French-flavoured consonant spellings.
fn french_map() -> (r: Vec<(char, String)>)
    ensures
        entries_wf(r@),
{
    let mut v: Vec<(char, String)> = Vec::new();
    v.push(('ʃ', String::from_str("ch")));
    v.push(('ʒ', String::from_str("j")));
    v.push(('ʧ', String::from_str("tch")));
    v.push(('ʤ', String::from_str("dj")));
    v.push(('x', String::from_str("kh")));
    proof {
        reveal_strlit("ch");
        reveal_strlit("j");
        reveal_strlit("tch");
        reveal_strlit("dj");
        reveal_strlit("kh");
        assert(forall|i: int| 0 <= i < v@.len() ==> (#[trigger] v@[i]).1@.len() >= 1);
    }
    v
}

/// Pinyin-flavoured consonant spellings.
fn pinyin_map() -> (r: Vec<(char, String)>)
    ensures
        entries_wf(r@),
{
    let mut v: Vec<(char, String)> = Vec::new();
    v.push(('ʃ', String::from_str("x")));
    v.push(('ʧ', String::from_str("q")));
    v.push(('ʤ', String::from_str("j")));
    proof {
        reveal_strlit("x");
        reveal_strlit("q");
        reveal_strlit("j");
        assert(forall|i: int| 0 <= i < v@.len() ==> (#[trigger] v@[i]).1@.len() >= 1);
    }
    v
}

/// Umlaut vowel spellings.
fn umlauts_map() -> (r: Vec<(char, String)>)
    ensures
        entries_wf(r@),
{
    let mut v: Vec<(char, String)> = Vec::new();
    v.push(('A', String::from_str("ä")));
    v.push(('E', String::from_str("ë")));
    v.push(('I', String::from_str("ï")));
    v.push(('O', String::from_str("ö")));
    v.push(('U', String::from_str("ü")));
    proof {
        reveal_strlit("ä");
        reveal_strlit("ë");
        reveal_strlit("ï");
        reveal_strlit("ö");
        reveal_strlit("ü");
        assert(forall|i: int| 0 <= i < v@.len() ==> (#[trigger] v@[i]).1@.len() >= 1);
    }
    v
}

/// Welsh-flavoured vowel spellings.
fn welsh_map() -> (r: Vec<(char, String)>)
    ensures
        entries_wf(r@),
{
    let mut v: Vec<(char, String)> = Vec::new();
    v.push(('A', String::from_str("â")));
    v.push(('E', String::from_str("ê")));
    v.push(('I', String::from_str("y")));
    v.push(('O', String::from_str("ô")));
    v.push(('U', String::from_str("w")));
    proof {
        reveal_strlit("â");
        reveal_strlit("ê");
        reveal_strlit("y");
        reveal_strlit("ô");
        reveal_strlit("w");
        assert(forall|i: int| 0 <= i < v@.len() ==> (#[trigger] v@[i]).1@.len() >= 1);
    }
    v
}

/// Diphthong vowel spellings.
fn diphthongs_map() -> (r: Vec<(char, String)>)
    ensures
        entries_wf(r@),
{
    let mut v: Vec<(char, String)> = Vec::new();
    v.push(('A', String::from_str("au")));
    v.push(('E', String::from_str("ei")));
    v.push(('I', String::from_str("ie")));
    v.push(('O', String::from_str("ou")));
    v.push(('U', String::from_str("oo")));
    proof {
        reveal_strlit("au");
        reveal_strlit("ei");
        reveal_strlit("ie");
        reveal_strlit("ou");
        reveal_strlit("oo");
        assert(forall|i: int| 0 <= i < v@.len() ==> (#[trigger] v@[i]).1@.len() >= 1);
    }
    v
}

/// Doubled vowel spellings.
fn doubles_map() -> (r: Vec<(char, String)>)
    ensures
        entries_wf(r@),
{
    let mut v: Vec<(char, String)> = Vec::new();
    v.push(('A', String::from_str("qq")));
    v.push(('E', String::from_str("qq")));
    v.push(('I', String::from_str("ii")));
    v.push(('O', String::from_str("oo")));
    v.push(('U', String::from_str("uu")));
    proof {
        reveal_strlit("qq");
        reveal_strlit("ii");
        reveal_strlit("oo");
        reveal_strlit("uu");
        assert(forall|i: int| 0 <= i < v@.len() ==> (#[trigger] v@[i]).1@.len() >= 1);
    }
    v
}

/// The catalog of consonant style overlays a language draws one of.
pub(crate) fn consonant_mappings() -> (r: Vec<Vec<(char, String)>>)
    ensures
        r@.len() == 5,
        forall|i: int| 0 <= i < r@.len() ==> entries_wf((#[trigger] r@[i])@),
{
    let mut v: Vec<Vec<(char, String)>> = Vec::new();
    v.push(null_map());
    v.push(slavic_map());
    v.push(german_map());
    v.push(french_map());
    v.push(pinyin_map());
    v
}

/// The catalog of vowel style overlays a language draws one of.
pub(crate) fn vowel_mappings() -> (r: Vec<Vec<(char, String)>>)
    ensures
        r@.len() == 5,
        forall|i: int| 0 <= i < r@.len() ==> entries_wf((#[trigger] r@[i])@),
{
    let mut v: Vec<Vec<(char, String)>> = Vec::new();
    v.push(null_map());
    v.push(umlauts_map());
    v.push(welsh_map());
    v.push(diphthongs_map());
    v.push(doubles_map());
    v
}

/// A well-formed orthography writes every symbol out as at least one
/// character.
pub proof fn lemma_lookup_nonempty(m: Seq<(char, String)>, c: char)
    requires
        entries_wf(m),
    ensures
        lookup_in(m, c).len() >= 1,
    decreases m.len(),
{
    if m.len() == 0 {
    } else if m.last().0 == c {
        assert(m.last() == m[m.len() - 1]);
    } else {
        assert(entries_wf(m.drop_last())) by {
            assert(forall|i: int|
                0 <= i < m.drop_last().len() ==> (#[trigger] m.drop_last()[i]) == m[i]);
        }
        lemma_lookup_nonempty(m.drop_last(), c);
    }
}

/// The transform is total and loses nothing: every input symbol contributes
/// its own mapped unit, of at least one character, so the output is never
/// shorter in characters than the input is in symbols.
pub proof fn lemma_transform_keeps_every_symbol(o: Orthography, s: Seq<char>)
    requires
        o.wf(),
    ensures
        o.transform_spec(s).len() >= s.len(),
    decreases s.len(),
{
    if s.len() == 0 {
        assert(s.flat_map(|c: char| o.spec_get(c)) =~= Seq::<char>::empty());
    } else {
        let f = |c: char| o.spec_get(c);
        lemma_transform_keeps_every_symbol(o, s.drop_last());
        assert(s.take(s.len() - 1) =~= s.drop_last());
        s.lemma_flat_map_take_append(f, s.len() - 1);
        assert(s.take(s.len() as int) =~= s);
        lemma_lookup_nonempty(o.entries_of(), s.last());
        assert(s.take(s.len() as int).flat_map(f).len() >= s.drop_last().flat_map(f).len()
            + f(s[s.len() - 1]).len());
    }
}

} // verus!
