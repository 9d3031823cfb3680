use vstd::prelude::*;
use vstd::pervasive::VecAdditionalExecFns;
use vstd::seq_lib::to_multiset_update;
use crate::random::RandomSource;
use crate::text::str_chars;

verus! {

/// The catalog of consonant inventories a language draws one of.
pub(crate) fn consonant_sets() -> (r: Vec<Vec<char>>)
    ensures
        r@.len() == 8,
        forall|i: int| 0 <= i < r@.len() ==> (#[trigger] r@[i])@.len() >= 1,
{
    let mut v: Vec<Vec<char>> = Vec::new();
    v.push(str_chars("ptkmnls"));
    v.push(str_chars("ptkbdgmnlrsʃzʒʧ"));
    v.push(str_chars("ptkmnh"));
    v.push(str_chars("hklmnpwʔ"));
    v.push(str_chars("ptkqvsgrmnŋlj"));
    v.push(str_chars("tksʃdbqɣxmnlrwj"));
    v.push(str_chars("tkdgmnsʃ"));
    v.push(str_chars("ptkbdgmnszʒʧhjw"));
    proof {
        reveal_strlit("ptkmnls");
        reveal_strlit("ptkbdgmnlrsʃzʒʧ");
        reveal_strlit("ptkmnh");
        reveal_strlit("hklmnpwʔ");
        reveal_strlit("ptkqvsgrmnŋlj");
        reveal_strlit("tksʃdbqɣxmnlrwj");
        reveal_strlit("tkdgmnsʃ");
        reveal_strlit("ptkbdgmnszʒʧhjw");
        assert(forall|i: int| 0 <= i < v@.len() ==> (#[trigger] v@[i])@.len() >= 1);
    }
    v
}

/// The catalog of vowel inventories a language draws one of.
pub(crate) fn vowel_sets() -> (r: Vec<Vec<char>>)
    ensures
        r@.len() == 7,
        forall|i: int| 0 <= i < r@.len() ==> (#[trigger] r@[i])@.len() >= 1,
{
    let mut v: Vec<Vec<char>> = Vec::new();
    v.push(str_chars("aeiou"));
    v.push(str_chars("aiu"));
    v.push(str_chars("aeiouAEI"));
    v.push(str_chars("aeiouU"));
    v.push(str_chars("aiuAI"));
    v.push(str_chars("eou"));
    v.push(str_chars("aeiouAOU"));
    proof {
        reveal_strlit("aeiou");
        reveal_strlit("aiu");
        reveal_strlit("aeiouAEI");
        reveal_strlit("aeiouU");
        reveal_strlit("aiuAI");
        reveal_strlit("eou");
        reveal_strlit("aeiouAOU");
        assert(forall|i: int| 0 <= i < v@.len() ==> (#[trigger] v@[i])@.len() >= 1);
    }
    v
}

/// The catalog of sibilant inventories a language draws one of.
pub(crate) fn sibilant_sets() -> (r: Vec<Vec<char>>)
    ensures
        r@.len() == 3,
        forall|i: int| 0 <= i < r@.len() ==> (#[trigger] r@[i])@.len() >= 1,
{
    let mut v: Vec<Vec<char>> = Vec::new();
    v.push(str_chars("s"));
    v.push(str_chars("sʃ"));
    v.push(str_chars("sʃf"));
    proof {
        reveal_strlit("s");
        reveal_strlit("sʃ");
        reveal_strlit("sʃf");
        assert(forall|i: int| 0 <= i < v@.len() ==> (#[trigger] v@[i])@.len() >= 1);
    }
    v
}

/// The catalog of glide inventories a language draws one of.
pub(crate) fn glide_sets() -> (r: Vec<Vec<char>>)
    ensures
        r@.len() == 5,
        forall|i: int| 0 <= i < r@.len() ==> (#[trigger] r@[i])@.len() >= 1,
{
    let mut v: Vec<Vec<char>> = Vec::new();
    v.push(str_chars("rl"));
    v.push(str_chars("r"));
    v.push(str_chars("l"));
    v.push(str_chars("wj"));
    v.push(str_chars("rlwj"));
    proof {
        reveal_strlit("rl");
        reveal_strlit("r");
        reveal_strlit("l");
        reveal_strlit("wj");
        reveal_strlit("rlwj");
        assert(forall|i: int| 0 <= i < v@.len() ==> (#[trigger] v@[i])@.len() >= 1);
    }
    v
}

/// The catalog of ending inventories a language draws one of.
pub(crate) fn ending_sets() -> (r: Vec<Vec<char>>)
    ensures
        r@.len() == 4,
        forall|i: int| 0 <= i < r@.len() ==> (#[trigger] r@[i])@.len() >= 1,
{
    let mut v: Vec<Vec<char>> = Vec::new();
    v.push(str_chars("mn"));
    v.push(str_chars("sk"));
    v.push(str_chars("mnŋ"));
    v.push(str_chars("sʃzʒ"));
    proof {
        reveal_strlit("mn");
        reveal_strlit("sk");
        reveal_strlit("mnŋ");
        reveal_strlit("sʃzʒ");
        assert(forall|i: int| 0 <= i < v@.len() ==> (#[trigger] v@[i])@.len() >= 1);
    }
    v
}

/// Permutes the characters in place: a Fisher–Yates walk from the back, each
/// element swapped with a uniformly drawn one at or before it. The result
/// holds exactly the characters it started with.
pub(crate) fn shuffle_chars<S: RandomSource>(rs: &mut S, v: &mut Vec<char>)
    ensures
        final(v)@.len() == old(v)@.len(),
        final(v)@.to_multiset() == old(v)@.to_multiset(),
{
    let mut i: usize = v.len();
    while i >= 2
        invariant
            i <= v@.len(),
            v@.len() == old(v)@.len(),
            v@.to_multiset() == old(v)@.to_multiset(),
        decreases i,
    {
        i = i - 1;
        let j = rs.range_usize(0, i + 1);
        let a = v[i];
        let b = v[j];
        let ghost pre = v@;
        v.set(i, b);
        v.set(j, a);
        proof {
            broadcast use to_multiset_update;
            broadcast use vstd::seq_lib::to_multiset_contains;
            broadcast use vstd::multiset::group_multiset_axioms;
            broadcast use vstd::multiset::group_multiset_properties;

            let m = pre.to_multiset();
            let s1 = pre.update(i as int, b);
            assert(pre.contains(a));
            assert(s1.to_multiset() == m.insert(b).remove(a));
            assert(s1[j as int] == b);
            assert(v@ == s1.update(j as int, a));
            assert(v@.to_multiset() == s1.to_multiset().insert(a).remove(b));
            assert(v@.to_multiset() =~= m);
        }
    }
}

/// The five phoneme classes of one language: each drawn from its fixed
/// catalog and permuted once, so that a character's position encodes its
/// frequency rank (index 0 most frequent).
#[derive(Debug, Clone)]
pub struct Phonemes {
    pub consonants: Vec<char>,
    pub vowels: Vec<char>,
    pub sibilants: Vec<char>,
    pub glides: Vec<char>,
    pub endings: Vec<char>,
}

impl Phonemes {
    /// Every class holds at least one character.
    pub open spec fn wf(self) -> bool {
        &&& self.consonants@.len() >= 1
        &&& self.vowels@.len() >= 1
        &&& self.sibilants@.len() >= 1
        &&& self.glides@.len() >= 1
        &&& self.endings@.len() >= 1
    }

    /// Draws the five classes, each uniformly from its catalog and then
    /// permuted, consuming the source in the fixed order consonants,
    /// vowels, sibilants, glides, endings, so that one random stream always
    /// rebuilds one inventory.
    pub fn from_rand<S: RandomSource>(rs: &mut S) -> (r: Phonemes)
        ensures
            r.wf(),
    {
        let mut c_sets = consonant_sets();
        let ci = rs.range_usize(0, c_sets.len());
        let mut consonants = c_sets.remove(ci);
        shuffle_chars(rs, &mut consonants);

        let mut v_sets = vowel_sets();
        let vi = rs.range_usize(0, v_sets.len());
        let mut vowels = v_sets.remove(vi);
        shuffle_chars(rs, &mut vowels);

        let mut s_sets = sibilant_sets();
        let si = rs.range_usize(0, s_sets.len());
        let mut sibilants = s_sets.remove(si);
        shuffle_chars(rs, &mut sibilants);

        let mut g_sets = glide_sets();
        let gi = rs.range_usize(0, g_sets.len());
        let mut glides = g_sets.remove(gi);
        shuffle_chars(rs, &mut glides);

        let mut e_sets = ending_sets();
        let ei = rs.range_usize(0, e_sets.len());
        let mut endings = e_sets.remove(ei);
        shuffle_chars(rs, &mut endings);

        Phonemes { consonants, vowels, sibilants, glides, endings }
    }
}

} // verus!
