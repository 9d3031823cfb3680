use vstd::prelude::*;
use vstd::string::*;

verus! {

/// The Unicode uppercase mapping of a character, as `char::to_uppercase`
/// yields it: one or more characters, a function of the character alone.
pub uninterp spec fn upper_of(c: char) -> Seq<char>;

/// Relies on `char::to_uppercase`: yields the Unicode uppercase mapping of
/// the character as one or more characters, depending on the character alone.
#[verifier::external_body]
fn uppercase_char(c: char) -> (r: String)
    ensures
        r@ == upper_of(c),
        r@.len() >= 1,
{
    c.to_uppercase().to_string()
}

/// Relies on `char::to_string` (through the `Display` impl of `char`): the
/// string holding exactly that one character.
#[verifier::external_body]
pub(crate) fn char_to_string(c: char) -> (r: String)
    ensures
        r@ == seq![c],
{
    c.to_string()
}

/// A word with its first character replaced by that character's uppercase
/// mapping; the empty word stays empty.
pub open spec fn capitalize_spec(s: Seq<char>) -> Seq<char> {
    if s.len() == 0 {
        s
    } else {
        upper_of(s[0]) + s.skip(1)
    }
}

/// Uppercases the first character of a string, by its natural case folding,
/// and leaves the remainder unchanged; empty input yields empty output.
pub fn capitalize(s: &str) -> (r: String)
    ensures
        r@ == capitalize_spec(s@),
        s@.len() == 0 ==> r@.len() == 0,
        s@.len() >= 1 ==> r@.len() >= s@.len(),
{
    let n = s.unicode_len();
    if n == 0 {
        let r = String::new();
        proof {
            assert(r@ =~= s@);
        }
        r
    } else {
        let first = s.get_char(0);
        let rest = s.substring_char(1, n);
        let up = uppercase_char(first);
        let r = up.concat(rest);
        proof {
            assert(s@.subrange(1, n as int) =~= s@.skip(1));
        }
        r
    }
}

/// The characters of a string, in order, as a vector.
pub(crate) fn str_chars(s: &str) -> (r: Vec<char>)
    ensures
        r@ == s@,
{
    let n = s.unicode_len();
    let mut v: Vec<char> = Vec::new();
    let mut i: usize = 0;
    while i < n
        invariant
            i <= n,
            n == s@.len(),
            v@ == s@.subrange(0, i as int),
        decreases n - i,
    {
        let c = s.get_char(i);
        v.push(c);
        proof {
            assert(v@ =~= s@.subrange(0, i + 1));
        }
        i += 1;
    }
    proof {
        assert(v@ =~= s@);
    }
    v
}

} // verus!
