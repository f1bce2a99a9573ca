//! The four character classes, their alphabets and their ambiguous subsets.

use vstd::prelude::*;

verus! {

/// A named alphabet together with the characters of it that are easy to
/// misread.
#[derive(Clone, Copy, Debug, PartialEq, Eq, Structural)]
pub enum CharacterClass {
    Uppercase,
    Lowercase,
    Numbers,
    Special,
}

/// `alphabet` without the characters that occur in `ambiguous`, order kept.
pub open spec fn spec_filter_ambiguous(alphabet: Seq<char>, ambiguous: Seq<char>) -> Seq<char> {
    alphabet.filter(|c: char| !ambiguous.contains(c))
}

/// Whether `c` is one of the characters that any class treats as ambiguous.
pub open spec fn spec_is_ambiguous(c: char) -> bool {
    c == 'I' || c == 'O' || c == 'l' || c == '0' || c == '1'
}

impl CharacterClass {
    /// The ordered alphabet of the class.
    pub open spec fn spec_alphabet(self) -> Seq<char> {
        match self {
            CharacterClass::Uppercase => "ABCDEFGHIJKLMNOPQRSTUVWXYZ"@,
            CharacterClass::Lowercase => "abcdefghijklmnopqrstuvwxyz"@,
            CharacterClass::Numbers => "0123456789"@,
            CharacterClass::Special => "!@#$%^&*()-=_+[]{}|;:,.<>?"@,
        }
    }

    /// The characters of the class that are dropped when ambiguous
    /// characters are to be avoided.
    pub open spec fn spec_ambiguous(self) -> Seq<char> {
        match self {
            CharacterClass::Uppercase => "IO"@,
            CharacterClass::Lowercase => "l"@,
            CharacterClass::Numbers => "01"@,
            CharacterClass::Special => ""@,
        }
    }

    /// The name under which a report lists the class.
    pub open spec fn spec_name(self) -> Seq<char> {
        match self {
            CharacterClass::Uppercase => "uppercase"@,
            CharacterClass::Lowercase => "lowercase"@,
            CharacterClass::Numbers => "numbers"@,
            CharacterClass::Special => "special"@,
        }
    }

    /// The alphabet that generation draws from: the whole alphabet, or the
    /// alphabet without its ambiguous characters.
    pub open spec fn spec_filtered(self, avoid_ambiguous: bool) -> Seq<char> {
        if avoid_ambiguous {
            spec_filter_ambiguous(self.spec_alphabet(), self.spec_ambiguous())
        } else {
            self.spec_alphabet()
        }
    }

    /// The place of the class in the class order, from 0.
    pub open spec fn spec_position(self) -> nat {
        match self {
            CharacterClass::Uppercase => 0,
            CharacterClass::Lowercase => 1,
            CharacterClass::Numbers => 2,
            CharacterClass::Special => 3,
        }
    }

    /// How many characters the class contributes.
    pub open spec fn spec_size(self, avoid_ambiguous: bool) -> nat {
        match self {
            CharacterClass::Uppercase => if avoid_ambiguous { 24 } else { 26 },
            CharacterClass::Lowercase => if avoid_ambiguous { 25 } else { 26 },
            CharacterClass::Numbers => if avoid_ambiguous { 8 } else { 10 },
            CharacterClass::Special => 26,
        }
    }

    /// Whether `c` belongs to the class, ambiguous or not.
    pub open spec fn spec_member(self, c: char) -> bool {
        match self {
            CharacterClass::Uppercase => 'A' <= c <= 'Z',
            CharacterClass::Lowercase => 'a' <= c <= 'z',
            CharacterClass::Numbers => '0' <= c <= '9',
            CharacterClass::Special => self.spec_alphabet().contains(c),
        }
    }

    /// The alphabet of the class.
    pub fn alphabet(self) -> (s: &'static str)
        ensures
            s@ == self.spec_alphabet(),
    {
        match self {
            CharacterClass::Uppercase => "ABCDEFGHIJKLMNOPQRSTUVWXYZ",
            CharacterClass::Lowercase => "abcdefghijklmnopqrstuvwxyz",
            CharacterClass::Numbers => "0123456789",
            CharacterClass::Special => "!@#$%^&*()-=_+[]{}|;:,.<>?",
        }
    }

    /// The ambiguous characters of the class.
    pub fn ambiguous(self) -> (s: &'static str)
        ensures
            s@ == self.spec_ambiguous(),
    {
        match self {
            CharacterClass::Uppercase => "IO",
            CharacterClass::Lowercase => "l",
            CharacterClass::Numbers => "01",
            CharacterClass::Special => "",
        }
    }

    /// The name under which a report lists the class.
    pub fn name(self) -> (s: String)
        ensures
            s@ == self.spec_name(),
    {
        match self {
            CharacterClass::Uppercase => "uppercase".to_string(),
            CharacterClass::Lowercase => "lowercase".to_string(),
            CharacterClass::Numbers => "numbers".to_string(),
            CharacterClass::Special => "special".to_string(),
        }
    }

    /// The alphabet that generation draws from.
    pub fn filtered(self, avoid_ambiguous: bool) -> (kept: Vec<char>)
        ensures
            kept@ == self.spec_filtered(avoid_ambiguous),
    {
        if avoid_ambiguous {
            filter_ambiguous(self.alphabet(), self.ambiguous())
        } else {
            chars_of(self.alphabet())
        }
    }
}

/// The characters of a string, in order.
pub fn chars_of(s: &str) -> (v: Vec<char>)
    ensures
        v@ == s@,
{
    let mut v: Vec<char> = Vec::new();
    for c in it: s.chars()
        invariant
            v@ == it.seq().take(it.index() as int),
    {
        v.push(c);
    }
    v
}

/// Whether `c` occurs in `set`.
pub fn contains_char(set: &Vec<char>, c: char) -> (found: bool)
    ensures
        found == set@.contains(c),
{
    let mut i: usize = 0;
    while i < set.len()
        invariant
            i <= set.len(),
            forall|j: int| 0 <= j < i ==> set@[j] != c,
        decreases set.len() - i,
    {
        if set[i] == c {
            return true;
        }
        i += 1;
    }
    false
}

/// Removes from `alphabet` every character that occurs in `ambiguous`.
pub fn filter_ambiguous(alphabet: &str, ambiguous: &str) -> (kept: Vec<char>)
    ensures
        kept@ == spec_filter_ambiguous(alphabet@, ambiguous@),
{
    let all = chars_of(alphabet);
    let bad = chars_of(ambiguous);
    let ghost keep = |c: char| !ambiguous@.contains(c);
    let mut kept: Vec<char> = Vec::new();
    let mut i: usize = 0;
    proof {
        assert(all@.take(0) =~= Seq::<char>::empty());
        reveal(Seq::filter);
    }
    while i < all.len()
        invariant
            i <= all.len(),
            all@ == alphabet@,
            bad@ == ambiguous@,
            keep == |c: char| !ambiguous@.contains(c),
            kept@ == all@.take(i as int).filter(keep),
        decreases all.len() - i,
    {
        let c = all[i];
        proof {
            assert(all@.take(i + 1) =~= all@.take(i as int).push(c));
            all@.take(i as int).lemma_filter_push(c, keep);
        }
        if !contains_char(&bad, c) {
            kept.push(c);
        }
        i += 1;
    }
    proof {
        assert(all@.take(all.len() as int) =~= all@);
    }
    kept
}

/// A filter keeps a sequence whole when every element passes it.
proof fn lemma_filter_keeps_all(s: Seq<char>, keep: spec_fn(char) -> bool)
    requires
        forall|i: int| 0 <= i < s.len() ==> keep(#[trigger] s[i]),
    ensures
        s.filter(keep) == s,
    decreases s.len(),
{
    reveal(Seq::filter);
    if s.len() > 0 {
        lemma_filter_keeps_all(s.drop_last(), keep);
        assert(s.drop_last().push(s.last()) =~= s);
    }
}

/// A filter leaves nothing of a sequence when no element passes it.
proof fn lemma_filter_drops_all(s: Seq<char>, keep: spec_fn(char) -> bool)
    requires
        forall|i: int| 0 <= i < s.len() ==> !keep(#[trigger] s[i]),
    ensures
        s.filter(keep) == Seq::<char>::empty(),
    decreases s.len(),
{
    reveal(Seq::filter);
    if s.len() > 0 {
        lemma_filter_drops_all(s.drop_last(), keep);
    }
}

/// A filter skips an element that fails it.
proof fn lemma_filter_drops_at(s: Seq<char>, keep: spec_fn(char) -> bool, at: int)
    requires
        0 <= at < s.len(),
        !keep(s[at]),
    ensures
        s.filter(keep) == s.take(at).filter(keep) + s.skip(at + 1).filter(keep),
{
    let x = s.subrange(at, at + 1);
    assert(s =~= s.take(at) + x + s.skip(at + 1));
    Seq::filter_distributes_over_add(s.take(at) + x, s.skip(at + 1), keep);
    Seq::filter_distributes_over_add(s.take(at), x, keep);
    lemma_filter_drops_all(x, keep);
}

/// The alphabets that are left once ambiguous characters are removed.
pub proof fn lemma_filtered_alphabets()
    ensures
        CharacterClass::Uppercase.spec_filtered(true) == "ABCDEFGHJKLMNPQRSTUVWXYZ"@,
        CharacterClass::Lowercase.spec_filtered(true) == "abcdefghijkmnopqrstuvwxyz"@,
        CharacterClass::Numbers.spec_filtered(true) == "23456789"@,
        CharacterClass::Special.spec_filtered(true) == "!@#$%^&*()-=_+[]{}|;:,.<>?"@,
{
    reveal_strlit("ABCDEFGHIJKLMNOPQRSTUVWXYZ");
    reveal_strlit("ABCDEFGHJKLMNPQRSTUVWXYZ");
    reveal_strlit("IO");
    reveal_strlit("abcdefghijklmnopqrstuvwxyz");
    reveal_strlit("abcdefghijkmnopqrstuvwxyz");
    reveal_strlit("l");
    reveal_strlit("0123456789");
    reveal_strlit("23456789");
    reveal_strlit("01");
    reveal_strlit("!@#$%^&*()-=_+[]{}|;:,.<>?");
    reveal_strlit("");
    assert(CharacterClass::Uppercase.spec_filtered(true) == "ABCDEFGHJKLMNPQRSTUVWXYZ"@) by {
        let s = CharacterClass::Uppercase.spec_alphabet();
        let bad = CharacterClass::Uppercase.spec_ambiguous();
        let keep = |c: char| !bad.contains(c);
        let rest = s.skip(9);
        assert(bad[0] == 'I' && bad[1] == 'O');
        lemma_filter_drops_at(s, keep, 8);
        lemma_filter_drops_at(rest, keep, 5);
        lemma_filter_keeps_all(s.take(8), keep);
        lemma_filter_keeps_all(rest.take(5), keep);
        lemma_filter_keeps_all(rest.skip(6), keep);
        assert(s.take(8) + (rest.take(5) + rest.skip(6)) =~= "ABCDEFGHJKLMNPQRSTUVWXYZ"@);
    }
    assert(CharacterClass::Lowercase.spec_filtered(true) == "abcdefghijkmnopqrstuvwxyz"@) by {
        let s = CharacterClass::Lowercase.spec_alphabet();
        let bad = CharacterClass::Lowercase.spec_ambiguous();
        let keep = |c: char| !bad.contains(c);
        assert(bad[0] == 'l');
        lemma_filter_drops_at(s, keep, 11);
        lemma_filter_keeps_all(s.take(11), keep);
        lemma_filter_keeps_all(s.skip(12), keep);
        assert(s.take(11) + s.skip(12) =~= "abcdefghijkmnopqrstuvwxyz"@);
    }
    assert(CharacterClass::Numbers.spec_filtered(true) == "23456789"@) by {
        let s = CharacterClass::Numbers.spec_alphabet();
        let bad = CharacterClass::Numbers.spec_ambiguous();
        let keep = |c: char| !bad.contains(c);
        let rest = s.skip(1);
        assert(bad[0] == '0' && bad[1] == '1');
        lemma_filter_drops_at(s, keep, 0);
        lemma_filter_drops_at(rest, keep, 0);
        lemma_filter_keeps_all(s.take(0), keep);
        lemma_filter_keeps_all(rest.take(0), keep);
        lemma_filter_keeps_all(rest.skip(1), keep);
        assert(s.take(0) + (rest.take(0) + rest.skip(1)) =~= "23456789"@);
    }
    assert(CharacterClass::Special.spec_filtered(true) == "!@#$%^&*()-=_+[]{}|;:,.<>?"@) by {
        let s = CharacterClass::Special.spec_alphabet();
        let bad = CharacterClass::Special.spec_ambiguous();
        lemma_filter_keeps_all(s, |c: char| !bad.contains(c));
    }
}

/// Every class contributes the number of characters that `spec_size` gives,
/// and so at least one.
pub proof fn lemma_class_size(class: CharacterClass, avoid_ambiguous: bool)
    ensures
        class.spec_filtered(avoid_ambiguous).len() == class.spec_size(avoid_ambiguous),
        class.spec_filtered(avoid_ambiguous).len() > 0,
{
    lemma_filtered_alphabets();
    reveal_strlit("ABCDEFGHIJKLMNOPQRSTUVWXYZ");
    reveal_strlit("ABCDEFGHJKLMNPQRSTUVWXYZ");
    reveal_strlit("abcdefghijklmnopqrstuvwxyz");
    reveal_strlit("abcdefghijkmnopqrstuvwxyz");
    reveal_strlit("0123456789");
    reveal_strlit("23456789");
    reveal_strlit("!@#$%^&*()-=_+[]{}|;:,.<>?");
}

/// The characters of a class are those of its alphabet: the letters `A` to
/// `Z`, the letters `a` to `z`, the digits, and the special characters.
pub proof fn lemma_alphabet_members(class: CharacterClass, c: char)
    ensures
        class.spec_alphabet().contains(c) <==> class.spec_member(c),
{
    reveal_strlit("ABCDEFGHIJKLMNOPQRSTUVWXYZ");
    reveal_strlit("abcdefghijklmnopqrstuvwxyz");
    reveal_strlit("0123456789");
    let alphabet = class.spec_alphabet();
    match class {
        CharacterClass::Uppercase => {
            if 'A' <= c <= 'Z' {
                assert(alphabet[c as int - 'A' as int] == c);
            }
        },
        CharacterClass::Lowercase => {
            if 'a' <= c <= 'z' {
                assert(alphabet[c as int - 'a' as int] == c);
            }
        },
        CharacterClass::Numbers => {
            if '0' <= c <= '9' {
                assert(alphabet[c as int - '0' as int] == c);
            }
        },
        CharacterClass::Special => {},
    }
}

/// A character that generation can draw for a class belongs to that class,
/// and is not ambiguous when ambiguous characters are avoided.
pub proof fn lemma_class_members(class: CharacterClass, avoid_ambiguous: bool, c: char)
    requires
        class.spec_filtered(avoid_ambiguous).contains(c),
    ensures
        class.spec_member(c),
        avoid_ambiguous ==> !spec_is_ambiguous(c),
{
    lemma_filtered_alphabets();
    reveal_strlit("ABCDEFGHIJKLMNOPQRSTUVWXYZ");
    reveal_strlit("ABCDEFGHJKLMNPQRSTUVWXYZ");
    reveal_strlit("abcdefghijklmnopqrstuvwxyz");
    reveal_strlit("abcdefghijkmnopqrstuvwxyz");
    reveal_strlit("0123456789");
    reveal_strlit("23456789");
    reveal_strlit("!@#$%^&*()-=_+[]{}|;:,.<>?");
}

/// Every character of every class is an ASCII character.
pub proof fn lemma_members_are_ascii(class: CharacterClass, c: char)
    requires
        class.spec_member(c),
    ensures
        '\0' <= c <= '\u{7f}',
{
    reveal_strlit("!@#$%^&*()-=_+[]{}|;:,.<>?");
}

/// No character belongs to two classes.
pub proof fn lemma_classes_disjoint(first: CharacterClass, second: CharacterClass, c: char)
    requires
        first.spec_member(c),
        second.spec_member(c),
    ensures
        first == second,
{
    reveal_strlit("!@#$%^&*()-=_+[]{}|;:,.<>?");
}

} // verus!
