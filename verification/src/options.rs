//! Generation options and what follows from them alone: which classes take
//! part, the pool that characters are drawn from, and its size.

use vstd::prelude::*;
use crate::classes::{lemma_class_size, CharacterClass};

verus! {

/// What a caller asks of one generation.
#[derive(Clone, Copy, Debug)]
pub struct PasswordOptions {
    /// Number of characters wanted. Zero is allowed.
    pub length: usize,
    pub uppercase: bool,
    pub lowercase: bool,
    pub numbers: bool,
    pub special: bool,
    /// Leave out the characters that are easy to misread.
    pub avoid_ambiguous: bool,
}

impl Default for PasswordOptions {
    /// Length zero and nothing selected.
    fn default() -> (opts: Self)
        ensures
            opts.length == 0,
            !opts.uppercase,
            !opts.lowercase,
            !opts.numbers,
            !opts.special,
            !opts.avoid_ambiguous,
    {
        PasswordOptions {
            length: 0,
            uppercase: false,
            lowercase: false,
            numbers: false,
            special: false,
            avoid_ambiguous: false,
        }
    }
}

impl PasswordOptions {
    /// Whether the selector of `class` is set.
    pub open spec fn spec_selects(self, class: CharacterClass) -> bool {
        match class {
            CharacterClass::Uppercase => self.uppercase,
            CharacterClass::Lowercase => self.lowercase,
            CharacterClass::Numbers => self.numbers,
            CharacterClass::Special => self.special,
        }
    }

    /// The alphabet that `class` offers under these options.
    pub open spec fn spec_alphabet_of(self, class: CharacterClass) -> Seq<char> {
        class.spec_filtered(self.avoid_ambiguous)
    }

    /// A class is effective when it is selected and its filtered alphabet
    /// is not empty.
    pub open spec fn spec_is_effective(self, class: CharacterClass) -> bool {
        self.spec_selects(class) && self.spec_alphabet_of(class).len() > 0
    }

    /// `class` as a one-element list when it is selected, and no list entry
    /// otherwise.
    pub open spec fn spec_selected_entry(self, class: CharacterClass) -> Seq<CharacterClass> {
        if self.spec_selects(class) {
            seq![class]
        } else {
            Seq::empty()
        }
    }

    /// `class` as a one-element list when it is effective, and no list entry
    /// otherwise.
    pub open spec fn spec_effective_entry(self, class: CharacterClass) -> Seq<CharacterClass> {
        if self.spec_is_effective(class) {
            seq![class]
        } else {
            Seq::empty()
        }
    }

    /// The number of characters that `class` adds to the pool.
    pub open spec fn spec_size_of(self, class: CharacterClass) -> nat {
        if self.spec_selects(class) {
            self.spec_alphabet_of(class).len()
        } else {
            0
        }
    }

    /// Whether at least one selector is set.
    pub open spec fn spec_any_selected(self) -> bool {
        self.uppercase || self.lowercase || self.numbers || self.special
    }

    /// The options for a length and for the classes ticked in a list of the
    /// four classes in class order: `positions` holds the places ticked,
    /// from 0, in any order. Places beyond the list select nothing.
    pub fn from_selection(length: usize, positions: &Vec<usize>, avoid_ambiguous: bool) -> (opts:
        Self)
        ensures
            opts.length == length,
            opts.avoid_ambiguous == avoid_ambiguous,
            forall|class: CharacterClass|
                #[trigger] opts.spec_selects(class) == positions@.contains(
                    class.spec_position() as usize,
                ),
    {
        PasswordOptions {
            length,
            uppercase: contains_position(positions, 0),
            lowercase: contains_position(positions, 1),
            numbers: contains_position(positions, 2),
            special: contains_position(positions, 3),
            avoid_ambiguous,
        }
    }

    /// These options where any class is selected, and otherwise these
    /// options with all four classes selected.
    pub fn or_all_classes(self) -> (opts: Self)
        ensures
            self.spec_any_selected() ==> opts == self,
            !self.spec_any_selected() ==> opts == (PasswordOptions {
                uppercase: true,
                lowercase: true,
                numbers: true,
                special: true,
                ..self
            }),
    {
        if self.uppercase || self.lowercase || self.numbers || self.special {
            self
        } else {
            PasswordOptions {
                length: self.length,
                uppercase: true,
                lowercase: true,
                numbers: true,
                special: true,
                avoid_ambiguous: self.avoid_ambiguous,
            }
        }
    }

    /// Whether the selector of `class` is set.
    pub fn selects(&self, class: CharacterClass) -> (selected: bool)
        ensures
            selected == self.spec_selects(class),
    {
        match class {
            CharacterClass::Uppercase => self.uppercase,
            CharacterClass::Lowercase => self.lowercase,
            CharacterClass::Numbers => self.numbers,
            CharacterClass::Special => self.special,
        }
    }
}

/// Whether `position` occurs in `positions`.
fn contains_position(positions: &Vec<usize>, position: usize) -> (found: bool)
    ensures
        found == positions@.contains(position),
{
    let mut i: usize = 0;
    while i < positions.len()
        invariant
            i <= positions.len(),
            forall|j: int| 0 <= j < i ==> positions@[j] != position,
        decreases positions.len() - i,
    {
        if positions[i] == position {
            return true;
        }
        i += 1;
    }
    false
}

/// The selected classes, in class order.
pub open spec fn spec_selected_classes(opts: PasswordOptions) -> Seq<CharacterClass> {
    opts.spec_selected_entry(CharacterClass::Uppercase) + opts.spec_selected_entry(
        CharacterClass::Lowercase,
    ) + opts.spec_selected_entry(CharacterClass::Numbers) + opts.spec_selected_entry(
        CharacterClass::Special,
    )
}

/// The effective classes, in class order.
pub open spec fn spec_effective_classes(opts: PasswordOptions) -> Seq<CharacterClass> {
    opts.spec_effective_entry(CharacterClass::Uppercase) + opts.spec_effective_entry(
        CharacterClass::Lowercase,
    ) + opts.spec_effective_entry(CharacterClass::Numbers) + opts.spec_effective_entry(
        CharacterClass::Special,
    )
}

/// The filtered alphabets of the effective classes, in class order.
pub open spec fn spec_effective_sets(opts: PasswordOptions) -> Seq<Seq<char>> {
    spec_effective_classes(opts).map_values(|class: CharacterClass| opts.spec_alphabet_of(class))
}

/// Every character that generation may draw: the effective sets, one after
/// the other. A character that two sets hold is in the pool twice.
pub open spec fn spec_pool(opts: PasswordOptions) -> Seq<char> {
    spec_effective_sets(opts).flatten()
}

/// The names of the selected classes, in class order. A class is listed
/// because it is selected, whether or not any of its characters is left
/// after filtering.
pub open spec fn spec_character_sets(opts: PasswordOptions) -> Seq<Seq<char>> {
    spec_selected_classes(opts).map_values(|class: CharacterClass| class.spec_name())
}

/// The sum of the filtered alphabet sizes of the selected classes.
pub open spec fn spec_charset_size(opts: PasswordOptions) -> nat {
    opts.spec_size_of(CharacterClass::Uppercase) + opts.spec_size_of(CharacterClass::Lowercase)
        + opts.spec_size_of(CharacterClass::Numbers) + opts.spec_size_of(CharacterClass::Special)
}

/// The names of the selected classes.
pub fn get_character_sets(opts: &PasswordOptions) -> (sets: Vec<String>)
    ensures
        sets.deep_view() == spec_character_sets(*opts),
{
    let mut sets: Vec<String> = Vec::new();
    if opts.uppercase {
        sets.push(CharacterClass::Uppercase.name());
    }
    if opts.lowercase {
        sets.push(CharacterClass::Lowercase.name());
    }
    if opts.numbers {
        sets.push(CharacterClass::Numbers.name());
    }
    if opts.special {
        sets.push(CharacterClass::Special.name());
    }
    assert(sets.deep_view() =~= spec_character_sets(*opts));
    sets
}

/// The number of characters that the selected classes offer together.
pub fn get_charset_size(opts: &PasswordOptions) -> (size: usize)
    ensures
        size == spec_charset_size(*opts),
{
    let mut size: usize = 0;
    proof {
        lemma_class_size(CharacterClass::Uppercase, opts.avoid_ambiguous);
        lemma_class_size(CharacterClass::Lowercase, opts.avoid_ambiguous);
        lemma_class_size(CharacterClass::Numbers, opts.avoid_ambiguous);
        lemma_class_size(CharacterClass::Special, opts.avoid_ambiguous);
    }
    if opts.uppercase {
        size += CharacterClass::Uppercase.filtered(opts.avoid_ambiguous).len();
    }
    if opts.lowercase {
        size += CharacterClass::Lowercase.filtered(opts.avoid_ambiguous).len();
    }
    if opts.numbers {
        size += CharacterClass::Numbers.filtered(opts.avoid_ambiguous).len();
    }
    if opts.special {
        size += CharacterClass::Special.filtered(opts.avoid_ambiguous).len();
    }
    size
}

/// A character of one of the sets is a character of their concatenation.
pub proof fn lemma_flatten_contains(sets: Seq<Seq<char>>, k: int, c: char)
    requires
        0 <= k < sets.len(),
        sets[k].contains(c),
    ensures
        sets.flatten().contains(c),
    decreases sets.len(),
{
    let rest = sets.drop_first();
    if k == 0 {
        let i = choose|i: int| 0 <= i < sets[0].len() && sets[0][i] == c;
        assert(sets.flatten()[i] == c);
    } else {
        lemma_flatten_contains(rest, k - 1, c);
        let j = choose|j: int| 0 <= j < rest.flatten().len() && rest.flatten()[j] == c;
        assert(sets.flatten()[sets.first().len() + j] == c);
    }
}

/// A character of the concatenation is a character of one of the sets.
pub proof fn lemma_flatten_member(sets: Seq<Seq<char>>, c: char) -> (k: int)
    requires
        sets.flatten().contains(c),
    ensures
        0 <= k < sets.len(),
        sets[k].contains(c),
    decreases sets.len(),
{
    let i = choose|i: int| 0 <= i < sets.flatten().len() && sets.flatten()[i] == c;
    if i < sets.first().len() {
        assert(sets.first()[i] == c);
        0
    } else {
        let rest = sets.drop_first();
        assert(rest.flatten()[i - sets.first().len()] == c);
        lemma_flatten_member(rest, c) + 1
    }
}

/// Every selected class is effective: no class loses all its characters to
/// the ambiguous filter. So the effective classes are the selected ones,
/// and there is none exactly when nothing is selected.
pub proof fn lemma_selected_is_effective(opts: PasswordOptions)
    ensures
        spec_effective_classes(opts) == spec_selected_classes(opts),
        spec_effective_sets(opts).len() == spec_effective_classes(opts).len(),
        spec_effective_sets(opts).len() == 0 <==> !opts.spec_any_selected(),
        spec_effective_sets(opts).len() <= 4,
{
    lemma_class_size(CharacterClass::Uppercase, opts.avoid_ambiguous);
    lemma_class_size(CharacterClass::Lowercase, opts.avoid_ambiguous);
    lemma_class_size(CharacterClass::Numbers, opts.avoid_ambiguous);
    lemma_class_size(CharacterClass::Special, opts.avoid_ambiguous);
}

/// The effective classes are effective, each stands once in their list, and
/// each effective set is the filtered alphabet of the class at its place.
pub proof fn lemma_effective_classes(opts: PasswordOptions)
    ensures
        spec_effective_classes(opts).no_duplicates(),
        forall|class: CharacterClass|
            opts.spec_is_effective(class) <==> #[trigger] spec_effective_classes(opts).contains(
                class,
            ),
        forall|k: int|
            0 <= k < spec_effective_classes(opts).len() ==> #[trigger] spec_effective_sets(opts)[k]
                == opts.spec_alphabet_of(spec_effective_classes(opts)[k]),
{
    let classes = spec_effective_classes(opts);
    let upper = opts.spec_effective_entry(CharacterClass::Uppercase);
    let lower = opts.spec_effective_entry(CharacterClass::Lowercase);
    let numbers = opts.spec_effective_entry(CharacterClass::Numbers);
    let special = opts.spec_effective_entry(CharacterClass::Special);
    assert forall|class: CharacterClass| opts.spec_is_effective(class) implies classes.contains(
        class,
    ) by {
        let k = match class {
            CharacterClass::Uppercase => 0,
            CharacterClass::Lowercase => upper.len() as int,
            CharacterClass::Numbers => (upper.len() + lower.len()) as int,
            CharacterClass::Special => (upper.len() + lower.len() + numbers.len()) as int,
        };
        assert(classes[k] == class);
    }
}

/// The charset size in numbers: each selected class adds the size of its
/// filtered alphabet, which is 26 for each class but for uppercase without
/// `I` and `O` (24), lowercase without `l` (25), and the ten digits, of
/// which eight are left without `0` and `1`.
pub proof fn lemma_charset_size_by_class(opts: PasswordOptions)
    ensures
        spec_charset_size(opts) == (if opts.uppercase {
            CharacterClass::Uppercase.spec_size(opts.avoid_ambiguous)
        } else {
            0
        }) + (if opts.lowercase {
            CharacterClass::Lowercase.spec_size(opts.avoid_ambiguous)
        } else {
            0
        }) + (if opts.numbers {
            CharacterClass::Numbers.spec_size(opts.avoid_ambiguous)
        } else {
            0
        }) + (if opts.special {
            CharacterClass::Special.spec_size(opts.avoid_ambiguous)
        } else {
            0
        }),
        spec_charset_size(opts) <= 88,
{
    lemma_class_size(CharacterClass::Uppercase, opts.avoid_ambiguous);
    lemma_class_size(CharacterClass::Lowercase, opts.avoid_ambiguous);
    lemma_class_size(CharacterClass::Numbers, opts.avoid_ambiguous);
    lemma_class_size(CharacterClass::Special, opts.avoid_ambiguous);
}

/// The size that entropy is computed from is the size of the pool that
/// generation draws from.
pub proof fn lemma_charset_size_is_pool_size(opts: PasswordOptions)
    ensures
        spec_charset_size(opts) == spec_pool(opts).len(),
{
    let alphabet = |class: CharacterClass| opts.spec_alphabet_of(class);
    let upper = opts.spec_effective_entry(CharacterClass::Uppercase).map_values(alphabet);
    let lower = opts.spec_effective_entry(CharacterClass::Lowercase).map_values(alphabet);
    let numbers = opts.spec_effective_entry(CharacterClass::Numbers).map_values(alphabet);
    let special = opts.spec_effective_entry(CharacterClass::Special).map_values(alphabet);
    assert(spec_effective_sets(opts) =~= upper + lower + numbers + special);
    lemma_contribution_size(opts, CharacterClass::Uppercase);
    lemma_contribution_size(opts, CharacterClass::Lowercase);
    lemma_contribution_size(opts, CharacterClass::Numbers);
    lemma_contribution_size(opts, CharacterClass::Special);
    vstd::seq_lib::lemma_flatten_concat(upper + lower + numbers, special);
    vstd::seq_lib::lemma_flatten_concat(upper + lower, numbers);
    vstd::seq_lib::lemma_flatten_concat(upper, lower);
}

/// What one class adds to the list of sets is as long, flattened, as what it
/// adds to the charset size.
proof fn lemma_contribution_size(opts: PasswordOptions, class: CharacterClass)
    ensures
        opts.spec_effective_entry(class).map_values(
            |class: CharacterClass| opts.spec_alphabet_of(class),
        ).flatten().len() == opts.spec_size_of(class),
{
    let entry = opts.spec_effective_entry(class).map_values(
        |class: CharacterClass| opts.spec_alphabet_of(class),
    );
    if entry.len() == 1 {
        entry.lemma_flatten_singleton();
    }
}

} // verus!
