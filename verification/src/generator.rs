//! Constrained random generation: one character from every effective class,
//! the rest from the pool, then a shuffle.

use rand::rngs::StdRng;
use vstd::prelude::*;
use vstd::seq_lib::{to_multiset_contains, to_multiset_len, to_multiset_remove};
use vstd::utf8::{encode_utf8, is_ascii_chars, is_ascii_chars_encode_utf8};
use crate::classes::{
    lemma_class_members, lemma_classes_disjoint, lemma_members_are_ascii, spec_is_ambiguous,
    CharacterClass,
};
use crate::options::{
    lemma_effective_classes, lemma_flatten_contains, lemma_flatten_member,
    lemma_selected_is_effective, spec_effective_classes, spec_effective_sets, spec_pool,
    PasswordOptions,
};
use crate::random::{fresh_rng, random_index, shuffle_chars};

verus! {

/// The password that is handed out when no class is effective.
pub const FALLBACK_PASSWORD: &'static str = "DefaultPwd1!";

/// The character sequences that a list of character vectors holds.
pub open spec fn spec_sets_view(sets: Seq<Vec<char>>) -> Seq<Seq<char>> {
    Seq::new(sets.len(), |i: int| sets[i]@)
}

/// Every character of `chars` occurs in `pool`.
pub open spec fn spec_drawn_from(chars: Seq<char>, pool: Seq<char>) -> bool {
    forall|i: int| 0 <= i < chars.len() ==> pool.contains(#[trigger] chars[i])
}

/// Some character of `password` occurs in `set`.
pub open spec fn spec_covers(password: Seq<char>, set: Seq<char>) -> bool {
    exists|i: int| 0 <= i < password.len() && set.contains(#[trigger] password[i])
}

/// `guaranteed` holds one character of each set, in the order of the sets.
pub open spec fn spec_one_per_set(guaranteed: Seq<char>, sets: Seq<Seq<char>>) -> bool {
    &&& guaranteed.len() == sets.len()
    &&& forall|k: int| 0 <= k < sets.len() ==> sets[k].contains(#[trigger] guaranteed[k])
}

/// How many characters are drawn from the pool: what the length asks for
/// beyond one character per effective class.
pub open spec fn spec_fill_length(opts: PasswordOptions) -> nat {
    let classes = spec_effective_sets(opts).len();
    if opts.length > classes {
        (opts.length - classes) as nat
    } else {
        0
    }
}

/// Whether `password` comes about from the given draws: `guaranteed` holds
/// one character of each effective set, `fill` holds the characters drawn
/// from the pool, `shuffled` holds the characters of both in some order,
/// and `password` is what `shuffled` begins with.
pub open spec fn spec_is_arrangement(
    opts: PasswordOptions,
    guaranteed: Seq<char>,
    fill: Seq<char>,
    shuffled: Seq<char>,
    password: Seq<char>,
) -> bool {
    &&& spec_one_per_set(guaranteed, spec_effective_sets(opts))
    &&& fill.len() == spec_fill_length(opts)
    &&& spec_drawn_from(fill, spec_pool(opts))
    &&& shuffled.to_multiset() == (guaranteed + fill).to_multiset()
    &&& password == shuffled.take(opts.length as int)
}

/// What holds of every password generated under `opts`.
///
/// With no effective class the password is the fallback, whatever the
/// length asked for. Otherwise there are draws that the password comes
/// about from. Where the length is shorter than the number of effective
/// classes, nothing is drawn from the pool, and the password is a part of
/// the shuffled guaranteed characters: which classes stay is left to the
/// shuffle.
pub open spec fn spec_is_generated(opts: PasswordOptions, password: Seq<char>) -> bool {
    if spec_effective_sets(opts).len() == 0 {
        password == FALLBACK_PASSWORD@
    } else {
        exists|guaranteed: Seq<char>, fill: Seq<char>, shuffled: Seq<char>|
            #[trigger] spec_is_arrangement(opts, guaranteed, fill, shuffled, password)
    }
}

/// Two sequences that hold the same characters equally often have the same
/// length and the same members.
proof fn lemma_same_characters(a: Seq<char>, b: Seq<char>)
    requires
        a.to_multiset() == b.to_multiset(),
    ensures
        a.len() == b.len(),
        forall|c: char| #[trigger] a.contains(c) == b.contains(c),
{
    to_multiset_len(a);
    to_multiset_len(b);
    assert forall|c: char| #[trigger] a.contains(c) == b.contains(c) by {
        to_multiset_contains(a, c);
        to_multiset_contains(b, c);
    }
}

/// Two places of a sequence have two places of their own in any sequence
/// that holds the same characters equally often.
proof fn lemma_two_places(s: Seq<char>, g: Seq<char>, i: int, j: int) -> (places: (int, int))
    requires
        s.to_multiset() == g.to_multiset(),
        0 <= i < j < s.len(),
    ensures
        0 <= places.0 < g.len(),
        0 <= places.1 < g.len(),
        places.0 != places.1,
        g[places.0] == s[i],
        g[places.1] == s[j],
{
    lemma_same_characters(s, g);
    assert(s.contains(s[i]));
    let first = choose|k: int| 0 <= k < g.len() && g[k] == s[i];
    let s_rest = s.remove(i);
    let g_rest = g.remove(first);
    to_multiset_remove(s, i);
    to_multiset_remove(g, first);
    lemma_same_characters(s_rest, g_rest);
    assert(s_rest[j - 1] == s[j]);
    assert(s_rest.contains(s[j]));
    let m = choose|m: int| 0 <= m < g_rest.len() && g_rest[m] == s[j];
    let second = if m < first {
        m
    } else {
        m + 1
    };
    (first, second)
}

/// Appends the filtered alphabet of `class` when the class is effective.
fn push_contribution(sets: &mut Vec<Vec<char>>, opts: &PasswordOptions, class: CharacterClass)
    ensures
        spec_sets_view(final(sets)@) == spec_sets_view(old(sets)@) + opts.spec_effective_entry(
            class,
        ).map_values(|class: CharacterClass| opts.spec_alphabet_of(class)),
{
    if opts.selects(class) {
        let kept = class.filtered(opts.avoid_ambiguous);
        if kept.len() > 0 {
            sets.push(kept);
        }
    }
    assert(spec_sets_view(sets@) =~= spec_sets_view(old(sets)@) + opts.spec_effective_entry(
        class,
    ).map_values(|class: CharacterClass| opts.spec_alphabet_of(class)));
}

/// The filtered alphabets of the effective classes, in class order.
pub fn effective_sets(opts: &PasswordOptions) -> (sets: Vec<Vec<char>>)
    ensures
        spec_sets_view(sets@) == spec_effective_sets(*opts),
{
    let mut sets: Vec<Vec<char>> = Vec::new();
    assert(spec_sets_view(sets@) =~= Seq::<Seq<char>>::empty());
    push_contribution(&mut sets, opts, CharacterClass::Uppercase);
    push_contribution(&mut sets, opts, CharacterClass::Lowercase);
    push_contribution(&mut sets, opts, CharacterClass::Numbers);
    push_contribution(&mut sets, opts, CharacterClass::Special);
    assert(spec_sets_view(sets@) =~= spec_effective_sets(*opts));
    sets
}

/// Appends the characters of `more` to `chars`.
fn append_chars(chars: &mut Vec<char>, more: &Vec<char>)
    ensures
        final(chars)@ == old(chars)@ + more@,
{
    let mut i: usize = 0;
    while i < more.len()
        invariant
            i <= more.len(),
            chars@ == old(chars)@ + more@.take(i as int),
        decreases more.len() - i,
    {
        chars.push(more[i]);
        i += 1;
        assert(chars@ =~= old(chars)@ + more@.take(i as int));
    }
    assert(more@.take(more.len() as int) =~= more@);
}

/// All sets, one after the other.
pub fn build_pool(sets: &Vec<Vec<char>>) -> (pool: Vec<char>)
    ensures
        pool@ == spec_sets_view(sets@).flatten(),
{
    let mut pool: Vec<char> = Vec::new();
    let mut k: usize = 0;
    assert(spec_sets_view(sets@).take(0) =~= Seq::<Seq<char>>::empty());
    while k < sets.len()
        invariant
            k <= sets.len(),
            pool@ == spec_sets_view(sets@).take(k as int).flatten(),
        decreases sets.len() - k,
    {
        append_chars(&mut pool, &sets[k]);
        proof {
            let view = spec_sets_view(sets@);
            assert(view.take(k + 1) =~= view.take(k as int).push(sets@[k as int]@));
            view.take(k as int).lemma_flatten_push(sets@[k as int]@);
        }
        k += 1;
    }
    assert(spec_sets_view(sets@).take(sets.len() as int) =~= spec_sets_view(sets@));
    pool
}

/// What a caller should be told about a request before it is served.
#[derive(Clone, Copy, Debug, PartialEq, Eq, Structural)]
pub enum GenerationWarning {
    /// No class is effective: the fallback password is handed out.
    NoCharacterSets,
    /// The length is shorter than the number of effective classes, so some
    /// class will be left out.
    LengthBelowClassCount,
}

impl GenerationWarning {
    /// The text of the warning.
    pub open spec fn spec_message(self) -> Seq<char> {
        match self {
            GenerationWarning::NoCharacterSets => "Warning: No character sets selected or available after filtering. Returning a default password."@,
            GenerationWarning::LengthBelowClassCount => "Warning: Password length is shorter than the number of selected character types; some types may be omitted."@,
        }
    }

    pub fn message(&self) -> (text: String)
        ensures
            text@ == self.spec_message(),
    {
        match self {
            GenerationWarning::NoCharacterSets => "Warning: No character sets selected or available after filtering. Returning a default password.".to_string(),
            GenerationWarning::LengthBelowClassCount => "Warning: Password length is shorter than the number of selected character types; some types may be omitted.".to_string(),
        }
    }
}

/// The warnings that a request gives rise to. A request for no characters
/// at all is served as it stands, without a warning, as long as some class
/// is effective.
pub open spec fn spec_generation_warnings(opts: PasswordOptions) -> Seq<GenerationWarning> {
    let classes = spec_effective_sets(opts).len();
    if classes == 0 {
        seq![GenerationWarning::NoCharacterSets]
    } else if 0 < opts.length < classes {
        seq![GenerationWarning::LengthBelowClassCount]
    } else {
        Seq::empty()
    }
}

/// The warnings that generation under `opts` gives rise to. Generation
/// itself never fails and never prints: the caller decides what to show.
pub fn generation_warnings(opts: &PasswordOptions) -> (warnings: Vec<GenerationWarning>)
    ensures
        warnings@ == spec_generation_warnings(*opts),
{
    let classes = effective_sets(opts).len();
    let mut warnings: Vec<GenerationWarning> = Vec::new();
    if classes == 0 {
        warnings.push(GenerationWarning::NoCharacterSets);
    } else if 0 < opts.length && opts.length < classes {
        warnings.push(GenerationWarning::LengthBelowClassCount);
    }
    assert(warnings@ =~= spec_generation_warnings(*opts));
    warnings
}

/// Draws one character from each set, in set order.
fn draw_guaranteed(sets: &Vec<Vec<char>>, rng: &mut StdRng) -> (chars: Vec<char>)
    requires
        forall|k: int| 0 <= k < sets.len() ==> sets[k].len() > 0,
    ensures
        chars.len() == sets.len(),
        forall|k: int| 0 <= k < sets.len() ==> sets[k]@.contains(#[trigger] chars[k]),
{
    let mut chars: Vec<char> = Vec::new();
    let mut k: usize = 0;
    while k < sets.len()
        invariant
            k <= sets.len(),
            chars.len() == k,
            forall|j: int| 0 <= j < sets.len() ==> sets[j].len() > 0,
            forall|j: int| 0 <= j < k ==> sets[j]@.contains(#[trigger] chars[j]),
        decreases sets.len() - k,
    {
        let set = &sets[k];
        let index = random_index(rng, set.len());
        chars.push(set[index]);
        k += 1;
    }
    chars
}

/// Draws from the pool until `chars` holds `length` characters.
fn fill_from_pool(chars: &mut Vec<char>, pool: &Vec<char>, length: usize, rng: &mut StdRng)
    requires
        pool.len() > 0,
        old(chars).len() <= length,
    ensures
        final(chars).len() == length,
        final(chars)@.take(old(chars).len() as int) == old(chars)@,
        forall|j: int|
            old(chars).len() <= j < length ==> pool@.contains(#[trigger] final(chars)[j]),
{
    while chars.len() < length
        invariant
            pool.len() > 0,
            old(chars).len() <= chars.len() <= length,
            chars@.take(old(chars).len() as int) == old(chars)@,
            forall|j: int| old(chars).len() <= j < chars.len() ==> pool@.contains(#[trigger] chars[j]),
        decreases length - chars.len(),
    {
        let index = random_index(rng, pool.len());
        let ghost before = chars@;
        chars.push(pool[index]);
        assert(chars@.take(old(chars).len() as int) =~= before.take(old(chars).len() as int));
    }
}

/// Calls `String::from_iter` on the characters, which gives the string
/// made of them in their order.
#[verifier::external_body]
fn string_from_chars(chars: Vec<char>) -> (text: String)
    ensures
        text@ == chars@,
{
    String::from_iter(chars)
}

/// The first `length` characters of `chars`, or all of them where there are
/// fewer, as a string.
pub fn truncate_to_string(chars: Vec<char>, length: usize) -> (text: String)
    ensures
        text@ == chars@.take(if length <= chars.len() { length as int } else { chars.len() as int }),
{
    let mut chars = chars;
    chars.truncate(length);
    string_from_chars(chars)
}

/// Generates a password under `opts`, taking every random draw from `rng`.
///
/// The same options and the same generator state give the same password,
/// which is what a seeded generator offers to a caller that has to
/// reproduce a run.
pub fn generate_password_with_rng(opts: &PasswordOptions, rng: &mut StdRng) -> (password: String)
    ensures
        spec_is_generated(*opts, password@),
        is_ascii_chars(password@),
        !opts.spec_any_selected() ==> password@ == FALLBACK_PASSWORD@,
        opts.spec_any_selected() ==> password@.len() == opts.length,
        opts.spec_any_selected() ==> spec_drawn_from(password@, spec_pool(*opts)),
        opts.spec_any_selected() && opts.length >= spec_effective_sets(*opts).len()
            ==> forall|k: int|
            0 <= k < spec_effective_sets(*opts).len() ==> spec_covers(
                password@,
                #[trigger] spec_effective_sets(*opts)[k],
            ),
{
    let sets = effective_sets(opts);
    if sets.len() == 0 {
        proof {
            lemma_selected_is_effective(*opts);
        }
        let fallback = FALLBACK_PASSWORD.to_string();
        proof {
            lemma_generated_is_ascii(*opts, fallback@);
        }
        return fallback;
    }
    let pool = build_pool(&sets);
    let ghost views = spec_sets_view(sets@);
    proof {
        assert forall|k: int| 0 <= k < sets.len() implies sets[k].len() > 0 by {
            assert(views[k] == sets[k]@);
        }
        assert(views[0].contains(views[0][0]));
        lemma_flatten_contains(views, 0, views[0][0]);
    }
    let mut chars = draw_guaranteed(&sets, rng);
    let ghost guaranteed = chars@;
    if chars.len() < opts.length {
        fill_from_pool(&mut chars, &pool, opts.length, rng);
    }
    let ghost drawn = chars@;
    let ghost fill = drawn.skip(guaranteed.len() as int);
    shuffle_chars(&mut chars, rng);
    let ghost shuffled = chars@;
    let password = truncate_to_string(chars, opts.length);
    proof {
        assert(drawn =~= guaranteed + fill);
        assert(spec_one_per_set(guaranteed, views)) by {
            assert forall|k: int| 0 <= k < views.len() implies views[k].contains(
                #[trigger] guaranteed[k],
            ) by {
                assert(views[k] == sets[k]@);
            }
        }
        assert forall|i: int| 0 <= i < fill.len() implies pool@.contains(#[trigger] fill[i]) by {
            assert(fill[i] == drawn[guaranteed.len() + i]);
        }
        to_multiset_len(drawn);
        to_multiset_len(shuffled);
        assert(spec_is_arrangement(*opts, guaranteed, fill, shuffled, password@));
        lemma_generated_length(*opts, password@);
        lemma_generated_from_pool(*opts, password@);
        lemma_generated_is_ascii(*opts, password@);
        if opts.length >= sets.len() {
            lemma_generated_covers_sets(*opts, password@);
        }
    }
    password
}

/// Generates a password under `opts` from a generator that is seeded anew
/// from the operating system for this call.
///
/// With nothing selected the password is the fallback. With anything
/// selected it has exactly the length asked for and consists of characters
/// of the pool; where the length leaves room for one character per
/// effective class, every effective class is represented.
///
/// # Panics
///
/// Seeding the generator panics where the operating system gives no
/// entropy.
pub fn generate_password(opts: &PasswordOptions) -> (password: String)
    ensures
        spec_is_generated(*opts, password@),
        is_ascii_chars(password@),
        !opts.spec_any_selected() ==> password@ == FALLBACK_PASSWORD@,
        opts.spec_any_selected() ==> password@.len() == opts.length,
        opts.spec_any_selected() ==> spec_drawn_from(password@, spec_pool(*opts)),
        opts.spec_any_selected() && opts.length >= spec_effective_sets(*opts).len()
            ==> forall|k: int|
            0 <= k < spec_effective_sets(*opts).len() ==> spec_covers(
                password@,
                #[trigger] spec_effective_sets(*opts)[k],
            ),
{
    let mut rng = fresh_rng();
    generate_password_with_rng(opts, &mut rng)
}

/// The draws behind a generated password, where any class is selected.
proof fn lemma_arrangement(opts: PasswordOptions, password: Seq<char>) -> (draws: (
    Seq<char>,
    Seq<char>,
    Seq<char>,
))
    requires
        spec_is_generated(opts, password),
        opts.spec_any_selected(),
    ensures
        spec_is_arrangement(opts, draws.0, draws.1, draws.2, password),
        draws.2.len() == draws.0.len() + draws.1.len(),
        draws.2.len() >= opts.length,
        forall|c: char| #[trigger] draws.2.contains(c) == (draws.0 + draws.1).contains(c),
{
    lemma_selected_is_effective(opts);
    let (guaranteed, fill, shuffled) = choose|
        guaranteed: Seq<char>,
        fill: Seq<char>,
        shuffled: Seq<char>,
    | #[trigger] spec_is_arrangement(opts, guaranteed, fill, shuffled, password);
    lemma_same_characters(shuffled, guaranteed + fill);
    (guaranteed, fill, shuffled)
}

/// With nothing selected the password is the fallback, whatever the length;
/// with anything selected it has the length asked for, so it is empty for
/// length zero.
pub proof fn lemma_generated_length(opts: PasswordOptions, password: Seq<char>)
    requires
        spec_is_generated(opts, password),
    ensures
        !opts.spec_any_selected() ==> password == FALLBACK_PASSWORD@,
        opts.spec_any_selected() ==> password.len() == opts.length,
        opts.spec_any_selected() && opts.length == 0 ==> password == Seq::<char>::empty(),
{
    lemma_selected_is_effective(opts);
    if opts.spec_any_selected() {
        lemma_arrangement(opts, password);
        if opts.length == 0 {
            assert(password =~= Seq::<char>::empty());
        }
    }
}

/// Every character of a password generated from a selection is a character
/// of the pool.
pub proof fn lemma_generated_from_pool(opts: PasswordOptions, password: Seq<char>)
    requires
        spec_is_generated(opts, password),
        opts.spec_any_selected(),
    ensures
        spec_drawn_from(password, spec_pool(opts)),
{
    let (guaranteed, fill, shuffled) = lemma_arrangement(opts, password);
    let both = guaranteed + fill;
    assert forall|i: int| 0 <= i < password.len() implies spec_pool(opts).contains(
        #[trigger] password[i],
    ) by {
        assert(shuffled.contains(shuffled[i]));
        let j = choose|j: int| 0 <= j < both.len() && both[j] == shuffled[i];
        if j < guaranteed.len() {
            lemma_flatten_contains(spec_effective_sets(opts), j, guaranteed[j]);
        } else {
            assert(both[j] == fill[j - guaranteed.len()]);
        }
    }
}

/// Where the length leaves room for one character per effective class, a
/// password generated from a selection holds a character of every effective
/// set.
pub proof fn lemma_generated_covers_sets(opts: PasswordOptions, password: Seq<char>)
    requires
        spec_is_generated(opts, password),
        opts.spec_any_selected(),
        opts.length >= spec_effective_sets(opts).len(),
    ensures
        forall|k: int|
            0 <= k < spec_effective_sets(opts).len() ==> spec_covers(
                password,
                #[trigger] spec_effective_sets(opts)[k],
            ),
{
    let sets = spec_effective_sets(opts);
    let (guaranteed, fill, shuffled) = lemma_arrangement(opts, password);
    let both = guaranteed + fill;
    assert(password =~= shuffled);
    assert forall|k: int| 0 <= k < sets.len() implies spec_covers(password, #[trigger] sets[k]) by {
        assert(both[k] == guaranteed[k]);
        assert(both.contains(guaranteed[k]));
        assert(shuffled.contains(guaranteed[k]));
        let i = choose|i: int| 0 <= i < shuffled.len() && shuffled[i] == guaranteed[k];
        assert(sets[k].contains(password[i]));
    }
}

/// Every character of a password generated from a selection belongs to a
/// selected class, and none is ambiguous when ambiguous characters are
/// avoided.
pub proof fn lemma_generated_characters(opts: PasswordOptions, password: Seq<char>, i: int) -> (class:
    CharacterClass)
    requires
        spec_is_generated(opts, password),
        opts.spec_any_selected(),
        0 <= i < password.len(),
    ensures
        opts.spec_selects(class),
        class.spec_member(password[i]),
        opts.avoid_ambiguous ==> !spec_is_ambiguous(password[i]),
{
    lemma_generated_from_pool(opts, password);
    lemma_effective_classes(opts);
    let k = lemma_flatten_member(spec_effective_sets(opts), password[i]);
    let class = spec_effective_classes(opts)[k];
    assert(spec_effective_classes(opts).contains(class));
    lemma_class_members(class, opts.avoid_ambiguous, password[i]);
    class
}

/// A generated password is plain ASCII, so it is as long in bytes as it is
/// in characters.
pub proof fn lemma_generated_is_ascii(opts: PasswordOptions, password: Seq<char>)
    requires
        spec_is_generated(opts, password),
    ensures
        is_ascii_chars(password),
        encode_utf8(password).len() == password.len(),
{
    lemma_selected_is_effective(opts);
    if opts.spec_any_selected() {
        assert forall|i: int| 0 <= i < password.len() implies '\0' <= #[trigger] password[i]
            <= '\u{7f}' by {
            let class = lemma_generated_characters(opts, password, i);
            lemma_members_are_ascii(class, password[i]);
        }
    } else {
        reveal_strlit("DefaultPwd1!");
    }
    is_ascii_chars_encode_utf8(password);
}

/// A password generated with `class` alone selected consists of members of
/// that class: with uppercase alone every character lies in `A` to `Z`, and
/// is neither `I` nor `O` when ambiguous characters are avoided; likewise
/// for lowercase without `l` and for numbers without `0` and `1`.
pub proof fn lemma_single_class(opts: PasswordOptions, class: CharacterClass, password: Seq<char>)
    requires
        spec_is_generated(opts, password),
        forall|other: CharacterClass| opts.spec_selects(other) <==> other == class,
    ensures
        forall|i: int| 0 <= i < password.len() ==> class.spec_member(#[trigger] password[i]),
        opts.avoid_ambiguous ==> forall|i: int|
            0 <= i < password.len() ==> !spec_is_ambiguous(#[trigger] password[i]),
{
    assert(opts.spec_selects(class));
    assert(opts.spec_any_selected());
    assert forall|i: int| 0 <= i < password.len() implies class.spec_member(
        #[trigger] password[i],
    ) && (opts.avoid_ambiguous ==> !spec_is_ambiguous(password[i])) by {
        let found = lemma_generated_characters(opts, password, i);
        assert(found == class);
    }
}

/// Where the length leaves room for one character per effective class, a
/// generated password holds a member of each selected class.
pub proof fn lemma_generated_covers(opts: PasswordOptions, password: Seq<char>, class: CharacterClass)
    requires
        spec_is_generated(opts, password),
        opts.spec_selects(class),
        opts.length >= spec_effective_sets(opts).len(),
    ensures
        exists|i: int| 0 <= i < password.len() && class.spec_member(#[trigger] password[i]),
{
    lemma_selected_is_effective(opts);
    assert(opts.spec_any_selected());
    lemma_generated_covers_sets(opts, password);
    lemma_effective_classes(opts);
    let classes = spec_effective_classes(opts);
    assert(classes.contains(class));
    let k = choose|k: int| 0 <= k < classes.len() && classes[k] == class;
    let set = spec_effective_sets(opts)[k];
    assert(spec_covers(password, set));
    let i = choose|i: int| 0 <= i < password.len() && set.contains(#[trigger] password[i]);
    lemma_class_members(class, opts.avoid_ambiguous, password[i]);
}

/// Where the length does not exceed the number of effective classes, a
/// generated password holds at most one character of each class: what is
/// kept of the guaranteed characters after the shuffle.
pub proof fn lemma_clamped_one_per_class(
    opts: PasswordOptions,
    password: Seq<char>,
    class: CharacterClass,
    i: int,
    j: int,
)
    requires
        spec_is_generated(opts, password),
        opts.spec_any_selected(),
        opts.length <= spec_effective_sets(opts).len(),
        0 <= i < j < password.len(),
    ensures
        !(class.spec_member(password[i]) && class.spec_member(password[j])),
{
    let (guaranteed, fill, shuffled) = lemma_arrangement(opts, password);
    assert(guaranteed + fill =~= guaranteed);
    let (first, second) = lemma_two_places(shuffled, guaranteed, i, j);
    lemma_effective_classes(opts);
    let classes = spec_effective_classes(opts);
    lemma_class_members(classes[first], opts.avoid_ambiguous, guaranteed[first]);
    lemma_class_members(classes[second], opts.avoid_ambiguous, guaranteed[second]);
    if class.spec_member(password[i]) && class.spec_member(password[j]) {
        lemma_classes_disjoint(class, classes[first], password[i]);
        lemma_classes_disjoint(class, classes[second], password[j]);
    }
}

} // verus!
