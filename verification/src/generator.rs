//! The password generator.
//!
//! A configuration holds a target length, the selected character classes,
//! the characters to exclude, and a flag that optionally guarantees one
//! character from every selected class.  Generation builds a candidate pool
//! (the class alphabets in a fixed order, minus the excluded characters) and
//! draws uniformly random characters from it; the randomness comes from a
//! cryptographically secure generator.

use crate::utils::CharClass;
use crate::utils::GeneratorFlag;
use rand::Rng;
use vstd::prelude::*;

verus! {

use vstd::seq_lib::lemma_seq_concat_contains_all_elements;
use vstd::seq_lib::lemma_seq_contains_after_push;
use vstd::seq_lib::lemma_seq_empty_contains_nothing;

/// Why a generation request was rejected.
#[derive(Clone, Copy, Debug, PartialEq, Eq, Structural)]
pub enum GenerateError {
    /// No character class is selected, or the requested length is zero.
    InvalidConfiguration,
    /// The excluded characters remove every candidate from every selected
    /// class.
    EmptyPool,
}

/// A password generation configuration: target length, characters to keep
/// out, the selected character classes, and the assembly flag.
pub struct PasswordGenerator {
    pub length: usize,
    pub excluded_character_set: String,
    pub char_classes: Vec<CharClass>,
    pub flag: GeneratorFlag,
}

pub open spec fn lower_alphabet() -> Seq<char> {
    "abcdefghijklmnopqrstuvwxyz"@
}

pub open spec fn upper_alphabet() -> Seq<char> {
    "ABCDEFGHIJKLMNOPQRSTUVWXYZ"@
}

pub open spec fn digit_alphabet() -> Seq<char> {
    "0123456789"@
}

pub open spec fn special_alphabet() -> Seq<char> {
    "!@#$%^&*()_+-=[]{}|;:',.<>?/"@
}

/// The literal alphabet of a class.  The sentinel `NoClass` lists nothing.
pub open spec fn class_alphabet(class: CharClass) -> Seq<char> {
    match class {
        CharClass::LowerLetters => lower_alphabet(),
        CharClass::UpperLetters => upper_alphabet(),
        CharClass::Numbers => digit_alphabet(),
        CharClass::SpecialCharacters => special_alphabet(),
        CharClass::NoClass => Seq::empty(),
    }
}

/// The characters of `s`, in order, with every character of `excluded`
/// removed.
pub open spec fn spec_keep(excluded: Seq<char>, s: Seq<char>) -> Seq<char>
    decreases s.len(),
{
    if s.len() == 0 {
        Seq::empty()
    } else {
        let rest = spec_keep(excluded, s.drop_last());
        if excluded.contains(s.last()) {
            rest
        } else {
            rest.push(s.last())
        }
    }
}

/// Filtering keeps exactly the characters of `s` that are not excluded.
pub proof fn lemma_keep_membership(excluded: Seq<char>, s: Seq<char>, c: char)
    ensures
        spec_keep(excluded, s).contains(c) <==> (s.contains(c) && !excluded.contains(c)),
    decreases s.len(),
{
    broadcast use lemma_seq_contains_after_push;
    broadcast use lemma_seq_empty_contains_nothing;

    if s.len() == 0 {
    } else {
        lemma_keep_membership(excluded, s.drop_last(), c);
        assert(s.contains(c) <==> (s.drop_last().contains(c) || c == s.last())) by {
            if s.contains(c) {
                let i = choose|i: int| 0 <= i < s.len() && s[i] == c;
                if i < s.len() - 1 {
                    assert(s.drop_last()[i] == c);
                }
            }
            if s.drop_last().contains(c) {
                let i = choose|i: int| 0 <= i < s.drop_last().len() && s.drop_last()[i] == c;
                assert(s[i] == c);
            }
            if c == s.last() {
                assert(s[s.len() - 1] == c);
            }
        }
    }
}

/// Relies on `String::push`: appends the given character to the end of the
/// string.
#[verifier::external_body]
fn push_char(s: &mut String, c: char)
    ensures
        final(s)@ == old(s)@.push(c),
{
    s.push(c)
}

/// Relies on rand's `thread_rng` (a cryptographically secure generator kept
/// per thread) and `Rng::gen_range`: returns a uniformly distributed index
/// below `bound`.  `gen_range` panics on an empty range, so the bound must
/// be positive.
#[verifier::external_body]
fn random_index(bound: usize) -> (r: usize)
    requires
        bound > 0,
    ensures
        r < bound,
{
    rand::thread_rng().gen_range(0..bound)
}

/// Whether `c` occurs in `s`.
fn char_in_str(s: &str, c: char) -> (r: bool)
    ensures
        r == s@.contains(c),
{
    let len = s.unicode_len();
    let mut i: usize = 0;
    while i < len
        invariant
            i <= len,
            len == s@.len(),
            forall|j: int| 0 <= j < i ==> s@[j] != c,
        decreases len - i,
    {
        if s.get_char(i) == c {
            return true;
        }
        i = i + 1;
    }
    false
}

/// Copies `raw` without the characters that occur in `excluded`.
fn remove_excluded(raw: &str, excluded: &str) -> (out: String)
    ensures
        out@ == spec_keep(excluded@, raw@),
{
    let len = raw.unicode_len();
    let mut out = String::new();
    proof {
        assert(raw@.subrange(0, 0) =~= Seq::<char>::empty());
    }
    let mut i: usize = 0;
    while i < len
        invariant
            i <= len,
            len == raw@.len(),
            out@ == spec_keep(excluded@, raw@.subrange(0, i as int)),
        decreases len - i,
    {
        let c = raw.get_char(i);
        let keep_it = !char_in_str(excluded, c);
        proof {
            let pre = raw@.subrange(0, i as int);
            let post = raw@.subrange(0, i + 1);
            assert(post.drop_last() =~= pre);
            assert(post.last() == raw@[i as int]);
        }
        if keep_it {
            push_char(&mut out, c);
        }
        i = i + 1;
    }
    proof {
        assert(raw@.subrange(0, len as int) =~= raw@);
    }
    out
}

impl PasswordGenerator {
    /// Whether `class` is among the selected classes.
    pub open spec fn selects(self, class: CharClass) -> bool {
        self.char_classes@.contains(class)
    }

    /// A configuration is valid when the length is positive and at least one
    /// real character class is selected (the sentinel `NoClass` selects
    /// nothing).
    pub open spec fn spec_valid(self) -> bool {
        &&& self.length > 0
        &&& {
            ||| self.selects(CharClass::LowerLetters)
            ||| self.selects(CharClass::UpperLetters)
            ||| self.selects(CharClass::Numbers)
            ||| self.selects(CharClass::SpecialCharacters)
        }
    }

    /// The concatenation of the selected class alphabets, in the fixed order
    /// lowercase, uppercase, digits, specials, before exclusion.
    pub open spec fn spec_raw_pool(self) -> Seq<char> {
        self.spec_selected_alphabet(CharClass::LowerLetters) + self.spec_selected_alphabet(
            CharClass::UpperLetters,
        ) + self.spec_selected_alphabet(CharClass::Numbers) + self.spec_selected_alphabet(
            CharClass::SpecialCharacters,
        )
    }

    pub open spec fn spec_selected_alphabet(self, class: CharClass) -> Seq<char> {
        if self.selects(class) {
            class_alphabet(class)
        } else {
            Seq::empty()
        }
    }

    /// The sampling pool: the selected alphabets minus the excluded
    /// characters.
    pub open spec fn spec_pool(self) -> Seq<char> {
        spec_keep(self.excluded_character_set@, self.spec_raw_pool())
    }

    /// The candidates of one class that survive exclusion.
    pub open spec fn spec_group(self, class: CharClass) -> Seq<char> {
        spec_keep(self.excluded_character_set@, class_alphabet(class))
    }

    /// Whether `c` belongs to some selected class and is not excluded.
    pub open spec fn spec_candidate(self, c: char) -> bool {
        &&& {
            ||| (self.selects(CharClass::LowerLetters) && lower_alphabet().contains(c))
            ||| (self.selects(CharClass::UpperLetters) && upper_alphabet().contains(c))
            ||| (self.selects(CharClass::Numbers) && digit_alphabet().contains(c))
            ||| (self.selects(CharClass::SpecialCharacters) && special_alphabet().contains(c))
        }
        &&& !self.excluded_character_set@.contains(c)
    }

    /// The pool holds exactly the characters of the selected classes that
    /// are not excluded.
    pub proof fn lemma_pool_membership(self, c: char)
        ensures
            self.spec_pool().contains(c) <==> self.spec_candidate(c),
    {
        broadcast use lemma_seq_concat_contains_all_elements;
        broadcast use lemma_seq_empty_contains_nothing;

        lemma_keep_membership(self.excluded_character_set@, self.spec_raw_pool(), c);
    }

    /// One selected class's surviving candidates all belong to the pool.
    proof fn lemma_group_in_pool(self, class: CharClass, c: char)
        requires
            self.selects(class),
            self.spec_group(class).contains(c),
        ensures
            self.spec_pool().contains(c),
    {
        broadcast use lemma_seq_concat_contains_all_elements;
        broadcast use lemma_seq_empty_contains_nothing;

        lemma_keep_membership(self.excluded_character_set@, class_alphabet(class), c);
        lemma_keep_membership(self.excluded_character_set@, self.spec_raw_pool(), c);
    }

    /// 1 when `class` is selected and still has candidates after exclusion,
    /// else 0: the contribution of `class` to a password generated with
    /// `CharFromEveryGroup`.
    pub open spec fn spec_group_term(self, class: CharClass) -> int {
        if self.selects(class) && self.spec_group(class).len() > 0 {
            1int
        } else {
            0int
        }
    }

    /// How many characters the `CharFromEveryGroup` flag adds: one for every
    /// selected class with a non-empty group.
    pub open spec fn spec_group_bonus(self) -> int {
        self.spec_group_term(CharClass::LowerLetters) + self.spec_group_term(
            CharClass::UpperLetters,
        ) + self.spec_group_term(CharClass::Numbers) + self.spec_group_term(
            CharClass::SpecialCharacters,
        )
    }

    /// Whether `p` holds at least one character from every selected class
    /// that still has candidates after exclusion.
    pub open spec fn spec_covers_groups(self, p: Seq<char>) -> bool {
        forall|class: CharClass| #![trigger self.spec_group(class)]
            (self.selects(class) && self.spec_group(class).len() > 0) ==> exists|i: int|
                0 <= i < p.len() && self.spec_group(class).contains(p[i])
    }

    /// The number of characters a successful generation returns.
    pub open spec fn spec_password_len(self) -> int {
        self.length + if self.flag == GeneratorFlag::CharFromEveryGroup {
            self.spec_group_bonus()
        } else {
            0int
        }
    }

    /// A fresh configuration: length 12, nothing excluded, no classes
    /// selected, no flags.
    pub fn new() -> (r: Self)
        ensures
            r.length == 12,
            r.excluded_character_set@ == Seq::<char>::empty(),
            r.char_classes@ == Seq::<CharClass>::empty(),
            r.flag == GeneratorFlag::NoFlags,
    {
        PasswordGenerator {
            length: 12,
            excluded_character_set: String::new(),
            char_classes: Vec::new(),
            flag: GeneratorFlag::NoFlags,
        }
    }

    pub fn set_length(&mut self, length: usize)
        ensures
            final(self).length == length,
            final(self).excluded_character_set == old(self).excluded_character_set,
            final(self).char_classes == old(self).char_classes,
            final(self).flag == old(self).flag,
    {
        self.length = length;
    }

    pub fn set_excluded_character_set(&mut self, excluded_chars: String)
        ensures
            final(self).excluded_character_set == excluded_chars,
            final(self).length == old(self).length,
            final(self).char_classes == old(self).char_classes,
            final(self).flag == old(self).flag,
    {
        self.excluded_character_set = excluded_chars;
    }

    pub fn set_char_classes(&mut self, char_classes: Vec<CharClass>)
        ensures
            final(self).char_classes == char_classes,
            final(self).length == old(self).length,
            final(self).excluded_character_set == old(self).excluded_character_set,
            final(self).flag == old(self).flag,
    {
        self.char_classes = char_classes;
    }

    pub fn set_flag(&mut self, flag: GeneratorFlag)
        ensures
            final(self).flag == flag,
            final(self).length == old(self).length,
            final(self).excluded_character_set == old(self).excluded_character_set,
            final(self).char_classes == old(self).char_classes,
    {
        self.flag = flag;
    }

    /// Whether `class` occurs in the selected classes.
    fn has_class(&self, class: CharClass) -> (r: bool)
        ensures
            r == self.selects(class),
    {
        let n = self.char_classes.len();
        let mut i: usize = 0;
        while i < n
            invariant
                i <= n,
                n == self.char_classes@.len(),
                forall|j: int| 0 <= j < i ==> self.char_classes@[j] != class,
            decreases n - i,
        {
            if self.char_classes[i] == class {
                return true;
            }
            i = i + 1;
        }
        false
    }

    /// Whether generation may proceed: a positive length and at least one
    /// real class selected.
    pub fn is_valid(&self) -> (r: bool)
        ensures
            r == self.spec_valid(),
    {
        self.length > 0 && (self.has_class(CharClass::LowerLetters) || self.has_class(
            CharClass::UpperLetters,
        ) || self.has_class(CharClass::Numbers) || self.has_class(CharClass::SpecialCharacters))
    }

    /// Builds the sampling pool: the selected class alphabets concatenated
    /// in the fixed order, with the excluded characters removed.
    pub fn build_pool(&self) -> (pool: String)
        ensures
            pool@ == self.spec_pool(),
    {
        let mut raw = String::new();
        if self.has_class(CharClass::LowerLetters) {
            raw.append("abcdefghijklmnopqrstuvwxyz");
        }
        if self.has_class(CharClass::UpperLetters) {
            raw.append("ABCDEFGHIJKLMNOPQRSTUVWXYZ");
        }
        if self.has_class(CharClass::Numbers) {
            raw.append("0123456789");
        }
        if self.has_class(CharClass::SpecialCharacters) {
            raw.append("!@#$%^&*()_+-=[]{}|;:',.<>?/");
        }
        proof {
            assert(raw@ =~= self.spec_raw_pool());
        }
        remove_excluded(raw.as_str(), self.excluded_character_set.as_str())
    }

    /// The surviving candidates of one class, in alphabet order.
    fn build_group(&self, class: CharClass) -> (group: String)
        ensures
            group@ == self.spec_group(class),
    {
        let alphabet: &str = match class {
            CharClass::LowerLetters => "abcdefghijklmnopqrstuvwxyz",
            CharClass::UpperLetters => "ABCDEFGHIJKLMNOPQRSTUVWXYZ",
            CharClass::Numbers => "0123456789",
            CharClass::SpecialCharacters => "!@#$%^&*()_+-=[]{}|;:',.<>?/",
            CharClass::NoClass => "",
        };
        proof {
            reveal_strlit("");
            assert(""@ =~= class_alphabet(CharClass::NoClass));
        }
        remove_excluded(alphabet, self.excluded_character_set.as_str())
    }

    /// When `class` is selected and has surviving candidates, appends one
    /// uniformly drawn candidate of that class to `password`; otherwise
    /// leaves it unchanged.
    fn append_group_char(&self, password: &mut String, class: CharClass)
        ensures
            final(password)@.len() == old(password)@.len() + self.spec_group_term(class),
            forall|i: int|
                0 <= i < old(password)@.len() ==> final(password)@[i] == old(password)@[i],
            forall|i: int|
                old(password)@.len() <= i < final(password)@.len() ==> self.spec_pool().contains(
                    final(password)@[i],
                ),
            self.spec_group_term(class) == 1 ==> self.spec_group(class).contains(
                final(password)@[old(password)@.len() as int],
            ),
    {
        if self.has_class(class) {
            let group = self.build_group(class);
            let group_len = group.unicode_len();
            if group_len > 0 {
                let idx = random_index(group_len);
                let c = group.as_str().get_char(idx);
                proof {
                    assert(self.spec_group(class).contains(c)) by {
                        assert(self.spec_group(class)[idx as int] == c);
                    }
                    self.lemma_group_in_pool(class, c);
                }
                push_char(password, c);
            }
        }
    }

    /// Generates a password.
    ///
    /// Fails with `InvalidConfiguration` when no class is selected or the
    /// length is zero, and with `EmptyPool` when exclusion removes every
    /// candidate; otherwise returns a string of exactly
    /// [`spec_password_len`](Self::spec_password_len) characters, each drawn
    /// from the pool.
    pub fn generate_password(&self) -> (r: Result<String, GenerateError>)
        ensures
            (r == Err::<String, GenerateError>(GenerateError::InvalidConfiguration)) <==> !self.spec_valid(),
            (r == Err::<String, GenerateError>(GenerateError::EmptyPool)) <==> (self.spec_valid()
                && self.spec_pool().len() == 0),
            r is Ok <==> (self.spec_valid() && self.spec_pool().len() > 0),
            r matches Ok(p) ==> p@.len() == self.spec_password_len(),
            r matches Ok(p) ==> forall|i: int|
                0 <= i < p@.len() ==> self.spec_pool().contains(p@[i]),
            r matches Ok(p) ==> (self.flag == GeneratorFlag::CharFromEveryGroup
                ==> self.spec_covers_groups(p@)),
    {
        if !self.is_valid() {
            return Err(GenerateError::InvalidConfiguration);
        }
        let pool = self.build_pool();
        let pool_len = pool.unicode_len();
        if pool_len == 0 {
            return Err(GenerateError::EmptyPool);
        }
        let mut password = String::new();
        if self.flag == GeneratorFlag::CharFromEveryGroup {
            self.append_group_char(&mut password, CharClass::LowerLetters);
            let ghost p1 = password@;
            self.append_group_char(&mut password, CharClass::UpperLetters);
            let ghost p2 = password@;
            self.append_group_char(&mut password, CharClass::Numbers);
            let ghost p3 = password@;
            self.append_group_char(&mut password, CharClass::SpecialCharacters);
            proof {
                assert forall|class: CharClass| #![trigger self.spec_group(class)]
                    (self.selects(class) && self.spec_group(class).len() > 0) implies exists|
                    i: int,
                |
                    0 <= i < password@.len() && self.spec_group(class).contains(
                        password@[i],
                    ) by {
                    if class == CharClass::LowerLetters {
                        assert(password@[0] == p1[0]);
                    } else if class == CharClass::UpperLetters {
                        assert(password@[p1.len() as int] == p2[p1.len() as int]);
                    } else if class == CharClass::Numbers {
                        assert(password@[p2.len() as int] == p3[p2.len() as int]);
                    } else if class == CharClass::SpecialCharacters {
                        assert(self.spec_group(class).contains(password@[p3.len() as int]));
                    } else {
                        assert(self.spec_group(class) =~= Seq::<char>::empty());
                    }
                }
                assert(self.spec_covers_groups(password@));
            }
        }
        let ghost base: int = password@.len() as int;
        proof {
            assert(base == if self.flag == GeneratorFlag::CharFromEveryGroup {
                self.spec_group_bonus()
            } else {
                0int
            });
        }
        let mut j: usize = 0;
        while j < self.length
            invariant
                j <= self.length,
                pool@ == self.spec_pool(),
                pool_len == pool@.len(),
                pool_len > 0,
                password@.len() == base + j,
                base + self.length == self.spec_password_len(),
                forall|i: int|
                    0 <= i < password@.len() ==> self.spec_pool().contains(password@[i]),
                self.flag == GeneratorFlag::CharFromEveryGroup ==> self.spec_covers_groups(
                    password@,
                ),
            decreases self.length - j,
        {
            let idx = random_index(pool_len);
            let c = pool.as_str().get_char(idx);
            proof {
                assert(self.spec_pool().contains(c)) by {
                    assert(self.spec_pool()[idx as int] == c);
                }
            }
            let ghost pre = password@;
            push_char(&mut password, c);
            proof {
                if self.flag == GeneratorFlag::CharFromEveryGroup {
                    assert forall|class: CharClass| #![trigger self.spec_group(class)]
                        (self.selects(class) && self.spec_group(class).len() > 0) implies exists|
                        i: int,
                    |
                        0 <= i < password@.len() && self.spec_group(class).contains(
                            password@[i],
                        ) by {
                        let iw = choose|i: int|
                            0 <= i < pre.len() && self.spec_group(class).contains(pre[i]);
                        assert(password@[iw] == pre[iw]);
                    }
                }
            }
            j = j + 1;
        }
        Ok(password)
    }
}

} // verus!
