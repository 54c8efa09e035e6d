//! The configuration record for one password-generation run, and the
//! character sampling helpers that consume it.

use vstd::prelude::*;

use crate::text::str_eq;
use rand::Rng;

verus! {

/// A lowercase ASCII letter, `'a'` through `'z'`.
pub open spec fn is_lowercase_char(c: char) -> bool {
    97 <= c as u32 <= 122
}

/// An uppercase ASCII letter, `'A'` through `'Z'`.
pub open spec fn is_uppercase_char(c: char) -> bool {
    65 <= c as u32 <= 90
}

/// A decimal digit, `'0'` through `'9'`.
pub open spec fn is_numeric_char(c: char) -> bool {
    48 <= c as u32 <= 57
}

/// A printable ASCII character, `'!'` through `'~'`.
pub open spec fn is_special_char(c: char) -> bool {
    33 <= c as u32 <= 126
}

/// Relies on `rand::Rng::gen_range` over an inclusive character range: the
/// sampled character lies within the bounds. The precondition keeps the
/// range non-empty, so the call cannot panic.
#[verifier::external_body]
pub fn generate_random_char(start: char, end: char) -> (r: char)
    requires
        start as u32 <= end as u32,
    ensures
        start as u32 <= r as u32 <= end as u32,
{
    let mut rng = rand::thread_rng();
    let random_char: char = rng.gen_range(start..=end);
    random_char
}

/// Samples a lowercase ASCII letter.
pub fn generate_lcase_char() -> (c: char)
    ensures
        is_lowercase_char(c),
{
    generate_random_char('a', 'z')
}

/// Samples an uppercase ASCII letter.
pub fn generate_ucase_char() -> (c: char)
    ensures
        is_uppercase_char(c),
{
    generate_random_char('A', 'Z')
}

/// Samples a decimal digit character.
pub fn generate_numeric_char() -> (c: char)
    ensures
        is_numeric_char(c),
{
    generate_random_char('0', '9')
}

/// Samples a printable ASCII character.
pub fn generate_special_char() -> (c: char)
    ensures
        is_special_char(c),
{
    generate_random_char('!', '~')
}

/// Relies on `random_word::gen` for English: the crate documents that a
/// generated word is non-empty; nothing else is assumed of the sample.
#[verifier::external_body]
fn random_english_word() -> (r: String)
    ensures
        r@.len() >= 1,
{
    random_word::gen(random_word::Lang::En).to_owned()
}

/// Relies on `String::push`: appends exactly one character at the end.
#[verifier::external_body]
fn push_char(s: &mut String, c: char)
    ensures
        final(s)@ == old(s)@.push(c),
{
    s.push(c);
}

/// Spec-level value of a [`GenerationData`]: every field as a plain
/// mathematical value, with the profile name as a sequence of characters.
pub ghost struct RecordV {
    pub minimum_length: usize,
    pub include_numbers: bool,
    pub include_special: bool,
    pub include_ucase: bool,
    pub use_words: bool,
    pub profile: Option<Seq<char>>,
    pub overwrite: bool,
}

/// The resolved set of password-generation parameters for one invocation.
///
/// `profile` is `Some` only when the record is bound to a stored profile
/// (loaded from the store, or about to be saved under that name).
/// `overwrite` is transient: it instructs a store operation and is never
/// persisted as part of the record.
#[derive(Debug, PartialEq)]
pub struct GenerationData {
    pub minimum_length: usize,
    pub include_numbers: bool,
    pub include_special: bool,
    pub include_ucase: bool,
    pub use_words: bool,
    pub profile: Option<String>,
    pub overwrite: bool,
}

impl View for GenerationData {
    type V = RecordV;

    open spec fn view(&self) -> RecordV {
        RecordV {
            minimum_length: self.minimum_length,
            include_numbers: self.include_numbers,
            include_special: self.include_special,
            include_ucase: self.include_ucase,
            use_words: self.use_words,
            profile: match self.profile {
                Some(ref s) => Some(s@),
                None => None,
            },
            overwrite: self.overwrite,
        }
    }
}

/// The compiled-in default for the minimum password length.
pub open spec fn default_minimum_length() -> usize {
    8
}

/// The compiled-in defaults: length 8, all switches off except the use of
/// dictionary words, not bound to any profile.
pub open spec fn default_record() -> RecordV {
    RecordV {
        minimum_length: 8,
        include_numbers: false,
        include_special: false,
        include_ucase: false,
        use_words: true,
        profile: None,
        overwrite: false,
    }
}

impl GenerationData {
    /// Builds a record from optional field values; every absent field takes
    /// its documented default.
    pub fn new(
        minimum_length: Option<usize>,
        include_numbers: Option<bool>,
        include_special: Option<bool>,
        include_ucase: Option<bool>,
        use_words: Option<bool>,
        profile: Option<String>,
        overwrite: Option<bool>,
    ) -> (r: GenerationData)
        ensures
            r.minimum_length == (if minimum_length is Some {
                minimum_length->0
            } else {
                default_minimum_length()
            }),
            r.include_numbers == (include_numbers is Some && include_numbers->0),
            r.include_special == (include_special is Some && include_special->0),
            r.include_ucase == (include_ucase is Some && include_ucase->0),
            r.use_words == (use_words is None || use_words->0),
            r.profile == profile,
            r.overwrite == (overwrite is Some && overwrite->0),
    {
        let minimum_length: usize = if let Some(min_length) = minimum_length {
            min_length
        } else {
            8
        };
        let include_numbers = if let Some(include_nums) = include_numbers {
            include_nums
        } else {
            false
        };
        let include_special = if let Some(include_spec) = include_special {
            include_spec
        } else {
            false
        };
        let include_ucase = if let Some(include_u) = include_ucase {
            include_u
        } else {
            false
        };
        let use_words = if let Some(use_wrds) = use_words {
            use_wrds
        } else {
            true
        };
        let overwrite = if let Some(overw) = overwrite {
            overw
        } else {
            false
        };
        GenerationData {
            minimum_length,
            include_numbers,
            include_special,
            include_ucase,
            use_words,
            profile,
            overwrite,
        }
    }

    /// Samples a password from this record: a core of at least
    /// `minimum_length` characters, followed by one character of each
    /// additionally requested class. A core of dictionary words may
    /// overshoot the minimum; a core of random lowercase letters hits it
    /// exactly.
    pub fn generate_password(&self) -> (r: String)
        ensures
            r@.len() >= self.minimum_length + extra_count(self@),
            !self.use_words ==> r@.len() == self.minimum_length + extra_count(self@),
            !self.use_words ==> forall|i: int|
                0 <= i < r@.len() - extra_count(self@) ==> is_lowercase_char(r@[i]),
            self.include_numbers ==> is_numeric_char(r@[r@.len() - extra_count(self@)]),
            self.include_special ==> is_special_char(
                r@[r@.len() - extra_count(self@) + (if self.include_numbers {
                    1int
                } else {
                    0int
                })],
            ),
            self.include_ucase ==> is_uppercase_char(r@[r@.len() - 1]),
    {
        let mut password = String::new();
        if self.use_words {
            let mut used_words: Vec<String> = Vec::new();
            while password.as_str().unicode_len() < self.minimum_length
                decreases (if password@.len() < self.minimum_length {
                    self.minimum_length - password@.len()
                } else {
                    0int
                }),
            {
                let mut word = random_english_word();
                let mut tries: usize = 0;
                while tries < 16 && word_was_used(&used_words, word.as_str())
                    invariant
                        word@.len() >= 1,
                    decreases 16 - tries,
                {
                    word = random_english_word();
                    tries = tries + 1;
                }
                let word_len = word.as_str().unicode_len();
                let ghost old_len: nat = password@.len();
                let mut k: usize = 0;
                while k < word_len
                    invariant
                        k <= word_len,
                        word_len == word@.len(),
                        password@.len() == old_len + k,
                    decreases word_len - k,
                {
                    let c = word.as_str().get_char(k);
                    push_char(&mut password, c);
                    k = k + 1;
                }
                used_words.push(word);
            }
        } else {
            while password.as_str().unicode_len() < self.minimum_length
                invariant
                    password@.len() <= self.minimum_length,
                    forall|i: int| 0 <= i < password@.len() ==> is_lowercase_char(password@[i]),
                decreases self.minimum_length - password@.len(),
            {
                let c = generate_lcase_char();
                push_char(&mut password, c);
            }
        }
        if self.include_numbers {
            let c = generate_numeric_char();
            push_char(&mut password, c);
        }
        if self.include_special {
            let c = generate_special_char();
            push_char(&mut password, c);
        }
        if self.include_ucase {
            let c = generate_ucase_char();
            push_char(&mut password, c);
        }
        password
    }
}

/// How many single characters the requested classes append after the core.
pub open spec fn extra_count(r: RecordV) -> int {
    (if r.include_numbers {
        1int
    } else {
        0int
    }) + (if r.include_special {
        1int
    } else {
        0int
    }) + (if r.include_ucase {
        1int
    } else {
        0int
    })
}

/// Whether the word was already appended to the password being built.
fn word_was_used(used_words: &Vec<String>, word: &str) -> (r: bool)
    ensures
        r == exists|i: int| 0 <= i < used_words@.len() && used_words@[i]@ == word@,
{
    let mut j: usize = 0;
    while j < used_words.len()
        invariant
            j <= used_words@.len(),
            forall|i: int| 0 <= i < j ==> used_words@[i]@ != word@,
        decreases used_words@.len() - j,
    {
        if str_eq(used_words[j].as_str(), word) {
            return true;
        }
        j = j + 1;
    }
    false
}

} // verus!
