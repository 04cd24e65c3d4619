use vstd::prelude::*;

use crate::error::LintError;
use crate::text::{dec_digit, digit_str, digit_val, is_digit, is_upper, lemma_dec_digit};

verus! {

/// The category of each rule defines the sort of problem it intends to solve.
#[derive(Copy, Clone, PartialEq, Eq, Structural, PartialOrd, Ord, Hash, Debug)]
pub enum Category {
    /// Failure to parse a file.
    Error,
    /// Violation of style conventions.
    Style,
    /// Misuse of types and kinds.
    Typing,
    /// Failure to use modules or use them appropriately.
    Modules,
    /// Best practices for setting floating point precision.
    Precision,
    /// Check path names, directory structures, etc.
    FileSystem,
}

/// The category named by a single letter, if the letter is one of the six
/// fixed tags.
pub open spec fn letter_category(c: char) -> Option<Category> {
    if c == 'E' {
        Some(Category::Error)
    } else if c == 'S' {
        Some(Category::Style)
    } else if c == 'T' {
        Some(Category::Typing)
    } else if c == 'M' {
        Some(Category::Modules)
    } else if c == 'P' {
        Some(Category::Precision)
    } else if c == 'F' {
        Some(Category::FileSystem)
    } else {
        None
    }
}

/// The category a string names: one of the six known letters, standing
/// alone; every other string names none.
pub open spec fn spec_category_of(s: Seq<char>) -> Option<Category> {
    if s.len() == 1 {
        letter_category(s[0])
    } else {
        None
    }
}

impl Category {
    /// The fixed single-letter tag of this category.
    pub open spec fn letter(self) -> char {
        match self {
            Category::Error => 'E',
            Category::Style => 'S',
            Category::Typing => 'T',
            Category::Modules => 'M',
            Category::Precision => 'P',
            Category::FileSystem => 'F',
        }
    }

    /// The single-letter tag of this category, as text.
    pub fn letter_str(&self) -> (r: &'static str)
        ensures
            r@ == seq![self.letter()],
    {
        let r: &'static str = match self {
            Category::Error => "E",
            Category::Style => "S",
            Category::Typing => "T",
            Category::Modules => "M",
            Category::Precision => "P",
            Category::FileSystem => "F",
        };
        proof {
            reveal_strlit("E");
            reveal_strlit("S");
            reveal_strlit("T");
            reveal_strlit("M");
            reveal_strlit("P");
            reveal_strlit("F");
            assert(r@ =~= seq![self.letter()]);
        }
        r
    }

    /// Parses a category tag; fails on anything but the six known letters,
    /// naming the rejected text in the error.
    pub fn from(s: &str) -> (r: Result<Category, LintError>)
        ensures
            r is Ok <==> spec_category_of(s@) is Some,
            r is Ok ==> r->Ok_0 == spec_category_of(s@)->0,
            r is Err ==> (r matches Err(LintError::UnknownCategory(t)) && t@ == s@),
    {
        if s.unicode_len() != 1 {
            return Err(LintError::UnknownCategory(s.to_owned()));
        }
        match s.get_char(0) {
            'E' => Ok(Category::Error),
            'S' => Ok(Category::Style),
            'T' => Ok(Category::Typing),
            'M' => Ok(Category::Modules),
            'P' => Ok(Category::Precision),
            'F' => Ok(Category::FileSystem),
            _ => Err(LintError::UnknownCategory(s.to_owned())),
        }
    }
}

/// Every category's letter parses back to that category.
pub proof fn lemma_category_letter_round_trip(c: Category)
    ensures
        letter_category(c.letter()) == Some(c),
{
}

/// The combination of a rule category and a unique identifying number.
#[derive(Copy, Clone, PartialEq, Eq, Structural, PartialOrd, Ord, Hash, Debug)]
pub struct Code {
    pub category: Category,
    pub number: usize,
}

/// The letters-then-exactly-three-digits shape every code string must have:
/// one or more uppercase letters followed by three decimal digits.
pub open spec fn code_format(s: Seq<char>) -> bool {
    &&& s.len() >= 4
    &&& forall|i: int| 0 <= i < s.len() - 3 ==> is_upper(s[i])
    &&& forall|i: int| s.len() - 3 <= i < s.len() ==> is_digit(s[i])
}

/// The value of the three-digit group at the end of a code string.
pub open spec fn code_number(s: Seq<char>) -> int
    recommends
        s.len() >= 3,
{
    digit_val(s[s.len() - 3]) * 100 + digit_val(s[s.len() - 2]) * 10 + digit_val(s[s.len() - 1])
}

/// The code a string spells: its letter group's category paired with its
/// three-digit number. A string that is malformed, or whose letter group
/// names no category, spells none.
pub open spec fn spec_code_of(s: Seq<char>) -> Option<Code> {
    if code_format(s) && spec_category_of(s.subrange(0, s.len() - 3)) is Some {
        Some(
            Code {
                category: spec_category_of(s.subrange(0, s.len() - 3))->0,
                number: code_number(s) as usize,
            },
        )
    } else {
        None
    }
}

impl Code {
    /// Pairs a category with an identifying number.
    pub fn new(category: Category, number: usize) -> (r: Self)
        ensures
            r == (Code { category, number }),
    {
        Code { category, number }
    }

    /// Parses a code string such as `F001`. A string that does not match
    /// the letters-then-three-digits format is an invalid code; one whose
    /// letters name no known category is an unknown category; both errors
    /// name the rejected text.
    pub fn from(code_str: &str) -> (r: Result<Code, LintError>)
        ensures
            r is Ok <==> spec_code_of(code_str@) is Some,
            r is Ok ==> r->Ok_0 == spec_code_of(code_str@)->0,
            !code_format(code_str@) ==> (r matches Err(LintError::InvalidCode(t)) && t@
                == code_str@),
            code_format(code_str@) && spec_category_of(
                code_str@.subrange(0, code_str@.len() - 3),
            ) is None ==> (r matches Err(LintError::UnknownCategory(t)) && t@
                == code_str@.subrange(0, code_str@.len() - 3)),
    {
        let n = code_str.unicode_len();
        if n < 4 {
            return Err(LintError::InvalidCode(code_str.to_owned()));
        }
        let mut i: usize = 0;
        while i < n - 3
            invariant
                n == code_str@.len(),
                4 <= n,
                0 <= i <= n - 3,
                forall|j: int| 0 <= j < i ==> is_upper(code_str@[j]),
            decreases n - 3 - i,
        {
            let c = code_str.get_char(i);
            if !('A' <= c && c <= 'Z') {
                return Err(LintError::InvalidCode(code_str.to_owned()));
            }
            i = i + 1;
        }
        let mut k: usize = n - 3;
        while k < n
            invariant
                n == code_str@.len(),
                4 <= n,
                n - 3 <= k <= n,
                forall|j: int| n - 3 <= j < k ==> is_digit(code_str@[j]),
            decreases n - k,
        {
            let c = code_str.get_char(k);
            if !('0' <= c && c <= '9') {
                return Err(LintError::InvalidCode(code_str.to_owned()));
            }
            k = k + 1;
        }
        assert(code_format(code_str@));
        let letters = code_str.substring_char(0, n - 3);
        let category = match Category::from(letters) {
            Ok(category) => category,
            Err(e) => {
                return Err(e);
            },
        };
        let d2 = code_str.get_char(n - 3);
        let d1 = code_str.get_char(n - 2);
        let d0 = code_str.get_char(n - 1);
        let number: usize = (d2 as usize - 48) * 100 + (d1 as usize - 48) * 10 + (d0 as usize
            - 48);
        assert(number == code_number(code_str@));
        Ok(Code::new(category, number))
    }

    /// The display form of this code: the category letter followed by the
    /// number, zero-padded to exactly three digits. Numbers needing more
    /// digits would break the fixed-width format and are unsupported.
    pub open spec fn display_spec(&self) -> Seq<char> {
        seq![
            self.category.letter(),
            dec_digit(self.number as int / 100),
            dec_digit((self.number as int / 10) % 10),
            dec_digit(self.number as int % 10),
        ]
    }

    /// Writes the code in its display form, such as `F001`.
    pub fn display(&self) -> (r: String)
        requires
            self.number < 1000,
        ensures
            r@ == self.display_spec(),
    {
        let mut s = String::new();
        s.append(self.category.letter_str());
        s.append(digit_str(self.number / 100));
        s.append(digit_str((self.number / 10) % 10));
        s.append(digit_str(self.number % 10));
        proof {
            assert(s@ =~= self.display_spec());
        }
        s
    }
}

/// Round-trip law: parsing the display form of any code with a number small
/// enough for the three-digit format yields the code itself.
pub proof fn lemma_code_round_trip(c: Code)
    requires
        c.number < 1000,
    ensures
        spec_code_of(c.display_spec()) == Some(c),
{
    let s = c.display_spec();
    let n = c.number as int;
    lemma_dec_digit(n / 100);
    lemma_dec_digit((n / 10) % 10);
    lemma_dec_digit(n % 10);
    assert(is_upper(c.category.letter()));
    assert(code_format(s));
    assert(s.subrange(0, 1) =~= seq![c.category.letter()]);
    lemma_category_letter_round_trip(c.category);
    assert(spec_category_of(s.subrange(0, 1)) == Some(c.category));
    assert(n / 100 * 100 + ((n / 10) % 10) * 10 + n % 10 == n) by {
        vstd::arithmetic::div_mod::lemma_fundamental_div_mod(n, 10);
        vstd::arithmetic::div_mod::lemma_fundamental_div_mod(n / 10, 10);
        vstd::arithmetic::div_mod::lemma_div_denominator(n, 10, 10);
    }
    assert(code_number(s) == n);
}

} // verus!
