//! Classification of single characters.

use vstd::prelude::*;

verus! {

/// Whether Unicode gives a character the `Alphabetic` property, as the
/// standard library's tables have it. Nothing else is stated of it.
pub uninterp spec fn unicode_alphabetic(c: char) -> bool;

/// Whether a character lies in one of Unicode's numeric categories, as the
/// standard library's tables have it. Nothing else is stated of it.
pub uninterp spec fn unicode_numeric(c: char) -> bool;

/// `char::is_alphabetic` of the standard library: its answer depends on the
/// character alone and is named [`unicode_alphabetic`]. Not proved.
pub assume_specification[ char::is_alphabetic ](c: char) -> (r: bool)
    ensures
        r == unicode_alphabetic(c),
;

/// `char::is_numeric` of the standard library: its answer depends on the
/// character alone and is named [`unicode_numeric`]. Not proved.
pub assume_specification[ char::is_numeric ](c: char) -> (r: bool)
    ensures
        r == unicode_numeric(c),
;

/// What the scanner does with one character.
#[derive(Clone, Copy, Debug, PartialEq, Eq, Structural)]
pub enum CharClass {
    /// `(`
    OpenParen,
    /// `)`
    CloseParen,
    /// One of `+ - * /`
    BinaryOperator,
    /// `=`
    Equals,
    /// `;`
    SemiColon,
    /// Space, tab, newline or carriage return: ends a pending word.
    Boundary,
    /// A letter, `_` or a digit: extends the pending word.
    Accumulable,
    /// Anything else: dropped without a token and without ending a word.
    SilentlyIgnored,
}

impl CharClass {
    /// True of the classes that yield a token of their own at once.
    pub open spec fn is_structural(self) -> bool {
        self == CharClass::OpenParen || self == CharClass::CloseParen
            || self == CharClass::BinaryOperator || self == CharClass::Equals
            || self == CharClass::SemiColon
    }
}

/// The four characters that separate words.
pub open spec fn is_boundary(c: char) -> bool {
    c == ' ' || c == '\t' || c == '\n' || c == '\r'
}

/// The class of `c`, given what Unicode says of it. Punctuation and
/// boundaries are decided by the character alone and come first.
pub open spec fn class_given(c: char, alphabetic: bool, numeric: bool) -> CharClass {
    if c == '(' {
        CharClass::OpenParen
    } else if c == ')' {
        CharClass::CloseParen
    } else if c == '+' || c == '-' || c == '*' || c == '/' {
        CharClass::BinaryOperator
    } else if c == '=' {
        CharClass::Equals
    } else if c == ';' {
        CharClass::SemiColon
    } else if is_boundary(c) {
        CharClass::Boundary
    } else if alphabetic || c == '_' || numeric {
        CharClass::Accumulable
    } else {
        CharClass::SilentlyIgnored
    }
}

/// The class of `c`.
pub open spec fn class_of(c: char) -> CharClass {
    class_given(c, unicode_alphabetic(c), unicode_numeric(c))
}

/// Classifies `c` from the two Unicode properties handed in.
pub fn classify(c: char, alphabetic: bool, numeric: bool) -> (r: CharClass)
    ensures
        r == class_given(c, alphabetic, numeric),
{
    match c {
        '(' => CharClass::OpenParen,
        ')' => CharClass::CloseParen,
        '+' | '-' | '*' | '/' => CharClass::BinaryOperator,
        '=' => CharClass::Equals,
        ';' => CharClass::SemiColon,
        ' ' | '\t' | '\n' | '\r' => CharClass::Boundary,
        _ => {
            if alphabetic || c == '_' || numeric {
                CharClass::Accumulable
            } else {
                CharClass::SilentlyIgnored
            }
        },
    }
}

/// Classifies `c`, asking the standard library for its Unicode properties.
pub fn char_class(c: char) -> (r: CharClass)
    ensures
        r == class_of(c),
{
    classify(c, c.is_alphabetic(), c.is_numeric())
}

} // verus!
