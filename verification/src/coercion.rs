use vstd::prelude::*;

verus! {

/// What an operand of an arithmetic operator is, as far as the choice of the
/// result goes. A value is a number, a text, undefined or not-a-number; of a
/// text it matters whether it is empty and whether it spells a number.
#[derive(Debug, PartialEq, Eq, Clone, Copy, Structural)]
pub enum Operand {
    /// A number.
    Number,
    /// The empty text.
    EmptyText,
    /// A text that is not empty and spells a number.
    NumericText,
    /// A text that is not empty and spells no number.
    OtherText,
    /// The undefined value.
    Undefined,
    /// The value that is not a number.
    NotANumber,
}

/// How the result of an addition comes about.
#[derive(Debug, PartialEq, Eq, Clone, Copy, Structural)]
pub enum Sum {
    /// The sum of the two numbers.
    Numbers,
    /// The text of the left operand followed by the text of the right one.
    Joined,
    /// The value that is not a number.
    NotANumber,
}

/// How the result of a subtraction comes about. "The number of an operand" is
/// the number itself, or the number that a text spells.
#[derive(Debug, PartialEq, Eq, Clone, Copy, Structural)]
pub enum Difference {
    /// The number of the left operand minus the number of the right one.
    Subtracted,
    /// The number of the left operand.
    Left,
    /// The number of the right operand, negated.
    NegatedRight,
    /// The number zero.
    Zero,
    /// The value that is not a number.
    NotANumber,
}

/// How the result of a multiplication comes about.
#[derive(Debug, PartialEq, Eq, Clone, Copy, Structural)]
pub enum Product {
    /// The number of the left operand times the number of the right one.
    Multiplied,
    /// The number zero.
    Zero,
    /// The value that is not a number.
    NotANumber,
}

impl Operand {
    /// Whether the operand is a text.
    pub open spec fn is_text(self) -> bool {
        self is EmptyText || self is NumericText || self is OtherText
    }

    /// Whether subtraction and multiplication can read the operand as a
    /// number: it is a number, the empty text (which counts as zero) or a text
    /// that spells a number.
    pub open spec fn is_numeric(self) -> bool {
        self is Number || self is EmptyText || self is NumericText
    }

    /// The text that stands for the operand in a joined text, where that is
    /// the same for every operand of its kind.
    pub open spec fn spec_word(self) -> Option<Seq<char>> {
        match self {
            Operand::Undefined => Some("undefined"@),
            Operand::NotANumber => Some("NaN"@),
            _ => None,
        }
    }

    /// Addition: with a text on either side the two operands are joined as
    /// texts; two numbers are added; all else is not a number.
    pub open spec fn sum(self, right: Operand) -> Sum {
        if self.is_text() || right.is_text() {
            Sum::Joined
        } else if self is Number && right is Number {
            Sum::Numbers
        } else {
            Sum::NotANumber
        }
    }

    /// Subtraction: not a number unless both operands can be read as numbers.
    /// An empty text leaves the other operand alone: the result is that
    /// operand's number, negated where the empty text stands on the left, and
    /// zero where both are empty.
    pub open spec fn difference(self, right: Operand) -> Difference {
        if !self.is_numeric() || !right.is_numeric() {
            Difference::NotANumber
        } else if self is EmptyText && right is EmptyText {
            Difference::Zero
        } else if self is EmptyText {
            Difference::NegatedRight
        } else if right is EmptyText {
            Difference::Left
        } else {
            Difference::Subtracted
        }
    }

    /// Multiplication: not a number unless both operands can be read as
    /// numbers; zero where one of them is the empty text.
    pub open spec fn product(self, right: Operand) -> Product {
        if !self.is_numeric() || !right.is_numeric() {
            Product::NotANumber
        } else if self is EmptyText || right is EmptyText {
            Product::Zero
        } else {
            Product::Multiplied
        }
    }

    /// The text that stands for the operand in a joined text, where that is
    /// the same for every operand of its kind: the words for the undefined
    /// value and for not-a-number. A number stands for itself in decimal
    /// digits, and a text for itself.
    pub fn word(self) -> (text: Option<&'static str>)
        ensures
            match self.spec_word() {
                Some(word) => text matches Some(found) && found@ == word,
                None => text is None,
            },
    {
        match self {
            Operand::Undefined => Some("undefined"),
            Operand::NotANumber => Some("NaN"),
            _ => None,
        }
    }

    /// How `self + right` comes about.
    pub fn add(self, right: Operand) -> (rule: Sum)
        ensures
            rule == self.sum(right),
    {
        match (self, right) {
            (Operand::Number, Operand::Number) => Sum::Numbers,
            (Operand::Number, Operand::EmptyText) => Sum::Joined,
            (Operand::Number, Operand::NumericText) => Sum::Joined,
            (Operand::Number, Operand::OtherText) => Sum::Joined,
            (Operand::Number, Operand::Undefined) => Sum::NotANumber,
            (Operand::Number, Operand::NotANumber) => Sum::NotANumber,
            (Operand::EmptyText, _) => Sum::Joined,
            (Operand::NumericText, _) => Sum::Joined,
            (Operand::OtherText, _) => Sum::Joined,
            (Operand::Undefined, Operand::Number) => Sum::NotANumber,
            (Operand::Undefined, Operand::EmptyText) => Sum::Joined,
            (Operand::Undefined, Operand::NumericText) => Sum::Joined,
            (Operand::Undefined, Operand::OtherText) => Sum::Joined,
            (Operand::Undefined, Operand::Undefined) => Sum::NotANumber,
            (Operand::Undefined, Operand::NotANumber) => Sum::NotANumber,
            (Operand::NotANumber, Operand::Number) => Sum::NotANumber,
            (Operand::NotANumber, Operand::EmptyText) => Sum::Joined,
            (Operand::NotANumber, Operand::NumericText) => Sum::Joined,
            (Operand::NotANumber, Operand::OtherText) => Sum::Joined,
            (Operand::NotANumber, Operand::Undefined) => Sum::NotANumber,
            (Operand::NotANumber, Operand::NotANumber) => Sum::NotANumber,
        }
    }

    /// How `self - right` comes about.
    pub fn sub(self, right: Operand) -> (rule: Difference)
        ensures
            rule == self.difference(right),
    {
        match (self, right) {
            (Operand::Number, Operand::Number) => Difference::Subtracted,
            (Operand::Number, Operand::EmptyText) => Difference::Left,
            (Operand::Number, Operand::NumericText) => Difference::Subtracted,
            (Operand::Number, Operand::OtherText) => Difference::NotANumber,
            (Operand::Number, Operand::Undefined) => Difference::NotANumber,
            (Operand::Number, Operand::NotANumber) => Difference::NotANumber,
            (Operand::EmptyText, Operand::Number) => Difference::NegatedRight,
            (Operand::EmptyText, Operand::EmptyText) => Difference::Zero,
            (Operand::EmptyText, Operand::NumericText) => Difference::NegatedRight,
            (Operand::EmptyText, _) => Difference::NotANumber,
            (Operand::NumericText, Operand::Number) => Difference::Subtracted,
            (Operand::NumericText, Operand::EmptyText) => Difference::Left,
            (Operand::NumericText, Operand::NumericText) => Difference::Subtracted,
            (Operand::NumericText, _) => Difference::NotANumber,
            (Operand::OtherText, _) => Difference::NotANumber,
            (Operand::Undefined, _) => Difference::NotANumber,
            (Operand::NotANumber, _) => Difference::NotANumber,
        }
    }

    /// How `self * right` comes about.
    pub fn mul(self, right: Operand) -> (rule: Product)
        ensures
            rule == self.product(right),
    {
        match (self, right) {
            (Operand::Number, Operand::Number) => Product::Multiplied,
            (Operand::Number, Operand::EmptyText) => Product::Zero,
            (Operand::Number, Operand::NumericText) => Product::Multiplied,
            (Operand::Number, Operand::OtherText) => Product::NotANumber,
            (Operand::Number, Operand::Undefined) => Product::NotANumber,
            (Operand::Number, Operand::NotANumber) => Product::NotANumber,
            (Operand::EmptyText, Operand::Number) => Product::Zero,
            (Operand::EmptyText, Operand::EmptyText) => Product::Zero,
            (Operand::EmptyText, Operand::NumericText) => Product::Zero,
            (Operand::EmptyText, _) => Product::NotANumber,
            (Operand::NumericText, Operand::Number) => Product::Multiplied,
            (Operand::NumericText, Operand::EmptyText) => Product::Zero,
            (Operand::NumericText, Operand::NumericText) => Product::Multiplied,
            (Operand::NumericText, _) => Product::NotANumber,
            (Operand::OtherText, _) => Product::NotANumber,
            (Operand::Undefined, _) => Product::NotANumber,
            (Operand::NotANumber, _) => Product::NotANumber,
        }
    }
}

/// An operand that is undefined or not a number spoils subtraction and
/// multiplication whatever the other operand is, and addition unless the other
/// operand is a text.
pub proof fn lemma_poison(poison: Operand, other: Operand)
    requires
        poison is Undefined || poison is NotANumber,
    ensures
        poison.difference(other) is NotANumber,
        other.difference(poison) is NotANumber,
        poison.product(other) is NotANumber,
        other.product(poison) is NotANumber,
        !other.is_text() ==> poison.sum(other) is NotANumber && other.sum(poison) is NotANumber,
        other.is_text() ==> poison.sum(other) is Joined && other.sum(poison) is Joined,
{
}

} // verus!
