use vstd::prelude::*;

verus! {

/// Why a schema description could not be decoded.
#[derive(Debug)]
pub enum DecodeError {
    /// `enum` and `const` are both present.
    EnumAndConst,
    /// A possible-value bound (`enum` or `const`) stands beside `pattern`.
    PatternAndPossibleValues,
    /// A possible-value bound stands beside `minLength` or `maxLength`.
    LengthAndPossibleValues,
    /// Both the inclusive and the exclusive form of one endpoint are present;
    /// holds the inclusive keyword.
    InclusiveAndExclusive(String),
    /// `default` under boolean bounds is not a boolean; holds the text of the value
    /// when it is a scalar.
    DefaultNotBoolean(Option<String>),
    /// `enum` is not a sequence; holds the text of the value when it is a scalar.
    EnumNotSequence(Option<String>),
    /// `enum` is an empty sequence.
    EmptyEnum,
    /// An enumeration entry is neither a string nor a mapping.
    EnumEntryShape,
    /// A structured enumeration entry has no `value`.
    MissingEnumValue,
    /// The `value` of a structured enumeration entry is not a string.
    EnumValueNotString,
    /// The `title` of a structured enumeration entry is not a string.
    EnumTitleNotString,
    /// `const` is not a scalar.
    ConstNotScalar,
    /// `pattern` is not a string; holds the text of the value when it is a scalar.
    PatternNotString(Option<String>),
    /// `pattern` is not a regular expression: the pattern and the engine's reason.
    InvalidPattern(String, String),
    /// The keyword's value is not an integer of the required range.
    NotAnInteger(String),
    /// The keyword's value has the wrong shape.
    WrongShape(String),
    /// The `type` keyword names no known kind.
    UnknownType(String),
    /// A schema node is not a mapping.
    NotAMapping,
    /// The description nests deeper than the decoder allows.
    TooDeep,
    /// Two properties of one object share a name.
    DuplicateProperty(String),
}

/// An optional text as plain values.
pub open spec fn opt_text(o: Option<String>) -> Option<Seq<char>> {
    match o {
        Some(s) => Some(s@),
        None => None,
    }
}

/// A decode error as plain values.
pub enum DecodeErrorView {
    EnumAndConst,
    PatternAndPossibleValues,
    LengthAndPossibleValues,
    InclusiveAndExclusive(Seq<char>),
    DefaultNotBoolean(Option<Seq<char>>),
    EnumNotSequence(Option<Seq<char>>),
    EmptyEnum,
    EnumEntryShape,
    MissingEnumValue,
    EnumValueNotString,
    EnumTitleNotString,
    ConstNotScalar,
    PatternNotString(Option<Seq<char>>),
    InvalidPattern(Seq<char>, Seq<char>),
    NotAnInteger(Seq<char>),
    WrongShape(Seq<char>),
    UnknownType(Seq<char>),
    NotAMapping,
    TooDeep,
    DuplicateProperty(Seq<char>),
}

impl View for DecodeError {
    type V = DecodeErrorView;

    open spec fn view(&self) -> DecodeErrorView {
        match self {
            DecodeError::EnumAndConst => DecodeErrorView::EnumAndConst,
            DecodeError::PatternAndPossibleValues => DecodeErrorView::PatternAndPossibleValues,
            DecodeError::LengthAndPossibleValues => DecodeErrorView::LengthAndPossibleValues,
            DecodeError::InclusiveAndExclusive(k) => DecodeErrorView::InclusiveAndExclusive(k@),
            DecodeError::DefaultNotBoolean(v) => DecodeErrorView::DefaultNotBoolean(opt_text(*v)),
            DecodeError::EnumNotSequence(v) => DecodeErrorView::EnumNotSequence(opt_text(*v)),
            DecodeError::EmptyEnum => DecodeErrorView::EmptyEnum,
            DecodeError::EnumEntryShape => DecodeErrorView::EnumEntryShape,
            DecodeError::MissingEnumValue => DecodeErrorView::MissingEnumValue,
            DecodeError::EnumValueNotString => DecodeErrorView::EnumValueNotString,
            DecodeError::EnumTitleNotString => DecodeErrorView::EnumTitleNotString,
            DecodeError::ConstNotScalar => DecodeErrorView::ConstNotScalar,
            DecodeError::PatternNotString(v) => DecodeErrorView::PatternNotString(opt_text(*v)),
            DecodeError::InvalidPattern(p, m) => DecodeErrorView::InvalidPattern(p@, m@),
            DecodeError::NotAnInteger(k) => DecodeErrorView::NotAnInteger(k@),
            DecodeError::WrongShape(k) => DecodeErrorView::WrongShape(k@),
            DecodeError::UnknownType(t) => DecodeErrorView::UnknownType(t@),
            DecodeError::NotAMapping => DecodeErrorView::NotAMapping,
            DecodeError::TooDeep => DecodeErrorView::TooDeep,
            DecodeError::DuplicateProperty(n) => DecodeErrorView::DuplicateProperty(n@),
        }
    }
}

} // verus!

verus! {

/// A result whose error is seen as plain values.
pub open spec fn view_err<T>(r: Result<T, DecodeError>) -> Result<T, DecodeErrorView> {
    match r {
        Ok(v) => Ok(v),
        Err(e) => Err(e@),
    }
}

} // verus!
