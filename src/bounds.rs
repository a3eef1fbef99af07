use vstd::prelude::*;
use vstd::string::{StrSliceExecFns, StringExecFns};

use crate::error::{view_err, DecodeError, DecodeErrorView};
use crate::yaml::{get, has_key, lookup, Mapping, Yaml};

verus! {

/// Display metadata of a value.
pub struct DisplayInformation {
    pub title: Option<String>,
    pub help: Option<String>,
    pub warning: Option<String>,
    pub description: Option<String>,
}

/// One allowed value of a string: its machine value and display metadata.
pub struct EnumerationValue {
    pub value: Option<String>,
    pub display_information: DisplayInformation,
}

/// An enumeration entry as plain values.
pub struct EntryView {
    pub value: Option<Seq<char>>,
    pub title: Option<Seq<char>>,
    pub help: Option<Seq<char>>,
    pub warning: Option<Seq<char>>,
    pub description: Option<Seq<char>>,
}

pub open spec fn opt_view(o: Option<String>) -> Option<Seq<char>> {
    match o {
        Some(s) => Some(s@),
        None => None,
    }
}

impl View for EnumerationValue {
    type V = EntryView;

    open spec fn view(&self) -> EntryView {
        EntryView {
            value: opt_view(self.value),
            title: opt_view(self.display_information.title),
            help: opt_view(self.display_information.help),
            warning: opt_view(self.display_information.warning),
            description: opt_view(self.display_information.description),
        }
    }
}

/// Minimum and maximum character counts of a string.
#[derive(Clone, Copy, PartialEq, Eq, Structural, Debug)]
pub struct StringLength {
    pub minimum: Option<u64>,
    pub maximum: Option<u64>,
}

/// The bound of a string-typed node: one of three exclusive shapes.
pub enum StringObjectBounds {
    PossibleValues(Vec<EnumerationValue>),
    Pattern(String),
    Length(StringLength),
}

/// String bounds as plain values.
pub enum StringBoundsView {
    PossibleValues(Seq<EntryView>),
    Pattern(Seq<char>),
    Length(StringLength),
}

pub open spec fn entries_view(v: Seq<EnumerationValue>) -> Seq<EntryView> {
    v.map_values(|e: EnumerationValue| e@)
}

impl View for StringObjectBounds {
    type V = StringBoundsView;

    open spec fn view(&self) -> StringBoundsView {
        match self {
            StringObjectBounds::PossibleValues(v) => StringBoundsView::PossibleValues(entries_view(v@)),
            StringObjectBounds::Pattern(p) => StringBoundsView::Pattern(p@),
            StringObjectBounds::Length(l) => StringBoundsView::Length(*l),
        }
    }
}

/// One endpoint of a numeric range.
#[derive(Clone, Copy, PartialEq, Eq, Structural, Debug)]
pub enum IntegerBound {
    Inclusive(i64),
    Exclusive(i64),
}

/// The bounds of an integer- or number-typed node.
#[derive(Clone, Copy, PartialEq, Eq, Structural, Debug)]
pub struct IntegerObjectBounds {
    pub minimum: Option<IntegerBound>,
    pub maximum: Option<IntegerBound>,
    pub multiple_of: Option<i64>,
}

/// The bounds of a boolean-typed node.
#[derive(Clone, Copy, PartialEq, Eq, Structural, Debug)]
pub enum BooleanObjectBounds {
    DefaultValue(bool),
}

/// What `regex::Regex::new` makes of a pattern: `None` when it compiles, else the
/// engine's reason.
pub uninterp spec fn regex_outcome(p: Seq<char>) -> Option<Seq<char>>;

/// Relies on `regex::Regex::new`: whether a pattern compiles, and the text of the
/// error when it does not, depend on the pattern alone.
#[verifier::external_body]
fn check_regex(p: &str) -> (r: Result<(), String>)
    ensures
        match r {
            Ok(_) => regex_outcome(p@) is None,
            Err(m) => regex_outcome(p@) == Some(m@),
        },
{
    match regex::Regex::new(p) {
        Ok(_) => Ok(()),
        Err(e) => Err(e.to_string()),
    }
}

/// The character of a decimal digit.
pub open spec fn digit_char(d: int) -> char {
    if d == 0 {
        '0'
    } else if d == 1 {
        '1'
    } else if d == 2 {
        '2'
    } else if d == 3 {
        '3'
    } else if d == 4 {
        '4'
    } else if d == 5 {
        '5'
    } else if d == 6 {
        '6'
    } else if d == 7 {
        '7'
    } else if d == 8 {
        '8'
    } else {
        '9'
    }
}

/// The decimal digits of a natural number, most significant first, without
/// leading zeros.
pub open spec fn digits(n: nat) -> Seq<char>
    decreases n,
{
    if n < 10 {
        seq![digit_char(n as int)]
    } else {
        digits(n / 10).push(digit_char((n % 10) as int))
    }
}

/// The decimal text of an integer: a minus sign before a negative one.
pub open spec fn decimal_text(i: int) -> Seq<char> {
    if i < 0 {
        seq!['-'] + digits((-i) as nat)
    } else {
        digits(i as nat)
    }
}

fn digit_text(d: u64) -> (r: String)
    requires
        d < 10,
    ensures
        r@ == seq![digit_char(d as int)],
{
    let all: &str = "0123456789";
    proof {
        reveal_strlit("0123456789");
    }
    let one = all.substring_char(d as usize, d as usize + 1);
    assert(one@ =~= seq![digit_char(d as int)]);
    one.to_string()
}

fn digits_text(n: u64) -> (r: String)
    ensures
        r@ == digits(n as nat),
    decreases n,
{
    if n < 10 {
        digit_text(n)
    } else {
        let high = digits_text(n / 10);
        let low = digit_text(n % 10);
        high.concat(low.as_str())
    }
}

/// The decimal text of an integer.
fn decimal(i: i64) -> (r: String)
    ensures
        r@ == decimal_text(i as int),
{
    if i < 0 {
        let magnitude: u64 = (-(i as i128)) as u64;
        let sign = "-".to_string();
        proof {
            reveal_strlit("-");
        }
        let rest = digits_text(magnitude);
        let r = sign.concat(rest.as_str());
        assert(sign@ =~= seq!['-']);
        r
    } else {
        digits_text(i as u64)
    }
}

/// An integer keyword: absent, or an integer.
pub open spec fn integer_of(m: Seq<(String, Yaml)>, key: Seq<char>) -> Result<Option<i64>, DecodeErrorView> {
    match lookup(m, key) {
        None => Ok(None),
        Some(Yaml::Int(i)) => Ok(Some(i)),
        Some(_) => Err(DecodeErrorView::NotAnInteger(key)),
    }
}

/// A count keyword: absent, or a non-negative integer.
pub open spec fn count_of(m: Seq<(String, Yaml)>, key: Seq<char>) -> Result<Option<u64>, DecodeErrorView> {
    match lookup(m, key) {
        None => Ok(None),
        Some(Yaml::Int(i)) => if i >= 0 {
            Ok(Some(i as u64))
        } else {
            Err(DecodeErrorView::NotAnInteger(key))
        },
        Some(_) => Err(DecodeErrorView::NotAnInteger(key)),
    }
}

/// An entry with the given value and title and no other metadata.
pub open spec fn entry(value: Option<Seq<char>>, title: Option<Seq<char>>) -> EntryView {
    EntryView { value, title, help: None, warning: None, description: None }
}

/// One element of an `enum` list: a bare string, or a mapping with a string `value`
/// and an optional string `title`.
pub open spec fn entry_of(y: Yaml) -> Result<EntryView, DecodeErrorView> {
    match y {
        Yaml::Str(s) => Ok(entry(Some(s@), None)),
        Yaml::Mapping(m) => match lookup(m@, "value"@) {
            None => Err(DecodeErrorView::MissingEnumValue),
            Some(Yaml::Str(v)) => match lookup(m@, "title"@) {
                None => Ok(entry(Some(v@), None)),
                Some(Yaml::Str(t)) => Ok(entry(Some(v@), Some(t@))),
                Some(_) => Err(DecodeErrorView::EnumTitleNotString),
            },
            Some(_) => Err(DecodeErrorView::EnumValueNotString),
        },
        _ => Err(DecodeErrorView::EnumEntryShape),
    }
}

/// The elements of an `enum` list, in order; the first failure decides.
pub open spec fn entries_of(s: Seq<Yaml>) -> Result<Seq<EntryView>, DecodeErrorView>
    decreases s.len(),
{
    if s.len() == 0 {
        Ok(Seq::empty())
    } else {
        match entries_of(s.drop_last()) {
            Err(e) => Err(e),
            Ok(p) => match entry_of(s.last()) {
                Ok(e) => Ok(p.push(e)),
                Err(e) => Err(e),
            },
        }
    }
}

/// The `enum` keyword: absent, or a non-empty sequence of entries.
pub open spec fn enum_of(m: Seq<(String, Yaml)>) -> Result<Option<Seq<EntryView>>, DecodeErrorView> {
    match lookup(m, "enum"@) {
        None => Ok(None),
        Some(Yaml::Sequence(v)) => match entries_of(v@) {
            Err(e) => Err(e),
            Ok(es) => if es.len() == 0 {
                Err(DecodeErrorView::EmptyEnum)
            } else {
                Ok(Some(es))
            },
        },
        Some(y) => Err(DecodeErrorView::EnumNotSequence(scalar_echo(y))),
    }
}

/// The machine value that a scalar stands for; `None` for a sequence or a mapping.
pub open spec fn scalar_value(y: Yaml) -> Option<Option<Seq<char>>> {
    match y {
        Yaml::Null => Some(None),
        Yaml::Bool(b) => Some(Some(if b { "true"@ } else { "false"@ })),
        Yaml::Int(i) => Some(Some(decimal_text(i as int))),
        Yaml::Real(s) => Some(Some(s@)),
        Yaml::Str(s) => Some(Some(s@)),
        _ => None,
    }
}

/// The text of a scalar other than `null`, for an error to echo.
pub open spec fn scalar_echo(y: Yaml) -> Option<Seq<char>> {
    match scalar_value(y) {
        Some(Some(t)) => Some(t),
        _ => None,
    }
}

/// The `const` keyword: a scalar, as one entry without metadata; `null` gives an
/// entry without a machine value.
pub open spec fn const_of(m: Seq<(String, Yaml)>) -> Result<Option<EntryView>, DecodeErrorView> {
    match lookup(m, "const"@) {
        None => Ok(None),
        Some(y) => match scalar_value(y) {
            Some(v) => Ok(Some(entry(v, None))),
            None => Err(DecodeErrorView::ConstNotScalar),
        },
    }
}

/// The `pattern` keyword: a string that compiles as a regular expression.
pub open spec fn pattern_of(m: Seq<(String, Yaml)>) -> Result<Option<Seq<char>>, DecodeErrorView> {
    match lookup(m, "pattern"@) {
        None => Ok(None),
        Some(Yaml::Str(s)) => match regex_outcome(s@) {
            None => Ok(Some(s@)),
            Some(reason) => Err(DecodeErrorView::InvalidPattern(s@, reason)),
        },
        Some(y) => Err(DecodeErrorView::PatternNotString(scalar_echo(y))),
    }
}

/// `maxLength` and `minLength`: a length bound when either is present.
pub open spec fn length_of(m: Seq<(String, Yaml)>) -> Result<Option<StringLength>, DecodeErrorView> {
    match count_of(m, "maxLength"@) {
        Err(e) => Err(e),
        Ok(max) => match count_of(m, "minLength"@) {
            Err(e) => Err(e),
            Ok(min) => if max is Some || min is Some {
                Ok(Some(StringLength { minimum: min, maximum: max }))
            } else {
                Ok(None)
            },
        },
    }
}

/// The possible values that `enum` or `const` give, when both decoded.
pub open spec fn possible_values_of(en: Option<Seq<EntryView>>, c: Option<EntryView>) -> Option<Seq<EntryView>> {
    if en is Some {
        en
    } else if c is Some {
        Some(seq![c->0])
    } else {
        None
    }
}

/// The string bounds of a node: each keyword is decoded in turn, then the
/// exclusions are enforced, then possible values win over a pattern, and a pattern
/// over a length bound.
pub open spec fn string_bounds_of(m: Seq<(String, Yaml)>) -> Result<Option<StringBoundsView>, DecodeErrorView> {
    match enum_of(m) {
        Err(e) => Err(e),
        Ok(en) => match const_of(m) {
            Err(e) => Err(e),
            Ok(c) => match pattern_of(m) {
                Err(e) => Err(e),
                Ok(p) => match length_of(m) {
                    Err(e) => Err(e),
                    Ok(l) => {
                        let pv = possible_values_of(en, c);
                        if en is Some && c is Some {
                            Err(DecodeErrorView::EnumAndConst)
                        } else if pv is Some && p is Some {
                            Err(DecodeErrorView::PatternAndPossibleValues)
                        } else if pv is Some && l is Some {
                            Err(DecodeErrorView::LengthAndPossibleValues)
                        } else if pv is Some {
                            Ok(Some(StringBoundsView::PossibleValues(pv->0)))
                        } else if p is Some {
                            Ok(Some(StringBoundsView::Pattern(p->0)))
                        } else if l is Some {
                            Ok(Some(StringBoundsView::Length(l->0)))
                        } else {
                            Ok(None)
                        }
                    },
                },
            },
        },
    }
}

/// One endpoint: the inclusive keyword, or its exclusive form, never both.
pub open spec fn integer_bound_of(m: Seq<(String, Yaml)>, name: Seq<char>, exclusive: Seq<char>) -> Result<
    Option<IntegerBound>,
    DecodeErrorView,
> {
    match integer_of(m, name) {
        Err(e) => Err(e),
        Ok(n) => match integer_of(m, exclusive) {
            Err(e) => Err(e),
            Ok(x) => if n is Some && x is Some {
                Err(DecodeErrorView::InclusiveAndExclusive(name))
            } else if n is Some {
                Ok(Some(IntegerBound::Inclusive(n->0)))
            } else if x is Some {
                Ok(Some(IntegerBound::Exclusive(x->0)))
            } else {
                Ok(None)
            },
        },
    }
}

/// The integer bounds of a node: present when any endpoint or `multipleOf` is.
pub open spec fn integer_bounds_of(m: Seq<(String, Yaml)>) -> Result<Option<IntegerObjectBounds>, DecodeErrorView> {
    match integer_bound_of(m, "maximum"@, "exclusiveMaximum"@) {
        Err(e) => Err(e),
        Ok(max) => match integer_bound_of(m, "minimum"@, "exclusiveMinimum"@) {
            Err(e) => Err(e),
            Ok(min) => match integer_of(m, "multipleOf"@) {
                Err(e) => Err(e),
                Ok(mo) => if max is Some || min is Some || mo is Some {
                    Ok(Some(IntegerObjectBounds { minimum: min, maximum: max, multiple_of: mo }))
                } else {
                    Ok(None)
                },
            },
        },
    }
}

/// The boolean bounds of a node: `default`, which must be a boolean.
pub open spec fn boolean_bounds_of(m: Seq<(String, Yaml)>) -> Result<Option<BooleanObjectBounds>, DecodeErrorView> {
    match lookup(m, "default"@) {
        None => Ok(None),
        Some(Yaml::Bool(b)) => Ok(Some(BooleanObjectBounds::DefaultValue(b))),
        Some(y) => Err(DecodeErrorView::DefaultNotBoolean(scalar_echo(y))),
    }
}

pub open spec fn string_bounds_result(r: Result<Option<StringObjectBounds>, DecodeError>) -> Result<
    Option<StringBoundsView>,
    DecodeErrorView,
> {
    match r {
        Ok(Some(b)) => Ok(Some(b@)),
        Ok(None) => Ok(None),
        Err(e) => Err(e@),
    }
}

pub open spec fn entry_result(r: Result<EnumerationValue, DecodeError>) -> Result<EntryView, DecodeErrorView> {
    match r {
        Ok(v) => Ok(v@),
        Err(e) => Err(e@),
    }
}


impl DisplayInformation {
    /// Metadata with every field absent.
    pub fn empty() -> (r: DisplayInformation)
        ensures
            r.title is None,
            r.help is None,
            r.warning is None,
            r.description is None,
    {
        DisplayInformation { title: None, help: None, warning: None, description: None }
    }
}

fn copy_text(o: &Option<String>) -> (r: Option<String>)
    ensures
        r == *o,
{
    match o {
        Some(s) => Some(s.clone()),
        None => None,
    }
}

/// An entry with every missing one of value and title taken from the other.
pub open spec fn normalized(e: EntryView) -> EntryView {
    let title = if e.title is None {
        e.value
    } else {
        e.title
    };
    let value = if e.value is None {
        title
    } else {
        e.value
    };
    EntryView { value, title, ..e }
}

/// String bounds with each possible value normalized.
pub open spec fn normalized_bounds(b: StringBoundsView) -> StringBoundsView {
    match b {
        StringBoundsView::PossibleValues(s) => StringBoundsView::PossibleValues(
            s.map_values(|e: EntryView| normalized(e)),
        ),
        _ => b,
    }
}

impl EnumerationValue {
    /// An entry whose value is `s` and whose metadata is absent.
    pub fn from_str(s: &str) -> (r: EnumerationValue)
        ensures
            r@ == entry(Some(s@), None),
    {
        EnumerationValue { value: Some(s.to_string()), display_information: DisplayInformation::empty() }
    }

    /// A normalized copy of this entry.
    pub fn normalized(&self) -> (r: EnumerationValue)
        ensures
            r@ == normalized(self@),
    {
        let title = if self.display_information.title.is_none() {
            copy_text(&self.value)
        } else {
            copy_text(&self.display_information.title)
        };
        let value = if self.value.is_none() {
            copy_text(&title)
        } else {
            copy_text(&self.value)
        };
        EnumerationValue {
            value,
            display_information: DisplayInformation {
                title,
                help: copy_text(&self.display_information.help),
                warning: copy_text(&self.display_information.warning),
                description: copy_text(&self.display_information.description),
            },
        }
    }

    /// Fills a missing title from the value, then a missing value from the title.
    pub fn normalize(&mut self)
        ensures
            final(self)@ == normalized(old(self)@),
    {
        *self = self.normalized();
    }
}

impl StringObjectBounds {
    /// A copy of these bounds with each possible value normalized.
    pub fn normalized(&self) -> (r: StringObjectBounds)
        ensures
            r@ == normalized_bounds(self@),
    {
        match self {
            StringObjectBounds::PossibleValues(values) => {
                let mut out: Vec<EnumerationValue> = Vec::new();
                let mut i: usize = 0;
                while i < values.len()
                    invariant
                        i <= values@.len(),
                        entries_view(out@) == entries_view(values@).take(i as int).map_values(
                            |e: EntryView| normalized(e),
                        ),
                    decreases values.len() - i,
                {
                    let n = values[i].normalized();
                    proof {
                        assert(entries_view(out@.push(n)) =~= entries_view(out@).push(n@));
                        assert(entries_view(values@).take(i + 1) =~= entries_view(values@).take(
                            i as int,
                        ).push(values@[i as int]@));
                        assert(entries_view(values@).take(i + 1).map_values(|e: EntryView| normalized(e))
                            =~= entries_view(values@).take(i as int).map_values(
                            |e: EntryView| normalized(e),
                        ).push(normalized(values@[i as int]@)));
                    }
                    out.push(n);
                    i = i + 1;
                }
                assert(entries_view(values@).take(values@.len() as int) =~= entries_view(values@));
                StringObjectBounds::PossibleValues(out)
            },
            StringObjectBounds::Pattern(p) => StringObjectBounds::Pattern(p.clone()),
            StringObjectBounds::Length(l) => StringObjectBounds::Length(*l),
        }
    }

    /// Normalizes every possible value in place.
    pub fn normalize(&mut self)
        ensures
            final(self)@ == normalized_bounds(old(self)@),
    {
        *self = self.normalized();
    }
}

pub(crate) fn deserialize_integer(name: &str, mapping: &Mapping) -> (r: Result<Option<i64>, DecodeError>)
    ensures
        view_err(r) == integer_of(mapping@, name@),
{
    match get(mapping, name) {
        None => Ok(None),
        Some(Yaml::Int(i)) => Ok(Some(*i)),
        Some(_) => Err(DecodeError::NotAnInteger(name.to_string())),
    }
}

pub(crate) fn deserialize_count(name: &str, mapping: &Mapping) -> (r: Result<Option<u64>, DecodeError>)
    ensures
        view_err(r) == count_of(mapping@, name@),
{
    match get(mapping, name) {
        None => Ok(None),
        Some(Yaml::Int(i)) => if *i >= 0 {
            Ok(Some(*i as u64))
        } else {
            Err(DecodeError::NotAnInteger(name.to_string()))
        },
        Some(_) => Err(DecodeError::NotAnInteger(name.to_string())),
    }
}


/// Decodes `maxLength` and `minLength` into a length bound.
pub fn deserialize_length_bounds(mapping: &Mapping) -> (r: Result<Option<StringObjectBounds>, DecodeError>)
    ensures
        string_bounds_result(r) == match length_of(mapping@) {
            Ok(Some(l)) => Ok(Some(StringBoundsView::Length(l))),
            Ok(None) => Ok(None),
            Err(e) => Err(e),
        },
{
    let max_length = match deserialize_count("maxLength", mapping) {
        Ok(v) => v,
        Err(e) => return Err(e),
    };
    let min_length = match deserialize_count("minLength", mapping) {
        Ok(v) => v,
        Err(e) => return Err(e),
    };
    if max_length.is_some() || min_length.is_some() {
        Ok(Some(StringObjectBounds::Length(StringLength { minimum: min_length, maximum: max_length })))
    } else {
        Ok(None)
    }
}

fn deserialize_integer_bound(name: &str, exclusive_name: &str, mapping: &Mapping) -> (r: Result<
    Option<IntegerBound>,
    DecodeError,
>)
    ensures
        view_err(r) == integer_bound_of(mapping@, name@, exclusive_name@),
{
    let normal = match deserialize_integer(name, mapping) {
        Ok(v) => v,
        Err(e) => return Err(e),
    };
    let exclusive = match deserialize_integer(exclusive_name, mapping) {
        Ok(v) => v,
        Err(e) => return Err(e),
    };
    match (normal, exclusive) {
        (Some(_), Some(_)) => Err(DecodeError::InclusiveAndExclusive(name.to_string())),
        (Some(n), None) => Ok(Some(IntegerBound::Inclusive(n))),
        (None, Some(x)) => Ok(Some(IntegerBound::Exclusive(x))),
        (None, None) => Ok(None),
    }
}

/// Decodes the endpoints and `multipleOf` of an integer- or number-typed node.
pub fn deserialize_integer_bounds(mapping: &Mapping) -> (r: Result<Option<IntegerObjectBounds>, DecodeError>)
    ensures
        view_err(r) == integer_bounds_of(mapping@),
{
    let maximum = match deserialize_integer_bound("maximum", "exclusiveMaximum", mapping) {
        Ok(v) => v,
        Err(e) => return Err(e),
    };
    let minimum = match deserialize_integer_bound("minimum", "exclusiveMinimum", mapping) {
        Ok(v) => v,
        Err(e) => return Err(e),
    };
    let multiple_of = match deserialize_integer("multipleOf", mapping) {
        Ok(v) => v,
        Err(e) => return Err(e),
    };
    if maximum.is_some() || minimum.is_some() || multiple_of.is_some() {
        Ok(Some(IntegerObjectBounds { minimum, maximum, multiple_of }))
    } else {
        Ok(None)
    }
}

/// Decodes `default` of a boolean-typed node.
pub fn deserialize_boolean_object_bounds(mapping: &Mapping) -> (r: Result<Option<BooleanObjectBounds>, DecodeError>)
    ensures
        view_err(r) == boolean_bounds_of(mapping@),
{
    match get(mapping, "default") {
        None => Ok(None),
        Some(Yaml::Bool(b)) => Ok(Some(BooleanObjectBounds::DefaultValue(*b))),
        Some(y) => Err(DecodeError::DefaultNotBoolean(echo(y))),
    }
}


fn mapping_to_enumeration_value(mapping: &Mapping) -> (r: Result<EnumerationValue, DecodeError>)
    ensures
        entry_result(r) == entry_of(Yaml::Mapping(*mapping)),
        !has_key(mapping@, "value"@) ==> r matches Err(DecodeError::MissingEnumValue),
{
    let value = match get(mapping, "value") {
        None => return Err(DecodeError::MissingEnumValue),
        Some(Yaml::Str(v)) => v.clone(),
        Some(_) => return Err(DecodeError::EnumValueNotString),
    };
    let title = match get(mapping, "title") {
        None => None,
        Some(Yaml::Str(t)) => Some(t.clone()),
        Some(_) => return Err(DecodeError::EnumTitleNotString),
    };
    Ok(EnumerationValue {
        value: Some(value),
        display_information: DisplayInformation { title, help: None, warning: None, description: None },
    })
}

fn enumeration_definition_to_enumeration_value(definition: &Yaml) -> (r: Result<EnumerationValue, DecodeError>)
    ensures
        entry_result(r) == entry_of(*definition),
{
    match definition {
        Yaml::Str(s) => Ok(EnumerationValue::from_str(s.as_str())),
        Yaml::Mapping(m) => mapping_to_enumeration_value(m),
        _ => Err(DecodeError::EnumEntryShape),
    }
}

proof fn lemma_entries_error_persists(s: Seq<Yaml>, n: int)
    requires
        0 <= n <= s.len(),
        entries_of(s.take(n)) is Err,
    ensures
        entries_of(s) == entries_of(s.take(n)),
    decreases s.len() - n,
{
    if n < s.len() {
        assert(s.take(n + 1).drop_last() =~= s.take(n));
        lemma_entries_error_persists(s, n + 1);
    } else {
        assert(s.take(n) =~= s);
    }
}

fn deserialize_entries(items: &Vec<Yaml>) -> (r: Result<Vec<EnumerationValue>, DecodeError>)
    ensures
        match r {
            Ok(v) => entries_of(items@) == Ok::<Seq<EntryView>, DecodeErrorView>(entries_view(v@)),
            Err(e) => entries_of(items@) == Err::<Seq<EntryView>, DecodeErrorView>(e@),
        },
{
    let mut out: Vec<EnumerationValue> = Vec::new();
    let mut i: usize = 0;
    assert(items@.take(0) =~= Seq::<Yaml>::empty());
    assert(entries_view(out@) =~= Seq::<EntryView>::empty());
    while i < items.len()
        invariant
            i <= items@.len(),
            entries_of(items@.take(i as int)) == Ok::<Seq<EntryView>, DecodeErrorView>(entries_view(out@)),
        decreases items.len() - i,
    {
        assert(items@.take(i + 1).drop_last() =~= items@.take(i as int));
        assert(items@.take(i + 1).last() == items@[i as int]);
        match enumeration_definition_to_enumeration_value(&items[i]) {
            Ok(e) => {
                assert(entries_view(out@.push(e)) =~= entries_view(out@).push(e@));
                out.push(e);
            },
            Err(e) => {
                proof {
                    lemma_entries_error_persists(items@, i + 1);
                }
                return Err(e);
            },
        }
        i = i + 1;
    }
    assert(items@.take(items@.len() as int) =~= items@);
    Ok(out)
}

pub(crate) fn deserialize_enumeration_values(mapping: &Mapping) -> (r: Result<Option<Vec<EnumerationValue>>, DecodeError>)
    ensures
        match r {
            Ok(Some(v)) => enum_of(mapping@) == Ok::<Option<Seq<EntryView>>, DecodeErrorView>(
                Some(entries_view(v@)),
            ),
            Ok(None) => enum_of(mapping@) == Ok::<Option<Seq<EntryView>>, DecodeErrorView>(None),
            Err(e) => enum_of(mapping@) == Err::<Option<Seq<EntryView>>, DecodeErrorView>(e@),
        },
{
    match get(mapping, "enum") {
        None => Ok(None),
        Some(Yaml::Sequence(items)) => match deserialize_entries(items) {
            Ok(v) => if v.len() > 0 {
                Ok(Some(v))
            } else {
                Err(DecodeError::EmptyEnum)
            },
            Err(e) => Err(e),
        },
        Some(y) => Err(DecodeError::EnumNotSequence(echo(y))),
    }
}

pub(crate) fn scalar_text(y: &Yaml) -> (r: Option<Option<String>>)
    ensures
        match r {
            Some(v) => scalar_value(*y) == Some(opt_view(v)),
            None => scalar_value(*y) is None,
        },
{
    match y {
        Yaml::Null => Some(None),
        Yaml::Bool(b) => Some(Some(if *b { "true".to_string() } else { "false".to_string() })),
        Yaml::Int(i) => Some(Some(decimal(*i))),
        Yaml::Real(s) => Some(Some(s.clone())),
        Yaml::Str(s) => Some(Some(s.clone())),
        _ => None,
    }
}

fn echo(y: &Yaml) -> (r: Option<String>)
    ensures
        opt_view(r) == scalar_echo(*y),
{
    match scalar_text(y) {
        Some(Some(t)) => Some(t),
        _ => None,
    }
}

fn deserialize_constant_value(mapping: &Mapping) -> (r: Result<Option<EnumerationValue>, DecodeError>)
    ensures
        match r {
            Ok(Some(v)) => const_of(mapping@) == Ok::<Option<EntryView>, DecodeErrorView>(Some(v@)),
            Ok(None) => const_of(mapping@) == Ok::<Option<EntryView>, DecodeErrorView>(None),
            Err(e) => const_of(mapping@) == Err::<Option<EntryView>, DecodeErrorView>(e@),
        },
{
    match get(mapping, "const") {
        None => Ok(None),
        Some(y) => match scalar_text(y) {
            Some(value) => Ok(Some(EnumerationValue { value, display_information: DisplayInformation::empty() })),
            None => Err(DecodeError::ConstNotScalar),
        },
    }
}

pub(crate) fn deserialize_pattern(mapping: &Mapping) -> (r: Result<Option<String>, DecodeError>)
    ensures
        match r {
            Ok(Some(p)) => pattern_of(mapping@) == Ok::<Option<Seq<char>>, DecodeErrorView>(Some(p@)),
            Ok(None) => pattern_of(mapping@) == Ok::<Option<Seq<char>>, DecodeErrorView>(None),
            Err(e) => pattern_of(mapping@) == Err::<Option<Seq<char>>, DecodeErrorView>(e@),
        },
{
    match get(mapping, "pattern") {
        None => Ok(None),
        Some(Yaml::Str(s)) => match check_regex(s.as_str()) {
            Ok(()) => Ok(Some(s.clone())),
            Err(reason) => Err(DecodeError::InvalidPattern(s.clone(), reason)),
        },
        Some(y) => Err(DecodeError::PatternNotString(echo(y))),
    }
}

/// Decodes the bound of a string-typed node.
pub fn deserialize_string_object_bounds(mapping: &Mapping) -> (r: Result<Option<StringObjectBounds>, DecodeError>)
    ensures
        string_bounds_result(r) == string_bounds_of(mapping@),
{
    let enumeration_values = match deserialize_enumeration_values(mapping) {
        Ok(v) => v,
        Err(e) => return Err(e),
    };
    let constant_value = match deserialize_constant_value(mapping) {
        Ok(v) => v,
        Err(e) => return Err(e),
    };
    let pattern = match deserialize_pattern(mapping) {
        Ok(v) => v,
        Err(e) => return Err(e),
    };
    let length = match deserialize_length_bounds(mapping) {
        Ok(v) => v,
        Err(e) => return Err(e),
    };
    if enumeration_values.is_some() && constant_value.is_some() {
        return Err(DecodeError::EnumAndConst);
    }
    let possible_values = match (enumeration_values, constant_value) {
        (Some(v), _) => Some(v),
        (None, Some(c)) => {
            let mut v: Vec<EnumerationValue> = Vec::new();
            v.push(c);
            assert(entries_view(v@) =~= seq![v@[0]@]);
            Some(v)
        },
        (None, None) => None,
    };
    if possible_values.is_some() && pattern.is_some() {
        return Err(DecodeError::PatternAndPossibleValues);
    }
    if possible_values.is_some() && length.is_some() {
        return Err(DecodeError::LengthAndPossibleValues);
    }
    match (possible_values, pattern) {
        (Some(v), _) => Ok(Some(StringObjectBounds::PossibleValues(v))),
        (None, Some(p)) => Ok(Some(StringObjectBounds::Pattern(p))),
        (None, None) => Ok(length),
    }
}


/// A mapping with both `enum` and `const` fails to decode as string bounds.
pub proof fn enum_and_const_exclude(m: Seq<(String, Yaml)>)
    requires
        has_key(m, "enum"@),
        has_key(m, "const"@),
    ensures
        string_bounds_of(m) is Err,
{
    if let Some(Yaml::Sequence(v)) = lookup(m, "enum"@) {
        if entries_of(v@) is Ok {
            lemma_entries_len(v@);
        }
    }
}

proof fn lemma_entries_len(s: Seq<Yaml>)
    requires
        entries_of(s) is Ok,
    ensures
        entries_of(s)->Ok_0.len() == s.len(),
    decreases s.len(),
{
    if s.len() > 0 {
        lemma_entries_len(s.drop_last());
    }
}

/// Whether a possible-value bound is asked for: `enum` or `const`.
pub open spec fn asks_possible_values(m: Seq<(String, Yaml)>) -> bool {
    has_key(m, "const"@) || has_key(m, "enum"@)
}

/// A possible-value bound beside `pattern` fails to decode.
pub proof fn possible_values_exclude_pattern(m: Seq<(String, Yaml)>)
    requires
        asks_possible_values(m),
        has_key(m, "pattern"@),
    ensures
        string_bounds_of(m) is Err,
{
    if let Some(Yaml::Sequence(v)) = lookup(m, "enum"@) {
        if entries_of(v@) is Ok {
            lemma_entries_len(v@);
        }
    }
}

/// A possible-value bound beside `minLength` or `maxLength` fails to decode.
pub proof fn possible_values_exclude_length(m: Seq<(String, Yaml)>)
    requires
        asks_possible_values(m),
        has_key(m, "minLength"@) || has_key(m, "maxLength"@),
    ensures
        string_bounds_of(m) is Err,
{
    if let Some(Yaml::Sequence(v)) = lookup(m, "enum"@) {
        if entries_of(v@) is Ok {
            lemma_entries_len(v@);
        }
    }
}

/// An endpoint given in both its inclusive and its exclusive form fails to decode.
pub proof fn inclusive_and_exclusive_exclude(m: Seq<(String, Yaml)>)
    requires
        (has_key(m, "minimum"@) && has_key(m, "exclusiveMinimum"@)) || (has_key(m, "maximum"@)
            && has_key(m, "exclusiveMaximum"@)),
    ensures
        integer_bounds_of(m) is Err,
{
}

/// A `default` that is not a boolean fails to decode as boolean bounds; `true`
/// gives a default of `true`.
pub proof fn boolean_default_decodes(m: Seq<(String, Yaml)>)
    requires
        has_key(m, "default"@),
    ensures
        !(lookup(m, "default"@)->0 is Bool) ==> boolean_bounds_of(m) is Err,
        lookup(m, "default"@) == Some(Yaml::Bool(true)) ==> boolean_bounds_of(m) == Ok::<
            Option<BooleanObjectBounds>,
            DecodeErrorView,
        >(Some(BooleanObjectBounds::DefaultValue(true))),
{
}

/// Normalizing a normalized entry changes nothing.
pub proof fn normalize_entry_idempotent(e: EntryView)
    ensures
        normalized(normalized(e)) == normalized(e),
{
}

/// Normalizing a normalized list of entries changes nothing.
pub proof fn normalize_entries_idempotent(es: Seq<EntryView>)
    ensures
        es.map_values(|e: EntryView| normalized(e)).map_values(|e: EntryView| normalized(e))
            == es.map_values(|e: EntryView| normalized(e)),
{
    let once = es.map_values(|e: EntryView| normalized(e));
    assert(once.map_values(|e: EntryView| normalized(e)) =~= once);
}

/// Normalizing normalized string bounds changes nothing.
pub proof fn normalize_bounds_idempotent(b: StringBoundsView)
    ensures
        normalized_bounds(normalized_bounds(b)) == normalized_bounds(b),
{
    if let StringBoundsView::PossibleValues(s) = b {
        let once = s.map_values(|e: EntryView| normalized(e));
        assert(once.map_values(|e: EntryView| normalized(e)) =~= once);
    }
}

/// A structured enumeration entry without `value` fails to decode.
pub proof fn entry_without_value_fails(m: Mapping)
    requires
        !has_key(m@, "value"@),
    ensures
        entry_of(Yaml::Mapping(m)) == Err::<EntryView, DecodeErrorView>(DecodeErrorView::MissingEnumValue),
{
}

} // verus!
