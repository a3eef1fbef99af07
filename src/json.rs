use vstd::prelude::*;

verus! {

/// A JSON document.
pub enum Json {
    Null,
    Bool(bool),
    Uint(u64),
    Str(String),
    Array(Vec<Json>),
    /// The members of an object, in output order.
    Object(Vec<(String, Json)>),
}

/// The value of the first member named `key`.
pub open spec fn member(entries: Seq<(String, Json)>, key: Seq<char>) -> Option<Json>
    decreases entries.len(),
{
    if entries.len() == 0 {
        None
    } else if entries[0].0@ == key {
        Some(entries[0].1)
    } else {
        member(entries.drop_first(), key)
    }
}

/// Whether a JSON value is the string `s`.
pub open spec fn is_text(j: Json, s: Seq<char>) -> bool {
    j matches Json::Str(t) && t@ == s
}

/// Whether a JSON array holds exactly the given strings, in order.
pub open spec fn is_text_list(j: Json, names: Seq<String>) -> bool {
    j matches Json::Array(a) && a@.len() == names.len() && forall|i: int|
        0 <= i < names.len() ==> #[trigger] is_text(a@[i], names[i]@)
}

impl Json {
    /// Whether this is an object.
    pub fn is_object(&self) -> (r: bool)
        ensures
            r == (self is Object),
    {
        match self {
            Json::Object(_) => true,
            _ => false,
        }
    }

    /// The text of a string value.
    pub fn as_str(&self) -> (r: Option<&str>)
        ensures
            match r {
                Some(s) => is_text(*self, s@),
                None => !(self is Str),
            },
    {
        match self {
            Json::Str(s) => Some(s.as_str()),
            _ => None,
        }
    }

    /// The member named `key` of an object; `None` for anything else.
    pub fn get(&self, key: &str) -> (r: Option<&Json>)
        ensures
            match r {
                Some(v) => self matches Json::Object(e) && member(e@, key@) == Some(*v),
                None => !(self is Object) || member(self->Object_0@, key@) is None,
            },
    {
        let entries = match self {
            Json::Object(e) => e,
            _ => return None,
        };
        let k: String = key.to_string();
        let mut i: usize = 0;
        assert(entries@.subrange(0, entries@.len() as int) =~= entries@);
        while i < entries.len()
            invariant
                i <= entries@.len(),
                k@ == key@,
                self matches Json::Object(e) && e@ == entries@,
                member(entries@, key@) == member(entries@.subrange(i as int, entries@.len() as int), key@),
            decreases entries.len() - i,
        {
            let rest = Ghost(entries@.subrange(i as int, entries@.len() as int));
            assert(rest@[0] == entries@[i as int]);
            if entries[i].0 == k {
                return Some(&entries[i].1);
            }
            assert(rest@.drop_first() =~= entries@.subrange(i + 1, entries@.len() as int));
            i = i + 1;
        }
        None
    }
}

} // verus!
