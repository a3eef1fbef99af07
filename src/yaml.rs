use vstd::prelude::*;

verus! {

/// A structured YAML value whose merge keys have already been resolved.
pub enum Yaml {
    Null,
    Bool(bool),
    Int(i64),
    /// A number that is not an integer, in its textual form.
    Real(String),
    Str(String),
    Sequence(Vec<Yaml>),
    /// The entries of a mapping with string keys, in document order.
    Mapping(Vec<(String, Yaml)>),
}

/// The entries of a YAML mapping.
pub type Mapping = Vec<(String, Yaml)>;

/// The value stored under `key`: the first entry whose key reads `key`.
pub open spec fn lookup(entries: Seq<(String, Yaml)>, key: Seq<char>) -> Option<Yaml>
    decreases entries.len(),
{
    if entries.len() == 0 {
        None
    } else if entries[0].0@ == key {
        Some(entries[0].1)
    } else {
        lookup(entries.drop_first(), key)
    }
}

/// Whether the mapping has an entry under `key`.
pub open spec fn has_key(entries: Seq<(String, Yaml)>, key: Seq<char>) -> bool {
    lookup(entries, key) is Some
}

/// Looks up `key` in a mapping.
pub fn get<'a>(entries: &'a Mapping, key: &str) -> (r: Option<&'a Yaml>)
    ensures
        match r {
            Some(v) => lookup(entries@, key@) == Some(*v),
            None => lookup(entries@, key@) is None,
        },
{
    let k: String = key.to_string();
    let mut i: usize = 0;
    assert(entries@.subrange(0, entries@.len() as int) =~= entries@);
    while i < entries.len()
        invariant
            i <= entries@.len(),
            k@ == key@,
            lookup(entries@, key@) == lookup(entries@.subrange(i as int, entries@.len() as int), key@),
        decreases entries.len() - i,
    {
        let rest = Ghost(entries@.subrange(i as int, entries@.len() as int));
        assert(rest@[0] == entries@[i as int]);
        if entries[i].0 == k {
            return Some(&entries[i].1);
        }
        assert(rest@.drop_first() =~= entries@.subrange(i + 1, entries@.len() as int));
        i = i + 1;
    }
    None
}


/// The entries without the first one under `key`.
pub open spec fn without_first(entries: Seq<(String, Yaml)>, key: Seq<char>) -> Seq<(String, Yaml)>
    decreases entries.len(),
{
    if entries.len() == 0 {
        entries
    } else if entries[0].0@ == key {
        entries.drop_first()
    } else {
        seq![entries[0]] + without_first(entries.drop_first(), key)
    }
}

/// Removing the entry under one key leaves what every other key looks up.
pub proof fn lookup_without_first(entries: Seq<(String, Yaml)>, removed: Seq<char>, key: Seq<char>)
    requires
        removed != key,
    ensures
        lookup(without_first(entries, removed), key) == lookup(entries, key),
    decreases entries.len(),
{
    if entries.len() > 0 && entries[0].0@ != removed {
        let rest = without_first(entries.drop_first(), removed);
        lookup_without_first(entries.drop_first(), removed, key);
        assert((seq![entries[0]] + rest)[0] == entries[0]);
        assert((seq![entries[0]] + rest).drop_first() =~= rest);
    }
}

/// Removes the first entry under `key` and hands its value over.
pub fn take_entry(entries: &mut Mapping, key: &str) -> (r: Option<Yaml>)
    ensures
        r == lookup(old(entries)@, key@),
        final(entries)@ == without_first(old(entries)@, key@),
        r is None ==> final(entries)@ == old(entries)@,
{
    let k: String = key.to_string();
    let mut i: usize = 0;
    assert(entries@.subrange(0, entries@.len() as int) =~= entries@);
    assert(entries@.take(0) + entries@ =~= entries@);
    while i < entries.len()
        invariant
            i <= entries@.len(),
            k@ == key@,
            entries@ == old(entries)@,
            lookup(entries@, key@) == lookup(entries@.subrange(i as int, entries@.len() as int), key@),
            without_first(entries@, key@) == entries@.take(i as int) + without_first(
                entries@.subrange(i as int, entries@.len() as int),
                key@,
            ),
        decreases entries.len() - i,
    {
        let rest = Ghost(entries@.subrange(i as int, entries@.len() as int));
        assert(rest@[0] == entries@[i as int]);
        if entries[i].0 == k {
            let ghost before = entries@;
            let (_, v) = entries.remove(i);
            assert(rest@.drop_first() =~= before.subrange(i + 1, before.len() as int));
            assert(entries@ =~= before.take(i as int) + rest@.drop_first());
            return Some(v);
        }
        assert(rest@.drop_first() =~= entries@.subrange(i + 1, entries@.len() as int));
        assert(entries@.take(i + 1) =~= entries@.take(i as int) + seq![entries@[i as int]]);
        i = i + 1;
    }
    assert(entries@.take(entries@.len() as int) =~= entries@);
    None
}

} // verus!
