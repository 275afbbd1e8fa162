//! Ordered lists of HTTP header fields, with names compared ASCII
//! case-insensitively as HTTP requires.
use vstd::prelude::*;

use crate::text::{chars_eq_ignore_case, copy_str, eq_ignore_case, str_chars};

verus! {

/// One header field.
#[derive(Debug, Default)]
pub struct HeaderEntry {
    pub name: String,
    pub value: String,
}

/// The model of a header list: its fields in order, as (name, value).
pub type HeaderSeq = Seq<(Seq<char>, Seq<char>)>;

/// Header fields in the order in which they were added.
#[derive(Debug, Default)]
pub struct HeaderList {
    pub entries: Vec<HeaderEntry>,
}

/// The model of one header field.
pub open spec fn entry_view(e: HeaderEntry) -> (Seq<char>, Seq<char>) {
    (e.name@, e.value@)
}

impl View for HeaderList {
    type V = HeaderSeq;

    open spec fn view(&self) -> HeaderSeq {
        self.entries@.map_values(|e: HeaderEntry| entry_view(e))
    }
}

/// True when a field named `field` answers to a lookup of `name`.
pub open spec fn name_matches(field: Seq<char>, name: Seq<char>) -> bool {
    eq_ignore_case(field, name)
}

/// The fields of `h` whose names do not answer to `name`, in order.
pub open spec fn without(h: HeaderSeq, name: Seq<char>) -> HeaderSeq
    decreases h.len(),
{
    if h.len() == 0 {
        seq![]
    } else {
        let rest = without(h.drop_last(), name);
        if name_matches(h.last().0, name) {
            rest
        } else {
            rest.push(h.last())
        }
    }
}

/// The value of the first field of `h` whose name answers to `name`.
pub open spec fn first_value(h: HeaderSeq, name: Seq<char>) -> Option<Seq<char>>
    decreases h.len(),
{
    if h.len() == 0 {
        None
    } else {
        match first_value(h.drop_last(), name) {
            Some(v) => Some(v),
            None => if name_matches(h.last().0, name) {
                Some(h.last().1)
            } else {
                None
            },
        }
    }
}

/// The values of all fields of `h` whose names answer to `name`, in order.
pub open spec fn values_of(h: HeaderSeq, name: Seq<char>) -> Seq<Seq<char>>
    decreases h.len(),
{
    if h.len() == 0 {
        seq![]
    } else {
        let rest = values_of(h.drop_last(), name);
        if name_matches(h.last().0, name) {
            rest.push(h.last().1)
        } else {
            rest
        }
    }
}

/// True when some field of `h` answers to `name`.
pub open spec fn has_header(h: HeaderSeq, name: Seq<char>) -> bool {
    first_value(h, name) is Some
}

/// The first value of a header when it is present and not empty.
pub open spec fn nonempty_first_value(h: HeaderSeq, name: Seq<char>) -> Option<Seq<char>> {
    match first_value(h, name) {
        Some(v) => if v.len() > 0 { Some(v) } else { None },
        None => None,
    }
}

/// `h` after an insert of `name: value`: every field of that name replaced
/// by the new one, which goes last.
pub open spec fn inserted(h: HeaderSeq, name: Seq<char>, value: Seq<char>) -> HeaderSeq {
    without(h, name).push((name, value))
}

/// A value that no field answers to leaves `without` unchanged.
pub proof fn lemma_without_no_match(h: HeaderSeq, name: Seq<char>)
    requires
        forall|i: int| 0 <= i < h.len() ==> !name_matches(#[trigger] h[i].0, name),
    ensures
        without(h, name) == h,
    decreases h.len(),
{
    if h.len() > 0 {
        lemma_without_no_match(h.drop_last(), name);
        assert(h.drop_last().push(h.last()) =~= h);
    }
}

/// No field of `without(h, name)` answers to `name`.
pub proof fn lemma_without_excludes(h: HeaderSeq, name: Seq<char>)
    ensures
        forall|i: int|
            0 <= i < without(h, name).len() ==> !name_matches(#[trigger] without(h, name)[i].0, name),
        first_value(without(h, name), name) is None,
    decreases h.len(),
{
    if h.len() > 0 {
        lemma_without_excludes(h.drop_last(), name);
        let rest = without(h.drop_last(), name);
        if !name_matches(h.last().0, name) {
            assert(rest.push(h.last()).drop_last() =~= rest);
        }
    }
}

/// Lookup of a name that is not the one removed is unaffected by `without`.
pub proof fn lemma_without_other(h: HeaderSeq, name: Seq<char>, other: Seq<char>)
    requires
        !eq_ignore_case(name, other),
    ensures
        first_value(without(h, name), other) == first_value(h, other),
        values_of(without(h, name), other) == values_of(h, other),
    decreases h.len(),
{
    if h.len() > 0 {
        lemma_without_other(h.drop_last(), name, other);
        let rest = without(h.drop_last(), name);
        if !name_matches(h.last().0, name) {
            assert(rest.push(h.last()).drop_last() =~= rest);
        } else {
            // a field matching `name` cannot match `other`
            assert(!name_matches(h.last().0, other));
        }
    }
}

/// Appending a field after a sequence with no field of its name makes it the
/// first (and only) value of that name.
pub proof fn lemma_first_value_push_absent(h: HeaderSeq, name: Seq<char>, value: Seq<char>)
    requires
        first_value(h, name) is None,
    ensures
        first_value(h.push((name, value)), name) == Some(value),
{
    assert(h.push((name, value)).drop_last() =~= h);
}

/// A value found in a prefix stays the first value of the whole sequence.
pub proof fn lemma_first_value_prefix(h: HeaderSeq, name: Seq<char>, k: int)
    requires
        0 <= k <= h.len(),
        first_value(h.take(k), name) is Some,
    ensures
        first_value(h, name) == first_value(h.take(k), name),
    decreases h.len() - k,
{
    if k < h.len() {
        assert(h.take(k + 1).drop_last() =~= h.take(k));
        lemma_first_value_prefix(h, name, k + 1);
    } else {
        assert(h.take(k) =~= h);
    }
}

/// Read after write: after inserting `name: value`, a lookup of `name`
/// gives `value`.
pub proof fn lemma_insert_then_get(h: HeaderSeq, name: Seq<char>, value: Seq<char>)
    ensures
        first_value(inserted(h, name, value), name) == Some(value),
        values_of(inserted(h, name, value), name) == seq![value],
{
    lemma_without_excludes(h, name);
    lemma_first_value_push_absent(without(h, name), name, value);
    lemma_values_of_without(h, name);
    let w = without(h, name);
    assert(w.push((name, value)).drop_last() =~= w);
    assert(name_matches(name, name));
    assert(Seq::<Seq<char>>::empty().push(value) =~= seq![value]);
}

/// Removing a name leaves no value under it.
pub proof fn lemma_values_of_without(h: HeaderSeq, name: Seq<char>)
    ensures
        values_of(without(h, name), name) == Seq::<Seq<char>>::empty(),
    decreases h.len(),
{
    if h.len() > 0 {
        lemma_values_of_without(h.drop_last(), name);
        let rest = without(h.drop_last(), name);
        if !name_matches(h.last().0, name) {
            assert(rest.push(h.last()).drop_last() =~= rest);
        }
    }
}

/// Writing one name leaves lookups of every other name as they were.
pub proof fn lemma_insert_keeps_others(h: HeaderSeq, name: Seq<char>, value: Seq<char>, other: Seq<char>)
    requires
        !eq_ignore_case(name, other),
    ensures
        first_value(inserted(h, name, value), other) == first_value(h, other),
        values_of(inserted(h, name, value), other) == values_of(h, other),
{
    lemma_without_other(h, name, other);
    let w = without(h, name);
    assert(w.push((name, value)).drop_last() =~= w);
    assert(!name_matches(name, other));
}

impl HeaderEntry {
    /// A field with the same name and value.
    pub fn copy(&self) -> (out: HeaderEntry)
        ensures
            entry_view(out) == entry_view(*self),
    {
        HeaderEntry { name: self.name.clone(), value: self.value.clone() }
    }
}

impl HeaderList {
    /// An empty list.
    pub fn new() -> (out: HeaderList)
        ensures
            out@ == Seq::<(Seq<char>, Seq<char>)>::empty(),
    {
        let out = HeaderList { entries: Vec::new() };
        assert(out@ =~= Seq::<(Seq<char>, Seq<char>)>::empty());
        out
    }

    /// Number of fields.
    pub fn len(&self) -> (out: usize)
        ensures
            out == self@.len(),
    {
        self.entries.len()
    }

    /// The value of the first field that answers to `name`.
    pub fn get(&self, name: &str) -> (out: Option<String>)
        ensures
            match out {
                Some(v) => first_value(self@, name@) == Some(v@),
                None => first_value(self@, name@) is None,
            },
    {
        let name_chars = str_chars(name);
        let mut i: usize = 0;
        while i < self.entries.len()
            invariant
                i <= self.entries@.len(),
                name_chars@ == name@,
                first_value(self@.take(i as int), name@) is None,
            decreases self.entries@.len() - i,
        {
            let field = str_chars(self.entries[i].name.as_str());
            let hit = chars_eq_ignore_case(field.as_slice(), name_chars.as_slice());
            assert(self@.take(i + 1).drop_last() =~= self@.take(i as int));
            if hit {
                proof {
                    lemma_first_value_prefix(self@, name@, i + 1);
                }
                return Some(self.entries[i].value.clone());
            }
            i = i + 1;
        }
        assert(self@.take(self.entries@.len() as int) =~= self@);
        None
    }

    /// The values of all fields that answer to `name`, in order.
    pub fn get_all(&self, name: &str) -> (out: Vec<String>)
        ensures
            out@.map_values(|s: String| s@) == values_of(self@, name@),
    {
        let name_chars = str_chars(name);
        let mut out: Vec<String> = Vec::new();
        let mut i: usize = 0;
        while i < self.entries.len()
            invariant
                i <= self.entries@.len(),
                name_chars@ == name@,
                out@.map_values(|s: String| s@) == values_of(self@.take(i as int), name@),
            decreases self.entries@.len() - i,
        {
            let field = str_chars(self.entries[i].name.as_str());
            let hit = chars_eq_ignore_case(field.as_slice(), name_chars.as_slice());
            assert(self@.take(i + 1).drop_last() =~= self@.take(i as int));
            if hit {
                let ghost before = out@;
                out.push(self.entries[i].value.clone());
                assert(out@.map_values(|s: String| s@) =~= before.map_values(|s: String| s@).push(
                    self.entries@[i as int].value@,
                ));
            }
            i = i + 1;
        }
        assert(self@.take(self.entries@.len() as int) =~= self@);
        out
    }

    /// Adds `name: value` after the existing fields.
    pub fn append(&mut self, name: &str, value: &str)
        ensures
            final(self)@ == old(self)@.push((name@, value@)),
    {
        let e = HeaderEntry { name: copy_str(name), value: copy_str(value) };
        self.entries.push(e);
        assert(self@ =~= old(self)@.push((name@, value@)));
    }

    /// Removes every field that answers to `name`.
    pub fn remove(&mut self, name: &str)
        ensures
            final(self)@ == without(old(self)@, name@),
    {
        let name_chars = str_chars(name);
        let mut kept: Vec<HeaderEntry> = Vec::new();
        let mut i: usize = 0;
        let ghost orig = self@;
        while i < self.entries.len()
            invariant
                i <= self.entries@.len(),
                name_chars@ == name@,
                orig == self@,
                kept@.map_values(|e: HeaderEntry| entry_view(e)) == without(orig.take(i as int), name@),
            decreases self.entries@.len() - i,
        {
            let field = str_chars(self.entries[i].name.as_str());
            let hit = chars_eq_ignore_case(field.as_slice(), name_chars.as_slice());
            assert(orig.take(i + 1).drop_last() =~= orig.take(i as int));
            if !hit {
                let ghost before = kept@;
                kept.push(self.entries[i].copy());
                assert(kept@.map_values(|e: HeaderEntry| entry_view(e)) =~= before.map_values(
                    |e: HeaderEntry| entry_view(e),
                ).push(entry_view(self.entries@[i as int])));
            }
            i = i + 1;
        }
        assert(orig.take(self.entries@.len() as int) =~= orig);
        self.entries = kept;
    }

    /// Replaces every field named `name` by the single field `name: value`.
    pub fn insert(&mut self, name: &str, value: &str)
        ensures
            final(self)@ == inserted(old(self)@, name@, value@),
    {
        self.remove(name);
        self.append(name, value);
    }
}

} // verus!
