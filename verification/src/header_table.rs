//! Header fields that are configured, by name.

use vstd::prelude::*;

verus! {

/// Header fields by name.  No name occurs twice; the fields keep the order in
/// which their names came in.
#[derive(Debug)]
pub struct HeaderTable {
    entries: Vec<(String, String)>,
}

/// The mathematical value of a list of names and values.
pub open spec fn entries_view(entries: Seq<(String, String)>) -> Seq<(Seq<char>, Seq<char>)> {
    entries.map_values(|entry: (String, String)| (entry.0@, entry.1@))
}

/// Whether no name occurs twice.
pub open spec fn distinct_names(entries: Seq<(Seq<char>, Seq<char>)>) -> bool {
    forall|i: int, j: int|
        0 <= i < j < entries.len() ==> (#[trigger] entries[i]).0 != (#[trigger] entries[j]).0
}

/// The place of a name, or the number of entries.
pub open spec fn place_of(entries: Seq<(Seq<char>, Seq<char>)>, name: Seq<char>) -> int
    decreases entries.len(),
{
    if entries.len() == 0 || entries[0].0 == name {
        0
    } else {
        1 + place_of(entries.drop_first(), name)
    }
}

/// The entries with one more, which takes the place of one with its name.
pub open spec fn inserted(
    entries: Seq<(Seq<char>, Seq<char>)>,
    name: Seq<char>,
    value: Seq<char>,
) -> Seq<(Seq<char>, Seq<char>)> {
    let at = place_of(entries, name);
    if at < entries.len() {
        entries.update(at, (name, value))
    } else {
        entries.push((name, value))
    }
}

proof fn lemma_place_of(entries: Seq<(Seq<char>, Seq<char>)>, name: Seq<char>)
    ensures
        0 <= place_of(entries, name) <= entries.len(),
        place_of(entries, name) < entries.len() ==> entries[place_of(entries, name)].0 == name,
        forall|i: int| 0 <= i < place_of(entries, name) ==> (#[trigger] entries[i]).0 != name,
    decreases entries.len(),
{
    if entries.len() > 0 && entries[0].0 != name {
        let rest = entries.drop_first();
        lemma_place_of(rest, name);
        assert forall|i: int| 0 <= i < place_of(entries, name) implies (#[trigger] entries[i]).0
            != name by {
            if i > 0 {
                assert(entries[i] == rest[i - 1]);
            }
        }
    }
}

proof fn lemma_place_is_first(entries: Seq<(Seq<char>, Seq<char>)>, name: Seq<char>, at: int)
    requires
        0 <= at <= entries.len(),
        at < entries.len() ==> entries[at].0 == name,
        forall|i: int| 0 <= i < at ==> (#[trigger] entries[i]).0 != name,
    ensures
        place_of(entries, name) == at,
{
    lemma_place_of(entries, name);
    let found = place_of(entries, name);
    if found < at {
        assert(entries[found].0 == name);
    } else if at < found {
        assert(entries[at].0 != name);
    }
}

proof fn lemma_inserted_distinct(
    entries: Seq<(Seq<char>, Seq<char>)>,
    name: Seq<char>,
    value: Seq<char>,
)
    requires
        distinct_names(entries),
    ensures
        distinct_names(inserted(entries, name, value)),
{
    lemma_place_of(entries, name);
    let at = place_of(entries, name);
    let after = inserted(entries, name, value);
    assert forall|i: int, j: int| 0 <= i < j < after.len() implies (#[trigger] after[i]).0 != (
    #[trigger] after[j]).0 by {
        if at == entries.len() && j == at {
            assert(after[i] == entries[i]);
        } else {
            assert(after[i].0 == entries[i].0);
            assert(after[j].0 == entries[j].0);
        }
    }
}

impl View for HeaderTable {
    type V = Seq<(Seq<char>, Seq<char>)>;

    closed spec fn view(&self) -> Seq<(Seq<char>, Seq<char>)> {
        entries_view(self.entries@)
    }
}

impl HeaderTable {
    #[verifier::type_invariant]
    spec fn well_formed(self) -> bool {
        distinct_names(entries_view(self.entries@))
    }

    /// A table without fields.
    pub fn new() -> (table: Self)
        ensures
            table@ == Seq::<(Seq<char>, Seq<char>)>::empty(),
    {
        let entries: Vec<(String, String)> = Vec::new();
        assert(entries_view(entries@) =~= Seq::<(Seq<char>, Seq<char>)>::empty());
        HeaderTable { entries }
    }

    /// The fields, in order.
    pub fn entries(&self) -> (entries: &Vec<(String, String)>)
        ensures
            entries_view(entries@) == self@,
            distinct_names(self@),
    {
        proof {
            use_type_invariant(self);
        }
        &self.entries
    }

    /// Adds a field, in the place of one with the same name if there is one.
    pub fn insert(&mut self, name: String, value: String)
        ensures
            final(self)@ == inserted(old(self)@, name@, value@),
            distinct_names(final(self)@),
    {
        proof {
            use_type_invariant(&*self);
            lemma_inserted_distinct(self@, name@, value@);
        }
        let ghost before = self@;
        let mut entries: Vec<(String, String)> = Vec::new();
        assert(entries_view(entries@) =~= Seq::<(Seq<char>, Seq<char>)>::empty());
        std::mem::swap(&mut self.entries, &mut entries);
        let mut at: usize = 0;
        while at < entries.len() && entries[at].0 != name
            invariant
                at <= entries.len(),
                before == entries_view(entries@),
                forall|i: int| 0 <= i < at ==> (#[trigger] before[i]).0 != name@,
            ensures
                at < entries.len() ==> before[at as int].0 == name@,
            decreases entries.len() - at,
        {
            at += 1;
        }
        proof {
            lemma_place_is_first(before, name@, at as int);
        }
        let ghost listed = entries@;
        let ghost pair = (name, value);
        if at < entries.len() {
            entries.set(at, (name, value));
            assert(entries_view(entries@) =~= before.update(at as int, (pair.0@, pair.1@)));
        } else {
            entries.push((name, value));
            assert(entries_view(entries@) =~= before.push((pair.0@, pair.1@)));
        }
        self.entries = entries;
    }
}

/// A table gives back what was put in last under a name, and an insertion
/// changes nothing under any other name.
pub proof fn law_table_is_a_map(
    entries: Seq<(Seq<char>, Seq<char>)>,
    name: Seq<char>,
    value: Seq<char>,
    other: Seq<char>,
)
    requires
        distinct_names(entries),
    ensures
        distinct_names(inserted(entries, name, value)),
        inserted(entries, name, value).contains((name, value)),
        forall|v: Seq<char>| inserted(entries, name, value).contains((name, v)) ==> v == value,
        other != name ==> forall|v: Seq<char>|
            inserted(entries, name, value).contains((other, v)) <==> entries.contains((other, v)),
{
    lemma_place_of(entries, name);
    lemma_inserted_distinct(entries, name, value);
    let at = place_of(entries, name);
    let after = inserted(entries, name, value);
    assert(after[at] == (name, value));
    assert forall|v: Seq<char>| after.contains((name, v)) implies v == value by {
        let i = choose|i: int| 0 <= i < after.len() && after[i] == (name, v);
        if i != at {
            assert(after[i].0 == after[at].0);
        }
    }
    if other != name {
        assert forall|v: Seq<char>| after.contains((other, v)) <==> entries.contains((other, v)) by {
            if after.contains((other, v)) {
                let i = choose|i: int| 0 <= i < after.len() && after[i] == (other, v);
                assert(entries[i] == (other, v));
            }
            if entries.contains((other, v)) {
                let i = choose|i: int| 0 <= i < entries.len() && entries[i] == (other, v);
                assert(after[i] == (other, v));
            }
        }
    }
}

/// A table that begins empty holds, after an insertion, the fields that it held
/// before, each in its place and with its value, but for the one under the new
/// name; that one is there once, with the new value, and behind all others if
/// the name is new.
pub proof fn law_insertions_keep_the_rest(
    table: &mut HeaderTable,
    name: String,
    value: String,
    fresh: HeaderTable,
    at: int,
)
    requires
        call_ensures(HeaderTable::new, (), fresh),
        call_ensures(HeaderTable::insert, (table, name, value), ()),
        distinct_names(old(table)@),
    ensures
        fresh@.len() == 0,
        0 <= at < old(table)@.len() ==> final(table)@[at] == if old(table)@[at].0 == name@ {
            (name@, value@)
        } else {
            old(table)@[at]
        },
        final(table)@.contains((name@, value@)),
        final(table)@.len() == old(table)@.len() || (final(table)@.len() == old(table)@.len() + 1
            && final(table)@.last() == (name@, value@) && forall|i: int|
            0 <= i < old(table)@.len() ==> (#[trigger] old(table)@[i]).0 != name@),
{
    let before = old(table)@;
    lemma_place_of(before, name@);
    let place = place_of(before, name@);
    assert(final(table)@ == inserted(before, name@, value@));
    assert(inserted(before, name@, value@)[place] == (name@, value@));
    if 0 <= at < before.len() && before[at].0 == name@ && at != place {
        assert(before[at].0 == before[place].0);
    }
}

/// The entries of a table are its fields, name by name and value by value.
pub proof fn law_entries_are_the_fields(
    table: HeaderTable,
    entries: &Vec<(String, String)>,
    at: int,
)
    requires
        call_ensures(HeaderTable::entries, (&table,), entries),
        0 <= at < table@.len(),
    ensures
        entries@.len() == table@.len(),
        table@[at] == (entries@[at].0@, entries@[at].1@),
{
    assert(entries_view(entries@).len() == entries@.len());
}

} // verus!
