//! The tree of named entries.

use vstd::prelude::*;

verus! {

/// An entry of the tree as a mathematical value: a leaf command, or a branch
/// that maps names to further entries.
pub enum EntryView {
    Command(Seq<char>),
    SubTree(Map<Seq<char>, EntryView>),
}

/// One named entry: a literal shell command, or a nested group of entries.
#[derive(Debug)]
pub enum Entry {
    Command(String),
    Config(Config),
}

/// One level of the tree: names, each with its entry. No name occurs twice.
#[derive(Debug)]
pub struct Config {
    cfg: Vec<(String, Entry)>,
}

/// The mapping that a list of entries stands for. Where a name occurs twice,
/// the later entry counts.
spec fn entries_view(entries: Seq<(String, Entry)>) -> Map<Seq<char>, EntryView>
    decreases entries, 0nat,
{
    if entries.len() == 0 {
        Map::empty()
    } else {
        entries_view(entries.drop_last()).insert(entries.last().0@, entries.last().1.view())
    }
}

/// No two entries of the list have the same name.
spec fn distinct_names(entries: Seq<(String, Entry)>) -> bool {
    forall|i: int, j: int|
        0 <= i < j < entries.len() ==> (#[trigger] entries[i]).0@ != (#[trigger] entries[j]).0@
}

/// A list of strings as mathematical values.
pub open spec fn views_of(names: Seq<String>) -> Seq<Seq<char>> {
    names.map_values(|name: String| name@)
}

impl View for Entry {
    type V = EntryView;

    open spec fn view(&self) -> EntryView
        decreases *self, 0nat,
    {
        match *self {
            Entry::Command(command) => EntryView::Command(command@),
            Entry::Config(config) => EntryView::SubTree(config.view()),
        }
    }
}

impl View for Config {
    type V = Map<Seq<char>, EntryView>;

    closed spec fn view(&self) -> Map<Seq<char>, EntryView>
        decreases *self, 1nat,
    {
        entries_view(self.cfg@)
    }
}

/// What the mapping of a list without repeated names holds: each entry under
/// its name, and nothing else.
proof fn lemma_entries_view(entries: Seq<(String, Entry)>)
    requires
        distinct_names(entries),
    ensures
        entries_view(entries).dom().finite(),
        entries_view(entries).dom().len() == entries.len(),
        forall|i: int|
            0 <= i < entries.len() ==> entries_view(entries).contains_pair(
                (#[trigger] entries[i]).0@,
                entries[i].1@,
            ),
        forall|name: Seq<char>| #[trigger]
            entries_view(entries).contains_key(name) ==> exists|i: int|
                0 <= i < entries.len() && (#[trigger] entries[i]).0@ == name,
    decreases entries.len(),
{
    if entries.len() > 0 {
        let rest = entries.drop_last();
        let last = entries.last();
        assert forall|i: int, j: int| 0 <= i < j < rest.len() implies (#[trigger] rest[i]).0@ != (
        #[trigger] rest[j]).0@ by {
            assert(rest[i] == entries[i]);
            assert(rest[j] == entries[j]);
        }
        lemma_entries_view(rest);
        assert(entries_view(entries) == entries_view(rest).insert(last.0@, last.1@));
        assert(!entries_view(rest).contains_key(last.0@)) by {
            if entries_view(rest).contains_key(last.0@) {
                let i = choose|i: int| 0 <= i < rest.len() && (#[trigger] rest[i]).0@ == last.0@;
                assert(rest[i] == entries[i]);
                assert(entries[entries.len() - 1] == last);
            }
        }
        assert forall|i: int| 0 <= i < entries.len() implies entries_view(entries).contains_pair(
            (#[trigger] entries[i]).0@,
            entries[i].1@,
        ) by {
            if i < rest.len() {
                assert(rest[i] == entries[i]);
            }
        }
        assert forall|name: Seq<char>| #[trigger]
            entries_view(entries).contains_key(name) implies exists|i: int|
            0 <= i < entries.len() && (#[trigger] entries[i]).0@ == name by {
            if name == last.0@ {
                assert(entries[entries.len() - 1].0@ == name);
            } else {
                let i = choose|i: int| 0 <= i < rest.len() && (#[trigger] rest[i]).0@ == name;
                assert(entries[i] == rest[i]);
            }
        }
    }
}

/// Replacing the entry that has a name by another of that name replaces what
/// the mapping holds under the name.
proof fn lemma_entries_view_update(entries: Seq<(String, Entry)>, at: int, entry: (String, Entry))
    requires
        distinct_names(entries),
        0 <= at < entries.len(),
        entries[at].0@ == entry.0@,
    ensures
        distinct_names(entries.update(at, entry)),
        entries_view(entries.update(at, entry)) == entries_view(entries).insert(
            entry.0@,
            entry.1@,
        ),
    decreases entries.len(),
{
    let updated = entries.update(at, entry);
    let rest = entries.drop_last();
    let last = entries.last();
    assert forall|i: int, j: int| 0 <= i < j < updated.len() implies (#[trigger] updated[i]).0@ != (
    #[trigger] updated[j]).0@ by {
        assert(updated[i].0@ == entries[i].0@);
        assert(updated[j].0@ == entries[j].0@);
    }
    assert(entries_view(entries) == entries_view(rest).insert(last.0@, last.1@));
    assert(entries_view(updated) == entries_view(updated.drop_last()).insert(
        updated.last().0@,
        updated.last().1@,
    ));
    if at == entries.len() - 1 {
        assert(updated.drop_last() =~= rest);
        assert(entries_view(updated) =~= entries_view(entries).insert(entry.0@, entry.1@));
    } else {
        assert forall|i: int, j: int| 0 <= i < j < rest.len() implies (#[trigger] rest[i]).0@ != (
        #[trigger] rest[j]).0@ by {
            assert(rest[i] == entries[i]);
            assert(rest[j] == entries[j]);
        }
        assert(rest[at] == entries[at]);
        lemma_entries_view_update(rest, at, entry);
        assert(updated.drop_last() =~= rest.update(at, entry));
        assert(updated.last() == last);
        assert(entries[at].0@ != entries[entries.len() - 1].0@);
        assert(entries_view(updated) =~= entries_view(entries).insert(entry.0@, entry.1@));
    }
}

impl Config {
    #[verifier::type_invariant]
    spec fn well_formed(self) -> bool {
        distinct_names(self.cfg@)
    }

    /// A level without entries.
    pub fn new() -> (config: Config)
        ensures
            config@ == Map::<Seq<char>, EntryView>::empty(),
    {
        Config { cfg: Vec::new() }
    }

    /// How many names the level holds.
    pub fn len(&self) -> (count: usize)
        ensures
            self@.dom().finite(),
            count == self@.len(),
    {
        proof {
            use_type_invariant(self);
            lemma_entries_view(self.cfg@);
        }
        self.cfg.len()
    }

    /// Where in the list the entry of a name stands, if it has one.
    fn position(&self, name: &String) -> (found: Option<usize>)
        ensures
            found matches Some(at) ==> at < self.cfg@.len() && self.cfg@[at as int].0@ == name@,
            found is None ==> forall|i: int|
                0 <= i < self.cfg@.len() ==> (#[trigger] self.cfg@[i]).0@ != name@,
    {
        let mut at: usize = 0;
        while at < self.cfg.len()
            invariant
                at <= self.cfg@.len(),
                forall|i: int| 0 <= i < at ==> (#[trigger] self.cfg@[i]).0@ != name@,
            decreases self.cfg@.len() - at,
        {
            if self.cfg[at].0 == *name {
                return Some(at);
            }
            at += 1;
        }
        None
    }

    /// The entry that stands under a name, if the level has that name.
    pub fn get(&self, name: &str) -> (found: Option<&Entry>)
        ensures
            found matches Some(entry) ==> self@.contains_key(name@) && self@[name@] == entry@,
            found is None ==> !self@.contains_key(name@),
    {
        proof {
            use_type_invariant(self);
            lemma_entries_view(self.cfg@);
        }
        let key = name.to_owned();
        match self.position(&key) {
            Some(at) => Some(&self.cfg[at].1),
            None => None,
        }
    }

    /// Puts an entry under a name. An entry that stood under that name
    /// before is replaced; every other name keeps its entry.
    pub fn insert(&mut self, name: String, entry: Entry)
        ensures
            final(self)@ == old(self)@.insert(name@, entry@),
    {
        proof {
            use_type_invariant(&*self);
        }
        let found = self.position(&name);
        let mut entries: Vec<(String, Entry)> = Vec::new();
        std::mem::swap(&mut self.cfg, &mut entries);
        match found {
            Some(at) => {
                proof {
                    lemma_entries_view_update(entries@, at as int, (name, entry));
                }
                entries.set(at, (name, entry));
            },
            None => {
                proof {
                    let pushed = entries@.push((name, entry));
                    assert(pushed.drop_last() =~= entries@);
                    assert forall|i: int, j: int| 0 <= i < j < pushed.len() implies (
                    #[trigger] pushed[i]).0@ != (#[trigger] pushed[j]).0@ by {
                        assert(pushed[i] == entries@[i]);
                        if j < entries@.len() {
                            assert(pushed[j] == entries@[j]);
                        }
                    }
                }
                entries.push((name, entry));
            },
        }
        std::mem::swap(&mut self.cfg, &mut entries);
    }

    /// The names of the level, each once, in no particular order.
    pub fn names(&self) -> (names: Vec<String>)
        ensures
            views_of(names@).no_duplicates(),
            views_of(names@).to_set() == self@.dom(),
    {
        proof {
            use_type_invariant(self);
            lemma_entries_view(self.cfg@);
        }
        let mut names: Vec<String> = Vec::new();
        let mut at: usize = 0;
        while at < self.cfg.len()
            invariant
                at <= self.cfg@.len(),
                names@.len() == at,
                forall|i: int| 0 <= i < at ==> (#[trigger] names@[i])@ == self.cfg@[i].0@,
            decreases self.cfg@.len() - at,
        {
            names.push(self.cfg[at].0.clone());
            at += 1;
        }
        proof {
            let views = views_of(names@);
            assert forall|i: int, j: int| 0 <= i < j < views.len() implies views[i] != views[j] by {
                assert(views[i] == self.cfg@[i].0@);
                assert(views[j] == self.cfg@[j].0@);
            }
            assert forall|name: Seq<char>| views.to_set().contains(name) == self@.dom().contains(
                name,
            ) by {
                if views.to_set().contains(name) {
                    let i = choose|i: int| 0 <= i < views.len() && views[i] == name;
                    assert(self.cfg@[i].0@ == name);
                    assert(self@.contains_pair(self.cfg@[i].0@, self.cfg@[i].1@));
                }
                if self@.dom().contains(name) {
                    assert(self@.contains_key(name));
                    let i = choose|i: int|
                        0 <= i < self.cfg@.len() && (#[trigger] self.cfg@[i]).0@ == name;
                    assert(views[i] == name);
                }
            }
            assert(views.to_set() =~= self@.dom());
        }
        names
    }
}

} // verus!
