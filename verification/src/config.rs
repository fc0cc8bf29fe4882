use vstd::prelude::*;

use crate::text::views;

verus! {

/// The namespace in which a principal's name is looked up.
#[derive(Clone, Copy, Debug, PartialEq, Eq, Structural)]
pub enum Type {
    User,
    Group,
}

impl Default for Type {
    fn default() -> (r: Self)
        ensures
            r == Type::User,
    {
        Type::User
    }
}

/// What one principal may do.
#[derive(Clone, Debug)]
pub struct Perm {
    /// Any command is permitted.
    pub all: bool,
    /// Whether the principal is a user or a group.
    pub ptype: Type,
    /// The commands permitted where `all` is false.
    pub commands: Vec<String>,
}

/// The mathematical content of a [`Perm`].
pub struct PermView {
    pub all: bool,
    pub kind: Type,
    pub commands: Seq<Seq<char>>,
}

impl View for Perm {
    type V = PermView;

    open spec fn view(&self) -> PermView {
        PermView { all: self.all, kind: self.ptype, commands: views(self.commands@) }
    }
}

impl PermView {
    /// The entry that permits nothing to a user.
    pub open spec fn none() -> PermView {
        PermView { all: false, kind: Type::User, commands: Seq::empty() }
    }

    /// The entry that permits everything to a group.
    pub open spec fn whole_group() -> PermView {
        PermView { all: true, kind: Type::Group, commands: Seq::empty() }
    }
}

impl Perm {
    /// The entry with these fields.
    pub fn new(all: bool, ptype: Type, commands: Vec<String>) -> (r: Self)
        ensures
            r.all == all,
            r.ptype == ptype,
            r.commands == commands,
    {
        Perm { all, ptype, commands }
    }

    /// The entry that permits every command to the members of a group.
    pub fn whole_group() -> (r: Self)
        ensures
            r@ == PermView::whole_group(),
    {
        let r = Perm { all: true, ptype: Type::Group, commands: Vec::new() };
        assert(r@.commands =~= Seq::<Seq<char>>::empty());
        r
    }
}

impl Default for Perm {
    fn default() -> (r: Self)
        ensures
            r@ == PermView::none(),
    {
        let r = Perm { all: false, ptype: Type::User, commands: Vec::new() };
        assert(r@.commands =~= Seq::<Seq<char>>::empty());
        r
    }
}

/// The mathematical content of a [`Config`]: the advisory timeout and the
/// table from principal names to what each may do.
pub struct ConfigView {
    pub timeout: Seq<char>,
    pub perms: Map<Seq<char>, PermView>,
}

impl ConfigView {
    /// The timeout of a configuration that names none.
    pub open spec fn default_timeout() -> Seq<char> {
        "5m"@
    }

    /// The configuration without principals.
    pub open spec fn empty() -> ConfigView {
        ConfigView { timeout: Self::default_timeout(), perms: Map::empty() }
    }
}

/// A policy: an advisory timeout and a table of principals. No name occurs
/// twice in the table.
#[derive(Debug)]
pub struct Config {
    timeout: String,
    perms: Vec<(String, Perm)>,
}

spec fn name_at(entries: Seq<(String, Perm)>, i: int) -> Seq<char> {
    entries[i].0@
}

spec fn unique_names(entries: Seq<(String, Perm)>) -> bool {
    forall|i: int, j: int|
        0 <= i < j < entries.len() ==> #[trigger] name_at(entries, i) != #[trigger] name_at(
            entries,
            j,
        )
}

spec fn table_of(entries: Seq<(String, Perm)>) -> Map<Seq<char>, PermView>
    decreases entries.len(),
{
    if entries.len() == 0 {
        Map::empty()
    } else {
        table_of(entries.drop_last()).insert(entries.last().0@, entries.last().1@)
    }
}

proof fn lemma_table_of(entries: Seq<(String, Perm)>)
    requires
        unique_names(entries),
    ensures
        table_of(entries).dom().finite(),
        table_of(entries).dom().len() == entries.len(),
        forall|k: Seq<char>| #[trigger]
            table_of(entries).dom().contains(k) <==> exists|i: int|
                0 <= i < entries.len() && #[trigger] name_at(entries, i) == k,
        forall|i: int|
            0 <= i < entries.len() ==> table_of(entries)[#[trigger] name_at(entries, i)]
                == entries[i].1@,
    decreases entries.len(),
{
    if entries.len() > 0 {
        let before = entries.drop_last();
        let n = entries.len() - 1;
        assert forall|i: int, j: int| 0 <= i < j < before.len() implies #[trigger] name_at(
            before,
            i,
        ) != #[trigger] name_at(before, j) by {
            assert(name_at(before, i) == name_at(entries, i));
            assert(name_at(before, j) == name_at(entries, j));
        }
        lemma_table_of(before);
        let key = entries.last().0@;
        assert(key == name_at(entries, n));
        assert(!table_of(before).dom().contains(key)) by {
            if table_of(before).dom().contains(key) {
                let i = choose|i: int| 0 <= i < before.len() && name_at(before, i) == key;
                assert(name_at(entries, i) == name_at(before, i));
            }
        }
        assert forall|k: Seq<char>| #[trigger]
            table_of(entries).dom().contains(k) <==> exists|i: int|
                0 <= i < entries.len() && #[trigger] name_at(entries, i) == k by {
            if table_of(entries).dom().contains(k) {
                if k != key {
                    let i = choose|i: int| 0 <= i < before.len() && name_at(before, i) == k;
                    assert(name_at(entries, i) == k);
                }
            }
            if exists|i: int| 0 <= i < entries.len() && #[trigger] name_at(entries, i) == k {
                let i = choose|i: int| 0 <= i < entries.len() && name_at(entries, i) == k;
                if i < n {
                    assert(name_at(before, i) == k);
                }
            }
        }
        assert forall|i: int| 0 <= i < entries.len() implies table_of(entries)[#[trigger] name_at(
            entries,
            i,
        )] == entries[i].1@ by {
            if i < n {
                assert(name_at(before, i) == name_at(entries, i));
                assert(name_at(entries, i) != name_at(entries, n));
            }
        }
    }
}

impl View for Config {
    type V = ConfigView;

    closed spec fn view(&self) -> ConfigView {
        ConfigView { timeout: self.timeout@, perms: table_of(self.perms@) }
    }
}

impl Default for Config {
    fn default() -> (r: Self)
        ensures
            r@ == ConfigView::empty(),
    {
        Config { timeout: "5m".to_owned(), perms: Vec::new() }
    }
}

impl Config {
    #[verifier::type_invariant]
    spec fn names_are_unique(self) -> bool {
        unique_names(self.perms@)
    }

    /// The advisory timeout.
    pub fn timeout(&self) -> (r: &str)
        ensures
            r@ == self@.timeout,
    {
        self.timeout.as_str()
    }

    /// Replaces the advisory timeout.
    pub fn set_timeout(&mut self, timeout: String)
        ensures
            final(self)@ == (ConfigView { timeout: timeout@, perms: old(self)@.perms }),
    {
        proof {
            use_type_invariant(&*self);
        }
        self.timeout = timeout;
    }

    /// The number of principals.
    pub fn len(&self) -> (r: usize)
        ensures
            self@.perms.dom().finite(),
            r == self@.perms.dom().len(),
    {
        proof {
            use_type_invariant(self);
            lemma_table_of(self.perms@);
        }
        self.perms.len()
    }

    fn position(&self, name: &String) -> (r: Option<usize>)
        ensures
            match r {
                Some(i) => i < self.perms.len() && self.perms[i as int].0@ == name@,
                None => !self@.perms.contains_key(name@),
            },
    {
        proof {
            use_type_invariant(self);
            lemma_table_of(self.perms@);
        }
        let mut i: usize = 0;
        while i < self.perms.len()
            invariant
                i <= self.perms.len(),
                forall|j: int| 0 <= j < i ==> #[trigger] name_at(self.perms@, j) != name@,
            decreases self.perms.len() - i,
        {
            if self.perms[i].0 == *name {
                return Some(i);
            }
            assert(name_at(self.perms@, i as int) != name@);
            i += 1;
        }
        None
    }

    /// What the principal of that name may do, if the table names it.
    pub fn get(&self, name: &str) -> (r: Option<&Perm>)
        ensures
            match r {
                Some(perm) => self@.perms.contains_key(name@) && perm@ == self@.perms[name@],
                None => !self@.perms.contains_key(name@),
            },
    {
        let key = name.to_owned();
        match self.position(&key) {
            Some(i) => {
                proof {
                    use_type_invariant(self);
                    lemma_table_of(self.perms@);
                    assert(name_at(self.perms@, i as int) == name@);
                }
                Some(&self.perms[i].1)
            },
            None => None,
        }
    }

    /// Whether the table names that principal.
    pub fn contains(&self, name: &str) -> (r: bool)
        ensures
            r == self@.perms.contains_key(name@),
    {
        self.get(name).is_some()
    }

    /// Enters a principal, in place of an entry of that name if there is one.
    pub fn insert(&mut self, name: String, perm: Perm)
        ensures
            final(self)@ == (ConfigView {
                timeout: old(self)@.timeout,
                perms: old(self)@.perms.insert(name@, perm@),
            }),
    {
        proof {
            use_type_invariant(&*self);
            lemma_table_of(self.perms@);
        }
        let ghost before = self.perms@;
        let ghost key = name@;
        let ghost value = perm@;
        let found = self.position(&name);
        let mut perms: Vec<(String, Perm)> = Vec::new();
        std::mem::swap(&mut self.perms, &mut perms);
        match found {
            Some(i) => {
                perms.set(i, (name, perm));
                proof {
                    let after = perms@;
                    assert forall|a: int, b: int| 0 <= a < b < after.len() implies #[trigger] name_at(
                        after,
                        a,
                    ) != #[trigger] name_at(after, b) by {
                        assert(name_at(after, a) == name_at(before, a));
                        assert(name_at(after, b) == name_at(before, b));
                    }
                    lemma_table_of(after);
                    assert(name_at(after, i as int) == key);
                    assert forall|k: Seq<char>| #[trigger]
                        table_of(after).dom().contains(k) <==> table_of(before).insert(
                            key,
                            value,
                        ).dom().contains(k) by {
                        if table_of(after).dom().contains(k) {
                            let a = choose|a: int| 0 <= a < after.len() && name_at(after, a) == k;
                            assert(name_at(before, a) == k);
                        }
                        if table_of(before).dom().contains(k) {
                            let a = choose|a: int|
                                0 <= a < before.len() && name_at(before, a) == k;
                            assert(name_at(after, a) == k);
                        }
                    }
                    assert forall|k: Seq<char>| #[trigger]
                        table_of(after).dom().contains(k) implies table_of(after)[k] == table_of(
                        before,
                    ).insert(key, value)[k] by {
                        let a = choose|a: int| 0 <= a < after.len() && name_at(after, a) == k;
                        if a != i {
                            assert(name_at(before, a) == k);
                            assert(after[a] == before[a]);
                        }
                    }
                    assert(table_of(after) =~= table_of(before).insert(key, value));
                }
            },
            None => {
                perms.push((name, perm));
                proof {
                    let after = perms@;
                    assert(after.drop_last() =~= before);
                    assert forall|a: int, b: int| 0 <= a < b < after.len() implies #[trigger] name_at(
                        after,
                        a,
                    ) != #[trigger] name_at(after, b) by {
                        assert(name_at(after, a) == name_at(before, a));
                        if b < before.len() {
                            assert(name_at(after, b) == name_at(before, b));
                        }
                    }
                }
            },
        }
        self.perms = perms;
    }
}

} // verus!
