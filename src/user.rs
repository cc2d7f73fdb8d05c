//! The user record: identity, name, contact, ordered roles and attributes.

use vstd::prelude::*;

verus! {

/// The attribute mapping held by a list of key/value entries, where a later
/// entry overrides an earlier one with the same key.
pub open spec fn entries_map(s: Seq<(String, String)>) -> Map<Seq<char>, Seq<char>>
    decreases s.len(),
{
    if s.len() == 0 {
        Map::empty()
    } else {
        entries_map(s.drop_last()).insert(s.last().0@, s.last().1@)
    }
}

/// No two entries share a key.
pub open spec fn keys_distinct(s: Seq<(String, String)>) -> bool {
    forall|i: int, j: int| 0 <= i < j < s.len() ==> s[i].0@ != s[j].0@
}

proof fn lemma_entries_update(s: Seq<(String, String)>, j: int, e: (String, String))
    requires
        keys_distinct(s),
        0 <= j < s.len(),
        e.0@ == s[j].0@,
    ensures
        entries_map(s.update(j, e)) == entries_map(s).insert(e.0@, e.1@),
    decreases s.len(),
{
    let t = s.update(j, e);
    let last = s.len() - 1;
    if j == last {
        assert(t.drop_last() =~= s.drop_last());
        assert(entries_map(t) =~= entries_map(s).insert(e.0@, e.1@));
    } else {
        assert(t.drop_last() =~= s.drop_last().update(j, e));
        lemma_entries_update(s.drop_last(), j, e);
        assert(s[j].0@ != s[last].0@);
        assert(entries_map(t) =~= entries_map(s).insert(e.0@, e.1@));
    }
}

proof fn lemma_entries_lookup(s: Seq<(String, String)>, j: int)
    requires
        keys_distinct(s),
        0 <= j < s.len(),
    ensures
        entries_map(s).contains_key(s[j].0@),
        entries_map(s)[s[j].0@] == s[j].1@,
    decreases s.len(),
{
    if j < s.len() - 1 {
        lemma_entries_lookup(s.drop_last(), j);
        assert(s[j].0@ != s[s.len() - 1].0@);
    }
}

proof fn lemma_entries_absent(s: Seq<(String, String)>, k: Seq<char>)
    requires
        forall|i: int| 0 <= i < s.len() ==> s[i].0@ != k,
    ensures
        !entries_map(s).contains_key(k),
    decreases s.len(),
{
    if s.len() > 0 {
        lemma_entries_absent(s.drop_last(), k);
    }
}

/// A user record.
#[derive(Debug, Clone)]
pub struct User {
    pub id: u64,
    pub name: String,
    pub email: String,
    pub roles: Vec<String>,
    metadata: Vec<(String, String)>,
}

/// The abstract value of a user record.
pub struct UserView {
    pub id: u64,
    pub name: Seq<char>,
    pub email: Seq<char>,
    pub roles: Seq<Seq<char>>,
    pub metadata: Map<Seq<char>, Seq<char>>,
}

impl View for User {
    type V = UserView;

    closed spec fn view(&self) -> UserView {
        UserView {
            id: self.id,
            name: self.name@,
            email: self.email@,
            roles: self.roles@.map_values(|r: String| r@),
            metadata: entries_map(self.metadata@),
        }
    }
}

impl User {
    /// The record's invariant: attribute keys are unique.
    pub closed spec fn wf(&self) -> bool {
        keys_distinct(self.metadata@)
    }

    /// A record with the given identity, name and contact, no roles and no
    /// attributes.
    pub fn new(id: u64, name: &str, email: &str) -> (r: Self)
        ensures
            r.wf(),
            r@ == (UserView {
                id,
                name: name@,
                email: email@,
                roles: Seq::empty(),
                metadata: Map::empty(),
            }),
    {
        let r = User {
            id,
            name: String::from_str(name),
            email: String::from_str(email),
            roles: Vec::new(),
            metadata: Vec::new(),
        };
        assert(r@.roles =~= Seq::<Seq<char>>::empty());
        r
    }

    /// Appends a role label after the earlier ones; returns the same record so
    /// that calls chain.
    pub fn add_role(&mut self, role: &str) -> (r: &mut Self)
        ensures
            r@ == (UserView { roles: old(self)@.roles.push(role@), ..old(self)@ }),
            r.wf() == old(self).wf(),
            *final(self) == *final(r),
    {
        self.roles.push(String::from_str(role));
        assert(self@.roles =~= old(self)@.roles.push(role@));
        self
    }

    /// Sets the attribute `key` to `value`, replacing any earlier value of
    /// that key, and hands the record back.
    pub fn with_metadata(self, key: &str, value: &str) -> (r: Self)
        requires
            self.wf(),
        ensures
            r.wf(),
            r@ == (UserView { metadata: self@.metadata.insert(key@, value@), ..self@ }),
    {
        let mut this = self;
        let k = String::from_str(key);
        let v = String::from_str(value);
        let mut i: usize = 0;
        while i < this.metadata.len()
            invariant
                this == self,
                k@ == key@,
                v@ == value@,
                keys_distinct(this.metadata@),
                0 <= i <= this.metadata@.len(),
                forall|j: int| 0 <= j < i ==> this.metadata@[j].0@ != key@,
            decreases this.metadata@.len() - i,
        {
            if this.metadata[i].0.eq(&k) {
                let ghost before = this.metadata@;
                proof {
                    lemma_entries_update(before, i as int, (k, v));
                }
                this.metadata.set(i, (k, v));
                assert(keys_distinct(this.metadata@));
                return this;
            }
            i = i + 1;
        }
        proof {
            lemma_entries_absent(this.metadata@, key@);
        }
        let ghost before = this.metadata@;
        this.metadata.push((k, v));
        assert(this.metadata@.drop_last() =~= before);
        this
    }

    /// The value of the attribute `key`, if it is set.
    pub fn metadata(&self, key: &str) -> (r: Option<&String>)
        requires
            self.wf(),
        ensures
            match r {
                Some(v) => self@.metadata.contains_key(key@) && v@ == self@.metadata[key@],
                None => !self@.metadata.contains_key(key@),
            },
    {
        let k = String::from_str(key);
        let mut i: usize = 0;
        while i < self.metadata.len()
            invariant
                k@ == key@,
                keys_distinct(self.metadata@),
                0 <= i <= self.metadata@.len(),
                forall|j: int| 0 <= j < i ==> self.metadata@[j].0@ != key@,
            decreases self.metadata@.len() - i,
        {
            if self.metadata[i].0.eq(&k) {
                proof {
                    lemma_entries_lookup(self.metadata@, i as int);
                }
                return Some(&self.metadata[i].1);
            }
            i = i + 1;
        }
        proof {
            lemma_entries_absent(self.metadata@, key@);
        }
        None
    }
}

impl Default for User {
    /// A record with identity zero, empty texts, no roles and no attributes.
    fn default() -> (r: Self)
        ensures
            r.wf(),
            r@ == (UserView {
                id: 0,
                name: Seq::empty(),
                email: Seq::empty(),
                roles: Seq::empty(),
                metadata: Map::empty(),
            }),
    {
        let r = User {
            id: 0,
            name: String::new(),
            email: String::new(),
            roles: Vec::new(),
            metadata: Vec::new(),
        };
        assert(r@.roles =~= Seq::<Seq<char>>::empty());
        r
    }
}

} // verus!
