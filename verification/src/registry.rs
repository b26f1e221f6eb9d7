//! Model registry.
//!
//! Every synchronized model is registered once, under its name, with its sync
//! classification. The registry is the single place dispatch happens: the
//! factory checks a builder against the model's classification, and ingestion
//! resolves an incoming operation's model name here before applying it.

use vstd::prelude::*;

verus! {

/// How a model's records are synchronized.
#[derive(Clone, Copy, PartialEq, Eq, Structural, Debug)]
pub enum SyncKind {
    /// Records are authoritative at their source and synchronized as whole
    /// item snapshots.
    Owned,
    /// Records are referenced across replicas by a portable identity and
    /// synchronized field by field.
    Shared,
    /// Join rows keyed by the identities of their two sides.
    Relation,
}

/// The classification registered for `name`, if any.
pub open spec fn spec_kind_of(models: Seq<(String, SyncKind)>, name: Seq<char>) -> Option<SyncKind>
    decreases models.len(),
{
    if models.len() == 0 {
        None
    } else if models[0].0@ == name {
        Some(models[0].1)
    } else {
        spec_kind_of(models.drop_first(), name)
    }
}

/// Maps each synchronized model's name to its classification; resolved once
/// at startup, then read by the factory and by ingestion.
pub struct ModelRegistry {
    pub models: Vec<(String, SyncKind)>,
}

impl View for ModelRegistry {
    type V = Seq<(String, SyncKind)>;

    open spec fn view(&self) -> Seq<(String, SyncKind)> {
        self.models@
    }
}

/// A lookup skips any prefix in which the name does not occur.
proof fn lemma_kind_of_skip(models: Seq<(String, SyncKind)>, name: Seq<char>, i: int)
    requires
        0 <= i <= models.len(),
        forall|j: int| 0 <= j < i ==> models[j].0@ != name,
    ensures
        spec_kind_of(models, name) == spec_kind_of(models.skip(i), name),
    decreases i,
{
    if i > 0 {
        lemma_kind_of_skip(models.drop_first(), name, i - 1);
        assert(models.drop_first().skip(i - 1) =~= models.skip(i));
    } else {
        assert(models.skip(0) =~= models);
    }
}

impl ModelRegistry {
    /// An empty registry.
    pub fn new() -> (r: ModelRegistry)
        ensures
            r@.len() == 0,
    {
        ModelRegistry { models: Vec::new() }
    }

    /// Register `name` with its classification. Returns false, leaving the
    /// registry unchanged, when the name is already registered.
    pub fn register(&mut self, name: String, kind: SyncKind) -> (r: bool)
        ensures
            r == (spec_kind_of(old(self)@, name@) is None),
            r ==> final(self)@ == old(self)@.push((name, kind)),
            !r ==> final(self)@ == old(self)@,
    {
        if self.lookup(&name).is_some() {
            return false;
        }
        self.models.push((name, kind));
        true
    }

    /// The classification registered for `name`, if any.
    pub fn lookup(&self, name: &String) -> (r: Option<SyncKind>)
        ensures
            r == spec_kind_of(self@, name@),
    {
        let mut i: usize = 0;
        while i < self.models.len()
            invariant
                i <= self.models@.len(),
                forall|j: int| 0 <= j < i ==> self.models@[j].0@ != name@,
            decreases self.models@.len() - i,
        {
            if self.models[i].0.eq(name) {
                proof {
                    lemma_kind_of_skip(self@, name@, i as int);
                    assert(self@.skip(i as int)[0] == self@[i as int]);
                }
                return Some(self.models[i].1);
            }
            i = i + 1;
        }
        proof {
            lemma_kind_of_skip(self@, name@, i as int);
        }
        None
    }

    /// The registry of the models this library synchronizes out of the box:
    /// the shared models and the tag-object join relation.
    pub fn with_default_models() -> (r: ModelRegistry)
        ensures
            spec_kind_of(r@, "FilePath"@) == Some(SyncKind::Shared),
            spec_kind_of(r@, "Location"@) == Some(SyncKind::Shared),
            spec_kind_of(r@, "Object"@) == Some(SyncKind::Shared),
            spec_kind_of(r@, "Tag"@) == Some(SyncKind::Shared),
            spec_kind_of(r@, "TagOnObject"@) == Some(SyncKind::Relation),
    {
        let mut r = ModelRegistry { models: Vec::new() };
        r.models.push(("FilePath".to_owned(), SyncKind::Shared));
        r.models.push(("Location".to_owned(), SyncKind::Shared));
        r.models.push(("Object".to_owned(), SyncKind::Shared));
        r.models.push(("Tag".to_owned(), SyncKind::Shared));
        r.models.push(("TagOnObject".to_owned(), SyncKind::Relation));
        proof {
            reveal_strlit("FilePath");
            reveal_strlit("Location");
            reveal_strlit("Object");
            reveal_strlit("Tag");
            reveal_strlit("TagOnObject");
            reveal_with_fuel(spec_kind_of, 10);
            let s = r.models@;
            assert(s.len() == 5);
            assert("FilePath"@.len() == 8);
            assert("Location"@.len() == 8);
            assert("Object"@.len() == 6);
            assert("Tag"@.len() == 3);
            assert("TagOnObject"@.len() == 11);
            assert(s[0].0@ != "TagOnObject"@);
            assert(s[1].0@ != "TagOnObject"@);
            assert(s[2].0@ != "TagOnObject"@);
            assert(s[3].0@ != "TagOnObject"@);
            lemma_kind_of_skip(s, "TagOnObject"@, 4);
            assert(s.skip(4).len() == 1);
            assert(s.skip(4)[0] == s[4]);
            assert(spec_kind_of(s.skip(4), "TagOnObject"@) == Some(SyncKind::Relation));
        }
        r
    }
}

} // verus!
