//! The variable environment: a single-assignment named store of typed
//! values. A name, once bound, can never be rebound or removed; inserting
//! an existing name fails and leaves the store unchanged.

use vstd::prelude::*;

use crate::params::{Cbor, PartView};
use crate::text::copy_bytes;
use crate::ErrView;
use crate::ScenarioError;

verus! {

/// A recorded reply: the payload bytes on success, or the error code the
/// peer returned.
#[derive(Debug)]
pub struct ResponseRecord {
    pub data: Result<Vec<u8>, u64>,
}

/// A variable usable in a scenario: an identity (kept as its derived
/// address), an address, a symbol, a registered template, or a recorded
/// response. Identities, addresses and symbols render as hexadecimal
/// byte-string literals; templates render recursively; responses have no
/// textual form.
#[derive(Debug)]
pub enum WorldVar {
    Identity(Vec<u8>),
    Address(Vec<u8>),
    Symbol(Vec<u8>),
    Cbor(Cbor),
    Response(ResponseRecord),
}

/// The mathematical value of a `WorldVar`.
pub enum VarView {
    Identity(Seq<u8>),
    Address(Seq<u8>),
    Symbol(Seq<u8>),
    Cbor(Seq<PartView>),
    Response(Result<Seq<u8>, u64>),
}

impl View for WorldVar {
    type V = VarView;

    open spec fn view(&self) -> VarView {
        match self {
            WorldVar::Identity(b) => VarView::Identity(b@),
            WorldVar::Address(b) => VarView::Address(b@),
            WorldVar::Symbol(b) => VarView::Symbol(b@),
            WorldVar::Cbor(c) => VarView::Cbor(c@),
            WorldVar::Response(r) => VarView::Response(r@),
        }
    }
}

impl View for ResponseRecord {
    type V = Result<Seq<u8>, u64>;

    open spec fn view(&self) -> Result<Seq<u8>, u64> {
        match &self.data {
            Ok(b) => Ok(b@),
            Err(c) => Err(*c),
        }
    }
}

impl Clone for ResponseRecord {
    /// A clone records the same reply.
    fn clone(&self) -> (r: ResponseRecord)
        ensures
            r@ == self@,
    {
        match &self.data {
            Ok(b) => ResponseRecord { data: Ok(copy_bytes(b)) },
            Err(c) => ResponseRecord { data: Err(*c) },
        }
    }
}

impl Clone for WorldVar {
    /// A clone has the same mathematical value.
    fn clone(&self) -> (r: WorldVar)
        ensures
            r@ == self@,
    {
        match self {
            WorldVar::Identity(b) => WorldVar::Identity(copy_bytes(b)),
            WorldVar::Address(b) => WorldVar::Address(copy_bytes(b)),
            WorldVar::Symbol(b) => WorldVar::Symbol(copy_bytes(b)),
            WorldVar::Cbor(c) => WorldVar::Cbor(c.clone()),
            WorldVar::Response(rec) => WorldVar::Response(rec.clone()),
        }
    }
}

/// The map a sequence of bindings denotes.
pub open spec fn entries_map(s: Seq<(String, WorldVar)>) -> Map<Seq<char>, VarView>
    decreases s.len(),
{
    if s.len() == 0 {
        Map::empty()
    } else {
        entries_map(s.drop_last()).insert(s.last().0@, s.last().1@)
    }
}

/// The single-assignment store. Abstractly a map from names to values;
/// names are never rebound, so the bindings' names are distinct.
pub struct Environment {
    entries: Vec<(String, WorldVar)>,
}

impl View for Environment {
    type V = Map<Seq<char>, VarView>;

    closed spec fn view(&self) -> Map<Seq<char>, VarView> {
        entries_map(self.entries@)
    }
}

/// Binding sequences with equal names and values denote the same map.
proof fn lemma_entries_map_congruent(a: Seq<(String, WorldVar)>, b: Seq<(String, WorldVar)>)
    requires
        a.len() == b.len(),
        forall|k: int|
            0 <= k < a.len() ==> (#[trigger] a[k]).0@ == b[k].0@ && (#[trigger] a[k]).1@ == b[k].1@,
    ensures
        entries_map(a) == entries_map(b),
    decreases a.len(),
{
    if a.len() > 0 {
        assert(forall|k: int|
            0 <= k < a.len() - 1 ==> (#[trigger] a.drop_last()[k]).0@ == b.drop_last()[k].0@ && (
            #[trigger] a.drop_last()[k]).1@ == b.drop_last()[k].1@);
        lemma_entries_map_congruent(a.drop_last(), b.drop_last());
        assert(a[a.len() - 1].0@ == b[b.len() - 1].0@);
        assert(a[a.len() - 1].1@ == b[b.len() - 1].1@);
    }
}

/// A map built from distinct names contains a name exactly when some
/// binding holds it, and then maps it to that binding's value.
proof fn lemma_entries_map(s: Seq<(String, WorldVar)>, name: Seq<char>)
    requires
        forall|a: int, b: int| 0 <= a < b < s.len() ==> (#[trigger] s[a]).0@ != (#[trigger] s[b]).0@,
    ensures
        entries_map(s).contains_key(name) <==> exists|i: int|
            0 <= i < s.len() && (#[trigger] s[i]).0@ == name,
        forall|i: int|
            0 <= i < s.len() && (#[trigger] s[i]).0@ == name ==> entries_map(s)[name] == s[i].1@,
    decreases s.len(),
{
    if s.len() > 0 {
        let t = s.drop_last();
        lemma_entries_map(t, name);
        assert(forall|i: int| 0 <= i < t.len() ==> #[trigger] t[i] == s[i]);
        assert forall|i: int|
            0 <= i < s.len() && (#[trigger] s[i]).0@ == name implies entries_map(s)[name]
            == s[i].1@ by {
            if i < s.len() - 1 {
                assert(t[i].0@ == name);
                assert(s[s.len() - 1].0@ != name);
                assert(entries_map(s)[name] == entries_map(t)[name]);
            }
        }
        if entries_map(s).contains_key(name) {
            if s.last().0@ == name {
                assert((s[s.len() - 1]).0@ == name);
            } else {
                assert(entries_map(t).contains_key(name));
                let i = choose|i: int| 0 <= i < t.len() && (#[trigger] t[i]).0@ == name;
                assert((s[i]).0@ == name);
            }
        }
        if exists|i: int| 0 <= i < s.len() && (#[trigger] s[i]).0@ == name {
            let i = choose|i: int| 0 <= i < s.len() && (#[trigger] s[i]).0@ == name;
            if i == s.len() - 1 {
                assert(entries_map(s).contains_key(name));
            } else {
                assert(t[i].0@ == name);
                assert(entries_map(t).contains_key(name));
                assert(entries_map(s).contains_key(name));
            }
        }
    }
}

impl Environment {
    /// Distinct names: the representation invariant.
    pub closed spec fn wf(self) -> bool {
        forall|a: int, b: int|
            0 <= a < b < self.entries@.len() ==> (#[trigger] self.entries@[a]).0@ != (
            #[trigger] self.entries@[b]).0@
    }

    /// The empty store.
    pub fn new() -> (r: Environment)
        ensures
            r.wf(),
            r@ == Map::<Seq<char>, VarView>::empty(),
    {
        Environment { entries: Vec::new() }
    }

    /// The index of the binding holding a name, if any.
    fn index_of(&self, name: &str) -> (r: Option<usize>)
        ensures
            match r {
                Some(i) => i < self.entries@.len() && self.entries@[i as int].0@ == name@,
                None => forall|i: int|
                    0 <= i < self.entries@.len() ==> (#[trigger] self.entries@[i]).0@ != name@,
            },
    {
        let n = self.entries.len();
        let mut i: usize = 0;
        while i < n
            invariant
                i <= n == self.entries@.len(),
                forall|k: int| 0 <= k < i ==> (#[trigger] self.entries@[k]).0@ != name@,
            decreases n - i,
        {
            if crate::text::str_eq(self.entries[i].0.as_str(), name) {
                return Some(i);
            }
            i = i + 1;
        }
        None
    }

    /// Look a name up.
    pub fn get(&self, name: &str) -> (r: Option<&WorldVar>)
        requires
            self.wf(),
        ensures
            match r {
                Some(v) => self@.contains_key(name@) && v@ == self@[name@],
                None => !self@.contains_key(name@),
            },
    {
        proof {
            lemma_entries_map(self.entries@, name@);
        }
        match self.index_of(name) {
            Some(i) => Some(&self.entries[i].1),
            None => None,
        }
    }

    /// A deep copy with the same contents.
    pub fn duplicate(&self) -> (r: Environment)
        requires
            self.wf(),
        ensures
            r.wf(),
            r@ == self@,
    {
        let mut entries: Vec<(String, WorldVar)> = Vec::new();
        let n = self.entries.len();
        let mut i: usize = 0;
        while i < n
            invariant
                i <= n == self.entries@.len(),
                entries@.len() == i,
                forall|k: int|
                    0 <= k < i ==> (#[trigger] entries@[k]).0@ == self.entries@[k].0@ && entries@[
                        k
                    ].1@ == self.entries@[k].1@,
            decreases n - i,
        {
            let name = self.entries[i].0.clone();
            let var = self.entries[i].1.clone();
            entries.push((name, var));
            i = i + 1;
        }
        let r = Environment { entries };
        proof {
            lemma_entries_map_congruent(r.entries@, self.entries@);
            assert forall|x: int, y: int|
                0 <= x < y < r.entries@.len() implies (#[trigger] r.entries@[x]).0@ != (
            #[trigger] r.entries@[y]).0@ by {
                assert(self.entries@[x].0@ != self.entries@[y].0@);
            }
        }
        r
    }

    /// Bind a name. Fails, and changes nothing, exactly when the name is
    /// already bound; the prior binding keeps its value.
    pub fn insert_var(&mut self, name: String, var: WorldVar) -> (r: Result<(), ScenarioError>)
        requires
            old(self).wf(),
        ensures
            final(self).wf(),
            match r {
                Ok(_) => !old(self)@.contains_key(name@) && final(self)@ == old(self)@.insert(
                    name@,
                    var@,
                ),
                Err(e) => old(self)@.contains_key(name@) && final(self)@ == old(self)@ && e@ == (
                ErrView::DuplicateName { name: name@ }),
            },
    {
        proof {
            lemma_entries_map(self.entries@, name@);
        }
        match self.index_of(name.as_str()) {
            Some(_) => Err(ScenarioError::DuplicateName { name }),
            None => {
                let ghost old_entries = self.entries@;
                self.entries.push((name, var));
                proof {
                    assert(self.entries@.drop_last() =~= old_entries);
                }
                Ok(())
            },
        }
    }

    /// Bind a whole sequence of names, each checked in turn, as
    /// `bind_all` says. The store is untouched when any name fails.
    pub fn insert_all(&mut self, bindings: Vec<(String, WorldVar)>) -> (r: Result<
        (),
        ScenarioError,
    >)
        requires
            old(self).wf(),
        ensures
            final(self).wf(),
            match r {
                Ok(_) => bind_all(old(self)@, bindings@.map_values(|b: (String, WorldVar)| (b.0@, b.1@)))
                    == Ok::<Map<Seq<char>, VarView>, ErrView>(final(self)@),
                Err(e) => bind_all(
                    old(self)@,
                    bindings@.map_values(|b: (String, WorldVar)| (b.0@, b.1@)),
                ) == Err::<Map<Seq<char>, VarView>, ErrView>(e@) && final(self)@ == old(self)@,
            },
    {
        let ghost all = bindings@.map_values(|b: (String, WorldVar)| (b.0@, b.1@));
        let mut scratch = self.duplicate();
        let n = bindings.len();
        let mut i: usize = 0;
        proof {
            assert(all.skip(0) =~= all);
        }
        while i < n
            invariant
                i <= n == bindings@.len(),
                all == bindings@.map_values(|b: (String, WorldVar)| (b.0@, b.1@)),
                self.wf(),
                self@ == old(self)@,
                scratch.wf(),
                bind_all(old(self)@, all) == bind_all(scratch@, all.skip(i as int)),
            decreases n - i,
        {
            proof {
                assert(all.skip(i as int)[0] == all[i as int]);
                assert(all.skip(i as int).skip(1) =~= all.skip(i as int + 1));
                assert(all[i as int] == (bindings@[i as int].0@, bindings@[i as int].1@));
            }
            let name = bindings[i].0.clone();
            let var = bindings[i].1.clone();
            let ghost nv = name@;
            match scratch.insert_var(name, var) {
                Ok(_) => {},
                Err(e) => {
                    proof {
                        assert(bind_all(scratch@, all.skip(i as int)) == Err::<
                            Map<Seq<char>, VarView>,
                            ErrView,
                        >(ErrView::DuplicateName { name: nv }));
                    }
                    return Err(e);
                },
            }
            i = i + 1;
        }
        proof {
            assert(all.skip(n as int) =~= Seq::<(Seq<char>, VarView)>::empty());
        }
        *self = scratch;
        Ok(())
    }
}

/// A name, once bound, stays bound: after the first insert the store
/// holds the first value under the name, so a second insert of the same
/// name meets a bound name — `insert_var` then fails and leaves the
/// store unchanged — and lookups still retrieve the first value.
pub proof fn lemma_single_assignment(m: Map<Seq<char>, VarView>, name: Seq<char>, first: VarView)
    ensures
        m.insert(name, first).contains_key(name),
        m.insert(name, first)[name] == first,
{
}

/// What binding a sequence of names onto a map yields: each name in turn
/// must be fresh; the first bound name fails the whole operation.
pub open spec fn bind_all(
    m: Map<Seq<char>, VarView>,
    bindings: Seq<(Seq<char>, VarView)>,
) -> Result<Map<Seq<char>, VarView>, ErrView>
    decreases bindings.len(),
{
    if bindings.len() == 0 {
        Ok(m)
    } else if m.contains_key(bindings[0].0) {
        Err(ErrView::DuplicateName { name: bindings[0].0 })
    } else {
        bind_all(m.insert(bindings[0].0, bindings[0].1), bindings.skip(1))
    }
}

} // verus!
