//! The scenario state: the variable environment together with the seeded
//! random source, and the operations scenario steps perform on them.

use vstd::prelude::*;

pub mod variables;

pub use variables::Environment;
pub use variables::ResponseRecord;
pub use variables::VarView;
pub use variables::WorldVar;

use crate::params::{diag_encoding, render_parts, Cbor, Identifier, RENDER_DEPTH};
use crate::rng::FuzzRng;
use crate::text::copy_bytes;
use crate::world::variables::bind_all;
use crate::ErrView;
use crate::ScenarioError;

verus! {

/// The well-known bindings a scenario starts from: the anonymous
/// principal, the illegal-address sentinel, the funding principal, and
/// one symbol per name the system under test knows.
pub open spec fn init_bindings(
    anonymous: Seq<u8>,
    illegal: Seq<u8>,
    faucet: Seq<u8>,
    symbols: Seq<(String, Vec<u8>)>,
) -> Seq<(Seq<char>, VarView)> {
    seq![
        ("anonymous"@, VarView::Identity(anonymous)),
        ("illegal"@, VarView::Address(illegal)),
        ("faucet"@, VarView::Identity(faucet)),
    ] + symbols.map_values(|s: (String, Vec<u8>)| (s.0@, VarView::Symbol(s.1@)))
}

/// One scenario's state. Created fresh per scenario with seed zero;
/// destroyed at scenario end.
pub struct World {
    variables: Environment,
    rand: FuzzRng,
}

impl World {
    /// The environment's abstract contents.
    pub closed spec fn vars(self) -> Map<Seq<char>, VarView> {
        self.variables@
    }

    /// The random source's seed.
    pub closed spec fn rng_seed(self) -> u64 {
        self.rand.seed()
    }

    /// How many random values have been drawn.
    pub closed spec fn rng_pos(self) -> nat {
        self.rand.pos()
    }

    /// The representation invariant.
    pub closed spec fn wf(self) -> bool {
        self.variables.wf()
    }

    /// A fresh scenario state: empty environment, seed zero.
    pub fn new() -> (r: World)
        ensures
            r.wf(),
            r.vars() == Map::<Seq<char>, VarView>::empty(),
            r.rng_seed() == 0,
            r.rng_pos() == 0,
    {
        World { variables: Environment::new(), rand: FuzzRng::seed_from_u64(0) }
    }

    /// Re-seed the random source; the environment is untouched.
    pub fn seed(&mut self, seed: u64)
        requires
            old(self).wf(),
        ensures
            final(self).wf(),
            final(self).vars() == old(self).vars(),
            final(self).rng_seed() == seed,
            final(self).rng_pos() == 0,
    {
        self.rand = FuzzRng::seed_from_u64(seed);
    }

    /// Bind a name; fails, changing nothing, exactly when it is bound.
    pub fn insert_var(&mut self, name: &str, var: WorldVar) -> (r: Result<(), ScenarioError>)
        requires
            old(self).wf(),
        ensures
            final(self).wf(),
            final(self).rng_seed() == old(self).rng_seed(),
            final(self).rng_pos() == old(self).rng_pos(),
            match r {
                Ok(_) => !old(self).vars().contains_key(name@) && final(self).vars() == old(
                    self,
                ).vars().insert(name@, var@),
                Err(e) => old(self).vars().contains_key(name@) && final(self).vars() == old(
                    self,
                ).vars() && e@ == (crate::ErrView::DuplicateName { name: name@ }),
            },
    {
        self.variables.insert_var(name.to_owned(), var)
    }

    /// Pre-populate the environment with the well-known bindings, as
    /// `bind_all` over `init_bindings` says. The environment is untouched
    /// when any of the names is already bound.
    pub fn init_config(
        &mut self,
        anonymous: Vec<u8>,
        illegal: Vec<u8>,
        faucet: Vec<u8>,
        symbols: Vec<(String, Vec<u8>)>,
    ) -> (r: Result<(), ScenarioError>)
        requires
            old(self).wf(),
        ensures
            final(self).wf(),
            final(self).rng_seed() == old(self).rng_seed(),
            final(self).rng_pos() == old(self).rng_pos(),
            match r {
                Ok(_) => bind_all(
                    old(self).vars(),
                    init_bindings(anonymous@, illegal@, faucet@, symbols@),
                ) == Ok::<Map<Seq<char>, VarView>, ErrView>(final(self).vars()),
                Err(e) => bind_all(
                    old(self).vars(),
                    init_bindings(anonymous@, illegal@, faucet@, symbols@),
                ) == Err::<Map<Seq<char>, VarView>, ErrView>(e@) && final(self).vars() == old(
                    self,
                ).vars(),
            },
    {
        let ghost a_v = anonymous@;
        let ghost i_v = illegal@;
        let ghost f_v = faucet@;
        let mut bindings: Vec<(String, WorldVar)> = Vec::new();
        bindings.push(("anonymous".to_owned(), WorldVar::Identity(anonymous)));
        bindings.push(("illegal".to_owned(), WorldVar::Address(illegal)));
        bindings.push(("faucet".to_owned(), WorldVar::Identity(faucet)));
        let n = symbols.len();
        let mut i: usize = 0;
        while i < n
            invariant
                i <= n == symbols@.len(),
                bindings@.len() == i + 3,
                bindings@[0].0@ == "anonymous"@ && bindings@[0].1@ == VarView::Identity(a_v),
                bindings@[1].0@ == "illegal"@ && bindings@[1].1@ == VarView::Address(i_v),
                bindings@[2].0@ == "faucet"@ && bindings@[2].1@ == VarView::Identity(f_v),
                forall|k: int|
                    3 <= k < i + 3 ==> (#[trigger] bindings@[k]).0@ == symbols@[k - 3].0@
                        && bindings@[k].1@ == VarView::Symbol(symbols@[k - 3].1@),
            decreases n - i,
        {
            let name = symbols[i].0.clone();
            let bytes = copy_bytes(&symbols[i].1);
            bindings.push((name, WorldVar::Symbol(bytes)));
            i = i + 1;
        }
        proof {
            assert(bindings@.map_values(|b: (String, WorldVar)| (b.0@, b.1@)) =~= init_bindings(
                a_v,
                i_v,
                f_v,
                symbols@,
            ));
        }
        self.variables.insert_all(bindings)
    }

    /// Register a template under a name.
    pub fn register_cbor(&mut self, id: &str, cbor: Cbor) -> (r: Result<(), ScenarioError>)
        requires
            old(self).wf(),
        ensures
            final(self).wf(),
            final(self).rng_seed() == old(self).rng_seed(),
            final(self).rng_pos() == old(self).rng_pos(),
            match r {
                Ok(_) => !old(self).vars().contains_key(id@) && final(self).vars() == old(
                    self,
                ).vars().insert(id@, VarView::Cbor(cbor@)),
                Err(e) => old(self).vars().contains_key(id@) && final(self).vars() == old(
                    self,
                ).vars() && e@ == (ErrView::DuplicateName { name: id@ }),
            },
    {
        self.insert_var(id, WorldVar::Cbor(cbor))
    }

    /// Register a fresh identity, given the address its keys derive to.
    pub fn new_identity(&mut self, id: &Identifier, address: Vec<u8>) -> (r: Result<
        (),
        ScenarioError,
    >)
        requires
            old(self).wf(),
        ensures
            final(self).wf(),
            final(self).rng_seed() == old(self).rng_seed(),
            final(self).rng_pos() == old(self).rng_pos(),
            match r {
                Ok(_) => !old(self).vars().contains_key(id@) && final(self).vars() == old(
                    self,
                ).vars().insert(id@, VarView::Identity(address@)),
                Err(e) => old(self).vars().contains_key(id@) && final(self).vars() == old(
                    self,
                ).vars() && e@ == (ErrView::DuplicateName { name: id@ }),
            },
    {
        self.insert_var(id.as_ref(), WorldVar::Identity(address))
    }

    /// The address bytes a name stands for, whether it is bound to a
    /// symbol, an address or an identity.
    pub fn address_of(&self, identity: &str) -> (r: Option<Vec<u8>>)
        requires
            self.wf(),
        ensures
            match r {
                Some(b) => self.vars().contains_key(identity@) && (self.vars()[identity@]
                    == VarView::Symbol(b@) || self.vars()[identity@] == VarView::Address(b@)
                    || self.vars()[identity@] == VarView::Identity(b@)),
                None => !self.vars().contains_key(identity@) || !(self.vars()[identity@] is Symbol
                    || self.vars()[identity@] is Address || self.vars()[identity@] is Identity),
            },
    {
        match self.variables.get(identity) {
            Some(WorldVar::Symbol(b)) => Some(copy_bytes(b)),
            Some(WorldVar::Address(b)) => Some(copy_bytes(b)),
            Some(WorldVar::Identity(b)) => Some(copy_bytes(b)),
            _ => None,
        }
    }

    /// The template a name is bound to, if it is bound to one.
    pub fn cbor(&self, id: &str) -> (r: Option<&Cbor>)
        requires
            self.wf(),
        ensures
            match r {
                Some(c) => self.vars().contains_key(id@) && self.vars()[id@] == VarView::Cbor(c@),
                None => !self.vars().contains_key(id@) || !(self.vars()[id@] is Cbor),
            },
    {
        match self.variables.get(id) {
            Some(WorldVar::Cbor(c)) => Some(c),
            _ => None,
        }
    }

    /// The symbol a name is bound to, if it is bound to one.
    pub fn symbol(&self, symbol: &str) -> (r: Option<&Vec<u8>>)
        requires
            self.wf(),
        ensures
            match r {
                Some(b) => self.vars().contains_key(symbol@) && self.vars()[symbol@]
                    == VarView::Symbol(b@),
                None => !self.vars().contains_key(symbol@) || !(self.vars()[symbol@] is Symbol),
            },
    {
        match self.variables.get(symbol) {
            Some(WorldVar::Symbol(b)) => Some(b),
            _ => None,
        }
    }

    /// The address of the identity a name is bound to, if it is bound to
    /// one.
    pub fn identity(&self, id: &str) -> (r: Option<Vec<u8>>)
        requires
            self.wf(),
        ensures
            match r {
                Some(b) => self.vars().contains_key(id@) && self.vars()[id@] == VarView::Identity(
                    b@,
                ),
                None => !self.vars().contains_key(id@) || !(self.vars()[id@] is Identity),
            },
    {
        match self.variables.get(id) {
            Some(WorldVar::Identity(b)) => Some(copy_bytes(b)),
            _ => None,
        }
    }

    /// The recorded response a name is bound to, if it is bound to one.
    pub fn response(&self, id: &str) -> (r: Option<&ResponseRecord>)
        requires
            self.wf(),
        ensures
            match r {
                Some(rec) => self.vars().contains_key(id@) && self.vars()[id@]
                    == VarView::Response(rec@),
                None => !self.vars().contains_key(id@) || !(self.vars()[id@] is Response),
            },
    {
        match self.variables.get(id) {
            Some(WorldVar::Response(rec)) => Some(rec),
            _ => None,
        }
    }

    /// The payload of the recorded response a name is bound to. A name
    /// that is absent or not bound to a response yields nothing; a
    /// response that recorded an error reply carries no payload and
    /// fails, with the peer's error code attached.
    pub fn response_cbor(&self, id: &str) -> (r: Result<Option<Vec<u8>>, ScenarioError>)
        requires
            self.wf(),
        ensures
            match r {
                Ok(Some(b)) => self.vars().contains_key(id@) && self.vars()[id@]
                    == VarView::Response(Ok(b@)),
                Ok(None) => !self.vars().contains_key(id@) || !(self.vars()[id@] is Response),
                Err(e) => self.vars().contains_key(id@) && self.vars()[id@] is Response && self
                    .vars()[id@]->Response_0 is Err && e@ == (ErrView::ErrorResponse {
                    name: id@,
                    code: self.vars()[id@]->Response_0->Err_0,
                }),
            },
    {
        match self.variables.get(id) {
            Some(WorldVar::Response(rec)) => match &rec.data {
                Ok(b) => Ok(Some(copy_bytes(b))),
                Err(code) => Err(
                    ScenarioError::ErrorResponse { name: id.to_owned(), code: *code },
                ),
            },
            _ => Ok(None),
        }
    }

    /// Record a response under a name.
    pub fn insert_response(&mut self, id: &str, response: ResponseRecord) -> (r: Result<
        (),
        ScenarioError,
    >)
        requires
            old(self).wf(),
        ensures
            final(self).wf(),
            final(self).rng_seed() == old(self).rng_seed(),
            final(self).rng_pos() == old(self).rng_pos(),
            match r {
                Ok(_) => !old(self).vars().contains_key(id@) && final(self).vars() == old(
                    self,
                ).vars().insert(id@, VarView::Response(response@)),
                Err(e) => old(self).vars().contains_key(id@) && final(self).vars() == old(
                    self,
                ).vars() && e@ == (ErrView::DuplicateName { name: id@ }),
            },
    {
        self.insert_var(id, WorldVar::Response(response))
    }

    /// Render a template value against this scenario's random source and
    /// environment, returning its binary encoding.
    pub fn render_cbor(&mut self, cbor: &Cbor) -> (r: Result<Vec<u8>, ScenarioError>)
        requires
            old(self).wf(),
        ensures
            final(self).wf(),
            final(self).vars() == old(self).vars(),
            final(self).rng_seed() == old(self).rng_seed(),
            match render_parts(
                cbor@,
                old(self).vars(),
                old(self).rng_seed(),
                old(self).rng_pos(),
                RENDER_DEPTH as nat,
            ) {
                Ok(tp) => match diag_encoding(tp.0) {
                    Some(bytes) => r is Ok && r->Ok_0@ == bytes && final(self).rng_pos() == tp.1,
                    None => r is Err && r->Err_0@ is Notation,
                },
                Err(e) => r is Err && r->Err_0@ == e,
            },
    {
        cbor.render(&mut self.rand, &self.variables)
    }

    /// Render a template value to diagnostic-notation text.
    pub fn render_cbor_string(&mut self, cbor: &Cbor) -> (r: Result<String, ScenarioError>)
        requires
            old(self).wf(),
        ensures
            final(self).wf(),
            final(self).vars() == old(self).vars(),
            final(self).rng_seed() == old(self).rng_seed(),
            match r {
                Ok(t) => render_parts(
                    cbor@,
                    old(self).vars(),
                    old(self).rng_seed(),
                    old(self).rng_pos(),
                    RENDER_DEPTH as nat,
                ) == Ok::<(Seq<char>, nat), ErrView>((t@, final(self).rng_pos())),
                Err(e) => render_parts(
                    cbor@,
                    old(self).vars(),
                    old(self).rng_seed(),
                    old(self).rng_pos(),
                    RENDER_DEPTH as nat,
                ) == Err::<(Seq<char>, nat), ErrView>(e@),
            },
    {
        cbor.render_string(&mut self.rand, &self.variables)
    }

    /// Render the template registered under a name, returning its binary
    /// encoding; fails when the name is not bound to a template.
    pub fn render(&mut self, id: &str) -> (r: Result<Vec<u8>, ScenarioError>)
        requires
            old(self).wf(),
        ensures
            final(self).wf(),
            final(self).vars() == old(self).vars(),
            final(self).rng_seed() == old(self).rng_seed(),
            (old(self).vars().contains_key(id@) && old(self).vars()[id@] is Cbor) ==> (
            match render_parts(
                old(self).vars()[id@]->Cbor_0,
                old(self).vars(),
                old(self).rng_seed(),
                old(self).rng_pos(),
                RENDER_DEPTH as nat,
            ) {
                Ok(tp) => match diag_encoding(tp.0) {
                    Some(bytes) => r is Ok && r->Ok_0@ == bytes && final(self).rng_pos() == tp.1,
                    None => r is Err && r->Err_0@ is Notation,
                },
                Err(e) => r is Err && r->Err_0@ == e,
            }),
            !(old(self).vars().contains_key(id@) && old(self).vars()[id@] is Cbor) ==> (r is Err
                && r->Err_0@ == (ErrView::WrongKind { name: id@ }) && final(self).rng_pos() == old(
            self).rng_pos()),
    {
        let template = match self.cbor(id) {
            Some(c) => c.clone(),
            None => {
                return Err(ScenarioError::WrongKind { name: id.to_owned() });
            },
        };
        self.render_cbor(&template)
    }
}

} // verus!
