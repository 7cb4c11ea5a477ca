//! The generic injector: a name-keyed factory table that rebuilds
//! polymorphic objects from tagged serialized data. One is kept per object
//! kind (layer instances, activation functions); both are populated once
//! and read-only afterwards.

use vstd::prelude::*;

use crate::errors::ModelError;
use crate::jsonval::JsonValue;
use crate::jsonval::JsonView;
use crate::model::sm_get;
use crate::strmap::StrMap;
use crate::strmap::keys_contain;
use crate::strmap::key_index;

verus! {

/// A factory that turns `(parameter blob, context)` into an object of kind
/// `T`. The context threads shared state (such as the model reader, so a
/// layer factory can consult the activation registry) through every call.
pub trait Factory<T, C>: Sized {
    /// On which blobs, in which contexts, this factory succeeds.
    spec fn creates(&self, json: JsonView, ctx: &C) -> bool;

    /// What is true of every object this factory returns for the blob.
    spec fn created_ok(&self, json: JsonView, ctx: &C, r: T) -> bool;

    /// Build the object from the blob.
    fn create(&self, json: &JsonValue, ctx: &C) -> (r: Result<T, ModelError>)
        ensures
            r is Ok <==> self.creates(json@, ctx),
            r matches Ok(t) ==> self.created_ok(json@, ctx, t),
    ;
}

/// A name-keyed registry of factories of one kind. Registering an
/// existing name replaces its factory.
pub struct GenericInjector<F> {
    map: StrMap<F>,
}

impl<F> GenericInjector<F> {
    /// The registered names, in registration order.
    pub closed spec fn names(&self) -> Seq<Seq<char>> {
        self.map.keys_view()
    }

    /// The registered factories, in name order.
    pub closed spec fn factories(&self) -> Seq<F> {
        self.map.vals_view()
    }

    /// The registry's names are distinct and each has a factory.
    pub closed spec fn wf(&self) -> bool {
        self.map.wf()
    }

    /// The factory registered under `name`.
    pub open spec fn spec_factory(&self, name: Seq<char>) -> F {
        sm_get(self.names(), self.factories(), name)
    }

    /// An empty registry.
    pub fn new() -> (r: Self)
        ensures
            r.wf(),
            r.names() == Seq::<Seq<char>>::empty(),
            r.factories() == Seq::<F>::empty(),
    {
        GenericInjector { map: StrMap::new() }
    }

    /// Register `factory` under `name`, replacing any earlier one.
    pub fn register(&mut self, name: String, factory: F)
        requires
            old(self).wf(),
        ensures
            final(self).wf(),
            keys_contain(final(self).names(), name@),
            !keys_contain(old(self).names(), name@) ==> {
                &&& final(self).names() == old(self).names().push(name@)
                &&& final(self).factories() == old(self).factories().push(factory)
            },
            keys_contain(old(self).names(), name@) ==> {
                &&& final(self).names() == old(self).names()
                &&& final(self).factories() == old(self).factories()
                    .update(key_index(old(self).names(), name@), factory)
            },
    {
        self.map.insert(name, factory);
    }

    /// Build an object of the requested type name from the blob. An
    /// unregistered name fails with `UnsupportedType`; otherwise the
    /// registered factory decides.
    pub fn create<T, C>(&self, name: &String, json: &JsonValue, ctx: &C)
        -> (r: Result<T, ModelError>)
        where F: Factory<T, C>,
        requires
            self.wf(),
        ensures
            !keys_contain(self.names(), name@) ==> (r matches Err(e)
                && e matches ModelError::UnsupportedType(n) && n@ == name@),
            keys_contain(self.names(), name@) ==> {
                let f = self.spec_factory(name@);
                &&& (r is Ok <==> f.creates(json@, ctx))
                &&& (r matches Ok(t) ==> f.created_ok(json@, ctx, t))
            },
    {
        match self.map.get(name) {
            None => Err(ModelError::UnsupportedType(name.clone())),
            Some(f) => f.create(json, ctx),
        }
    }
}

} // verus!
