//! Runtime context: binds a validated document's `allow` declarations to a
//! capability set — the single source of grants, with no defaults implied.

use vstd::prelude::*;

use crate::model::Document;
use crate::sec::{cap_name, is_known_capability, Capability, CapabilitySet, UnknownCapabilityError};

verus! {

/// Runtime context derived from a validated dotDSL document.
#[derive(Clone, Copy, Debug, PartialEq, Eq, Structural)]
pub struct RuntimeContext {
    capabilities: CapabilitySet,
}

impl RuntimeContext {
    /// The granted capabilities, as a specification value.
    pub closed spec fn spec_capabilities(&self) -> CapabilitySet {
        self.capabilities
    }

    /// Constructs a new runtime context from an explicit capability set.
    pub fn new(capabilities: CapabilitySet) -> (r: RuntimeContext)
        ensures
            r.spec_capabilities() == capabilities,
    {
        RuntimeContext { capabilities }
    }

    /// Builds a runtime context from a validated dotDSL `Document`.
    ///
    /// This is the only source of capability grants: every `allow` value is
    /// translated through the capability identifier table, and the first
    /// unknown one fails the whole construction.
    pub fn from_dot_dsl(document: &Document) -> (r: Result<RuntimeContext, UnknownCapabilityError>)
        ensures
            r is Ok <==> (forall|i: int|
                0 <= i < document@.capabilities.len() ==> is_known_capability(
                    (#[trigger] document@.capabilities[i]).value,
                )),
            r matches Ok(ctx) ==> (forall|c: Capability|
                #[trigger] ctx.spec_capabilities().spec_contains(c) <==> exists|i: int|
                    0 <= i < document@.capabilities.len() && (
                    #[trigger] document@.capabilities[i]).value == cap_name(c)),
            r matches Err(e) ==> exists|k: int|
                {
                    &&& 0 <= k < document@.capabilities.len()
                    &&& !is_known_capability((#[trigger] document@.capabilities[k]).value)
                    &&& e.spec_input() == document@.capabilities[k].value
                    &&& forall|j: int|
                        0 <= j < k ==> is_known_capability(
                            (#[trigger] document@.capabilities[j]).value,
                        )
                },
    {
        let mut values: Vec<String> = Vec::new();
        let mut i: usize = 0;
        while i < document.capabilities.len()
            invariant
                i <= document@.capabilities.len(),
                values@.len() == i,
                forall|j: int|
                    0 <= j < i ==> (#[trigger] values@[j])@ == document@.capabilities[j].value,
            decreases document@.capabilities.len() - i,
        {
            values.push(document.capabilities[i].value.clone());
            i = i + 1;
        }
        match CapabilitySet::try_from_iter(&values) {
            Ok(capabilities) => {
                proof {
                    assert forall|i: int|
                        0 <= i < document@.capabilities.len() implies is_known_capability(
                        (#[trigger] document@.capabilities[i]).value,
                    ) by {
                        assert(values@[i]@ == document@.capabilities[i].value);
                    }
                    assert forall|c: Capability| #[trigger]
                        capabilities.spec_contains(c) <==> (exists|i: int|
                        0 <= i < document@.capabilities.len() && (
                        #[trigger] document@.capabilities[i]).value == cap_name(c)) by {
                        if capabilities.spec_contains(c) {
                            let i = choose|i: int|
                                0 <= i < values@.len() && (#[trigger] values@[i])@ == cap_name(c);
                            assert(document@.capabilities[i].value == cap_name(c));
                        }
                        if exists|i: int|
                            0 <= i < document@.capabilities.len() && (
                            #[trigger] document@.capabilities[i]).value == cap_name(c) {
                            let i = choose|i: int|
                                0 <= i < document@.capabilities.len() && (
                                #[trigger] document@.capabilities[i]).value == cap_name(c);
                            assert(values@[i]@ == cap_name(c));
                        }
                    }
                }
                Ok(RuntimeContext { capabilities })
            },
            Err(e) => {
                proof {
                    let k = choose|k: int|
                        {
                            &&& 0 <= k < values@.len()
                            &&& !is_known_capability(#[trigger] values@[k]@)
                            &&& e.spec_input() == values@[k]@
                            &&& forall|j: int|
                                0 <= j < k ==> is_known_capability(#[trigger] values@[j]@)
                        };
                    assert(document@.capabilities[k].value == values@[k]@);
                    assert(!is_known_capability((#[trigger] document@.capabilities[k]).value));
                    assert forall|j: int|
                        0 <= j < k implies is_known_capability(
                        (#[trigger] document@.capabilities[j]).value,
                    ) by {
                        assert(values@[j]@ == document@.capabilities[j].value);
                    }
                }
                Err(e)
            },
        }
    }

    /// Returns the granted capabilities for this runtime.
    pub fn capabilities(&self) -> (r: &CapabilitySet)
        ensures
            *r == self.spec_capabilities(),
    {
        &self.capabilities
    }
}

} // verus!
