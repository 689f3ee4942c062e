//! The registry of package providers.
//!
//! A provider stands for one package manager. The registry knows the
//! providers by name, and which of them each platform uses where a manifest
//! pins none.

use crate::bindings::{bindings, lookup};
use crate::errors::{ActionError, ActionErrorView};
use vstd::prelude::*;

verus! {

/// The texts of a list of strings, as a set.
pub open spec fn members(names: Seq<String>) -> Set<Seq<char>> {
    Set::new(|n: Seq<char>| exists|i: int| 0 <= i < names.len() && (#[trigger] names[i])@ == n)
}

/// The providers that were registered, and the default of each platform.
#[derive(Debug)]
pub struct ProviderRegistry {
    names: Vec<String>,
    defaults: Vec<(String, String)>,
}

/// A [`ProviderRegistry`] as the contracts see it.
pub ghost struct RegistryView {
    /// The names of the registered providers.
    pub known: Set<Seq<char>>,
    /// The provider that each platform uses by default.
    pub defaults: Map<Seq<char>, Seq<char>>,
}

impl View for ProviderRegistry {
    type V = RegistryView;

    closed spec fn view(&self) -> RegistryView {
        RegistryView { known: members(self.names@), defaults: bindings(self.defaults@) }
    }
}

/// The provider that an action is bound to: the pinned one if there is one,
/// else the default of the platform. Either must be registered.
pub open spec fn resolution(
    registry: RegistryView,
    pinned: Option<Seq<char>>,
    platform: Seq<char>,
) -> Result<Seq<char>, ActionErrorView> {
    match pinned {
        Some(name) => if registry.known.contains(name) {
            Ok(name)
        } else {
            Err(ActionErrorView::UnknownProvider { name })
        },
        None => if registry.defaults.contains_key(platform) {
            let name = registry.defaults[platform];
            if registry.known.contains(name) {
                Ok(name)
            } else {
                Err(ActionErrorView::UnknownProvider { name })
            }
        } else {
            Err(ActionErrorView::NoDefaultProvider { platform })
        },
    }
}

/// The outcome of a resolution as the contracts see it.
pub open spec fn resolved(r: Result<String, ActionError>) -> Result<Seq<char>, ActionErrorView> {
    match r {
        Ok(name) => Ok(name@),
        Err(e) => Err(e@),
    }
}

/// The text of an optional string.
pub open spec fn text_of(s: Option<String>) -> Option<Seq<char>> {
    match s {
        Some(s) => Some(s@),
        None => None,
    }
}

impl ProviderRegistry {
    /// A registry that knows no provider.
    pub fn new() -> (registry: ProviderRegistry)
        ensures
            registry@.known == Set::<Seq<char>>::empty(),
            registry@.defaults == (Map::<Seq<char>, Seq<char>>::empty()),
    {
        let registry = ProviderRegistry { names: Vec::new(), defaults: Vec::new() };
        assert(registry@.known =~= Set::<Seq<char>>::empty());
        registry
    }

    /// Makes a provider known.
    pub fn register(&mut self, name: String)
        ensures
            final(self)@.known == old(self)@.known.insert(name@),
            final(self)@.defaults == old(self)@.defaults,
    {
        let ghost before = self.names@;
        self.names.push(name);
        proof {
            let after = self.names@;
            assert(after[before.len() as int]@ == name@);
            assert forall|n: Seq<char>| members(after).contains(n) <==> members(before).insert(
                name@,
            ).contains(n) by {
                if members(before).contains(n) {
                    let i = choose|i: int| 0 <= i < before.len() && (#[trigger] before[i])@ == n;
                    assert(after[i]@ == n);
                }
            }
            assert(members(after) =~= members(before).insert(name@));
        }
    }

    /// Makes `provider` the default of `platform`, in place of an earlier one.
    pub fn set_default(&mut self, platform: String, provider: String)
        ensures
            final(self)@.known == old(self)@.known,
            final(self)@.defaults == old(self)@.defaults.insert(platform@, provider@),
    {
        let ghost before = self.defaults@;
        self.defaults.push((platform, provider));
        assert(self.defaults@.drop_last() =~= before);
    }

    /// Whether a provider of that name was registered.
    pub fn is_registered(&self, name: &String) -> (found: bool)
        ensures
            found == self@.known.contains(name@),
    {
        let mut i: usize = 0;
        while i < self.names.len()
            invariant
                i <= self.names.len(),
                forall|j: int| 0 <= j < i ==> (#[trigger] self.names@[j])@ != name@,
            decreases self.names.len() - i,
        {
            if self.names[i] == *name {
                return true;
            }
            i += 1;
        }
        false
    }

    /// The provider that `platform` uses by default.
    pub fn default_for(&self, platform: &String) -> (r: Option<&String>)
        ensures
            match r {
                Some(name) => self@.defaults.contains_key(platform@) && self@.defaults[platform@]
                    == name@,
                None => !self@.defaults.contains_key(platform@),
            },
    {
        lookup(&self.defaults, platform)
    }

    /// Binds an action to a provider: the pinned one if there is one, else
    /// the default of the platform.
    pub fn resolve(&self, pinned: &Option<String>, platform: &String) -> (r: Result<
        String,
        ActionError,
    >)
        ensures
            resolved(r) == resolution(self@, text_of(*pinned), platform@),
    {
        match pinned {
            Some(name) => {
                if self.is_registered(name) {
                    Ok(name.clone())
                } else {
                    Err(ActionError::UnknownProvider { name: name.clone() })
                }
            },
            None => match self.default_for(platform) {
                Some(name) => {
                    if self.is_registered(name) {
                        Ok(name.clone())
                    } else {
                        Err(ActionError::UnknownProvider { name: name.clone() })
                    }
                },
                None => Err(ActionError::NoDefaultProvider { platform: platform.clone() }),
            },
        }
    }
}

} // verus!
