//! Audio Unit app extensions.
//!
//! Once loaded they are Audio Units like others; only finding them differs.

use crate::au::ids::{self, ComponentFacts};
use crate::info::{PluginInfo, PluginInfoView};
use vstd::prelude::*;

verus! {

/// Format identifier of the plugins that this module finds.
pub const FORMAT: &'static str = "au3";

/// Scans for Audio Unit app extensions. It has no state.
#[derive(Clone, Copy, Debug, Default, PartialEq, Eq, Structural)]
pub struct Au3Scanner;

impl Au3Scanner {
    /// A scanner.
    #[must_use]
    pub fn new() -> (scanner: Self)
        ensures
            scanner == Au3Scanner,
    {
        Au3Scanner
    }
}

/// The catalog entry of a component. Only app extensions that the registry
/// describes get one.
pub open spec fn listed(described: bool, facts: ComponentFacts) -> Option<PluginInfoView> {
    if described && facts.is_v3 {
        Some(ids::entry(facts, facts.id.component_type, FORMAT@))
    } else {
        None
    }
}

/// The catalog entry of a component. Only app extensions that the registry
/// describes get one.
#[must_use]
pub fn component_to_info(described: bool, facts: &ComponentFacts) -> (info: Option<PluginInfo>)
    ensures
        match info {
            Some(i) => listed(described, *facts) == Some(i@),
            None => listed(described, *facts) is None,
        },
{
    if described && facts.is_v3 {
        Some(ids::make_entry(facts, facts.id.component_type, FORMAT))
    } else {
        None
    }
}

/// Of the components that the registry describes, each is listed by one of the
/// two scanners, and only by one.
pub proof fn scanners_share_the_registry(facts: ComponentFacts, family: u32)
    ensures
        listed(true, facts) is Some <==> ids::listed(facts, family) is None,
{
}

/// An app extension is listed by its own type, under the id that names it, as one of
/// this format and of no other.
pub proof fn extensions_are_listed_by_their_type(facts: ComponentFacts)
    ensures
        listed(false, facts) is None,
        facts.is_v3 ==> {
            &&& listed(true, facts) matches Some(info)
            &&& ids::component_of(info.unique_id) == Some(facts.id)
            &&& info.category == ids::category_of(facts.id.component_type)
            &&& info.version == facts.version
            &&& info.format != crate::au::FORMAT@
        },
{
    reveal_strlit("au3");
    reveal_strlit("au");
    ids::unique_id_round_trip(facts.id);
    assert("au3"@.len() == 3 && "au"@.len() == 2);
}

} // verus!
