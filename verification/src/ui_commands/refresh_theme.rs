//! Refreshing the style that a theme gives an entity: which theme applies,
//! how it is asked for the style, and what the answer changes on the entity.

use vstd::prelude::*;

verus! {

/// Where the theme that styles an entity is found.
#[derive(Clone, Copy, Debug, PartialEq, Eq, Structural)]
pub enum ThemeSource {
    /// On the entity itself.
    Own,
    /// On the nearest ancestor that has one.
    Ancestor,
    /// Nowhere on the way to the root: the default theme applies.
    Fallback,
}

/// What the search finds on the entity that it looks at.
#[derive(Clone, Copy, Debug, PartialEq, Eq, Structural)]
pub enum Sighting {
    /// A theme.
    Themed,
    /// No theme, but a parent to look at next.
    BareChild,
    /// No theme and no parent.
    BareRoot,
}

/// The search for the theme of an entity, which starts at the entity and
/// climbs from child to parent.
#[derive(Clone, Copy, Debug, PartialEq, Eq, Structural)]
pub enum ThemeSearch {
    /// The search has to look at an entity: at the one it started from, or,
    /// once it has `climbed`, at the parent of the one it looked at last.
    Looking { climbed: bool },
    /// The search is over.
    Found(ThemeSource),
}

impl ThemeSearch {
    /// The state after `seen` was found on the entity to look at. A search
    /// that is over stays as it is.
    pub open spec fn next(self, seen: Sighting) -> ThemeSearch {
        match self {
            ThemeSearch::Looking { climbed } => match seen {
                Sighting::Themed => ThemeSearch::Found(
                    if climbed {
                        ThemeSource::Ancestor
                    } else {
                        ThemeSource::Own
                    },
                ),
                Sighting::BareChild => ThemeSearch::Looking { climbed: true },
                Sighting::BareRoot => ThemeSearch::Found(ThemeSource::Fallback),
            },
            ThemeSearch::Found(source) => ThemeSearch::Found(source),
        }
    }

    /// The state after all of `seen`, in order.
    pub open spec fn run(self, seen: Seq<Sighting>) -> ThemeSearch
        decreases seen.len(),
    {
        if seen.len() == 0 {
            self
        } else {
            self.next(seen[0]).run(seen.drop_first())
        }
    }

    /// The search at the entity to be styled.
    pub fn start() -> (search: ThemeSearch)
        ensures
            search == (ThemeSearch::Looking { climbed: false }),
    {
        ThemeSearch::Looking { climbed: false }
    }

    /// Takes in what was found on the entity to look at.
    pub fn advance(self, seen: Sighting) -> (search: ThemeSearch)
        ensures
            search == self.next(seen),
    {
        match self {
            ThemeSearch::Looking { climbed } => match seen {
                Sighting::Themed => ThemeSearch::Found(
                    if climbed {
                        ThemeSource::Ancestor
                    } else {
                        ThemeSource::Own
                    },
                ),
                Sighting::BareChild => ThemeSearch::Looking { climbed: true },
                Sighting::BareRoot => ThemeSearch::Found(ThemeSource::Fallback),
            },
            ThemeSearch::Found(source) => ThemeSearch::Found(source),
        }
    }
}

/// What is found on entity `i` of a chain, which runs from the entity to be
/// styled (at 0) to the root: `themed[i]` says whether that entity has a theme.
pub open spec fn sighting_at(themed: Seq<bool>, i: int) -> Sighting {
    if themed[i] {
        Sighting::Themed
    } else if i + 1 < themed.len() {
        Sighting::BareChild
    } else {
        Sighting::BareRoot
    }
}

/// What is found along a chain, from entity `from` to the root.
pub open spec fn sightings(themed: Seq<bool>, from: int) -> Seq<Sighting>
    decreases themed.len() - from,
{
    if 0 <= from < themed.len() {
        seq![sighting_at(themed, from)] + sightings(themed, from + 1)
    } else {
        seq![]
    }
}

/// Where the theme of the first entity of a chain is found.
pub open spec fn theme_source(themed: Seq<bool>) -> ThemeSource {
    if themed.len() > 0 && themed[0] {
        ThemeSource::Own
    } else if exists|i: int| 0 < i < themed.len() && themed[i] {
        ThemeSource::Ancestor
    } else {
        ThemeSource::Fallback
    }
}

/// A search that is looking, fed what is found along a chain from entity
/// `from` on, gets as far as `upto` and no further while it sees no theme
/// and the chain goes on.
proof fn lemma_run_bare(themed: Seq<bool>, climbed: bool, from: int, upto: int)
    requires
        0 <= from <= upto < themed.len(),
        forall|j: int| from <= j < upto ==> !themed[j],
    ensures
        (ThemeSearch::Looking { climbed }).run(sightings(themed, from).take(upto - from))
            == (ThemeSearch::Looking { climbed: climbed || from < upto }),
        sightings(themed, from).len() == themed.len() - from,
        sightings(themed, from)[upto - from] == sighting_at(themed, upto),
    decreases upto - from,
{
    let all = sightings(themed, from);
    lemma_sightings_len(themed, from);
    if from == upto {
        assert(all.take(0).len() == 0);
    } else {
        lemma_run_bare(themed, true, from + 1, upto);
        let rest = sightings(themed, from + 1);
        assert(all.take(upto - from).drop_first() =~= rest.take(upto - from - 1));
        assert(all.take(upto - from)[0] == Sighting::BareChild);
    }
}

/// A chain is seen entity by entity.
proof fn lemma_sightings_len(themed: Seq<bool>, from: int)
    requires
        0 <= from <= themed.len(),
    ensures
        sightings(themed, from).len() == themed.len() - from,
    decreases themed.len() - from,
{
    if from < themed.len() {
        lemma_sightings_len(themed, from + 1);
    }
}

/// The search ends at the nearest themed entity, and not before.
///
/// Let `themed` say, for a chain from an entity to the root, which entities
/// have a theme, and let `stop` be the first that has one, or the root where
/// none has. Fed what is found along the chain, the search is still looking
/// after every entity before `stop`, and it is over after `stop`, with the
/// source that the chain gives: the entity's own theme where `stop` is the
/// entity itself, an ancestor's where it is a themed entity above, the
/// default theme where the root was reached without one.
pub proof fn lemma_search_ends_at_nearest(themed: Seq<bool>, stop: int)
    requires
        0 <= stop < themed.len(),
        forall|j: int| 0 <= j < stop ==> !themed[j],
        themed[stop] || stop == themed.len() - 1,
    ensures
        forall|k: int|
            0 <= k <= stop ==> #[trigger] (ThemeSearch::Looking { climbed: false }).run(
                sightings(themed, 0).take(k),
            ) == (ThemeSearch::Looking { climbed: k > 0 }),
        (ThemeSearch::Looking { climbed: false }).run(sightings(themed, 0).take(stop + 1))
            == ThemeSearch::Found(theme_source(themed)),
{
    let start = ThemeSearch::Looking { climbed: false };
    let all = sightings(themed, 0);
    assert forall|k: int| 0 <= k <= stop implies #[trigger] start.run(all.take(k)) == (
    ThemeSearch::Looking { climbed: k > 0 }) by {
        lemma_run_bare(themed, false, 0, k);
    }
    lemma_run_bare(themed, false, 0, stop);
    lemma_run_split(start, all.take(stop + 1), stop);
    assert(all.take(stop + 1).take(stop) =~= all.take(stop));
    assert(all.take(stop + 1).skip(stop) =~= seq![sighting_at(themed, stop)]);
    let last = (ThemeSearch::Looking { climbed: stop > 0 }).next(sighting_at(themed, stop));
    assert((ThemeSearch::Looking { climbed: stop > 0 }).run(seq![sighting_at(themed, stop)])
        == last) by {
        let one = seq![sighting_at(themed, stop)];
        assert(one.drop_first().len() == 0);
        assert(last.run(one.drop_first()) == last);
    }
    if themed[stop] {
        if stop > 0 {
            assert(0 < stop < themed.len() && themed[stop]);
        }
    }
}

/// Running over a sequence is running over its front, then over its back.
proof fn lemma_run_split(search: ThemeSearch, seen: Seq<Sighting>, at: int)
    requires
        0 <= at <= seen.len(),
    ensures
        search.run(seen) == search.run(seen.take(at)).run(seen.skip(at)),
    decreases at,
{
    if at == 0 {
        assert(seen.take(0).len() == 0);
        assert(seen.skip(0) =~= seen);
    } else {
        lemma_run_split(search.next(seen[0]), seen.drop_first(), at - 1);
        assert(seen.take(at).drop_first() =~= seen.drop_first().take(at - 1));
        assert(seen.drop_first().skip(at - 1) =~= seen.skip(at));
    }
}

/// Which of a theme's styles is asked for.
#[derive(Clone, Copy, Debug, PartialEq, Eq, Structural)]
pub enum StyleLookup {
    /// The style for the pseudo states that the entity is in.
    ForPseudoStates,
    /// The base style.
    Base,
}

/// Which style to ask the theme for: the one for the entity's pseudo states
/// where it keeps any, the base style else.
pub fn style_lookup(has_pseudo_states: bool) -> (lookup: StyleLookup)
    ensures
        lookup == if has_pseudo_states {
            StyleLookup::ForPseudoStates
        } else {
            StyleLookup::Base
        },
{
    if has_pseudo_states {
        StyleLookup::ForPseudoStates
    } else {
        StyleLookup::Base
    }
}

/// What the refresh reads of the style that the theme gave.
#[derive(Clone, Copy, Debug, PartialEq, Eq, Structural)]
pub struct StyleTraits {
    /// Whether any of its attributes depends on interaction.
    pub interactive: bool,
    /// Whether any of its attributes is animated.
    pub animated: bool,
}

/// What a refresh writes to the entity.
#[derive(Clone, Copy, Debug, PartialEq, Eq, Structural)]
pub struct ThemeRefresh {
    /// The style is inserted; where this is `false` the entity's dynamic
    /// style is removed.
    pub insert_style: bool,
    /// A default `Interaction` is inserted.
    pub insert_interaction: bool,
    /// A default `TrackedInteraction` is inserted.
    pub insert_tracked_interaction: bool,
}

/// What a refresh writes, as a function of what was read.
///
/// Without a style the entity's dynamic style goes. With one it is inserted,
/// and if it reacts to interaction or is animated the entity gets what
/// tracking interaction needs and it lacks: an `Interaction`, and a
/// `TrackedInteraction` where it has no `FluxInteraction`.
pub open spec fn spec_plan_refresh(
    style: Option<StyleTraits>,
    has_interaction: bool,
    has_flux_interaction: bool,
) -> ThemeRefresh {
    match style {
        Some(traits) => {
            let tracks = traits.interactive || traits.animated;
            ThemeRefresh {
                insert_style: true,
                insert_interaction: tracks && !has_interaction,
                insert_tracked_interaction: tracks && !has_flux_interaction,
            }
        },
        None => ThemeRefresh {
            insert_style: false,
            insert_interaction: false,
            insert_tracked_interaction: false,
        },
    }
}

/// What a refresh writes to an entity, given the style that its theme gave
/// (if any) and which interaction components it has.
pub fn plan_refresh(style: Option<StyleTraits>, has_interaction: bool, has_flux_interaction: bool) -> (plan:
    ThemeRefresh)
    ensures
        plan == spec_plan_refresh(style, has_interaction, has_flux_interaction),
{
    match style {
        Some(traits) => {
            let tracks = traits.interactive || traits.animated;
            ThemeRefresh {
                insert_style: true,
                insert_interaction: tracks && !has_interaction,
                insert_tracked_interaction: tracks && !has_flux_interaction,
            }
        },
        None => ThemeRefresh {
            insert_style: false,
            insert_interaction: false,
            insert_tracked_interaction: false,
        },
    }
}

} // verus!
