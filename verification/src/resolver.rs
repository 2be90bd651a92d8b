//! Resolution of player-controlled polities across tag changes.
//!
//! A polity's tag can change over its history. The document's identity data
//! yields one lineage per polity; the resolver keeps the human-controlled
//! lineages that carry at least one tag and summarizes each as a timeline,
//! whose latest tag is the key for locating the polity's current record.
//! Finding no player lineage is not an error: the result is then empty.
use vstd::prelude::*;

use crate::document::{DocumentModel, TagLineage};

verus! {

/// The identity summary of one player-controlled polity.
pub struct PolityTimeline {
    pub initial_tag: String,
    pub latest_tag: String,
    pub is_human: bool,
    pub player_names: Vec<String>,
}

/// Mathematical image of a polity timeline.
pub ghost struct PolityTimelineM {
    pub initial_tag: Seq<char>,
    pub latest_tag: Seq<char>,
    pub is_human: bool,
    pub player_names: Seq<Seq<char>>,
}

impl View for PolityTimeline {
    type V = PolityTimelineM;

    open spec fn view(&self) -> PolityTimelineM {
        PolityTimelineM {
            initial_tag: self.initial_tag@,
            latest_tag: self.latest_tag@,
            is_human: self.is_human,
            player_names: self.player_names.deep_view(),
        }
    }
}

impl DeepView for PolityTimeline {
    type V = PolityTimelineM;

    open spec fn deep_view(&self) -> PolityTimelineM {
        self.view()
    }
}

/// Whether a lineage belongs to a player-controlled polity with a usable
/// identity.
pub open spec fn is_player_lineage(l: TagLineage) -> bool {
    l.is_human && l.tags@.len() > 0
}

/// The timeline a lineage summarizes to: first tag, last tag, players.
pub open spec fn spec_timeline_of(l: TagLineage) -> PolityTimelineM {
    PolityTimelineM {
        initial_tag: l.tags@.first()@,
        latest_tag: l.tags@.last()@,
        is_human: l.is_human,
        player_names: l.player_names.deep_view(),
    }
}

/// The timelines of all player lineages, in document order.
pub open spec fn spec_resolve(ls: Seq<TagLineage>) -> Seq<PolityTimelineM>
    decreases ls.len(),
{
    if ls.len() == 0 {
        Seq::empty()
    } else {
        let prev = spec_resolve(ls.drop_last());
        if is_player_lineage(ls.last()) {
            prev.push(spec_timeline_of(ls.last()))
        } else {
            prev
        }
    }
}

/// Enumerates the player-controlled polities of the document: one timeline
/// per human lineage, in document order, empty when none is found.
pub fn resolve_player_polities(doc: &DocumentModel) -> (r: Vec<PolityTimeline>)
    ensures
        r.deep_view() == spec_resolve(doc.lineages@),
{
    let mut r: Vec<PolityTimeline> = Vec::new();
    let mut i: usize = 0;
    while i < doc.lineages.len()
        invariant
            0 <= i <= doc.lineages@.len(),
            r.deep_view() =~= spec_resolve(doc.lineages@.take(i as int)),
        decreases doc.lineages@.len() - i,
    {
        proof {
            let t = doc.lineages@.take(i as int + 1);
            assert(t.drop_last() =~= doc.lineages@.take(i as int));
            assert(t.last() == doc.lineages@[i as int]);
        }
        let l = &doc.lineages[i];
        if l.is_human && l.tags.len() > 0 {
            let names = l.player_names.clone();
            assert(names.deep_view() =~= l.player_names.deep_view());
            let tl = PolityTimeline {
                initial_tag: l.tags[0].clone(),
                latest_tag: l.tags[l.tags.len() - 1].clone(),
                is_human: l.is_human,
                player_names: names,
            };
            assert(tl@ == spec_timeline_of(doc.lineages@[i as int]));
            r.push(tl);
        }
        i = i + 1;
    }
    assert(doc.lineages@.take(doc.lineages@.len() as int) =~= doc.lineages@);
    r
}

} // verus!
