//! The way into a merge: only the documents of enabled services
//! that pass validation are merged, and each document that is
//! kept out for failing validation is reported.

use crate::invariants::{lemma_merged_wf, sources_wf};
use crate::merge::{
    events_view, merge_documents, merge_events, merged, sources_view, EventModel, MergeEvent,
    MergeReport, SourceDocument, SourceModel,
};
use crate::model::Json;
use crate::node::Node;
use crate::validate::{is_valid_document, validate_schema};
use vstd::prelude::*;

verus! {

/// A service with its document and its switch, as it is handed to a merge.
#[derive(Clone, Debug, PartialEq, Eq)]
pub struct SourceInput {
    pub name: String,
    pub url: String,
    pub document: Node,
    pub enabled: bool,
}

/// The model of a `SourceInput`.
pub struct SourceInputModel {
    pub name: Seq<char>,
    pub url: Seq<char>,
    pub document: Json,
    pub enabled: bool,
}

impl View for SourceInput {
    type V = SourceInputModel;

    open spec fn view(&self) -> SourceInputModel {
        SourceInputModel {
            name: self.name@,
            url: self.url@,
            document: self.document@,
            enabled: self.enabled,
        }
    }
}

/// The model of a list of inputs.
pub open spec fn inputs_view(inputs: Seq<SourceInput>) -> Seq<SourceInputModel> {
    Seq::new(inputs.len(), |i: int| inputs[i]@)
}

/// The sources that are merged: those that are enabled and whose document
/// passes validation, in their order.
pub open spec fn admitted(inputs: Seq<SourceInputModel>) -> Seq<SourceModel>
    decreases inputs.len(),
{
    if inputs.len() == 0 {
        Seq::empty()
    } else {
        let before = admitted(inputs.drop_last());
        let last = inputs.last();
        if last.enabled && is_valid_document(last.document) {
            before.push(SourceModel { name: last.name, url: last.url, document: last.document })
        } else {
            before
        }
    }
}

/// The reports on the enabled sources whose document fails validation, in
/// their order.
pub open spec fn rejections(inputs: Seq<SourceInputModel>) -> Seq<EventModel>
    decreases inputs.len(),
{
    if inputs.len() == 0 {
        Seq::empty()
    } else {
        let before = rejections(inputs.drop_last());
        let last = inputs.last();
        if last.enabled && !is_valid_document(last.document) {
            before.push(EventModel::InvalidSource { name: last.name })
        } else {
            before
        }
    }
}

/// Every document of the inputs is well formed.
pub open spec fn inputs_wf(inputs: Seq<SourceInputModel>) -> bool {
    forall|i: int| 0 <= i < inputs.len() ==> (#[trigger] inputs[i]).document.wf()
}

/// The sources that are merged are well formed where the inputs are.
pub proof fn lemma_admitted_wf(inputs: Seq<SourceInputModel>)
    requires
        inputs_wf(inputs),
    ensures
        sources_wf(admitted(inputs)),
    decreases inputs.len(),
{
    if inputs.len() > 0 {
        let earlier = inputs.drop_last();
        assert forall|i: int| 0 <= i < earlier.len() implies (#[trigger] earlier[i]).document.wf() by {
            assert(earlier[i] == inputs[i]);
        }
        lemma_admitted_wf(earlier);
        let before = admitted(earlier);
        let last = inputs.last();
        assert(last == inputs[inputs.len() - 1]);
        let after = admitted(inputs);
        assert forall|i: int| 0 <= i < after.len() implies (#[trigger] after[i]).document.wf() by {
            if i < before.len() {
                assert(after[i] == before[i]);
            }
        }
    }
}

/// Merges the documents of the enabled services.
///
/// A service that is switched off takes no part. The document of an
/// enabled service must pass validation; one that fails is kept
/// out and reported, and the merge goes on without it. What is left is
/// merged as `merge_documents` does. The events name the documents that
/// were kept out first, then what the merge itself reports.
pub fn merge_sources(inputs: &Vec<SourceInput>, grouping: bool, proxy: bool) -> (r: MergeReport)
    ensures
        r.document@ == merged(admitted(inputs_view(inputs@)), grouping, proxy),
        events_view(r.events@) == rejections(inputs_view(inputs@)) + merge_events(
            admitted(inputs_view(inputs@)),
            grouping,
            proxy,
        ),
        inputs_wf(inputs_view(inputs@)) ==> r.document.wf(),
{
    proof {
        if inputs_wf(inputs_view(inputs@)) {
            lemma_admitted_wf(inputs_view(inputs@));
            lemma_merged_wf(admitted(inputs_view(inputs@)), grouping, proxy);
        }
    }
    let ghost all = inputs_view(inputs@);
    let mut sources: Vec<SourceDocument> = Vec::new();
    let mut events: Vec<MergeEvent> = Vec::new();
    let mut i: usize = 0;
    assert(all.take(0) =~= Seq::empty());
    assert(sources_view(sources@) =~= Seq::empty());
    assert(events_view(events@) =~= Seq::empty());
    while i < inputs.len()
        invariant
            i <= inputs.len(),
            all == inputs_view(inputs@),
            sources_view(sources@) == admitted(all.take(i as int)),
            events_view(events@) == rejections(all.take(i as int)),
        decreases inputs.len() - i,
    {
        let ghost sources_before = sources_view(sources@);
        let ghost events_before = events_view(events@);
        proof {
            assert(all.take(i + 1).drop_last() =~= all.take(i as int));
            assert(all.take(i + 1).last() == inputs@[i as int]@);
        }
        let input = &inputs[i];
        if input.enabled {
            if validate_schema(&input.document) {
                let source = SourceDocument {
                    name: input.name.clone(),
                    url: input.url.clone(),
                    document: input.document.deep_copy(),
                };
                sources.push(source);
                assert(sources_view(sources@) =~= sources_before.push(
                    SourceModel { name: input.name@, url: input.url@, document: input.document@ },
                ));
            } else {
                events.push(MergeEvent::InvalidSource { name: input.name.clone() });
                assert(events_view(events@) =~= events_before.push(
                    EventModel::InvalidSource { name: input.name@ },
                ));
            }
        }
        i += 1;
    }
    assert(all.take(inputs.len() as int) =~= all);
    let report = merge_documents(&sources, grouping, proxy);
    let ghost rejected = events_view(events@);
    let ghost reported = events_view(report.events@);
    let mut merged_events = report.events;
    events.append(&mut merged_events);
    assert(events_view(events@) =~= rejected + reported);
    MergeReport { document: report.document, events }
}

} // verus!
