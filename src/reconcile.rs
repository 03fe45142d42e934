use vstd::prelude::*;

use crate::config::{texts, AppConfig};
use crate::errors::ImapAttachmentDaemonError;
use crate::mail::{
    selection, batch_of, filter_messages_by_source_and_whitelist, filtered_uids, plan_batch, plan_views,
    FetchedMail, MessagePlan,
};
use crate::search::{
    all_present, collect_uids, criteria_text, generate_search_criteria, idle_fetch_set,
    startup_fetch_set,
};
use crate::text::{sequence_set, sequence_set_text};

verus! {

/// Why a reconciliation cycle runs.
#[derive(PartialEq, Eq, Structural, Clone, Copy, Debug)]
pub enum CyclePath {
    /// Once, when the daemon starts: the search filters by target and sender.
    Startup,
    /// After a notification for this sequence number: the search asks for
    /// recent unseen messages and the headers are filtered here.
    Notified(u32),
}

/// Where a cycle stands: what it waits for.
#[derive(PartialEq, Eq, Structural, Clone, Copy, Debug)]
pub enum CycleStage {
    /// A fresh session.
    Opening,
    /// The search result.
    Searching,
    /// The UIDs of the messages found.
    ResolvingUids,
    /// The header sections of the messages found.
    FetchingHeaders,
    /// The bodies of the messages to handle.
    FetchingBodies,
    /// The plans to be carried out.
    Disposing,
    /// The end of the session.
    LoggingOut,
    /// Nothing: the cycle is over.
    Done,
}

/// What the session reported for the last action.
pub enum CycleEvent {
    SessionOpened,
    SearchResult(Vec<u32>),
    UidsFetched(Vec<Option<u32>>),
    HeadersFetched(Vec<FetchedMail>),
    BodiesFetched(Vec<FetchedMail>),
    Disposed,
    LoggedOut,
}

/// What the session is to do next.
pub enum CycleAction {
    /// Open a new session on the inbox.
    OpenSession,
    /// Search with these criteria.
    Search(String),
    /// Fetch the UIDs of this sequence set.
    FetchUids(String),
    /// Fetch the header sections of these UIDs.
    FetchHeaders(String),
    /// Fetch the whole messages of these UIDs.
    FetchBodies(String),
    /// Write the files of each plan, then move or unmark its message.
    Execute(Vec<MessagePlan>),
    /// Log out.
    Logout,
    /// The cycle ended well.
    Finish,
    /// The cycle failed; the error ends the daemon.
    Fail(ImapAttachmentDaemonError),
}

/// One reconciliation cycle.
pub struct Cycle {
    pub path: CyclePath,
    pub stage: CycleStage,
    /// The UIDs resolved in this cycle; only they are fetched by UID.
    pub resolved: Vec<u32>,
}

/// Every UID that a header section reports was resolved in this cycle.
pub open spec fn uids_resolved(headers: Seq<FetchedMail>, resolved: Seq<u32>) -> bool {
    forall|i: int|
        0 <= i < headers.len() ==> (#[trigger] headers[i].uid matches Some(u) ==> resolved.contains(u))
}

fn headers_resolved(headers: &Vec<FetchedMail>, resolved: &Vec<u32>) -> (r: bool)
    ensures
        r == uids_resolved(headers@, resolved@),
{
    let mut i: usize = 0;
    while i < headers.len()
        invariant
            0 <= i <= headers.len(),
            uids_resolved(headers@.subrange(0, i as int), resolved@),
        decreases headers.len() - i,
    {
        if let Some(u) = headers[i].uid {
            let mut j: usize = 0;
            let mut found = false;
            while j < resolved.len()
                invariant
                    0 <= j <= resolved.len(),
                    found ==> resolved@.contains(u),
                    !found ==> forall|k: int| 0 <= k < j ==> resolved@[k] != u,
                decreases resolved.len() - j,
            {
                if resolved[j] == u {
                    found = true;
                }
                j = j + 1;
            }
            if !found {
                assert(!uids_resolved(headers@, resolved@)) by {
                    assert(headers@[i as int].uid == Some(u));
                }
                return false;
            }
        }
        assert forall|k: int|
            0 <= k < i + 1 implies (#[trigger] headers@.subrange(0, i + 1)[k].uid matches Some(u)
            ==> resolved@.contains(u)) by {
            if k < i {
                assert(headers@.subrange(0, i + 1)[k] == headers@.subrange(0, i as int)[k]);
            }
        }
        i = i + 1;
    }
    assert(headers@.subrange(0, i as int) =~= headers@);
    true
}

/// One of the items carries the UID.
pub open spec fn item_has_uid(
    items: Seq<(Option<u32>, Result<crate::metadata::MetadataView, ImapAttachmentDaemonError>)>,
    uid: u32,
) -> bool {
    exists|j: int| 0 <= j < items.len() && items[j].0 == Some(uid)
}

/// Every UID that the selection keeps is the UID of one of its items.
pub proof fn lemma_selection_uids(
    items: Seq<(Option<u32>, Result<crate::metadata::MetadataView, ImapAttachmentDaemonError>)>,
    target: Seq<char>,
    whitelist: Set<Seq<char>>,
)
    ensures
        selection(items, target, whitelist) matches Ok(u) ==> forall|k: int|
            0 <= k < u.len() ==> item_has_uid(items, #[trigger] u[k]),
    decreases items.len(),
{
    if items.len() > 0 {
        let rest = items.drop_last();
        lemma_selection_uids(rest, target, whitelist);
        if let Ok(u) = selection(items, target, whitelist) {
            assert forall|k: int| 0 <= k < u.len() implies item_has_uid(items, #[trigger] u[k]) by {
                let prev = selection(rest, target, whitelist)->Ok_0;
                if k < prev.len() {
                    assert(u[k] == prev[k]);
                    assert(item_has_uid(rest, prev[k]));
                    let j = choose|j: int| 0 <= j < rest.len() && rest[j].0 == Some(prev[k]);
                    assert(items[j] == rest[j]);
                } else {
                    assert(items[items.len() - 1].0 == Some(u[k]));
                }
            }
        }
    }
}

/// The search of the event-driven path.
pub open spec fn recent_unseen_text() -> Seq<char> {
    "RECENT UNSEEN"@
}

impl Cycle {
    /// A cycle that starts by opening a session.
    pub fn new(path: CyclePath) -> (r: (Cycle, CycleAction))
        ensures
            r.0.path == path,
            r.0.stage == CycleStage::Opening,
            r.1 is OpenSession,
    {
        (Cycle { path, stage: CycleStage::Opening, resolved: Vec::new() }, CycleAction::OpenSession)
    }

    /// Takes what the session reported and says what it does next.
    ///
    /// An event that the stage does not wait for ends the cycle with
    /// `Finish`.
    pub fn step(&mut self, event: CycleEvent, config: &AppConfig) -> (r: CycleAction)
        ensures
            final(self).path == old(self).path,
            old(self).stage != CycleStage::ResolvingUids ==> final(self).resolved@ == old(
                self,
            ).resolved@,
            // opened: search, with the full criteria at startup
            old(self).stage == CycleStage::Opening && event is SessionOpened ==> {
                &&& final(self).stage == CycleStage::Searching
                &&& r matches CycleAction::Search(s) && (old(self).path == CyclePath::Startup
                    ==> exists|e: Seq<Seq<char>>|
                    crate::config::enumerates(e, texts(config.whitelist@)) && s@ == criteria_text(
                        crate::text::debug_text(config.target_view()),
                        e.map_values(|a: Seq<char>| crate::text::debug_text(a)),
                    )) && (old(self).path is Notified ==> s@ == recent_unseen_text())
            },
            // searched: stop when nothing relevant was found, else resolve UIDs
            old(self).stage == CycleStage::Searching ==> (event matches CycleEvent::SearchResult(found) ==> {
                    let relevant = match old(self).path {
                        CyclePath::Startup => found@.len() > 0,
                        CyclePath::Notified(id) => found@.contains(id),
                    };
                    &&& !relevant ==> (r is Finish && final(self).stage == CycleStage::Done)
                    &&& relevant ==> (r matches CycleAction::FetchUids(s) && s@ == sequence_set_text(
                        found@,
                    ) && final(self).stage == CycleStage::ResolvingUids)
            }),
            // UIDs: every message must have one
            old(self).stage == CycleStage::ResolvingUids ==> (event matches CycleEvent::UidsFetched(reported) ==> {
                    let uids = reported@.map_values(|o: Option<u32>| o->0);
                    &&& !all_present(reported@) ==> (r matches CycleAction::Fail(e) && e is UidMissing
                        && final(self).stage == CycleStage::Done)
                    &&& all_present(reported@) ==> final(self).resolved@ == uids
                &&& all_present(reported@) && old(self).path == CyclePath::Startup ==> (
                    r matches CycleAction::FetchBodies(s) && s@ == sequence_set_text(uids)
                        && final(self).stage == CycleStage::FetchingBodies)
                    &&& all_present(reported@) && old(self).path is Notified ==> (
                    r matches CycleAction::FetchHeaders(s) && s@ == sequence_set_text(uids)
                        && final(self).stage == CycleStage::FetchingHeaders)
            }),
            // headers: fail with the filter's error, log out when it keeps
            // nothing, else fetch exactly the bodies it keeps
            old(self).stage == CycleStage::FetchingHeaders ==> (event matches CycleEvent::HeadersFetched(
                headers,
            ) ==> if !uids_resolved(headers@, old(self).resolved@) {
                r matches CycleAction::Fail(e) && e is UidMissing && final(self).stage
                    == CycleStage::Done
            } else {
                match filtered_uids(headers@, *config) {
                    Err(e) => r == CycleAction::Fail(e) && final(self).stage == CycleStage::Done,
                    Ok(u) => if u.len() == 0 {
                        r is Logout && final(self).stage == CycleStage::LoggingOut
                    } else {
                        &&& r matches CycleAction::FetchBodies(s) && s@ == sequence_set_text(u)
                        &&& final(self).stage == CycleStage::FetchingBodies
                        &&& forall|k: int|
                            0 <= k < u.len() ==> old(self).resolved@.contains(#[trigger] u[k])
                    },
                }
            }),
            // bodies: the batch's first error, or the plans of every message
            old(self).stage == CycleStage::FetchingBodies ==> (event matches CycleEvent::BodiesFetched(
                bodies,
            ) ==> match batch_of(bodies@, texts(config.accepted_file_types@)) {
                Err(e) => r == CycleAction::Fail(e) && final(self).stage == CycleStage::Done,
                Ok(plans) => r matches CycleAction::Execute(ps) && plan_views(ps@) == plans
                    && final(self).stage == CycleStage::Disposing,
            }),
            // disposed: the event-driven path logs out
            old(self).stage == CycleStage::Disposing && event is Disposed ==> {
                &&& old(self).path == CyclePath::Startup ==> (r is Finish && final(self).stage
                    == CycleStage::Done)
                &&& old(self).path is Notified ==> (r is Logout && final(self).stage
                    == CycleStage::LoggingOut)
            },
            old(self).stage == CycleStage::LoggingOut && event is LoggedOut ==> (r is Finish
                && final(self).stage == CycleStage::Done),
            // anything else ends the cycle
            !expected(old(self).stage, event) ==> (r is Finish && final(self).stage
                == CycleStage::Done),
    {
        proof {
            reveal_strlit("RECENT UNSEEN");
        }
        match (self.stage, event) {
            (CycleStage::Opening, CycleEvent::SessionOpened) => {
                self.stage = CycleStage::Searching;
                match self.path {
                    CyclePath::Startup => CycleAction::Search(generate_search_criteria(config)),
                    CyclePath::Notified(_) => CycleAction::Search(
                        String::from_str("RECENT UNSEEN"),
                    ),
                }
            },
            (CycleStage::Searching, CycleEvent::SearchResult(found)) => {
                let next = match self.path {
                    CyclePath::Startup => startup_fetch_set(&found),
                    CyclePath::Notified(id) => idle_fetch_set(id, &found),
                };
                match next {
                    None => {
                        self.stage = CycleStage::Done;
                        CycleAction::Finish
                    },
                    Some(s) => {
                        self.stage = CycleStage::ResolvingUids;
                        CycleAction::FetchUids(s)
                    },
                }
            },
            (CycleStage::ResolvingUids, CycleEvent::UidsFetched(reported)) => {
                match collect_uids(&reported) {
                    Err(e) => {
                        self.stage = CycleStage::Done;
                        CycleAction::Fail(e)
                    },
                    Ok(uids) => {
                        let s = sequence_set(&uids);
                        self.resolved = uids;
                        match self.path {
                            CyclePath::Startup => {
                                self.stage = CycleStage::FetchingBodies;
                                CycleAction::FetchBodies(s)
                            },
                            CyclePath::Notified(_) => {
                                self.stage = CycleStage::FetchingHeaders;
                                CycleAction::FetchHeaders(s)
                            },
                        }
                    },
                }
            },
            (CycleStage::FetchingHeaders, CycleEvent::HeadersFetched(headers)) => {
                if !headers_resolved(&headers, &self.resolved) {
                    self.stage = CycleStage::Done;
                    return CycleAction::Fail(ImapAttachmentDaemonError::UidMissing);
                }
                proof {
                    crate::mail::lemma_header_items_uids(headers@);
                    lemma_selection_uids(
                        crate::mail::header_items(headers@),
                        config.target_view(),
                        texts(config.whitelist@),
                    );
                }
                match filter_messages_by_source_and_whitelist(&headers, config) {
                    Err(e) => {
                        self.stage = CycleStage::Done;
                        CycleAction::Fail(e)
                    },
                    Ok(accepted) => {
                        if accepted.len() == 0 {
                            self.stage = CycleStage::LoggingOut;
                            CycleAction::Logout
                        } else {
                            self.stage = CycleStage::FetchingBodies;
                            CycleAction::FetchBodies(sequence_set(&accepted))
                        }
                    },
                }
            },
            (CycleStage::FetchingBodies, CycleEvent::BodiesFetched(bodies)) => {
                match plan_batch(&bodies, config) {
                    Err(e) => {
                        self.stage = CycleStage::Done;
                        CycleAction::Fail(e)
                    },
                    Ok(plans) => {
                        self.stage = CycleStage::Disposing;
                        CycleAction::Execute(plans)
                    },
                }
            },
            (CycleStage::Disposing, CycleEvent::Disposed) => {
                match self.path {
                    CyclePath::Startup => {
                        self.stage = CycleStage::Done;
                        CycleAction::Finish
                    },
                    CyclePath::Notified(_) => {
                        self.stage = CycleStage::LoggingOut;
                        CycleAction::Logout
                    },
                }
            },
            (CycleStage::LoggingOut, CycleEvent::LoggedOut) => {
                self.stage = CycleStage::Done;
                CycleAction::Finish
            },
            _ => {
                self.stage = CycleStage::Done;
                CycleAction::Finish
            },
        }
    }
}

/// The stage waits for the event.
pub open spec fn expected(stage: CycleStage, event: CycleEvent) -> bool {
    match (stage, event) {
        (CycleStage::Opening, CycleEvent::SessionOpened) => true,
        (CycleStage::Searching, CycleEvent::SearchResult(_)) => true,
        (CycleStage::ResolvingUids, CycleEvent::UidsFetched(_)) => true,
        (CycleStage::FetchingHeaders, CycleEvent::HeadersFetched(_)) => true,
        (CycleStage::FetchingBodies, CycleEvent::BodiesFetched(_)) => true,
        (CycleStage::Disposing, CycleEvent::Disposed) => true,
        (CycleStage::LoggingOut, CycleEvent::LoggedOut) => true,
        _ => false,
    }
}

} // verus!
