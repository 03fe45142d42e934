use vstd::prelude::*;

use crate::config::{enumerates, sorted_entries, texts, views, AppConfig};
use crate::errors::ImapAttachmentDaemonError;
use crate::text::{debug_quoted, debug_text, joined, sequence_set, sequence_set_text};

verus! {

/// One sender clause of the search.
pub open spec fn from_clause(quoted: Seq<char>) -> Seq<char> {
    "FROM "@ + quoted
}

/// The search for unseen messages sent to `target` by one of `sources`, both
/// given as quoted texts: `UNSEEN TO <target> (<OR if two or more> <clauses>)`.
pub open spec fn criteria_text(target: Seq<char>, sources: Seq<Seq<char>>) -> Seq<char> {
    "UNSEEN TO "@ + target + " ("@ + (if sources.len() > 1 {
        "OR"@
    } else {
        Seq::empty()
    }) + " "@ + joined(sources.map_values(|s: Seq<char>| from_clause(s)), " "@) + ")"@
}

/// Builds the search text from the quoted target and the quoted senders, in
/// the order given.
pub fn build_search_criteria(target: &str, sources: &Vec<String>) -> (r: String)
    ensures
        r@ == criteria_text(target@, views(sources@)),
{
    proof {
        reveal_strlit("UNSEEN TO ");
        reveal_strlit(" (");
        reveal_strlit("OR");
        reveal_strlit(" ");
        reveal_strlit("FROM ");
        reveal_strlit(")");
    }
    let mut r = String::from_str("UNSEEN TO ");
    r.append(target);
    r.append(" (");
    if sources.len() > 1 {
        r.append("OR");
    }
    r.append(" ");
    let ghost head = r@;
    let mut i: usize = 0;
    while i < sources.len()
        invariant
            0 <= i <= sources.len(),
            r@ == head + joined(
                views(sources@.subrange(0, i as int)).map_values(|s: Seq<char>| from_clause(s)),
                " "@,
            ),
        decreases sources.len() - i,
    {
        if i > 0 {
            r.append(" ");
        }
        r.append("FROM ");
        r.append(sources[i].as_str());
        proof {
            let p = views(sources@.subrange(0, i + 1)).map_values(|s: Seq<char>| from_clause(s));
            assert(p.drop_last() =~= views(sources@.subrange(0, i as int)).map_values(
                |s: Seq<char>| from_clause(s),
            ));
            assert(r@ =~= head + joined(p, " "@));
        }
        i = i + 1;
    }
    r.append(")");
    assert(sources@.subrange(0, i as int) =~= sources@);
    assert(r@ =~= criteria_text(target@, views(sources@)));
    r
}

/// The search text for the configuration: unseen messages sent to the
/// effective target by a whitelisted sender, the senders in ascending order.
pub fn generate_search_criteria(config: &AppConfig) -> (r: String)
    ensures
        exists|e: Seq<Seq<char>>|
            enumerates(e, texts(config.whitelist@)) && r@ == criteria_text(
                debug_text(config.target_view()),
                e.map_values(|a: Seq<char>| debug_text(a)),
            ),
{
    let entries = sorted_entries(&config.whitelist);
    let target = debug_quoted(config.effective_target().as_str());
    let mut quoted: Vec<String> = Vec::new();
    let mut i: usize = 0;
    while i < entries.len()
        invariant
            0 <= i <= entries.len(),
            quoted@.len() == i,
            forall|k: int| 0 <= k < i ==> quoted@[k]@ == debug_text(entries@[k]@),
        decreases entries.len() - i,
    {
        quoted.push(debug_quoted(entries[i].as_str()));
        i = i + 1;
    }
    let r = build_search_criteria(target.as_str(), &quoted);
    assert(views(quoted@) =~= views(entries@).map_values(|a: Seq<char>| debug_text(a)));
    r
}

/// What to fetch after the search at startup: nothing when it found nothing,
/// else the sequence numbers it found.
pub fn startup_fetch_set(found: &Vec<u32>) -> (r: Option<String>)
    ensures
        found@.len() == 0 <==> r is None,
        r matches Some(s) ==> s@ == sequence_set_text(found@),
{
    if found.len() == 0 {
        None
    } else {
        Some(sequence_set(found))
    }
}

/// What to fetch after a notification: nothing when the notified message is
/// not among the recent unseen ones, else all of those.
pub fn idle_fetch_set(notified: u32, recent_unseen: &Vec<u32>) -> (r: Option<String>)
    ensures
        !recent_unseen@.contains(notified) <==> r is None,
        r matches Some(s) ==> s@ == sequence_set_text(recent_unseen@),
{
    let mut i: usize = 0;
    while i < recent_unseen.len()
        invariant
            0 <= i <= recent_unseen.len(),
            forall|k: int| 0 <= k < i ==> recent_unseen@[k] != notified,
        decreases recent_unseen.len() - i,
    {
        if recent_unseen[i] == notified {
            return Some(sequence_set(recent_unseen));
        }
        i = i + 1;
    }
    None
}

/// Every entry has a value.
pub open spec fn all_present(v: Seq<Option<u32>>) -> bool {
    forall|k: int| 0 <= k < v.len() ==> v[k] is Some
}

/// The UIDs that a fetch reported, in order; an entry without one is an error.
pub fn collect_uids(reported: &Vec<Option<u32>>) -> (r: Result<Vec<u32>, ImapAttachmentDaemonError>)
    ensures
        all_present(reported@) <==> r is Ok,
        r matches Err(e) ==> e is UidMissing,
        r matches Ok(v) ==> v@ == reported@.map_values(|o: Option<u32>| o->0),
{
    let mut out: Vec<u32> = Vec::new();
    let mut i: usize = 0;
    while i < reported.len()
        invariant
            0 <= i <= reported.len(),
            all_present(reported@.subrange(0, i as int)),
            out@ =~= reported@.subrange(0, i as int).map_values(|o: Option<u32>| o->0),
        decreases reported.len() - i,
    {
        match reported[i] {
            Some(u) => out.push(u),
            None => {
                return Err(ImapAttachmentDaemonError::UidMissing);
            },
        }
        assert(reported@.subrange(0, i + 1).map_values(|o: Option<u32>| o->0) =~= reported@.subrange(
            0,
            i as int,
        ).map_values(|o: Option<u32>| o->0).push(reported@[i as int]->0));
        i = i + 1;
    }
    assert(reported@.subrange(0, i as int) =~= reported@);
    Ok(out)
}

} // verus!
