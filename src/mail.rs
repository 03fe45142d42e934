use mail_parser::MimeHeaders;
use vstd::string::StrSliceExecFns;
use vstd::prelude::*;

use crate::config::{sorted_entries, texts, views, AppConfig};
use crate::errors::ImapAttachmentDaemonError;
use crate::metadata::{opt_view, MessageMetadata, MetadataView};
use crate::text::{
    debug_quoted, debug_text, last_component, last_component_of, lemma_last_component_plain,
    lower_of, lowercase, path_extension, path_extension_of, plain_file_name,
};

verus! {

/// Whether `mail_parser` accepts the bytes as a message.
pub uninterp spec fn mail_parses(raw: Seq<u8>) -> bool;

/// What `mail_parser` reads from the headers of a message: the address of the
/// first sender, the addresses of the To list (absent when the field is
/// missing or grouped), and the subject.
pub uninterp spec fn parsed_headers(raw: Seq<u8>) -> (
    Option<Seq<char>>,
    Option<Seq<Option<Seq<char>>>>,
    Option<Seq<char>>,
);

/// What `mail_parser` lists as the attachments of a message: for each, whether
/// it is an embedded message, its file name, and its decoded bytes.
pub uninterp spec fn parsed_parts(raw: Seq<u8>) -> Seq<(bool, Option<Seq<char>>, Seq<u8>)>;

/// The header fields that classification reads, as texts.
pub type HeaderView = (Option<Seq<char>>, Option<Seq<Option<Seq<char>>>>, Option<Seq<char>>);

/// An attachment part, as plain values.
pub type PartView = (bool, Option<Seq<char>>, Seq<u8>);

/// Relies on `mail_parser::MessageParser::parse` and, on the message it
/// yields, `Message::from`, `Address::first`, `Addr::address`, `Message::to`,
/// `Address::as_list` and `Message::subject`: all depend on the bytes alone.
#[verifier::external_body]
fn read_headers(raw: &[u8]) -> (r: Option<HeaderFields>)
    ensures
        r is Some <==> mail_parses(raw@),
        r matches Some(h) ==> header_view(h) == parsed_headers(raw@),
{
    let m = mail_parser::MessageParser::default().parse(raw)?;
    let text = |s: Option<&str>| s.map(String::from);
    let sender = m.from().and_then(|a| a.first()).and_then(|a| text(a.address()));
    let to = m.to().and_then(|a| a.as_list());
    let recipients = to.map(|l| l.iter().map(|a| text(a.address())).collect());
    Some(HeaderFields { sender, recipients, subject: text(m.subject()) })
}

/// Relies on `mail_parser::MessageParser::parse` and, on the message it
/// yields, `Message::attachments`, `MessagePart::is_message`,
/// `MimeHeaders::attachment_name` and `MessagePart::contents`: all depend on
/// the bytes alone.
#[verifier::external_body]
fn read_parts(raw: &[u8]) -> (r: Option<Vec<AttachmentPart>>)
    ensures
        r is Some <==> mail_parses(raw@),
        r matches Some(v) ==> part_views(v@) == parsed_parts(raw@),
{
    let m = mail_parser::MessageParser::default().parse(raw)?;
    let part = |p: &mail_parser::MessagePart| AttachmentPart {
        is_message: p.is_message(),
        name: p.attachment_name().map(String::from),
        contents: p.contents().to_vec(),
    };
    Some(m.attachments().map(part).collect())
}

/// One message as the server returned it.
pub struct FetchedMail {
    /// The message's UID, when the server reported it.
    pub uid: Option<u32>,
    /// The header section, when it was fetched.
    pub header: Option<Vec<u8>>,
    /// The whole message, when it was fetched.
    pub body: Option<Vec<u8>>,
}

/// The header fields that classification reads.
pub struct HeaderFields {
    /// The address of the first sender, when there is one.
    pub sender: Option<String>,
    /// The addresses of the To list, `None` when it is absent or grouped.
    pub recipients: Option<Vec<Option<String>>>,
    /// The subject.
    pub subject: Option<String>,
}

/// A leaf part that may be kept as a file.
pub struct AttachmentPart {
    /// Whether the part is itself a message.
    pub is_message: bool,
    /// Its declared file name.
    pub name: Option<String>,
    /// Its bytes.
    pub contents: Vec<u8>,
}

/// What a parsed message holds for the pipeline.
pub struct MailContent {
    pub headers: HeaderFields,
    pub attachments: Vec<AttachmentPart>,
}

/// The texts of optional strings.
pub open spec fn opt_views(v: Seq<Option<String>>) -> Seq<Option<Seq<char>>> {
    v.map_values(|o: Option<String>| opt_view(o))
}

/// The header fields as texts.
pub open spec fn header_view(h: HeaderFields) -> HeaderView {
    (
        opt_view(h.sender),
        match h.recipients {
            None => None,
            Some(l) => Some(opt_views(l@)),
        },
        opt_view(h.subject),
    )
}

/// A part as plain values.
pub open spec fn part_view(p: AttachmentPart) -> PartView {
    (p.is_message, opt_view(p.name), p.contents@)
}

/// The parts as plain values.
pub open spec fn part_views(v: Seq<AttachmentPart>) -> Seq<PartView> {
    v.map_values(|p: AttachmentPart| part_view(p))
}

/// A file to write into the attachments directory.
pub struct SavedAttachment {
    /// The lower-cased file name.
    pub filename: String,
    /// The bytes to write.
    pub contents: Vec<u8>,
}

/// What becomes of a handled message.
#[derive(PartialEq, Eq, Structural, Clone, Copy, Debug)]
pub enum Disposition {
    /// Move it to the Trash folder.
    MoveToTrash,
    /// Clear its seen flag, so that it stays visible.
    MarkUnread,
}

/// Everything to do for one message: the files to write, then its disposition.
pub struct MessagePlan {
    pub uid: u32,
    pub metadata: MessageMetadata,
    pub attachments: Vec<SavedAttachment>,
    pub disposition: Disposition,
}

/// The disposition owed to a message that kept `n` files.
pub open spec fn disposition_for(n: nat) -> Disposition {
    if n > 0 {
        Disposition::MoveToTrash
    } else {
        Disposition::MarkUnread
    }
}

/// Every recipient has an address.
pub open spec fn all_addressed(v: Seq<Option<Seq<char>>>) -> bool {
    forall|k: int| 0 <= k < v.len() ==> v[k] is Some
}

/// What the header fields describe, or why they describe no message: the
/// sender must have an address, and the To list must be present, not empty,
/// and give an address for every recipient.
pub open spec fn descriptors_of(h: HeaderView) -> Result<MetadataView, ImapAttachmentDaemonError> {
    match h.0 {
        None => Err(ImapAttachmentDaemonError::SenderMissing),
        Some(from) => match h.1 {
            None => Err(ImapAttachmentDaemonError::DestinationsMissing),
            Some(list) => if list.len() > 0 && all_addressed(list) {
                Ok(
                    MetadataView {
                        from: from,
                        to: list.map_values(|o: Option<Seq<char>>| o->0),
                        subject: h.2,
                    },
                )
            } else {
                Err(ImapAttachmentDaemonError::DestinationsMissing)
            },
        },
    }
}

/// The view of a result that carries metadata.
pub open spec fn metadata_result(r: Result<MessageMetadata, ImapAttachmentDaemonError>) -> Result<
    MetadataView,
    ImapAttachmentDaemonError,
> {
    match r {
        Ok(m) => Ok(m@),
        Err(e) => Err(e),
    }
}

/// Reads sender, recipients and subject: the sender and every recipient must
/// have an address.
pub fn extract_descriptors(h: &HeaderFields) -> (r: Result<MessageMetadata, ImapAttachmentDaemonError>)
    ensures
        metadata_result(r) == descriptors_of(header_view(*h)),
{
    let from = match &h.sender {
        None => {
            return Err(ImapAttachmentDaemonError::SenderMissing);
        },
        Some(f) => f.clone(),
    };
    let list = match &h.recipients {
        None => {
            return Err(ImapAttachmentDaemonError::DestinationsMissing);
        },
        Some(l) => l,
    };
    if list.len() == 0 {
        return Err(ImapAttachmentDaemonError::DestinationsMissing);
    }
    let ghost texts_of = opt_views(list@);
    let mut to: Vec<String> = Vec::new();
    let mut i: usize = 0;
    while i < list.len()
        invariant
            0 <= i <= list.len(),
            h.sender == Some(from),
            h.recipients == Some(*list),
            texts_of == opt_views(list@),
            all_addressed(texts_of.subrange(0, i as int)),
            to@.map_values(|t: String| t@) =~= texts_of.subrange(0, i as int).map_values(
                |o: Option<Seq<char>>| o->0,
            ),
        decreases list.len() - i,
    {
        match &list[i] {
            None => {
                assert(!(texts_of[i as int] is Some));
                return Err(ImapAttachmentDaemonError::DestinationsMissing);
            },
            Some(a) => {
                to.push(a.clone());
            },
        }
        assert(texts_of.subrange(0, i + 1).map_values(|o: Option<Seq<char>>| o->0) =~= texts_of.subrange(
            0,
            i as int,
        ).map_values(|o: Option<Seq<char>>| o->0).push(texts_of[i as int]->0));
        assert(all_addressed(texts_of.subrange(0, i + 1)));
        i = i + 1;
    }
    assert(texts_of.subrange(0, i as int) =~= texts_of);
    let subject = match &h.subject {
        Some(s) => Some(s.clone()),
        None => None,
    };
    let r = MessageMetadata::new(from, to, subject);
    assert(r@.to =~= texts_of.map_values(|o: Option<Seq<char>>| o->0));
    Ok(r)
}

/// The view of an attachment decision: the name to save under, if any.
pub open spec fn saved_name(r: Result<Option<String>, ImapAttachmentDaemonError>) -> Result<
    Option<Seq<char>>,
    ImapAttachmentDaemonError,
> {
    match r {
        Ok(Some(s)) => Ok(Some(s@)),
        Ok(None) => Ok(None),
        Err(e) => Err(e),
    }
}

/// The decision for a lower-cased file name and its extension: keep the file
/// under that name when the extension is accepted.
pub open spec fn extension_verdict(
    lowered: Seq<char>,
    extension: Option<Option<Seq<char>>>,
    accepted: Set<Seq<char>>,
) -> Result<Option<Seq<char>>, ImapAttachmentDaemonError> {
    match extension {
        None => Err(ImapAttachmentDaemonError::ExtensionMissing),
        Some(None) => Err(ImapAttachmentDaemonError::ExtensionConvertError),
        Some(Some(e)) => if accepted.contains(e) {
            Ok(Some(lowered))
        } else {
            Ok(None)
        },
    }
}

/// The decision for one part: embedded messages are passed over, a part
/// without file name is an error, else the last component of its lower-cased
/// name is the file name; it must not be empty, `.` or `..`, and its extension
/// decides.
pub open spec fn attachment_verdict(
    is_message: bool,
    name: Option<Seq<char>>,
    accepted: Set<Seq<char>>,
) -> Result<Option<Seq<char>>, ImapAttachmentDaemonError> {
    if is_message {
        Ok(None)
    } else {
        match name {
            None => Err(ImapAttachmentDaemonError::FilenameMissing),
            Some(n) => {
                let base = last_component(lower_of(n));
                if base.len() == 0 || base == "."@ || base == ".."@ {
                    Err(ImapAttachmentDaemonError::FilenameMissing)
                } else {
                    extension_verdict(base, path_extension_of(base), accepted)
                }
            },
        }
    }
}

fn contains_text(v: &[String], s: &String) -> (r: bool)
    ensures
        r == views(v@).contains(s@),
{
    let mut i: usize = 0;
    while i < v.len()
        invariant
            0 <= i <= v.len(),
            forall|k: int| 0 <= k < i ==> v@[k]@ != s@,
        decreases v.len() - i,
    {
        if v[i] == *s {
            assert(views(v@)[i as int] == s@);
            return true;
        }
        i = i + 1;
    }
    false
}

/// Decides on a lower-cased file name from its extension.
pub fn classify_extension(
    lowered: String,
    extension: Option<Option<String>>,
    accepted: &Vec<String>,
) -> (r: Result<Option<String>, ImapAttachmentDaemonError>)
    ensures
        saved_name(r) == extension_verdict(
            lowered@,
            match extension {
                None => None,
                Some(None) => Some(None),
                Some(Some(e)) => Some(Some(e@)),
            },
            views(accepted@).to_set(),
        ),
{
    match extension {
        None => Err(ImapAttachmentDaemonError::ExtensionMissing),
        Some(None) => Err(ImapAttachmentDaemonError::ExtensionConvertError),
        Some(Some(e)) => {
            if contains_text(accepted.as_slice(), &e) {
                Ok(Some(lowered))
            } else {
                Ok(None)
            }
        },
    }
}

fn is_special_name(n: &String) -> (r: bool)
    ensures
        r == (n@.len() == 0 || n@ == "."@ || n@ == ".."@),
{
    proof {
        reveal_strlit(".");
        reveal_strlit("..");
    }
    n.as_str().unicode_len() == 0 || *n == String::from_str(".") || *n == String::from_str("..")
}

/// Decides on one part: `Ok(Some(name))` when it is to be written under
/// `name`, `Ok(None)` when it is passed over. A kept name is a plain file
/// name, so the file lands directly in the attachments directory.
pub fn check_and_save_attachment(part: &AttachmentPart, accepted: &Vec<String>) -> (r: Result<
    Option<String>,
    ImapAttachmentDaemonError,
>)
    ensures
        saved_name(r) == attachment_verdict(
            part.is_message,
            opt_view(part.name),
            views(accepted@).to_set(),
        ),
        r matches Ok(Some(n)) ==> plain_file_name(n@),
{
    if part.is_message {
        return Ok(None);
    }
    match &part.name {
        None => Err(ImapAttachmentDaemonError::FilenameMissing),
        Some(n) => {
            let lowered = lowercase(n.as_str());
            let base = last_component_of(lowered.as_str());
            proof {
                lemma_last_component_plain(lowered@);
            }
            if is_special_name(&base) {
                return Err(ImapAttachmentDaemonError::FilenameMissing);
            }
            let extension = path_extension(base.as_str());
            classify_extension(base, extension, accepted)
        },
    }
}

/// Kept file names are plain: whatever the declared name, the file lands
/// directly in the attachments directory.
pub proof fn lemma_kept_names_are_plain(
    is_message: bool,
    name: Option<Seq<char>>,
    accepted: Set<Seq<char>>,
)
    ensures
        attachment_verdict(is_message, name, accepted) matches Ok(Some(n)) ==> plain_file_name(n),
{
    if let Some(n) = name {
        lemma_last_component_plain(lower_of(n));
    }
}

/// The files that the parts give, in order, or the first part's error.
pub open spec fn kept_files(parts: Seq<PartView>, accepted: Set<Seq<char>>) -> Result<
    Seq<(Seq<char>, Seq<u8>)>,
    ImapAttachmentDaemonError,
>
    decreases parts.len(),
{
    if parts.len() == 0 {
        Ok(Seq::empty())
    } else {
        match kept_files(parts.drop_last(), accepted) {
            Err(e) => Err(e),
            Ok(kept) => match attachment_verdict(parts.last().0, parts.last().1, accepted) {
                Err(e) => Err(e),
                Ok(None) => Ok(kept),
                Ok(Some(n)) => Ok(kept.push((n, parts.last().2))),
            },
        }
    }
}

/// The files of a plan, as names and bytes.
pub open spec fn files_view(v: Seq<SavedAttachment>) -> Seq<(Seq<char>, Seq<u8>)> {
    v.map_values(|a: SavedAttachment| (a.filename@, a.contents@))
}

/// A plan as plain values: the UID, the metadata, the files as names and
/// bytes, and the disposition.
pub type PlanView = (u32, MetadataView, Seq<(Seq<char>, Seq<u8>)>, Disposition);

/// The view of a plan.
pub open spec fn plan_view(p: MessagePlan) -> PlanView {
    (p.uid, p.metadata@, files_view(p.attachments@), p.disposition)
}

/// The view of a planned message or its error.
pub open spec fn plan_result(r: Result<MessagePlan, ImapAttachmentDaemonError>) -> Result<
    PlanView,
    ImapAttachmentDaemonError,
> {
    match r {
        Ok(p) => Ok(plan_view(p)),
        Err(e) => Err(e),
    }
}

/// The plan for message `uid` with these headers and parts: its metadata,
/// the files of its accepted attachments, then Trash when at least one file
/// is kept and unread otherwise; or the first error.
pub open spec fn plan_of(
    uid: u32,
    headers: HeaderView,
    parts: Seq<PartView>,
    accepted: Set<Seq<char>>,
) -> Result<PlanView, ImapAttachmentDaemonError> {
    match descriptors_of(headers) {
        Err(e) => Err(e),
        Ok(m) => match kept_files(parts, accepted) {
            Err(e) => Err(e),
            Ok(files) => Ok((uid, m, files, disposition_for(files.len()))),
        },
    }
}

/// Plans one message from what it holds, as `plan_of` states.
pub fn plan_from_content(uid: u32, content: &MailContent, accepted: &Vec<String>) -> (r: Result<
    MessagePlan,
    ImapAttachmentDaemonError,
>)
    ensures
        plan_result(r) == plan_of(
            uid,
            header_view(content.headers),
            part_views(content.attachments@),
            views(accepted@).to_set(),
        ),
{
    let metadata = match extract_descriptors(&content.headers) {
        Ok(m) => m,
        Err(e) => {
            return Err(e);
        },
    };
    let ghost acc = views(accepted@).to_set();
    let parts = &content.attachments;
    let ghost pv = part_views(parts@);
    let mut saved: Vec<SavedAttachment> = Vec::new();
    let mut i: usize = 0;
    assert(pv.subrange(0, 0) =~= Seq::<PartView>::empty());
    assert(files_view(saved@) =~= Seq::<(Seq<char>, Seq<u8>)>::empty());
    while i < parts.len()
        invariant
            0 <= i <= parts.len(),
            acc == views(accepted@).to_set(),
            parts == &content.attachments,
            pv == part_views(parts@),
            descriptors_of(header_view(content.headers)) == Ok::<
                MetadataView,
                ImapAttachmentDaemonError,
            >(metadata@),
            kept_files(pv.subrange(0, i as int), acc) == Ok::<
                Seq<(Seq<char>, Seq<u8>)>,
                ImapAttachmentDaemonError,
            >(files_view(saved@)),
        decreases parts.len() - i,
    {
        let part = &parts[i];
        assert(pv.subrange(0, i + 1).drop_last() =~= pv.subrange(0, i as int));
        assert(pv.subrange(0, i + 1).last() == part_view(*part));
        match check_and_save_attachment(part, accepted) {
            Err(e) => {
                assert(kept_files(pv.subrange(0, i + 1), acc) == Err::<
                    Seq<(Seq<char>, Seq<u8>)>,
                    ImapAttachmentDaemonError,
                >(e));
                proof {
                    lemma_kept_files_error(pv, acc, i + 1);
                }
                return Err(e);
            },
            Ok(None) => {},
            Ok(Some(filename)) => {
                let ghost before = saved@;
                saved.push(SavedAttachment { filename, contents: part.contents.clone() });
                assert(files_view(saved@) =~= files_view(before).push(
                    (saved@.last().filename@, part.contents@),
                ));
            },
        }
        i = i + 1;
    }
    assert(pv.subrange(0, i as int) =~= pv);
    let disposition = if saved.len() > 0 {
        Disposition::MoveToTrash
    } else {
        Disposition::MarkUnread
    };
    Ok(MessagePlan { uid, metadata, attachments: saved, disposition })
}

/// File names are matched without regard to case: two names that lower-case
/// alike get the same decision, and a kept file is named by the last
/// component of the lower-cased name.
pub proof fn lemma_case_insensitive_names(a: Seq<char>, b: Seq<char>, accepted: Set<Seq<char>>)
    requires
        lower_of(a) == lower_of(b),
    ensures
        attachment_verdict(false, Some(a), accepted) == attachment_verdict(
            false,
            Some(b),
            accepted,
        ),
        attachment_verdict(false, Some(a), accepted) matches Ok(Some(n)) ==> n == last_component(
            lower_of(a),
        ),
{
}

/// A plan moves its message to Trash exactly when it writes at least one file,
/// whatever other parts were passed over, and otherwise clears its seen flag.
pub proof fn lemma_disposition_follows_files(f: FetchedMail, p: MessagePlan)
    requires
        planned(f, p),
    ensures
        p.attachments@.len() > 0 ==> p.disposition == Disposition::MoveToTrash,
        p.attachments@.len() == 0 ==> p.disposition == Disposition::MarkUnread,
        p.disposition == Disposition::MoveToTrash <==> p.attachments@.len() > 0,
{
}

/// Once a prefix of the parts fails, the whole sequence fails the same way.
proof fn lemma_kept_files_error(parts: Seq<PartView>, acc: Set<Seq<char>>, n: int)
    requires
        0 <= n <= parts.len(),
        kept_files(parts.subrange(0, n), acc) is Err,
    ensures
        kept_files(parts, acc) == kept_files(parts.subrange(0, n), acc),
    decreases parts.len() - n,
{
    if n < parts.len() {
        let next = parts.subrange(0, n + 1);
        assert(next.drop_last() =~= parts.subrange(0, n));
        lemma_kept_files_error(parts, acc, n + 1);
    } else {
        assert(parts.subrange(0, n) =~= parts);
    }
}

/// The plan for one fetched message: it must carry a UID and a body that
/// parses; then what `mail_parser` reads from the body decides.
pub open spec fn message_plan_of(f: FetchedMail, accepted: Set<Seq<char>>) -> Result<
    PlanView,
    ImapAttachmentDaemonError,
> {
    match f.uid {
        None => Err(ImapAttachmentDaemonError::UidMissing),
        Some(u) => match f.body {
            None => Err(ImapAttachmentDaemonError::BodyMissing),
            Some(b) => if mail_parses(b@) {
                plan_of(u, parsed_headers(b@), parsed_parts(b@), accepted)
            } else {
                Err(ImapAttachmentDaemonError::ParsingError)
            },
        },
    }
}

/// Plans one fetched message, as `message_plan_of` states.
pub fn plan_message(fetch: &FetchedMail, accepted: &Vec<String>) -> (r: Result<
    MessagePlan,
    ImapAttachmentDaemonError,
>)
    ensures
        plan_result(r) == message_plan_of(*fetch, views(accepted@).to_set()),
{
    let uid = match fetch.uid {
        None => {
            return Err(ImapAttachmentDaemonError::UidMissing);
        },
        Some(u) => u,
    };
    let raw = match &fetch.body {
        None => {
            return Err(ImapAttachmentDaemonError::BodyMissing);
        },
        Some(b) => b,
    };
    let headers = match read_headers(raw.as_slice()) {
        None => {
            return Err(ImapAttachmentDaemonError::ParsingError);
        },
        Some(h) => h,
    };
    let attachments = match read_parts(raw.as_slice()) {
        None => {
            return Err(ImapAttachmentDaemonError::ParsingError);
        },
        Some(a) => a,
    };
    plan_from_content(uid, &MailContent { headers, attachments }, accepted)
}

/// The plan belongs to the fetched message and its disposition follows from
/// the number of files it keeps.
pub open spec fn planned(f: FetchedMail, p: MessagePlan) -> bool {
    f.uid == Some(p.uid) && p.disposition == disposition_for(p.attachments@.len())
}

/// The plans of a batch, in order, or the error of its first failing message.
pub open spec fn batch_of(fetches: Seq<FetchedMail>, accepted: Set<Seq<char>>) -> Result<
    Seq<PlanView>,
    ImapAttachmentDaemonError,
>
    decreases fetches.len(),
{
    if fetches.len() == 0 {
        Ok(Seq::empty())
    } else {
        match batch_of(fetches.drop_last(), accepted) {
            Err(e) => Err(e),
            Ok(plans) => match message_plan_of(fetches.last(), accepted) {
                Err(e) => Err(e),
                Ok(p) => Ok(plans.push(p)),
            },
        }
    }
}

/// The views of plans.
pub open spec fn plan_views(v: Seq<MessagePlan>) -> Seq<PlanView> {
    v.map_values(|p: MessagePlan| plan_view(p))
}

/// The view of a planned batch or its error.
pub open spec fn batch_result(r: Result<Vec<MessagePlan>, ImapAttachmentDaemonError>) -> Result<
    Seq<PlanView>,
    ImapAttachmentDaemonError,
> {
    match r {
        Ok(v) => Ok(plan_views(v@)),
        Err(e) => Err(e),
    }
}

/// Once a prefix of the batch fails, the whole batch fails the same way.
proof fn lemma_batch_error(fetches: Seq<FetchedMail>, acc: Set<Seq<char>>, n: int)
    requires
        0 <= n <= fetches.len(),
        batch_of(fetches.subrange(0, n), acc) is Err,
    ensures
        batch_of(fetches, acc) == batch_of(fetches.subrange(0, n), acc),
    decreases fetches.len() - n,
{
    if n < fetches.len() {
        assert(fetches.subrange(0, n + 1).drop_last() =~= fetches.subrange(0, n));
        lemma_batch_error(fetches, acc, n + 1);
    } else {
        assert(fetches.subrange(0, n) =~= fetches);
    }
}

/// Plans a batch of fetched messages, all of them or none: the first message
/// that fails stops the batch, with its own error, before any file is
/// written.
pub fn plan_batch(fetches: &Vec<FetchedMail>, config: &AppConfig) -> (r: Result<
    Vec<MessagePlan>,
    ImapAttachmentDaemonError,
>)
    ensures
        batch_result(r) == batch_of(fetches@, texts(config.accepted_file_types@)),
        (exists|i: int| 0 <= i < fetches@.len() && fetches@[i].uid is None) ==> r is Err,
        r matches Ok(ps) ==> ps@.len() == fetches@.len() && forall|i: int|
            0 <= i < ps@.len() ==> planned(fetches@[i], #[trigger] ps@[i]),
{
    let accepted = sorted_entries(&config.accepted_file_types);
    let ghost acc = views(accepted@).to_set();
    assert(acc == texts(config.accepted_file_types@));
    let mut plans: Vec<MessagePlan> = Vec::new();
    let mut i: usize = 0;
    assert(fetches@.subrange(0, 0) =~= Seq::<FetchedMail>::empty());
    assert(plan_views(plans@) =~= Seq::<PlanView>::empty());
    while i < fetches.len()
        invariant
            0 <= i <= fetches.len(),
            acc == views(accepted@).to_set(),
            acc == texts(config.accepted_file_types@),
            plans@.len() == i,
            forall|k: int| 0 <= k < i ==> planned(fetches@[k], #[trigger] plans@[k]),
            batch_of(fetches@.subrange(0, i as int), acc) == Ok::<
                Seq<PlanView>,
                ImapAttachmentDaemonError,
            >(plan_views(plans@)),
        decreases fetches.len() - i,
    {
        assert(fetches@.subrange(0, i + 1).drop_last() =~= fetches@.subrange(0, i as int));
        assert(fetches@.subrange(0, i + 1).last() == fetches@[i as int]);
        match plan_message(&fetches[i], &accepted) {
            Ok(p) => {
                let ghost before = plans@;
                let ghost pv = plan_view(p);
                proof {
                    assert(files_view(p.attachments@).len() == p.attachments@.len());
                }
                plans.push(p);
                assert forall|k: int| 0 <= k < i + 1 implies planned(
                    fetches@[k],
                    #[trigger] plans@[k],
                ) by {
                    if k < i {
                        assert(plans@[k] == before[k]);
                    }
                }
                assert(plan_views(plans@) =~= plan_views(before).push(pv));
            },
            Err(e) => {
                assert(batch_of(fetches@.subrange(0, i + 1), acc) == Err::<
                    Seq<PlanView>,
                    ImapAttachmentDaemonError,
                >(e));
                proof {
                    lemma_batch_error(fetches@, acc, i + 1);
                }
                return Err(e);
            },
        }
        i = i + 1;
    }
    assert(fetches@.subrange(0, i as int) =~= fetches@);
    assert forall|j: int| 0 <= j < fetches@.len() implies fetches@[j].uid is Some by {
        assert(planned(fetches@[j], plans@[j]));
    }
    Ok(plans)
}

/// The message is addressed to `target` and comes from a listed sender.
pub open spec fn accepted_by(m: MetadataView, target: Seq<char>, whitelist: Set<Seq<char>>) -> bool {
    m.to.contains(target) && whitelist.contains(m.from)
}

/// Whether the message is addressed to `target` and its sender is listed.
pub fn accepts(metadata: &MessageMetadata, target: &String, whitelist: &Vec<String>) -> (r: bool)
    ensures
        r == accepted_by(metadata@, target@, views(whitelist@).to_set()),
{
    let to = metadata.to();
    if !contains_text(to, target) {
        assert(views(to@) == metadata@.to);
        return false;
    }
    let from = String::from_str(metadata.from());
    contains_text(whitelist.as_slice(), &from)
}

/// A message known by its header section: its UID, if reported, and what
/// classification made of it.
pub struct HeaderCandidate {
    pub uid: Option<u32>,
    pub metadata: Result<MessageMetadata, ImapAttachmentDaemonError>,
}

/// The view of a candidate.
pub open spec fn candidate_view(c: HeaderCandidate) -> (Option<u32>, Result<
    MetadataView,
    ImapAttachmentDaemonError,
>) {
    (c.uid, metadata_result(c.metadata))
}

/// The views of the candidates.
pub open spec fn candidate_views(c: Seq<HeaderCandidate>) -> Seq<
    (Option<u32>, Result<MetadataView, ImapAttachmentDaemonError>),
> {
    c.map_values(|x: HeaderCandidate| candidate_view(x))
}

/// The UIDs of the accepted messages, in order, or the error of the first
/// message that fails: its classification failed, or it is accepted and has
/// no UID.
pub open spec fn selection(
    items: Seq<(Option<u32>, Result<MetadataView, ImapAttachmentDaemonError>)>,
    target: Seq<char>,
    whitelist: Set<Seq<char>>,
) -> Result<Seq<u32>, ImapAttachmentDaemonError>
    decreases items.len(),
{
    if items.len() == 0 {
        Ok(Seq::empty())
    } else {
        match selection(items.drop_last(), target, whitelist) {
            Err(e) => Err(e),
            Ok(kept) => match items.last().1 {
                Err(e) => Err(e),
                Ok(m) => if accepted_by(m, target, whitelist) {
                    match items.last().0 {
                        None => Err(ImapAttachmentDaemonError::UidMissing),
                        Some(u) => Ok(kept.push(u)),
                    }
                } else {
                    Ok(kept)
                },
            },
        }
    }
}

/// The view of a list of UIDs or an error.
pub open spec fn uids_result(r: Result<Vec<u32>, ImapAttachmentDaemonError>) -> Result<
    Seq<u32>,
    ImapAttachmentDaemonError,
> {
    match r {
        Ok(v) => Ok(v@),
        Err(e) => Err(e),
    }
}

/// Once a prefix of the items fails, the whole selection fails the same way.
proof fn lemma_selection_error(
    items: Seq<(Option<u32>, Result<MetadataView, ImapAttachmentDaemonError>)>,
    target: Seq<char>,
    whitelist: Set<Seq<char>>,
    n: int,
)
    requires
        0 <= n <= items.len(),
        selection(items.subrange(0, n), target, whitelist) is Err,
    ensures
        selection(items, target, whitelist) == selection(items.subrange(0, n), target, whitelist),
    decreases items.len() - n,
{
    if n < items.len() {
        assert(items.subrange(0, n + 1).drop_last() =~= items.subrange(0, n));
        lemma_selection_error(items, target, whitelist, n + 1);
    } else {
        assert(items.subrange(0, n) =~= items);
    }
}

/// Takes the candidates out one by one, from the front.
fn select_from(
    candidates: &mut Vec<HeaderCandidate>,
    target: &String,
    whitelist: &Vec<String>,
) -> (r: Result<Vec<u32>, ImapAttachmentDaemonError>)
    ensures
        uids_result(r) == selection(
            candidate_views(old(candidates)@),
            target@,
            views(whitelist@).to_set(),
        ),
{
    let ghost items = candidate_views(old(candidates)@);
    let ghost wl = views(whitelist@).to_set();
    let total: usize = candidates.len();
    let mut out: Vec<u32> = Vec::new();
    let mut i: usize = 0;
    assert(items.subrange(0, 0) =~= Seq::<
        (Option<u32>, Result<MetadataView, ImapAttachmentDaemonError>),
    >::empty());
    while candidates.len() > 0
        invariant
            items == candidate_views(old(candidates)@),
            items.len() == total,
            i + candidates@.len() == total,
            wl == views(whitelist@).to_set(),
            forall|k: int|
                0 <= k < candidates@.len() ==> candidate_view(candidates@[k]) == items[i + k],
            selection(items.subrange(0, i as int), target@, wl) == Ok::<
                Seq<u32>,
                ImapAttachmentDaemonError,
            >(out@),
        decreases candidates@.len(),
    {
        let ghost before = candidates@;
        let c = candidates.remove(0);
        assert(candidate_view(c) == items[i as int]);
        assert forall|k: int|
            0 <= k < candidates@.len() implies candidate_view(candidates@[k]) == items[i + 1 + k] by {
            assert(candidates@[k] == before[k + 1]);
        }
        assert(items.subrange(0, i + 1).drop_last() =~= items.subrange(0, i as int));
        assert(items.subrange(0, i + 1).last() == items[i as int]);
        match c.metadata {
            Err(e) => {
                assert(items[i as int].1 == Err::<MetadataView, ImapAttachmentDaemonError>(e));
                assert(selection(items.subrange(0, i + 1), target@, wl) == Err::<
                    Seq<u32>,
                    ImapAttachmentDaemonError,
                >(e));
                proof {
                    lemma_selection_error(items, target@, wl, i + 1);
                }
                return Err(e);
            },
            Ok(m) => {
                assert(items[i as int].1 == Ok::<MetadataView, ImapAttachmentDaemonError>(m@));
                if accepts(&m, target, whitelist) {
                    match c.uid {
                        None => {
                            proof {
                                lemma_selection_error(items, target@, wl, i + 1);
                            }
                            return Err(ImapAttachmentDaemonError::UidMissing);
                        },
                        Some(u) => {
                            out.push(u);
                        },
                    }
                }
            },
        }
        i = i + 1;
    }
    assert(items.subrange(0, i as int) =~= items);
    Ok(out)
}

/// Keeps, in order, the UIDs of the candidates sent to `target` by a sender
/// of `whitelist`; the first candidate that failed classification, or that is
/// kept without UID, gives the error.
pub fn select_accepted(
    candidates: Vec<HeaderCandidate>,
    target: &String,
    whitelist: &Vec<String>,
) -> (r: Result<Vec<u32>, ImapAttachmentDaemonError>)
    ensures
        uids_result(r) == selection(
            candidate_views(candidates@),
            target@,
            views(whitelist@).to_set(),
        ),
{
    let mut rest = candidates;
    select_from(&mut rest, target, whitelist)
}

/// What classification makes of a header section: it must be there and
/// parse, then the descriptors decide.
pub open spec fn header_verdict(header: Option<Vec<u8>>) -> Result<
    MetadataView,
    ImapAttachmentDaemonError,
> {
    match header {
        None => Err(ImapAttachmentDaemonError::HeaderMissing),
        Some(b) => if mail_parses(b@) {
            descriptors_of(parsed_headers(b@))
        } else {
            Err(ImapAttachmentDaemonError::ParsingError)
        },
    }
}

/// The fetched header sections as UIDs and classifications.
pub open spec fn header_items(headers: Seq<FetchedMail>) -> Seq<
    (Option<u32>, Result<MetadataView, ImapAttachmentDaemonError>),
> {
    headers.map_values(|f: FetchedMail| (f.uid, header_verdict(f.header)))
}

/// The UIDs of the items are those that the header sections report.
pub proof fn lemma_header_items_uids(headers: Seq<FetchedMail>)
    ensures
        header_items(headers).len() == headers.len(),
        forall|j: int| 0 <= j < headers.len() ==> #[trigger] header_items(headers)[j].0 == headers[j].uid,
{
}

/// The UIDs that the header filter keeps for a configuration, or its error.
pub open spec fn filtered_uids(headers: Seq<FetchedMail>, config: AppConfig) -> Result<
    Seq<u32>,
    ImapAttachmentDaemonError,
> {
    selection(header_items(headers), config.target_view(), texts(config.whitelist@))
}

/// Classifies a message from its header section.
fn classify_header(fetch: &FetchedMail) -> (r: Result<MessageMetadata, ImapAttachmentDaemonError>)
    ensures
        metadata_result(r) == header_verdict(fetch.header),
{
    let raw = match &fetch.header {
        None => {
            return Err(ImapAttachmentDaemonError::HeaderMissing);
        },
        Some(h) => h,
    };
    match read_headers(raw.as_slice()) {
        None => Err(ImapAttachmentDaemonError::ParsingError),
        Some(h) => extract_descriptors(&h),
    }
}

/// Keeps the UIDs of the messages, given by their header sections, that are
/// sent to the effective target by a whitelisted sender, in order; the first
/// message whose header is missing or unreadable, or that is kept without
/// UID, gives the error.
pub fn filter_messages_by_source_and_whitelist(
    headers: &Vec<FetchedMail>,
    config: &AppConfig,
) -> (r: Result<Vec<u32>, ImapAttachmentDaemonError>)
    ensures
        uids_result(r) == filtered_uids(headers@, *config),
{
    let whitelist = sorted_entries(&config.whitelist);
    let target = config.effective_target();
    let mut candidates: Vec<HeaderCandidate> = Vec::new();
    let mut i: usize = 0;
    while i < headers.len()
        invariant
            0 <= i <= headers.len(),
            candidates@.len() == i,
            forall|k: int|
                0 <= k < i ==> candidate_view(#[trigger] candidates@[k]) == header_items(
                    headers@,
                )[k],
        decreases headers.len() - i,
    {
        let metadata = classify_header(&headers[i]);
        candidates.push(HeaderCandidate { uid: headers[i].uid, metadata });
        i = i + 1;
    }
    assert(candidate_views(candidates@) =~= header_items(headers@));
    assert(views(whitelist@).to_set() == texts(config.whitelist@));
    select_accepted(candidates, target, &whitelist)
}

/// The text that names a message in the log.
pub open spec fn metadata_text(m: MetadataView) -> Seq<char> {
    "from "@ + m.from + " "@ + match m.subject {
        Some(s) => "with subject "@ + debug_text(s),
        None => Seq::empty(),
    }
}

/// Names a message in the log by its sender and, if it has one, its subject.
pub fn format_email_metadata_message(metadata: &MessageMetadata) -> (r: String)
    ensures
        r@ == metadata_text(metadata@),
{
    proof {
        reveal_strlit("from ");
        reveal_strlit(" ");
        reveal_strlit("with subject ");
    }
    let mut r = String::from_str("from ");
    r.append(metadata.from());
    r.append(" ");
    match metadata.subject() {
        Some(s) => {
            r.append("with subject ");
            let q = debug_quoted(s);
            r.append(q.as_str());
        },
        None => {},
    }
    r
}

} // verus!
