use std::collections::BTreeSet;

use imap_attachment_daemon::config::{default_accepted_file_types, default_attachments_dir};
use imap_attachment_daemon::idle::{
    listener_step, process_idle_update, IdleEvent, ListenerEvent, ListenerState,
};
use imap_attachment_daemon::mail::{
    accepts, check_and_save_attachment, classify_extension, extract_descriptors,
    filter_messages_by_source_and_whitelist, format_email_metadata_message, plan_batch,
    plan_from_content, plan_message, AttachmentPart, Disposition, FetchedMail, HeaderFields,
    HeaderCandidate, MailContent, select_accepted,
};
use imap_attachment_daemon::search::{
    build_search_criteria, collect_uids, generate_search_criteria, idle_fetch_set,
    startup_fetch_set,
};
use imap_attachment_daemon::text::{last_component_of, push_decimal, sequence_set};
use imap_attachment_daemon::{AppConfig, ImapAttachmentDaemonError, MessageMetadata};

fn mail_with_attachment(filename: &str) -> Vec<u8> {
    format!(
        "From: Alice <a@e.com>\r\n\
         To: t@e.com\r\n\
         Subject: Books\r\n\
         MIME-Version: 1.0\r\n\
         Content-Type: multipart/mixed; boundary=\"XYZ\"\r\n\
         \r\n\
         --XYZ\r\n\
         Content-Type: text/plain\r\n\
         \r\n\
         Hello there\r\n\
         --XYZ\r\n\
         Content-Type: application/octet-stream\r\n\
         Content-Disposition: attachment; filename=\"{filename}\"\r\n\
         Content-Transfer-Encoding: base64\r\n\
         \r\n\
         SGVsbG8=\r\n\
         --XYZ--\r\n"
    )
    .into_bytes()
}

fn config_accepting(types: &[&str]) -> AppConfig {
    AppConfig {
        username: "u@e.com".to_string(),
        target_address: Some("t@e.com".to_string()),
        whitelist: BTreeSet::from_iter(["a@e.com".to_string()]),
        accepted_file_types: types.iter().map(|t| t.to_string()).collect(),
        ..Default::default()
    }
}

#[test]
fn criteria_for_empty_whitelist_and_no_target() {
    let config = AppConfig {
        username: "u@e.com".to_string(),
        ..Default::default()
    };
    assert_eq!(generate_search_criteria(&config), r#"UNSEEN TO "u@e.com" ( )"#);
}

#[test]
fn criteria_for_one_sender() {
    let config = AppConfig {
        username: "u@e.com".to_string(),
        target_address: Some("t@e.com".to_string()),
        whitelist: BTreeSet::from_iter(["a@e.com".to_string()]),
        ..Default::default()
    };
    assert_eq!(generate_search_criteria(&config), r#"UNSEEN TO "t@e.com" ( FROM "a@e.com")"#);
}

#[test]
fn criteria_orders_senders_by_collation() {
    let config = AppConfig {
        username: "u@e.com".to_string(),
        target_address: Some("t@e.com".to_string()),
        whitelist: BTreeSet::from_iter(["b@e.com".to_string(), "a@e.com".to_string()]),
        ..Default::default()
    };
    assert_eq!(
        generate_search_criteria(&config),
        r#"UNSEEN TO "t@e.com" (OR FROM "a@e.com" FROM "b@e.com")"#
    );
}

#[test]
fn criteria_escapes_quotes() {
    let config = AppConfig {
        username: "u\"x@e.com".to_string(),
        ..Default::default()
    };
    assert_eq!(generate_search_criteria(&config), r#"UNSEEN TO "u\"x@e.com" ( )"#);
}

#[test]
fn build_criteria_keeps_given_order() {
    let sources = vec!["\"z\"".to_string(), "\"y\"".to_string(), "\"x\"".to_string()];
    assert_eq!(
        build_search_criteria("\"t\"", &sources),
        r#"UNSEEN TO "t" (OR FROM "z" FROM "y" FROM "x")"#
    );
    assert_eq!(build_search_criteria("t", &vec![]), "UNSEEN TO t ( )");
}

#[test]
fn new_message_event_always_notifies() {
    let r = process_idle_update(&IdleEvent::Exists(42));
    assert_eq!(r.notification, Some(42));
    assert!(!r.keep_waiting);
}

#[test]
fn flag_change_without_seen_notifies() {
    let event = IdleEvent::FlagChange {
        id: 7,
        flag_lists: vec![vec!["\\Flagged".to_string()]],
    };
    let r = process_idle_update(&event);
    assert_eq!(r.notification, Some(7));
    assert!(!r.keep_waiting);
}

#[test]
fn flag_change_with_seen_is_silent() {
    let event = IdleEvent::FlagChange {
        id: 7,
        flag_lists: vec![vec!["\\Flagged".to_string(), "\\Seen".to_string()]],
    };
    let r = process_idle_update(&event);
    assert_eq!(r.notification, None);
    assert!(!r.keep_waiting);
}

#[test]
fn flag_change_without_flag_list_is_silent() {
    let event = IdleEvent::FlagChange { id: 7, flag_lists: vec![] };
    assert_eq!(process_idle_update(&event).notification, None);
}

#[test]
fn disconnect_and_other_events_are_silent() {
    let r = process_idle_update(&IdleEvent::Bye);
    assert_eq!(r.notification, None);
    assert!(!r.keep_waiting);
    assert_eq!(process_idle_update(&IdleEvent::Other).notification, None);
}

#[test]
fn listener_reconnects_and_rewaits() {
    let s = listener_step(ListenerState::Disconnected, ListenerEvent::Start);
    assert_eq!(s, ListenerState::Connecting);
    assert_eq!(listener_step(s, ListenerEvent::ConnectFailed), ListenerState::Connecting);
    let s = listener_step(s, ListenerEvent::Connected);
    assert_eq!(s, ListenerState::Idling);
    assert_eq!(listener_step(s, ListenerEvent::WaitEnded), ListenerState::Idling);
    assert_eq!(listener_step(s, ListenerEvent::TransportError), ListenerState::Connecting);
    assert_eq!(
        listener_step(ListenerState::Idling, ListenerEvent::Connected),
        ListenerState::Idling
    );
}

#[test]
fn sequence_sets_join_decimals() {
    assert_eq!(sequence_set(&vec![3, 10, 250]), "3,10,250");
    assert_eq!(sequence_set(&vec![]), "");
    assert_eq!(sequence_set(&vec![0, 4294967295]), "0,4294967295");
    let mut s = String::from("n=");
    push_decimal(&mut s, 9071);
    assert_eq!(s, "n=9071");
}

#[test]
fn startup_fetch_set_stops_on_empty_search() {
    assert_eq!(startup_fetch_set(&vec![]), None);
    assert_eq!(startup_fetch_set(&vec![2, 9]), Some("2,9".to_string()));
}

#[test]
fn idle_fetch_set_needs_the_notified_message() {
    assert_eq!(idle_fetch_set(4, &vec![1, 5]), None);
    assert_eq!(idle_fetch_set(5, &vec![1, 5]), Some("1,5".to_string()));
    assert_eq!(idle_fetch_set(5, &vec![]), None);
}

#[test]
fn missing_uid_in_fetch_is_an_error() {
    assert!(matches!(
        collect_uids(&vec![Some(4), None]),
        Err(ImapAttachmentDaemonError::UidMissing)
    ));
    assert_eq!(collect_uids(&vec![Some(4), Some(7)]).unwrap(), vec![4, 7]);
}

#[test]
fn attachment_names_match_without_case() {
    let part = AttachmentPart {
        is_message: false,
        name: Some("Report.PDF".to_string()),
        contents: vec![1, 2, 3],
    };
    let r = check_and_save_attachment(&part, &vec!["pdf".to_string()]).unwrap();
    assert_eq!(r, Some("report.pdf".to_string()));
}

#[test]
fn attachment_with_other_extension_is_passed_over() {
    let part = AttachmentPart {
        is_message: false,
        name: Some("notes.txt".to_string()),
        contents: vec![],
    };
    assert_eq!(check_and_save_attachment(&part, &vec!["pdf".to_string()]).unwrap(), None);
}

#[test]
fn embedded_message_is_passed_over() {
    let part = AttachmentPart { is_message: true, name: None, contents: vec![] };
    assert_eq!(check_and_save_attachment(&part, &vec!["pdf".to_string()]).unwrap(), None);
}

#[test]
fn attachment_errors() {
    let accepted = vec!["pdf".to_string()];
    let unnamed = AttachmentPart { is_message: false, name: None, contents: vec![] };
    assert!(matches!(
        check_and_save_attachment(&unnamed, &accepted),
        Err(ImapAttachmentDaemonError::FilenameMissing)
    ));
    let bare = AttachmentPart {
        is_message: false,
        name: Some("README".to_string()),
        contents: vec![],
    };
    assert!(matches!(
        check_and_save_attachment(&bare, &accepted),
        Err(ImapAttachmentDaemonError::ExtensionMissing)
    ));
    assert!(matches!(
        classify_extension("x".to_string(), Some(None), &accepted),
        Err(ImapAttachmentDaemonError::ExtensionConvertError)
    ));
    assert_eq!(
        classify_extension("a.pdf".to_string(), Some(Some("pdf".to_string())), &accepted).unwrap(),
        Some("a.pdf".to_string())
    );
}

#[test]
fn descriptors_need_sender_and_recipients() {
    let no_sender = HeaderFields {
        sender: None,
        recipients: Some(vec![Some("t@e.com".to_string())]),
        subject: None,
    };
    assert!(matches!(
        extract_descriptors(&no_sender),
        Err(ImapAttachmentDaemonError::SenderMissing)
    ));
    let no_list = HeaderFields { sender: Some("a@e.com".to_string()), recipients: None, subject: None };
    assert!(matches!(
        extract_descriptors(&no_list),
        Err(ImapAttachmentDaemonError::DestinationsMissing)
    ));
    let unaddressed = HeaderFields {
        sender: Some("a@e.com".to_string()),
        recipients: Some(vec![Some("t@e.com".to_string()), None]),
        subject: None,
    };
    assert!(matches!(
        extract_descriptors(&unaddressed),
        Err(ImapAttachmentDaemonError::DestinationsMissing)
    ));
    let good = HeaderFields {
        sender: Some("a@e.com".to_string()),
        recipients: Some(vec![Some("t@e.com".to_string()), Some("v@e.com".to_string())]),
        subject: Some("Hi".to_string()),
    };
    let m = extract_descriptors(&good).unwrap();
    assert_eq!(m.from(), "a@e.com");
    assert_eq!(m.to(), &["t@e.com".to_string(), "v@e.com".to_string()]);
    assert_eq!(m.subject(), Some("Hi"));
}

#[test]
fn metadata_log_text() {
    let m = MessageMetadata::new("a@e.com".to_string(), vec![], Some("Books".to_string()));
    assert_eq!(format_email_metadata_message(&m), "from a@e.com with subject \"Books\"");
    let m = MessageMetadata::new("a@e.com".to_string(), vec![], None);
    assert_eq!(format_email_metadata_message(&m), "from a@e.com ");
}

#[test]
fn acceptance_needs_target_and_listed_sender() {
    let m = MessageMetadata::new("a@e.com".to_string(), vec!["t@e.com".to_string()], None);
    let list = vec!["a@e.com".to_string()];
    assert!(accepts(&m, &"t@e.com".to_string(), &list));
    assert!(!accepts(&m, &"T@e.com".to_string(), &list));
    assert!(!accepts(&m, &"t@e.com".to_string(), &vec!["A@e.com".to_string()]));
}

#[test]
fn content_with_kept_file_goes_to_trash() {
    let content = MailContent {
        headers: HeaderFields {
            sender: Some("a@e.com".to_string()),
            recipients: Some(vec![Some("t@e.com".to_string())]),
            subject: None,
        },
        attachments: vec![
            AttachmentPart { is_message: false, name: Some("x.exe".to_string()), contents: vec![9] },
            AttachmentPart { is_message: false, name: Some("B.Epub".to_string()), contents: vec![5, 6] },
        ],
    };
    let p = plan_from_content(11, &content, &vec!["epub".to_string()]).unwrap();
    assert_eq!(p.uid, 11);
    assert_eq!(p.disposition, Disposition::MoveToTrash);
    assert_eq!(p.attachments.len(), 1);
    assert_eq!(p.attachments[0].filename, "b.epub");
    assert_eq!(p.attachments[0].contents, vec![5, 6]);
}

#[test]
fn content_without_kept_file_is_marked_unread() {
    let content = MailContent {
        headers: HeaderFields {
            sender: Some("a@e.com".to_string()),
            recipients: Some(vec![Some("t@e.com".to_string())]),
            subject: None,
        },
        attachments: vec![AttachmentPart {
            is_message: false,
            name: Some("x.exe".to_string()),
            contents: vec![9],
        }],
    };
    let p = plan_from_content(3, &content, &vec!["epub".to_string()]).unwrap();
    assert_eq!(p.disposition, Disposition::MarkUnread);
    assert!(p.attachments.is_empty());
}

#[test]
fn parsed_message_with_accepted_attachment() {
    let fetch = FetchedMail { uid: Some(21), header: None, body: Some(mail_with_attachment("Report.PDF")) };
    let p = plan_message(&fetch, &vec!["pdf".to_string()]).unwrap();
    assert_eq!(p.uid, 21);
    assert_eq!(p.metadata.from(), "a@e.com");
    assert_eq!(p.metadata.subject(), Some("Books"));
    assert_eq!(p.attachments.len(), 1);
    assert_eq!(p.attachments[0].filename, "report.pdf");
    assert_eq!(p.attachments[0].contents, b"Hello".to_vec());
    assert_eq!(p.disposition, Disposition::MoveToTrash);
}

#[test]
fn parsed_message_without_accepted_attachment() {
    let fetch = FetchedMail { uid: Some(22), header: None, body: Some(mail_with_attachment("notes.txt")) };
    let p = plan_message(&fetch, &vec!["pdf".to_string()]).unwrap();
    assert!(p.attachments.is_empty());
    assert_eq!(p.disposition, Disposition::MarkUnread);
}

#[test]
fn fetched_message_needs_uid_and_body() {
    let accepted = vec!["pdf".to_string()];
    let no_uid = FetchedMail { uid: None, header: None, body: Some(mail_with_attachment("a.pdf")) };
    assert!(matches!(plan_message(&no_uid, &accepted), Err(ImapAttachmentDaemonError::UidMissing)));
    let no_body = FetchedMail { uid: Some(1), header: None, body: None };
    assert!(matches!(plan_message(&no_body, &accepted), Err(ImapAttachmentDaemonError::BodyMissing)));
}

#[test]
fn batch_with_missing_uid_plans_nothing() {
    let config = config_accepting(&["pdf"]);
    let fetches = vec![
        FetchedMail { uid: Some(1), header: None, body: Some(mail_with_attachment("a.pdf")) },
        FetchedMail { uid: None, header: None, body: Some(mail_with_attachment("b.pdf")) },
    ];
    assert!(matches!(plan_batch(&fetches, &config), Err(ImapAttachmentDaemonError::UidMissing)));
}

#[test]
fn batch_plans_every_message() {
    let config = config_accepting(&["pdf"]);
    let fetches = vec![
        FetchedMail { uid: Some(1), header: None, body: Some(mail_with_attachment("a.pdf")) },
        FetchedMail { uid: Some(2), header: None, body: Some(mail_with_attachment("b.doc")) },
    ];
    let plans = plan_batch(&fetches, &config).unwrap();
    assert_eq!(plans.len(), 2);
    assert_eq!(plans[0].disposition, Disposition::MoveToTrash);
    assert_eq!(plans[1].disposition, Disposition::MarkUnread);
}

#[test]
fn header_filter_keeps_whitelisted_messages_to_target() {
    let config = config_accepting(&["pdf"]);
    let other = b"From: z@e.com\r\nTo: t@e.com\r\nSubject: x\r\n\r\n".to_vec();
    let headers = vec![
        FetchedMail { uid: Some(5), header: Some(mail_with_attachment("a.pdf")), body: None },
        FetchedMail { uid: Some(6), header: Some(other), body: None },
    ];
    assert_eq!(filter_messages_by_source_and_whitelist(&headers, &config).unwrap(), vec![5]);
    let missing = vec![FetchedMail { uid: Some(5), header: None, body: None }];
    assert!(matches!(
        filter_messages_by_source_and_whitelist(&missing, &config),
        Err(ImapAttachmentDaemonError::HeaderMissing)
    ));
}

#[test]
fn defaults() {
    let types = default_accepted_file_types();
    assert_eq!(types.len(), 28);
    assert!(types.contains("pdf"));
    assert!(types.contains("txtz"));
    assert!(!types.contains("txt"));
    assert_eq!(default_attachments_dir(), "/attachments");
    let config = AppConfig::default();
    assert_eq!(config.attachments_dir, "/attachments");
    assert!(config.whitelist.is_empty());
    assert_eq!(config.effective_target(), "");
}

#[test]
fn effective_target_prefers_target_address() {
    let config = config_accepting(&[]);
    assert_eq!(config.effective_target(), "t@e.com");
    let config = AppConfig { username: "u@e.com".to_string(), ..Default::default() };
    assert_eq!(config.effective_target(), "u@e.com");
}

fn meta(from: &str, to: &str) -> MessageMetadata {
    MessageMetadata::new(from.to_string(), vec![to.to_string()], None)
}

#[test]
fn selection_keeps_accepted_uids_in_order() {
    let candidates = vec![
        HeaderCandidate { uid: Some(8), metadata: Ok(meta("a@e.com", "t@e.com")) },
        HeaderCandidate { uid: Some(3), metadata: Ok(meta("z@e.com", "t@e.com")) },
        HeaderCandidate { uid: None, metadata: Ok(meta("a@e.com", "x@e.com")) },
        HeaderCandidate { uid: Some(5), metadata: Ok(meta("a@e.com", "t@e.com")) },
    ];
    let r = select_accepted(candidates, &"t@e.com".to_string(), &vec!["a@e.com".to_string()]);
    assert_eq!(r.unwrap(), vec![8, 5]);
}

#[test]
fn selection_stops_at_first_failure() {
    let candidates = vec![
        HeaderCandidate { uid: Some(8), metadata: Err(ImapAttachmentDaemonError::SenderMissing) },
        HeaderCandidate { uid: None, metadata: Ok(meta("a@e.com", "t@e.com")) },
    ];
    let r = select_accepted(candidates, &"t@e.com".to_string(), &vec!["a@e.com".to_string()]);
    assert!(matches!(r, Err(ImapAttachmentDaemonError::SenderMissing)));
    let candidates = vec![
        HeaderCandidate { uid: None, metadata: Ok(meta("a@e.com", "t@e.com")) },
        HeaderCandidate { uid: Some(1), metadata: Err(ImapAttachmentDaemonError::ParsingError) },
    ];
    let r = select_accepted(candidates, &"t@e.com".to_string(), &vec!["a@e.com".to_string()]);
    assert!(matches!(r, Err(ImapAttachmentDaemonError::UidMissing)));
}

fn named(name: &str) -> AttachmentPart {
    AttachmentPart { is_message: false, name: Some(name.to_string()), contents: vec![1] }
}

#[test]
fn kept_names_stay_in_the_directory() {
    let accepted = vec!["pdf".to_string()];
    assert_eq!(
        check_and_save_attachment(&named("../x.pdf"), &accepted).unwrap(),
        Some("x.pdf".to_string())
    );
    assert_eq!(
        check_and_save_attachment(&named("/etc/Report.PDF"), &accepted).unwrap(),
        Some("report.pdf".to_string())
    );
    assert_eq!(
        check_and_save_attachment(&named("a\\b\\c.pdf"), &accepted).unwrap(),
        Some("c.pdf".to_string())
    );
    for bad in ["..", ".", "dir/", "x/.."] {
        assert!(matches!(
            check_and_save_attachment(&named(bad), &accepted),
            Err(ImapAttachmentDaemonError::FilenameMissing)
        ));
    }
}

#[test]
fn last_component_of_names() {
    assert_eq!(last_component_of("a/b/c.txt"), "c.txt");
    assert_eq!(last_component_of("plain"), "plain");
    assert_eq!(last_component_of("x\\"), "");
    assert_eq!(last_component_of(""), "");
}

#[test]
fn empty_recipient_list_is_an_error() {
    let h = HeaderFields {
        sender: Some("a@e.com".to_string()),
        recipients: Some(vec![]),
        subject: None,
    };
    assert!(matches!(extract_descriptors(&h), Err(ImapAttachmentDaemonError::DestinationsMissing)));
}

#[test]
fn empty_batch_is_planned() {
    let config = config_accepting(&["pdf"]);
    assert!(plan_batch(&vec![], &config).unwrap().is_empty());
}

#[test]
fn batch_returns_first_failing_message_error() {
    let config = config_accepting(&["pdf"]);
    let fetches = vec![
        FetchedMail { uid: Some(1), header: None, body: Some(mail_with_attachment("a.pdf")) },
        FetchedMail { uid: Some(2), header: None, body: None },
        FetchedMail { uid: None, header: None, body: None },
    ];
    assert!(matches!(plan_batch(&fetches, &config), Err(ImapAttachmentDaemonError::BodyMissing)));
}

#[test]
fn accepted_header_without_uid_fails_the_filter() {
    let config = config_accepting(&["pdf"]);
    let headers = vec![
        FetchedMail { uid: Some(5), header: Some(mail_with_attachment("a.pdf")), body: None },
        FetchedMail { uid: None, header: Some(mail_with_attachment("b.pdf")), body: None },
    ];
    assert!(matches!(
        filter_messages_by_source_and_whitelist(&headers, &config),
        Err(ImapAttachmentDaemonError::UidMissing)
    ));
}
