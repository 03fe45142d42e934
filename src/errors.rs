use vstd::prelude::*;

verus! {

#[verifier::external_type_specification]
#[verifier::external_body]
pub struct ExEnvyError(envy::Error);

#[verifier::external_type_specification]
#[verifier::external_body]
pub struct ExImapError(imap::Error);

#[verifier::external_type_specification]
#[verifier::external_body]
pub struct ExIoError(std::io::Error);

#[verifier::external_type_specification]
#[verifier::external_body]
pub struct ExDotenvError(dotenvy::Error);

#[verifier::external_type_specification]
#[verifier::external_body]
pub struct ExRecvError(std::sync::mpsc::RecvError);

#[verifier::external_type_specification]
#[verifier::external_body]
#[verifier::reject_recursive_types(T)]
pub struct ExSendError<T>(std::sync::mpsc::SendError<T>);

/// Everything that can stop the daemon.
///
/// The variants without a payload describe a message that does not have the
/// expected shape; the others carry the failure of a collaborator.
#[derive(Debug)]
pub enum ImapAttachmentDaemonError {
    /// The configuration could not be read from the environment.
    ConfigError(envy::Error),
    /// The connection with the mail server failed.
    ImapError(imap::Error),
    /// A file could not be written.
    IoError(std::io::Error),
    /// The `.env` file could not be read.
    DotenvError(dotenvy::Error),
    /// A fetched message carries no UID.
    UidMissing,
    /// A fetched message carries no body.
    BodyMissing,
    /// A fetched message carries no header.
    HeaderMissing,
    /// An attachment has no file name.
    FilenameMissing,
    /// An attachment's file name has no extension.
    ExtensionMissing,
    /// An attachment's extension is not text.
    ExtensionConvertError,
    /// The message names no sender address.
    SenderMissing,
    /// The message names no recipient list, or a recipient without address.
    DestinationsMissing,
    /// A notification could not be handed over.
    SendError(std::sync::mpsc::SendError<()>),
    /// The notification channel was closed.
    ReceiveError(std::sync::mpsc::RecvError),
    /// The message could not be parsed.
    ParsingError,
    /// The attachments directory could not be created.
    DirectoryCreationError {
        /// The directory.
        msg: String,
        /// What went wrong.
        source: std::io::Error,
    },
}

} // verus!
