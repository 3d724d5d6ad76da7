//! Outgoing mail: the sender and recipient checked as mailboxes with
//! lettre's parser, and the settings under which the mail is relayed.

use vstd::prelude::*;
use lettre::address::AddressError;
use lettre::message::Mailbox;
use crate::config::{EmailConfig, sender_text};

verus! {

#[verifier::external_type_specification]
#[verifier::external_body]
pub struct ExMailbox(lettre::message::Mailbox);

#[verifier::external_type_specification]
#[verifier::external_body]
pub struct ExAddressError(lettre::address::AddressError);

/// Whether lettre's parser accepts `text` as a mailbox (`Name <user@domain>` or `user@domain`).
pub uninterp spec fn mailbox_accepted(text: Seq<char>) -> bool;

/// The mailbox that lettre's parser builds from `text`, when it accepts it.
pub uninterp spec fn parsed_mailbox(text: Seq<char>) -> Mailbox;

/// The error that lettre's parser reports for `text`, when it refuses it.
pub uninterp spec fn mailbox_error(text: Seq<char>) -> AddressError;

/// Parses `text` with lettre's `Mailbox::from_str`. The contract claims that
/// the parse succeeds exactly when `mailbox_accepted` holds of the text, that
/// the mailbox it builds is `parsed_mailbox` of the text, and that the error
/// it reports otherwise is `mailbox_error` of the text (the parse depends on
/// the text alone).
#[verifier::external_body]
fn parse_mailbox(text: &str) -> (r: Result<Mailbox, AddressError>)
    ensures
        r is Ok <==> mailbox_accepted(text@),
        r matches Ok(m) ==> m == parsed_mailbox(text@),
        r matches Err(e) ==> e == mailbox_error(text@),
{
    text.parse::<Mailbox>()
}

/// How the connection to the SMTP relay is secured.
#[derive(Debug, Clone, Copy, PartialEq, Eq, Structural)]
pub enum SmtpSecurity {
    /// TLS from the first byte (port 465 and others).
    ImplicitTls,
    /// A plain connection upgraded with STARTTLS (the submission port 587).
    StartTls,
}

/// The security used on a port: STARTTLS on 587, TLS from the start otherwise.
pub open spec fn security_for(port: u16) -> SmtpSecurity {
    if port == 587 {
        SmtpSecurity::StartTls
    } else {
        SmtpSecurity::ImplicitTls
    }
}

/// Chooses how the connection to the relay on `port` is secured.
pub fn smtp_security(port: u16) -> (r: SmtpSecurity)
    ensures
        r == security_for(port),
{
    if port == 587 {
        SmtpSecurity::StartTls
    } else {
        SmtpSecurity::ImplicitTls
    }
}

/// Why a mail could not be prepared.
#[derive(Debug)]
pub enum SendError {
    /// The account's address does not make a valid sender.
    InvalidSender(AddressError),
    /// The recipient is not a valid mailbox.
    InvalidRecipient(AddressError),
}

/// A mail ready to be handed to the SMTP relay.
#[derive(Debug)]
pub struct OutgoingMail {
    pub from: Mailbox,
    pub to: Mailbox,
    pub subject: String,
    pub body: String,
    /// The SMTP server to relay through, and its port.
    pub relay: String,
    pub port: u16,
    pub security: SmtpSecurity,
    /// The credentials for the relay.
    pub username: String,
    pub password: String,
}

/// Prepares a mail from the account in `config` to `to`: the sender is
/// `local <address>`, and the relay and its credentials come from the account.
pub fn prepare_mail(config: &EmailConfig, to: &str, subject: &str, body: &str) -> (r: Result<
    OutgoingMail,
    SendError,
>)
    ensures
        r is Ok <==> mailbox_accepted(sender_text(config.email@)) && mailbox_accepted(to@),
        r is Err && r->Err_0 is InvalidSender <==> !mailbox_accepted(sender_text(config.email@)),
        r is Err && r->Err_0 is InvalidRecipient <==> mailbox_accepted(sender_text(config.email@))
            && !mailbox_accepted(to@),
        r matches Err(SendError::InvalidSender(e)) ==> e == mailbox_error(sender_text(config.email@)),
        r matches Err(SendError::InvalidRecipient(e)) ==> e == mailbox_error(to@),
        r matches Ok(m) ==> {
            &&& m.from == parsed_mailbox(sender_text(config.email@))
            &&& m.to == parsed_mailbox(to@)
            &&& m.security == security_for(config.smtp_port)
            &&& m.subject@ == subject@
            &&& m.body@ == body@
            &&& m.relay@ == config.smtp_server@
            &&& m.port == config.smtp_port
            &&& m.username@ == config.email@
            &&& m.password@ == config.password@
        },
{
    let sender = config.sender_display();
    let from = match parse_mailbox(sender.as_str()) {
        Ok(m) => m,
        Err(e) => return Err(SendError::InvalidSender(e)),
    };
    let to_box = match parse_mailbox(to) {
        Ok(m) => m,
        Err(e) => return Err(SendError::InvalidRecipient(e)),
    };
    Ok(OutgoingMail {
        from,
        to: to_box,
        subject: String::from_str(subject),
        body: String::from_str(body),
        relay: config.smtp_server.clone(),
        port: config.smtp_port,
        security: smtp_security(config.smtp_port),
        username: config.email.clone(),
        password: config.password.clone(),
    })
}

/// The line that reports how sending to `to` went: success, or the relay's error.
pub fn send_report(to: &str, outcome: Result<(), String>) -> (r: String)
    ensures
        r@ == match outcome {
            Ok(_) => "✓ 邮件已发送到："@ + to@,
            Err(e) => "❌ 发送失败："@ + e@,
        },
{
    match outcome {
        Ok(_) => {
            let mut r = String::from_str("✓ 邮件已发送到：");
            r.append(to);
            r
        },
        Err(e) => {
            let mut r = String::from_str("❌ 发送失败：");
            r.append(e.as_str());
            r
        },
    }
}

} // verus!
