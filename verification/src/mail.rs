//! Messages as the IMAP server returns them, and what the commands `inbox`,
//! `read` and `search` ask of the server and show of its answers.

use vstd::prelude::*;
use crate::decimal::{decimal, to_decimal};
use crate::ids::{ascending_set, ascending_of, lemma_ascending_set_exists};
use std::collections::HashSet;
use crate::text::{texts, joined, repeated, text_or, bytes_view, decode_or, join, repeat};

verus! {

/// An address in a message's envelope: its display name and its mailbox, as raw bytes.
#[derive(Debug, PartialEq, Eq)]
pub struct Address {
    pub name: Option<Vec<u8>>,
    pub mailbox: Option<Vec<u8>>,
}

/// The envelope of a message: subject, senders, recipients and date, as raw bytes.
#[derive(Debug, PartialEq, Eq)]
pub struct Envelope {
    pub subject: Option<Vec<u8>>,
    pub from: Vec<Address>,
    pub to: Vec<Address>,
    pub date: Option<Vec<u8>>,
}

/// One message of a FETCH answer: what the server sent of it.
#[derive(Debug, PartialEq, Eq)]
pub struct FetchedMessage {
    pub uid: Option<u32>,
    /// The flags, each as IMAP writes it (`\Seen`, `\Flagged`, ...).
    pub flags: Vec<String>,
    pub envelope: Option<Envelope>,
    /// The text of the message (its `BODY[TEXT]` section), as raw bytes.
    pub body: Option<Vec<u8>>,
}

/// Why a fetched message could not be shown.
#[derive(Debug, Clone, Copy, PartialEq, Eq)]
pub enum MailError {
    /// The server sent no envelope for the message.
    MissingEnvelope,
    /// The server sent no UID for the message.
    MissingUid,
}

impl MailError {
    /// The message shown for the error.
    pub fn message(&self) -> (r: String)
        ensures
            r@ == match *self {
                MailError::MissingEnvelope => "无法解析邮件信封"@,
                MailError::MissingUid => "无法获取邮件 UID"@,
            },
    {
        match self {
            MailError::MissingEnvelope => String::from_str("无法解析邮件信封"),
            MailError::MissingUid => String::from_str("无法获取邮件 UID"),
        }
    }
}

/// The thin rule that separates entries: 80 times `─`.
pub open spec fn thin_rule() -> Seq<char> {
    repeated("─"@, 80)
}

/// The thick rule that frames a message: 80 times `═`.
pub open spec fn thick_rule() -> Seq<char> {
    repeated("═"@, 80)
}

/// Renders the thin rule.
pub fn thin_rule_text() -> (r: String)
    ensures
        r@ == thin_rule(),
{
    repeat("─", 80)
}

/// Renders the thick rule.
pub fn thick_rule_text() -> (r: String)
    ensures
        r@ == thick_rule(),
{
    repeat("═", 80)
}

/// `name <mailbox>`, each part empty when absent or not UTF-8.
pub open spec fn address_text(a: Address) -> Seq<char> {
    text_or(bytes_view(a.name), Seq::empty()) + " <"@ + text_or(bytes_view(a.mailbox), Seq::empty())
        + ">"@
}

/// The first sender as `name <mailbox>`, or `未知` when there is none.
pub open spec fn first_sender_text(from: Seq<Address>) -> Seq<char> {
    if from.len() > 0 {
        address_text(from[0])
    } else {
        "未知"@
    }
}

/// The mailbox of the first sender, or `未知` when there is none.
pub open spec fn sender_mailbox(from: Seq<Address>) -> Seq<char> {
    if from.len() > 0 {
        text_or(bytes_view(from[0].mailbox), Seq::empty())
    } else {
        "未知"@
    }
}

/// The subject, or `(无主题)`.
pub open spec fn subject_text(e: Envelope) -> Seq<char> {
    text_or(bytes_view(e.subject), "(无主题)"@)
}

/// The date, or `未知日期`.
pub open spec fn date_text(e: Envelope) -> Seq<char> {
    text_or(bytes_view(e.date), "未知日期"@)
}

/// All recipients, as `name <mailbox>`, separated by `, `.
pub open spec fn recipients_text(e: Envelope) -> Seq<char> {
    joined(e.to@.map_values(|a: Address| address_text(a)), ", "@)
}

/// Whether the flags mark the message as read.
pub open spec fn is_seen(flags: Seq<String>) -> bool {
    texts(flags).contains("\\Seen"@)
}

/// A message counts as read exactly when `\Seen` is one of its flags, at
/// whatever position.
pub proof fn law_seen_anywhere(flags: Seq<String>)
    ensures
        is_seen(flags) <==> exists|k: int| 0 <= k < flags.len() && #[trigger] flags[k]@ == "\\Seen"@,
{
    if is_seen(flags) {
        let k = choose|k: int| 0 <= k < texts(flags).len() && texts(flags)[k] == "\\Seen"@;
        assert(flags[k]@ == "\\Seen"@);
    }
    if exists|k: int| 0 <= k < flags.len() && #[trigger] flags[k]@ == "\\Seen"@ {
        let k = choose|k: int| 0 <= k < flags.len() && #[trigger] flags[k]@ == "\\Seen"@;
        assert(texts(flags)[k] == "\\Seen"@);
    }
}

/// Renders one address.
pub fn address_line(a: &Address) -> (r: String)
    ensures
        r@ == address_text(*a),
{
    proof {
        reveal_strlit("");
    }
    let mut r = decode_or(&a.name, "");
    r.append(" <");
    let m = decode_or(&a.mailbox, "");
    r.append(m.as_str());
    r.append(">");
    r
}

/// Renders the first sender.
pub fn sender_line(from: &Vec<Address>) -> (r: String)
    ensures
        r@ == first_sender_text(from@),
{
    if from.len() > 0 {
        address_line(&from[0])
    } else {
        String::from_str("未知")
    }
}

/// Renders the mailbox of the first sender.
pub fn sender_mailbox_line(from: &Vec<Address>) -> (r: String)
    ensures
        r@ == sender_mailbox(from@),
{
    proof {
        reveal_strlit("");
    }
    if from.len() > 0 {
        decode_or(&from[0].mailbox, "")
    } else {
        String::from_str("未知")
    }
}

/// Renders all recipients.
pub fn recipients_line(e: &Envelope) -> (r: String)
    ensures
        r@ == recipients_text(*e),
{
    let mut parts: Vec<String> = Vec::new();
    let mut i: usize = 0;
    while i < e.to.len()
        invariant
            i <= e.to.len(),
            parts.len() == i,
            forall|k: int| 0 <= k < i ==> #[trigger] parts@[k]@ == address_text(e.to@[k]),
        decreases e.to.len() - i,
    {
        let line = address_line(&e.to[i]);
        parts.push(line);
        i = i + 1;
    }
    proof {
        assert(texts(parts@) =~= e.to@.map_values(|a: Address| address_text(a)));
    }
    join(&parts, ", ")
}

/// Whether the flags hold `\Seen`.
pub fn seen(flags: &Vec<String>) -> (b: bool)
    ensures
        b == is_seen(flags@),
{
    let target = String::from_str("\\Seen");
    let mut i: usize = 0;
    while i < flags.len()
        invariant
            i <= flags.len(),
            target@ == "\\Seen"@,
            forall|k: int| 0 <= k < i ==> flags@[k]@ != "\\Seen"@,
        decreases flags.len() - i,
    {
        if flags[i] == target {
            proof {
                assert(texts(flags@)[i as int] == "\\Seen"@);
            }
            return true;
        }
        i = i + 1;
    }
    proof {
        assert forall|k: int| 0 <= k < texts(flags@).len() implies texts(flags@)[k] != "\\Seen"@ by {
            assert(flags@[k]@ != "\\Seen"@);
        }
    }
    false
}

// ---------------------------------------------------------------- inbox

/// The mailbox that every command selects.
pub fn inbox_mailbox() -> (r: &'static str)
    ensures
        r@ == "INBOX"@,
{
    "INBOX"
}

/// The search that lists every message of the mailbox.
pub fn inbox_search_query() -> (r: &'static str)
    ensures
        r@ == "ALL"@,
{
    "ALL"
}

/// The items fetched for the inbox listing.
pub fn inbox_fetch_items() -> (r: &'static str)
    ensures
        r@ == "(UID ENVELOPE FLAGS INTERNALDATE)"@,
{
    "(UID ENVELOPE FLAGS INTERNALDATE)"
}

/// The position in the listed ids from which the newest `count` are shown.
pub open spec fn inbox_start(total: nat, count: nat) -> nat {
    if total > count {
        (total - count) as nat
    } else {
        0
    }
}

/// What the inbox command shows before it fetches, and the range it fetches.
pub struct InboxPlan {
    pub lines: Vec<String>,
    /// The sequence set to fetch, `first:*`; none when nothing is to be fetched.
    pub fetch_range: Option<String>,
}

/// The lines and the fetch range of the inbox command, for the message
/// numbers that the search found (in any order) and the number of messages
/// asked for: the listing starts at the `count`-th highest number.
pub open spec fn inbox_plan(ids: Set<u32>, count: nat) -> (Seq<Seq<char>>, Option<Seq<char>>) {
    inbox_plan_ordered(ascending_set(ids), count)
}

/// `inbox_plan` for numbers already in ascending order, each once.
pub open spec fn inbox_plan_ordered(ids: Seq<u32>, count: nat) -> (Seq<Seq<char>>, Option<Seq<char>>) {
    if ids.len() == 0 {
        (seq!["📭 收件箱为空"@], None)
    } else {
        let header = seq!["📬 收件箱 (共 "@ + decimal(ids.len()) + " 封邮件)"@, thin_rule()];
        let start = inbox_start(ids.len(), count);
        if start >= ids.len() {
            (header.push("📭 没有邮件"@), None)
        } else {
            (header, Some(decimal(ids[start as int] as nat) + ":*"@))
        }
    }
}

/// Plans the inbox listing: the `count` messages with the highest numbers,
/// from the lowest of them to the end of the mailbox.
pub fn plan_inbox(found: &HashSet<u32>, count: usize) -> (p: InboxPlan)
    ensures
        texts(p.lines@) == inbox_plan(found@, count as nat).0,
        opt_view(p.fetch_range) == inbox_plan(found@, count as nat).1,
{
    let ids = ascending_of(found);
    let total = ids.len();
    if total == 0 {
        let lines = vec![String::from_str("📭 收件箱为空")];
        assert(texts(lines@) =~= inbox_plan_ordered(ids@, count as nat).0);
        return InboxPlan { lines, fetch_range: None };
    }
    let mut head = String::from_str("📬 收件箱 (共 ");
    let n = to_decimal(total as u64);
    head.append(n.as_str());
    head.append(" 封邮件)");
    let mut lines = vec![head, thin_rule_text()];
    let start = if total > count {
        total - count
    } else {
        0
    };
    if start >= total {
        lines.push(String::from_str("📭 没有邮件"));
        assert(texts(lines@) =~= inbox_plan_ordered(ids@, count as nat).0);
        InboxPlan { lines, fetch_range: None }
    } else {
        let mut range = to_decimal(ids[start] as u64);
        range.append(":*");
        assert(texts(lines@) =~= inbox_plan_ordered(ids@, count as nat).0);
        InboxPlan { lines, fetch_range: Some(range) }
    }
}

/// The view of an optional string.
pub open spec fn opt_view(o: Option<String>) -> Option<Seq<char>> {
    match o {
        Some(s) => Some(s@),
        None => None,
    }
}

/// The four lines of one message in the inbox listing, or why it cannot be shown.
pub open spec fn inbox_entry(f: FetchedMessage) -> Result<Seq<Seq<char>>, MailError> {
    match f.envelope {
        None => Err(MailError::MissingEnvelope),
        Some(e) => match f.uid {
            None => Err(MailError::MissingUid),
            Some(uid) => {
                let icon = if is_seen(f.flags@) { "📄"@ } else { "📕"@ };
                Ok(
                    seq![
                        icon + " UID: "@ + decimal(uid as nat) + " | "@ + date_text(e),
                        "   发件人："@ + first_sender_text(e.from@),
                        "   主题："@ + subject_text(e),
                        thin_rule(),
                    ],
                )
            },
        },
    }
}

/// The listing of the fetched messages, the last fetched first, up to the
/// first that cannot be shown; that one's error, if there is one.
pub open spec fn inbox_listing(fs: Seq<FetchedMessage>) -> (Seq<Seq<char>>, Option<MailError>)
    decreases fs.len(),
{
    if fs.len() == 0 {
        (Seq::empty(), None)
    } else {
        match inbox_entry(fs.last()) {
            Err(e) => (Seq::empty(), Some(e)),
            Ok(lines) => {
                let rest = inbox_listing(fs.drop_last());
                (lines + rest.0, rest.1)
            },
        }
    }
}

/// A message that has an envelope and a UID can be shown.
pub open spec fn showable(f: FetchedMessage) -> bool {
    f.envelope is Some && f.uid is Some
}

/// When every fetched message can be shown, the listing stops at none of
/// them and shows each in four lines; otherwise it reports the error of the
/// newest one that cannot be shown.
pub proof fn law_inbox_listing_complete(fs: Seq<FetchedMessage>)
    ensures
        (forall|i: int| 0 <= i < fs.len() ==> showable(#[trigger] fs[i])) ==> {
            &&& inbox_listing(fs).1 is None
            &&& inbox_listing(fs).0.len() == 4 * fs.len()
        },
        (exists|i: int| 0 <= i < fs.len() && !showable(#[trigger] fs[i])) ==> inbox_listing(
            fs,
        ).1 is Some,
    decreases fs.len(),
{
    if fs.len() > 0 {
        let p = fs.drop_last();
        law_inbox_listing_complete(p);
        assert forall|i: int| 0 <= i < p.len() implies #[trigger] p[i] == fs[i] by {}
        if forall|i: int| 0 <= i < fs.len() ==> showable(#[trigger] fs[i]) {
            assert(showable(fs[fs.len() - 1]));
            assert(forall|i: int| 0 <= i < p.len() ==> showable(#[trigger] p[i]));
        }
        if exists|i: int| 0 <= i < fs.len() && !showable(#[trigger] fs[i]) {
            let i = choose|i: int| 0 <= i < fs.len() && !showable(#[trigger] fs[i]);
            if i < fs.len() - 1 {
                assert(!showable(p[i]));
            }
        }
    }
}

/// In the inbox listing a message that has an envelope and a UID is shown
/// with the read icon 📄 exactly when `\Seen` is among its flags, and with the
/// unread icon 📕 otherwise; its first line then names its UID.
pub proof fn law_inbox_icon(f: FetchedMessage)
    requires
        showable(f),
    ensures
        inbox_entry(f) is Ok,
        inbox_entry(f)->Ok_0[0][0] == (if exists|k: int|
            0 <= k < f.flags@.len() && #[trigger] f.flags@[k]@ == "\\Seen"@ {
            '📄'
        } else {
            '📕'
        }),
        inbox_entry(f)->Ok_0[0].subrange(1, 7) == " UID: "@,
        inbox_entry(f)->Ok_0[0].subrange(7, 7 + decimal(f.uid->0 as nat).len() as int) == decimal(
            f.uid->0 as nat,
        ),
{
    law_seen_anywhere(f.flags@);
    reveal_strlit("📄");
    reveal_strlit("📕");
    reveal_strlit(" UID: ");
    let line = inbox_entry(f)->Ok_0[0];
    let icon = if is_seen(f.flags@) { "📄"@ } else { "📕"@ };
    let e = f.envelope->0;
    let d = decimal(f.uid->0 as nat);
    assert(line == icon + " UID: "@ + d + " | "@ + date_text(e));
    assert(line.subrange(1, 7) =~= " UID: "@);
    assert(line.subrange(7, 7 + d.len() as int) =~= d);
}

/// When every fetched message can be shown, the listing shows them newest
/// (last fetched) first: the `k`-th group of four lines is the entry of the
/// `k`-th message counted from the end.
pub proof fn law_inbox_newest_first(fs: Seq<FetchedMessage>)
    requires
        forall|i: int| 0 <= i < fs.len() ==> showable(#[trigger] fs[i]),
    ensures
        forall|k: int|
            0 <= k < fs.len() ==> inbox_listing(fs).0.subrange(4 * k, 4 * k + 4) == inbox_entry(
                #[trigger] fs[fs.len() - 1 - k],
            )->Ok_0,
    decreases fs.len(),
{
    law_inbox_listing_complete(fs);
    if fs.len() > 0 {
        let p = fs.drop_last();
        assert forall|i: int| 0 <= i < p.len() implies showable(#[trigger] p[i]) by {
            assert(p[i] == fs[i]);
        }
        law_inbox_newest_first(p);
        law_inbox_listing_complete(p);
        let head = inbox_entry(fs.last())->Ok_0;
        let rest = inbox_listing(p).0;
        assert(head.len() == 4);
        assert(inbox_listing(fs).0 == head + rest);
        assert forall|k: int| 0 <= k < fs.len() implies inbox_listing(fs).0.subrange(4 * k, 4 * k + 4)
            == inbox_entry(#[trigger] fs[fs.len() - 1 - k])->Ok_0 by {
            if k == 0 {
                assert((head + rest).subrange(0, 4) =~= head);
            } else {
                assert(p[p.len() - 1 - (k - 1)] == fs[fs.len() - 1 - k]);
                assert((head + rest).subrange(4 * k, 4 * k + 4) =~= rest.subrange(
                    4 * (k - 1),
                    4 * (k - 1) + 4,
                ));
            }
        }
    }
}

/// What the envelope's fields show: the subject and the date decoded when
/// they are UTF-8, else `(无主题)` and `未知日期`; `未知` as sender when there is none.
pub proof fn law_envelope_texts(e: Envelope)
    ensures
        e.subject matches Some(b) && vstd::utf8::valid_utf8(b@) ==> subject_text(e)
            == vstd::utf8::decode_utf8(e.subject->0@),
        !(e.subject matches Some(b) && vstd::utf8::valid_utf8(b@)) ==> subject_text(e)
            == "(无主题)"@,
        e.date matches Some(b) && vstd::utf8::valid_utf8(b@) ==> date_text(e)
            == vstd::utf8::decode_utf8(e.date->0@),
        !(e.date matches Some(b) && vstd::utf8::valid_utf8(b@)) ==> date_text(e) == "未知日期"@,
        e.from.len() == 0 ==> first_sender_text(e.from@) == "未知"@,
        e.from.len() == 0 ==> sender_mailbox(e.from@) == "未知"@,
{
}

/// Renders one message of the inbox listing.
pub fn render_inbox_entry(f: &FetchedMessage) -> (r: Result<Vec<String>, MailError>)
    ensures
        match r {
            Ok(lines) => inbox_entry(*f) == Ok::<Seq<Seq<char>>, MailError>(texts(lines@)),
            Err(e) => inbox_entry(*f) == Err::<Seq<Seq<char>>, MailError>(e),
        },
{
    let e = match &f.envelope {
        None => return Err(MailError::MissingEnvelope),
        Some(e) => e,
    };
    let subject = decode_or(&e.subject, "(无主题)");
    let from = sender_line(&e.from);
    let date = decode_or(&e.date, "未知日期");
    let uid = match f.uid {
        None => return Err(MailError::MissingUid),
        Some(u) => u,
    };
    let is_read = seen(&f.flags);
    let mut first = if is_read {
        String::from_str("📄")
    } else {
        String::from_str("📕")
    };
    first.append(" UID: ");
    let u = to_decimal(uid as u64);
    first.append(u.as_str());
    first.append(" | ");
    first.append(date.as_str());
    let mut second = String::from_str("   发件人：");
    second.append(from.as_str());
    let mut third = String::from_str("   主题：");
    third.append(subject.as_str());
    let lines = vec![first, second, third, thin_rule_text()];
    proof {
        let expected = inbox_entry(*f)->Ok_0;
        assert(texts(lines@) =~= expected);
    }
    Ok(lines)
}

/// What the inbox command shows of the fetched messages, and the error that
/// stopped it, if one did.
pub struct InboxReport {
    pub lines: Vec<String>,
    pub error: Option<MailError>,
}

/// Renders the fetched messages, newest (last fetched) first, stopping at the
/// first that cannot be shown.
pub fn render_inbox(fetches: &Vec<FetchedMessage>) -> (r: InboxReport)
    ensures
        texts(r.lines@) == inbox_listing(fetches@).0,
        r.error == inbox_listing(fetches@).1,
{
    let mut lines: Vec<String> = Vec::new();
    let mut i: usize = fetches.len();
    proof {
        assert(fetches@.take(i as int) =~= fetches@);
    }
    while i > 0
        invariant
            i <= fetches.len(),
            inbox_listing(fetches@).0 == texts(lines@) + inbox_listing(fetches@.take(i as int)).0,
            inbox_listing(fetches@).1 == inbox_listing(fetches@.take(i as int)).1,
        decreases i,
    {
        let ghost prefix = fetches@.take(i as int);
        proof {
            assert(prefix.last() == fetches@[i - 1]);
            assert(prefix.drop_last() =~= fetches@.take(i - 1));
        }
        match render_inbox_entry(&fetches[i - 1]) {
            Err(e) => {
                proof {
                    assert(texts(lines@) + Seq::<Seq<char>>::empty() =~= texts(lines@));
                }
                return InboxReport { lines, error: Some(e) };
            },
            Ok(mut entry) => {
                let ghost before = texts(lines@);
                let ghost added = texts(entry@);
                lines.append(&mut entry);
                proof {
                    assert(texts(lines@) =~= before + added);
                    assert(before + (added + inbox_listing(fetches@.take(i - 1)).0) =~= (before
                        + added) + inbox_listing(fetches@.take(i - 1)).0);
                }
                i = i - 1;
            },
        }
    }
    proof {
        assert(texts(lines@) + Seq::<Seq<char>>::empty() =~= texts(lines@));
    }
    InboxReport { lines, error: None }
}

// ---------------------------------------------------------------- read

/// The set that names one message by its number (its UID in `read` and `search`).
pub fn message_set(uid: u32) -> (r: String)
    ensures
        r@ == decimal(uid as nat),
{
    to_decimal(uid as u64)
}

/// The items fetched to show a message.
pub fn detail_fetch_items() -> (r: &'static str)
    ensures
        r@ == "(ENVELOPE BODY[TEXT])"@,
{
    "(ENVELOPE BODY[TEXT])"
}

/// The flag update that marks a message as read.
pub fn mark_seen_update() -> (r: &'static str)
    ensures
        r@ == "+Flags (\\Seen)"@,
{
    "+Flags (\\Seen)"
}

/// The line that shows the body: its text when it is UTF-8, else a warning.
pub open spec fn body_text(body: Option<Seq<u8>>) -> Seq<char> {
    match body {
        Some(b) => match crate::text::utf8_text(b) {
            Some(t) => "\n"@ + t,
            None => "\n⚠ 无法解析邮件正文 (可能是 HTML 或编码问题)"@,
        },
        None => "\n⚠ 邮件无正文"@,
    }
}

/// The lines that show a message with its envelope and body.
pub open spec fn detail_lines(e: Envelope, body: Option<Seq<u8>>) -> Seq<Seq<char>> {
    seq![
        "\n📧 邮件详情"@,
        thick_rule(),
        "主题："@ + subject_text(e),
        "发件人："@ + first_sender_text(e.from@),
        "收件人："@ + recipients_text(e),
        "日期："@ + date_text(e),
        thin_rule(),
        body_text(body),
        "\n"@ + thick_rule(),
    ]
}

/// What the read command shows, and whether it then marks the message as read.
pub struct MessageView {
    pub lines: Vec<String>,
    pub mark_seen: bool,
}

/// What the read command shows for message `uid`, given the messages that
/// its fetch returned: a notice when none came back, an error when the first
/// has no envelope, else the message, which is then to be marked as read.
pub open spec fn message_view(uid: u32, fs: Seq<FetchedMessage>) -> Result<
    (Seq<Seq<char>>, bool),
    MailError,
> {
    if fs.len() == 0 {
        Ok((seq!["❌ 未找到邮件 UID: "@ + decimal(uid as nat)], false))
    } else {
        match fs[0].envelope {
            None => Err(MailError::MissingEnvelope),
            Some(e) => Ok((detail_lines(e, bytes_view(fs[0].body)), true)),
        }
    }
}

/// The read command shows the whole text of a UTF-8 body: its body line is a
/// line break followed by text that encodes back to exactly the body's bytes,
/// so no character, line break or later line of the body is left out.
pub proof fn law_body_shown_whole(uid: u32, fs: Seq<FetchedMessage>)
    requires
        fs.len() > 0,
        fs[0].envelope is Some,
        fs[0].body is Some,
        vstd::utf8::valid_utf8(fs[0].body->0@),
    ensures
        message_view(uid, fs) is Ok,
        message_view(uid, fs)->Ok_0.1,
        message_view(uid, fs)->Ok_0.0[7][0] == '\n',
        vstd::utf8::encode_utf8(message_view(uid, fs)->Ok_0.0[7].drop_first()) == fs[0].body->0@,
{
    let b = fs[0].body->0@;
    reveal_strlit("\n");
    let line = message_view(uid, fs)->Ok_0.0[7];
    assert(line == "\n"@ + vstd::utf8::decode_utf8(b));
    assert(line.drop_first() =~= vstd::utf8::decode_utf8(b));
    vstd::utf8::decode_utf8_encode_utf8(b);
}

/// Renders the body line.
fn body_line(body: &Option<Vec<u8>>) -> (r: String)
    ensures
        r@ == body_text(bytes_view(*body)),
{
    match body {
        Some(b) => match crate::text::decode_utf8_text(b.as_slice()) {
            Some(t) => {
                let mut r = String::from_str("\n");
                r.append(t.as_str());
                r
            },
            None => String::from_str("\n⚠ 无法解析邮件正文 (可能是 HTML 或编码问题)"),
        },
        None => String::from_str("\n⚠ 邮件无正文"),
    }
}

/// Renders what the read command shows for message `uid`.
pub fn render_message(uid: u32, fetches: &Vec<FetchedMessage>) -> (r: Result<MessageView, MailError>)
    ensures
        match r {
            Ok(v) => message_view(uid, fetches@) == Ok::<(Seq<Seq<char>>, bool), MailError>(
                (texts(v.lines@), v.mark_seen),
            ),
            Err(e) => message_view(uid, fetches@) == Err::<(Seq<Seq<char>>, bool), MailError>(e),
        },
{
    if fetches.len() == 0 {
        let mut line = String::from_str("❌ 未找到邮件 UID: ");
        let u = to_decimal(uid as u64);
        line.append(u.as_str());
        let lines = vec![line];
        assert(texts(lines@) =~= message_view(uid, fetches@)->Ok_0.0);
        return Ok(MessageView { lines, mark_seen: false });
    }
    let f = &fetches[0];
    let e = match &f.envelope {
        None => return Err(MailError::MissingEnvelope),
        Some(e) => e,
    };
    let mut subject = String::from_str("主题：");
    let s = decode_or(&e.subject, "(无主题)");
    subject.append(s.as_str());
    let mut from = String::from_str("发件人：");
    let fr = sender_line(&e.from);
    from.append(fr.as_str());
    let mut to = String::from_str("收件人：");
    let rc = recipients_line(e);
    to.append(rc.as_str());
    let mut date = String::from_str("日期：");
    let d = decode_or(&e.date, "未知日期");
    date.append(d.as_str());
    let mut last = String::from_str("\n");
    let rule = thick_rule_text();
    last.append(rule.as_str());
    let lines = vec![
        String::from_str("\n📧 邮件详情"),
        thick_rule_text(),
        subject,
        from,
        to,
        date,
        thin_rule_text(),
        body_line(&f.body),
        last,
    ];
    assert(texts(lines@) =~= message_view(uid, fetches@)->Ok_0.0);
    Ok(MessageView { lines, mark_seen: true })
}

// ---------------------------------------------------------------- search

/// How one character of a search term is written inside an IMAP quoted
/// string: `"` and `\` behind a backslash, every other character as it is.
pub open spec fn escape_piece(c: char) -> Seq<char> {
    if c == '"' || c == '\\' {
        seq!['\\', c]
    } else {
        seq![c]
    }
}

/// A search term as it is written inside an IMAP quoted string.
pub open spec fn escaped(s: Seq<char>) -> Seq<char>
    decreases s.len(),
{
    if s.len() == 0 {
        Seq::empty()
    } else {
        escaped(s.drop_last()) + escape_piece(s.last())
    }
}

/// A search term as an IMAP quoted string.
pub open spec fn quoted(s: Seq<char>) -> Seq<char> {
    seq!['"'] + escaped(s) + seq!['"']
}

/// The characters that an IMAP quoted string cannot hold: NUL, CR and LF.
pub open spec fn unquotable(c: char) -> bool {
    c == '\0' || c == '\r' || c == '\n'
}

/// Whether the search term holds a character that no quoted string can carry.
pub open spec fn has_unquotable(s: Seq<char>) -> bool {
    exists|i: int| 0 <= i < s.len() && unquotable(#[trigger] s[i])
}

/// The search has the shape `OR SUBJECT "…" BODY "…"`, and each of its two
/// quoted strings reads back as the search term itself, the second one
/// ending the search.
pub proof fn law_search_criteria_shape(q: Seq<char>)
    ensures
        search_criteria(q).subrange(0, 12) == "OR SUBJECT \""@,
        read_quoted(search_criteria(q).subrange(12, search_criteria(q).len() as int)) matches Some(
            (t, rest),
        ) && t == q && rest.subrange(0, 7) == " BODY \""@ && read_quoted(
            rest.subrange(7, rest.len() as int),
        ) == Some((q, Seq::<char>::empty())),
{
    reveal_strlit("OR SUBJECT ");
    reveal_strlit(" BODY ");
    reveal_strlit("OR SUBJECT \"");
    reveal_strlit(" BODY \"");
    let c = search_criteria(q);
    let second = seq![' ', 'B', 'O', 'D', 'Y', ' '] + quoted(q);
    law_quoted_reads_back(q, second);
    law_quoted_reads_back(q, Seq::empty());
    assert(c =~= "OR SUBJECT \""@ + (escaped(q) + seq!['"'] + second));
    assert(c.subrange(0, 12) =~= "OR SUBJECT \""@);
    assert(c.subrange(12, c.len() as int) =~= escaped(q) + seq!['"'] + second);
    assert(" BODY "@ =~= seq![' ', 'B', 'O', 'D', 'Y', ' ']);
    assert(second.subrange(0, 7) =~= " BODY \""@);
    assert(second.subrange(7, second.len() as int) =~= escaped(q) + seq!['"'] + Seq::<char>::empty());
}

/// A search term is refused exactly when it holds a NUL, a CR or an LF; any
/// other term (spaces, quotes, backslashes and any script included) is sent.
pub proof fn law_refused_terms(q: Seq<char>)
    ensures
        has_unquotable(q) <==> exists|i: int|
            0 <= i < q.len() && (#[trigger] q[i] == '\0' || q[i] == '\r' || q[i] == '\n'),
{
}

/// The IMAP search for messages whose subject or body holds `query`.
pub open spec fn search_criteria(query: Seq<char>) -> Seq<char> {
    "OR SUBJECT "@ + quoted(query) + " BODY "@ + quoted(query)
}

/// How a server reads the rest of a quoted string after its opening quote:
/// the text up to the first quote that is not behind a backslash, with the
/// backslashes taken away, and what follows that quote.
pub open spec fn read_quoted(s: Seq<char>) -> Option<(Seq<char>, Seq<char>)>
    decreases s.len(),
{
    if s.len() == 0 {
        None
    } else if s[0] == '"' {
        Some((Seq::empty(), s.drop_first()))
    } else if s[0] == '\\' {
        if s.len() < 2 {
            None
        } else {
            match read_quoted(s.subrange(2, s.len() as int)) {
                Some((t, rest)) => Some((seq![s[1]] + t, rest)),
                None => None,
            }
        }
    } else {
        match read_quoted(s.drop_first()) {
            Some((t, rest)) => Some((seq![s[0]] + t, rest)),
            None => None,
        }
    }
}

proof fn lemma_escaped_concat(a: Seq<char>, b: Seq<char>)
    ensures
        escaped(a + b) == escaped(a) + escaped(b),
    decreases b.len(),
{
    if b.len() == 0 {
        assert(a + b =~= a);
        assert(escaped(a) + escaped(b) =~= escaped(a));
    } else {
        lemma_escaped_concat(a, b.drop_last());
        assert((a + b).drop_last() =~= a + b.drop_last());
        assert((a + b).last() == b.last());
        assert(escaped(a + b) =~= escaped(a) + escaped(b));
    }
}

/// Reading back a quoted search term gives the term itself and ends at its
/// closing quote, whatever follows: no character of the term can end the
/// string early or add a search key.
pub proof fn law_quoted_reads_back(q: Seq<char>, rest: Seq<char>)
    ensures
        read_quoted(escaped(q) + seq!['"'] + rest) == Some((q, rest)),
    decreases q.len(),
{
    if q.len() == 0 {
        assert(escaped(q) + seq!['"'] + rest =~= seq!['"'] + rest);
        assert((seq!['"'] + rest).drop_first() =~= rest);
    } else {
        let c = q[0];
        let tail = q.drop_first();
        law_quoted_reads_back(tail, rest);
        assert(q =~= seq![c] + tail);
        lemma_escaped_concat(seq![c], tail);
        assert(seq![c].drop_last() =~= Seq::<char>::empty());
        assert(seq![c].last() == c);
        assert(escaped(Seq::<char>::empty()) =~= Seq::<char>::empty());
        assert(escaped(seq![c]) =~= escape_piece(c));
        let after = escaped(tail) + seq!['"'] + rest;
        let whole = escaped(q) + seq!['"'] + rest;
        assert(whole =~= escape_piece(c) + after);
        if c == '"' || c == '\\' {
            assert(whole.subrange(2, whole.len() as int) =~= after);
        } else {
            assert(whole.drop_first() =~= after);
        }
        assert(seq![c] + tail =~= q);
    }
}

/// Why a search could not be sent.
#[derive(Debug, Clone, Copy, PartialEq, Eq)]
pub enum SearchError {
    /// The search term holds a NUL or a line break, which a quoted string cannot carry.
    UnquotableTerm,
}

impl SearchError {
    /// The message shown for the error.
    pub fn message(&self) -> (r: String)
        ensures
            r@ == "搜索关键词不能包含换行或空字符"@,
    {
        String::from_str("搜索关键词不能包含换行或空字符")
    }
}

/// Writes `query` inside an IMAP quoted string.
fn quote(query: &str) -> (r: String)
    ensures
        r@ == quoted(query@),
{
    let n = query.unicode_len();
    let mut r = String::from_str("\"");
    proof {
        reveal_strlit("\"");
        assert(query@.take(0) =~= Seq::<char>::empty());
        assert(r@ =~= seq!['"'] + escaped(query@.take(0)));
    }
    let mut i: usize = 0;
    while i < n
        invariant
            n == query@.len(),
            i <= n,
            r@ == seq!['"'] + escaped(query@.take(i as int)),
        decreases n - i,
    {
        let c = query.get_char(i);
        proof {
            assert(query@.take(i + 1).drop_last() =~= query@.take(i as int));
            assert(query@.take(i + 1).last() == c);
        }
        if c == '"' {
            proof {
                reveal_strlit("\\\"");
                assert("\\\""@ =~= escape_piece(c));
            }
            r.append("\\\"");
        } else if c == '\\' {
            proof {
                reveal_strlit("\\\\");
                assert("\\\\"@ =~= escape_piece(c));
            }
            r.append("\\\\");
        } else {
            let piece = query.substring_char(i, i + 1);
            assert(piece@ =~= escape_piece(c));
            r.append(piece);
        }
        i = i + 1;
    }
    proof {
        assert(query@.take(n as int) =~= query@);
    }
    r.append("\"");
    r
}

/// Builds the search for `query`: subject or body holds it. A term with a
/// NUL or a line break is refused.
pub fn search_query(query: &str) -> (r: Result<String, SearchError>)
    ensures
        r is Err <==> has_unquotable(query@),
        r matches Ok(c) ==> c@ == search_criteria(query@),
{
    let n = query.unicode_len();
    let mut i: usize = 0;
    while i < n
        invariant
            n == query@.len(),
            i <= n,
            forall|k: int| 0 <= k < i ==> !unquotable(#[trigger] query@[k]),
        decreases n - i,
    {
        let c = query.get_char(i);
        if c == '\0' || c == '\r' || c == '\n' {
            assert(unquotable(query@[i as int]));
            return Err(SearchError::UnquotableTerm);
        }
        i = i + 1;
    }
    let q = quote(query);
    let mut r = String::from_str("OR SUBJECT ");
    r.append(q.as_str());
    r.append(" BODY ");
    r.append(q.as_str());
    Ok(r)
}

/// The lines shown before the search is sent.
pub fn search_header(query: &str) -> (r: Vec<String>)
    ensures
        texts(r@) == seq!["🔍 搜索："@ + query@, thin_rule()],
{
    let mut first = String::from_str("🔍 搜索：");
    first.append(query);
    let r = vec![first, thin_rule_text()];
    assert(texts(r@) =~= seq!["🔍 搜索："@ + query@, thin_rule()]);
    r
}

/// The number of results shown: the found ones, at most `limit`.
pub open spec fn shown_count(found: nat, limit: nat) -> nat {
    if found < limit {
        found
    } else {
        limit
    }
}

/// What the search command shows of its result, and the messages it then
/// fetches one by one: the `limit` found with the highest numbers, highest first.
pub open spec fn search_plan(ids: Set<u32>, limit: nat) -> (Seq<Seq<char>>, Seq<u32>) {
    search_plan_ordered(ascending_set(ids), limit)
}

/// `search_plan` for numbers already in ascending order, each once.
pub open spec fn search_plan_ordered(ids: Seq<u32>, limit: nat) -> (Seq<Seq<char>>, Seq<u32>) {
    if ids.len() == 0 {
        (seq!["📭 未找到匹配的邮件"@], Seq::empty())
    } else {
        (
            seq![
                "找到 "@ + decimal(ids.len()) + " 封匹配的邮件 (显示前 "@ + decimal(limit)
                    + " 封)\n"@,
            ],
            ids.reverse().take(shown_count(ids.len(), limit) as int),
        )
    }
}

/// The search fetches no more than `limit` results and no more than it
/// found, each one it found and each once, highest number first; every
/// found message that is not shown has a lower number than all shown.
pub proof fn law_search_results_bounded(ids: Set<u32>, limit: nat)
    requires
        ids.finite(),
    ensures
        search_plan(ids, limit).1.len() == shown_count(ascending_set(ids).len(), limit),
        search_plan(ids, limit).1.len() <= limit,
        forall|k: int|
            0 <= k < search_plan(ids, limit).1.len() ==> ids.contains(
                #[trigger] search_plan(ids, limit).1[k],
            ),
        forall|a: int, b: int|
            0 <= a < b < search_plan(ids, limit).1.len() ==> search_plan(ids, limit).1[a]
                > search_plan(ids, limit).1[b],
        forall|x: u32, k: int|
            #![trigger ids.contains(x), search_plan(ids, limit).1[k]]
            ids.contains(x) && !search_plan(ids, limit).1.contains(x) && 0 <= k
                < search_plan(ids, limit).1.len() ==> x < search_plan(ids, limit).1[k],
{
    lemma_ascending_set_exists(ids);
    let d = ascending_set(ids);
    let n = d.len() as int;
    if d.len() > 0 {
        let r = search_plan(ids, limit).1;
        assert forall|k: int| 0 <= k < r.len() implies ids.contains(#[trigger] r[k]) by {
            assert(r[k] == d[n - 1 - k]);
            assert(d.contains(d[n - 1 - k]));
        }
        assert forall|a: int, b: int| 0 <= a < b < r.len() implies r[a] > r[b] by {
            assert(r[a] == d[n - 1 - a]);
            assert(r[b] == d[n - 1 - b]);
        }
        assert forall|x: u32, k: int|
            #![trigger ids.contains(x), r[k]]
            ids.contains(x) && !r.contains(x) && 0 <= k < r.len() implies x < r[k] by {
            assert(d.contains(x));
            let m = choose|m: int| 0 <= m < d.len() && d[m] == x;
            if m >= n - r.len() {
                assert(r[n - 1 - m] == x);
            }
            assert(r[k] == d[n - 1 - k]);
        }
    } else {
        assert forall|x: u32| ids.contains(x) implies d.contains(x) by {}
    }
}

/// The inbox fetches from the `count`-th highest found number on: exactly
/// `count` of the found numbers (all, when fewer were found) are at least
/// the first fetched, and all others are lower.
pub proof fn law_inbox_picks_newest(ids: Set<u32>, count: nat)
    requires
        ids.finite(),
    ensures
        inbox_plan(ids, count).1 matches Some(range) ==> {
            let d = ascending_set(ids);
            let start = inbox_start(d.len(), count);
            &&& range == decimal(d[start as int] as nat) + ":*"@
            &&& ids.contains(d[start as int])
            &&& d.len() - start == shown_count(d.len(), count)
            &&& forall|x: u32| ids.contains(x) && x < d[start as int] ==> d.subrange(0, start as int).contains(x)
            &&& forall|x: u32| ids.contains(x) && x >= d[start as int] ==> d.subrange(start as int, d.len() as int).contains(x)
        },
{
    lemma_ascending_set_exists(ids);
    let d = ascending_set(ids);
    let start = inbox_start(d.len(), count) as int;
    if inbox_plan(ids, count).1 is Some {
        assert(d.contains(d[start]));
        assert forall|x: u32| ids.contains(x) && x < d[start] implies d.subrange(0, start).contains(x) by {
            assert(d.contains(x));
            let m = choose|m: int| 0 <= m < d.len() && d[m] == x;
            if m >= start {
                if m > start {
                    assert(d[start] < d[m]);
                }
            }
            assert(d.subrange(0, start)[m] == x);
        }
        assert forall|x: u32| ids.contains(x) && x >= d[start] implies d.subrange(start, d.len() as int).contains(x) by {
            assert(d.contains(x));
            let m = choose|m: int| 0 <= m < d.len() && d[m] == x;
            if m < start {
                assert(d[m] < d[start]);
            }
            assert(d.subrange(start, d.len() as int)[m - start] == x);
        }
    }
}

/// What the search command shows and fetches next.
pub struct SearchPlan {
    pub lines: Vec<String>,
    pub uids: Vec<u32>,
}

/// Plans the search results for the numbers that the search found, in any order.
pub fn plan_search(found: &HashSet<u32>, limit: usize) -> (p: SearchPlan)
    ensures
        texts(p.lines@) == search_plan(found@, limit as nat).0,
        p.uids@ == search_plan(found@, limit as nat).1,
{
    let ids = ascending_of(found);
    let n = ids.len();
    if n == 0 {
        let lines = vec![String::from_str("📭 未找到匹配的邮件")];
        assert(texts(lines@) =~= search_plan_ordered(ids@, limit as nat).0);
        assert(Seq::<u32>::empty() =~= search_plan_ordered(ids@, limit as nat).1);
        return SearchPlan { lines, uids: Vec::new() };
    }
    let mut line = String::from_str("找到 ");
    let a = to_decimal(n as u64);
    line.append(a.as_str());
    line.append(" 封匹配的邮件 (显示前 ");
    let b = to_decimal(limit as u64);
    line.append(b.as_str());
    line.append(" 封)\n");
    let lines = vec![line];
    let count = if n < limit {
        n
    } else {
        limit
    };
    let mut uids: Vec<u32> = Vec::new();
    let mut k: usize = 0;
    while k < count
        invariant
            n == ids.len(),
            count <= n,
            k <= count,
            uids@ =~= ids@.reverse().take(k as int),
        decreases count - k,
    {
        uids.push(ids[n - 1 - k]);
        proof {
            assert(ids@.reverse().take(k + 1) =~= ids@.reverse().take(k as int).push(
                ids@[n - 1 - k],
            ));
        }
        k = k + 1;
    }
    assert(texts(lines@) =~= search_plan_ordered(ids@, limit as nat).0);
    SearchPlan { lines, uids }
}

/// The items fetched for each search result.
pub fn search_fetch_items() -> (r: &'static str)
    ensures
        r@ == "ENVELOPE"@,
{
    "ENVELOPE"
}

/// The line of one search result, when the first message its fetch returned has an envelope.
pub open spec fn search_result(uid: u32, fs: Seq<FetchedMessage>) -> Option<Seq<char>> {
    if fs.len() > 0 {
        match fs[0].envelope {
            Some(e) => Some(
                "UID: "@ + decimal(uid as nat) + " | 发件人："@ + sender_mailbox(e.from@)
                    + " | 主题："@ + subject_text(e),
            ),
            None => None,
        }
    } else {
        None
    }
}

/// Renders one search result.
pub fn search_result_line(uid: u32, fetches: &Vec<FetchedMessage>) -> (r: Option<String>)
    ensures
        opt_view(r) == search_result(uid, fetches@),
{
    if fetches.len() == 0 {
        return None;
    }
    match &fetches[0].envelope {
        None => None,
        Some(e) => {
            let mut r = String::from_str("UID: ");
            let u = to_decimal(uid as u64);
            r.append(u.as_str());
            r.append(" | 发件人：");
            let m = sender_mailbox_line(&e.from);
            r.append(m.as_str());
            r.append(" | 主题：");
            let s = decode_or(&e.subject, "(无主题)");
            r.append(s.as_str());
            Some(r)
        },
    }
}

} // verus!
