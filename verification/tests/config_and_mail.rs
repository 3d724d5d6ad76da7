use std::collections::HashSet;
use email_cli::config::{clear_report, config_base_dir, config_dir_name, config_file_name, load_failure_line, show_config_lines, EmailConfig, LocationError, Platform};
use email_cli::mail::{
    inbox_fetch_items, inbox_mailbox, inbox_search_query, message_set, mark_seen_update, plan_inbox, plan_search, render_inbox, render_message, search_header,
    search_query, search_result_line, seen, Address, Envelope, FetchedMessage, MailError, SearchError,
};

fn qq_config() -> EmailConfig {
    EmailConfig {
        imap_server: "imap.qq.com".to_string(),
        imap_port: 993,
        smtp_server: "smtp.qq.com".to_string(),
        smtp_port: 465,
        email: "your@qq.com".to_string(),
        password: "code".to_string(),
    }
}

fn addr(name: &str, mailbox: &str) -> Address {
    Address { name: Some(name.as_bytes().to_vec()), mailbox: Some(mailbox.as_bytes().to_vec()) }
}

fn message(uid: Option<u32>, seen_flag: bool, subject: Option<&[u8]>) -> FetchedMessage {
    FetchedMessage {
        uid,
        flags: if seen_flag { vec!["\\Seen".to_string()] } else { vec!["\\Recent".to_string()] },
        envelope: Some(Envelope {
            subject: subject.map(|s| s.to_vec()),
            from: vec![addr("Alice", "alice@example.com")],
            to: vec![addr("Bob", "bob@example.com"), Address { name: None, mailbox: Some(b"carol@example.com".to_vec()) }],
            date: Some(b"Mon, 3 Mar 2026 10:00:00 +0800".to_vec()),
        }),
        body: Some("明天下午 3 点开会".as_bytes().to_vec()),
    }
}

#[test]
fn config_derived_text() {
    let c = qq_config();
    assert_eq!(c.imap_address(), "imap.qq.com:993");
    assert_eq!(c.sender_display(), "your <your@qq.com>");
    assert_eq!(c.summary_lines(), vec!["  邮箱：your@qq.com", "  IMAP: imap.qq.com:993", "  SMTP: smtp.qq.com:465"]);
    assert_eq!(show_config_lines(&c)[0], "📧 当前配置:");
    assert_eq!(show_config_lines(&c).len(), 4);
    assert_eq!(load_failure_line("missing"), "❌ 无法加载配置：missing");
}

#[test]
fn sender_uses_text_before_first_at() {
    let mut c = qq_config();
    c.email = "a@b@c".to_string();
    assert_eq!(c.sender_display(), "a <a@b@c>");
    c.email = "plain".to_string();
    assert_eq!(c.sender_display(), "plain <plain>");
    c.email = "@x".to_string();
    assert_eq!(c.sender_display(), " <@x>");
}

#[test]
fn configuration_location() {
    let s = |t: &str| Some(t.to_string());
    assert_eq!(config_base_dir(Platform::Windows, s("C:\\AppData"), None, None), Ok("C:\\AppData".to_string()));
    assert_eq!(config_base_dir(Platform::Windows, None, s("/home/u/.config"), s("/home/u")), Err(LocationError::MissingAppData));
    assert_eq!(config_base_dir(Platform::Unix, None, s("/home/u/.config"), s("/home/u")), Ok("/home/u/.config".to_string()));
    assert_eq!(config_base_dir(Platform::Unix, s("x"), None, None), Ok("~/.config".to_string()));
    assert_eq!(
        config_base_dir(Platform::MacOs, None, s("/Users/u/Library/Application Support"), s("/Users/u")),
        Ok("/Users/u/.config".to_string())
    );
    assert_eq!(config_base_dir(Platform::MacOs, None, None, None), Ok("~/.config".to_string()));
    assert_eq!(LocationError::MissingAppData.message(), "Failed to get APPDATA");
    assert_eq!(config_dir_name(), "email_cli");
    assert_eq!(config_file_name(), "config.json");
    assert_eq!(clear_report(true), "✓ 配置已清除");
    assert_eq!(clear_report(false), "ℹ 配置文件不存在");
}

#[test]
fn seen_flag_detection() {
    assert!(seen(&vec!["\\Answered".to_string(), "\\Seen".to_string()]));
    assert!(!seen(&vec!["\\Answered".to_string()]));
    assert!(!seen(&vec!["\\seen".to_string()]));
    assert!(!seen(&vec![]));
}

#[test]
fn inbox_plan_cases() {
    let p = plan_inbox(&HashSet::new(), 10);
    assert_eq!(p.lines, vec!["📭 收件箱为空"]);
    assert_eq!(p.fetch_range, None);

    let ids: Vec<u32> = vec![3, 5, 1, 4, 2];
    let p = plan_inbox(&HashSet::from_iter(ids.iter().copied()), 2);
    assert_eq!(p.lines[0], "📬 收件箱 (共 5 封邮件)");
    assert_eq!(p.lines[1], "─".repeat(80));
    assert_eq!(p.lines.len(), 2);
    assert_eq!(p.fetch_range, Some("4:*".to_string()));

    let p = plan_inbox(&HashSet::from_iter(ids.iter().copied()), 10);
    assert_eq!(p.fetch_range, Some("1:*".to_string()));

    let p = plan_inbox(&HashSet::from_iter(ids.iter().copied()), 0);
    assert_eq!(p.lines.len(), 3);
    assert_eq!(p.lines[2], "📭 没有邮件");
    assert_eq!(p.fetch_range, None);

    assert_eq!(inbox_search_query(), "ALL");
    assert_eq!(inbox_fetch_items(), "(UID ENVELOPE FLAGS INTERNALDATE)");

    let p = plan_inbox(&HashSet::from([9, 7, 9, 8]), 2);
    assert_eq!(p.lines[0], "📬 收件箱 (共 3 封邮件)");
    assert_eq!(p.fetch_range, Some("8:*".to_string()));
    assert_eq!(inbox_mailbox(), "INBOX");
}

#[test]
fn inbox_listing_newest_first() {
    let fetches = vec![message(Some(7), true, Some(b"old")), message(Some(9), false, None)];
    let r = render_inbox(&fetches);
    assert_eq!(r.error, None);
    assert_eq!(r.lines.len(), 8);
    assert_eq!(r.lines[0], "📕 UID: 9 | Mon, 3 Mar 2026 10:00:00 +0800");
    assert_eq!(r.lines[1], "   发件人：Alice <alice@example.com>");
    assert_eq!(r.lines[2], "   主题：(无主题)");
    assert_eq!(r.lines[3], "─".repeat(80));
    assert_eq!(r.lines[4], "📄 UID: 7 | Mon, 3 Mar 2026 10:00:00 +0800");
    assert_eq!(r.lines[6], "   主题：old");
}

#[test]
fn inbox_listing_stops_at_first_unshowable() {
    let mut no_uid = message(None, false, Some(b"x"));
    no_uid.flags = vec![];
    let fetches = vec![no_uid, message(Some(3), false, Some(b"ok"))];
    let r = render_inbox(&fetches);
    assert_eq!(r.lines.len(), 4);
    assert_eq!(r.error, Some(MailError::MissingUid));
    assert_eq!(MailError::MissingUid.message(), "无法获取邮件 UID");

    let mut no_env = message(Some(1), false, None);
    no_env.envelope = None;
    let r = render_inbox(&vec![message(Some(2), false, None), no_env]);
    assert_eq!(r.lines.len(), 0);
    assert_eq!(r.error, Some(MailError::MissingEnvelope));
    assert_eq!(MailError::MissingEnvelope.message(), "无法解析邮件信封");
}

#[test]
fn unknown_sender_and_invalid_text() {
    let mut m = message(Some(5), false, Some(&[0xff]));
    if let Some(e) = m.envelope.as_mut() {
        e.from = vec![];
        e.date = None;
    }
    let r = render_inbox(&vec![m]);
    assert_eq!(r.lines[0], "📕 UID: 5 | 未知日期");
    assert_eq!(r.lines[1], "   发件人：未知");
    assert_eq!(r.lines[2], "   主题：(无主题)");
}

#[test]
fn read_shows_message_and_marks_it() {
    let v = render_message(42, &vec![message(Some(42), false, Some("周报".as_bytes()))]).unwrap();
    assert!(v.mark_seen);
    assert_eq!(v.lines.len(), 9);
    assert_eq!(v.lines[0], "\n📧 邮件详情");
    assert_eq!(v.lines[1], "═".repeat(80));
    assert_eq!(v.lines[2], "主题：周报");
    assert_eq!(v.lines[3], "发件人：Alice <alice@example.com>");
    assert_eq!(v.lines[4], "收件人：Bob <bob@example.com>,  <carol@example.com>");
    assert_eq!(v.lines[5], "日期：Mon, 3 Mar 2026 10:00:00 +0800");
    assert_eq!(v.lines[6], "─".repeat(80));
    assert_eq!(v.lines[7], "\n明天下午 3 点开会");
    assert_eq!(v.lines[8], format!("\n{}", "═".repeat(80)));
    assert_eq!(message_set(42), "42");
    assert_eq!(mark_seen_update(), "+Flags (\\Seen)");
}

#[test]
fn read_reports_missing_message_body_and_envelope() {
    let v = render_message(8, &vec![]).unwrap();
    assert!(!v.mark_seen);
    assert_eq!(v.lines, vec!["❌ 未找到邮件 UID: 8"]);

    let mut m = message(Some(8), false, None);
    m.body = None;
    assert_eq!(render_message(8, &vec![m]).unwrap().lines[7], "\n⚠ 邮件无正文");

    let mut m = message(Some(8), false, None);
    m.body = Some(vec![0xe4, 0xb8]);
    assert_eq!(render_message(8, &vec![m]).unwrap().lines[7], "\n⚠ 无法解析邮件正文 (可能是 HTML 或编码问题)");

    let mut m = message(Some(8), false, None);
    m.envelope = None;
    assert_eq!(render_message(8, &vec![m]).err(), Some(MailError::MissingEnvelope));
}

#[test]
fn search_query_and_plan() {
    assert_eq!(search_query("项目报告"), Ok("OR SUBJECT \"项目报告\" BODY \"项目报告\"".to_string()));
    assert_eq!(search_query("a\"b\\c"), Ok("OR SUBJECT \"a\\\"b\\\\c\" BODY \"a\\\"b\\\\c\"".to_string()));
    assert_eq!(search_query(""), Ok("OR SUBJECT \"\" BODY \"\"".to_string()));
    assert_eq!(search_query("x\r\nA001 LOGOUT"), Err(SearchError::UnquotableTerm));
    assert_eq!(search_query("a\0"), Err(SearchError::UnquotableTerm));
    assert_eq!(SearchError::UnquotableTerm.message(), "搜索关键词不能包含换行或空字符");
    assert_eq!(search_header("发票"), vec!["🔍 搜索：发票".to_string(), "─".repeat(80)]);

    let p = plan_search(&HashSet::new(), 5);
    assert_eq!(p.lines, vec!["📭 未找到匹配的邮件"]);
    assert!(p.uids.is_empty());

    let p = plan_search(&HashSet::from([12, 10, 13, 11]), 2);
    assert_eq!(p.lines, vec!["找到 4 封匹配的邮件 (显示前 2 封)\n"]);
    assert_eq!(p.uids, vec![13, 12]);

    let p = plan_search(&HashSet::from([11, 10]), 10);
    assert_eq!(p.uids, vec![11, 10]);
    let p = plan_search(&HashSet::from([1, 3]), 0);
    assert_eq!(p.lines, vec!["找到 2 封匹配的邮件 (显示前 0 封)\n"]);
    assert!(p.uids.is_empty());
    assert!(p.uids.len() <= 10);
}

#[test]
fn search_result_lines() {
    let m = message(Some(3), false, Some(b"Invoice"));
    assert_eq!(search_result_line(3, &vec![m]), Some("UID: 3 | 发件人：alice@example.com | 主题：Invoice".to_string()));
    assert_eq!(search_result_line(3, &vec![]), None);
    let mut m = message(Some(3), false, None);
    m.envelope = None;
    assert_eq!(search_result_line(3, &vec![m]), None);
    let mut m = message(Some(4), false, None);
    if let Some(e) = m.envelope.as_mut() {
        e.from = vec![];
    }
    assert_eq!(search_result_line(4, &vec![m]), Some("UID: 4 | 发件人：未知 | 主题：(无主题)".to_string()));
}

#[test]
fn search_picks_highest_numbers_whatever_the_order() {
    let found: Vec<u32> = vec![4, 17, 2, 9, 11, 3];
    let p = plan_search(&HashSet::from_iter(found.iter().copied()), 3);
    assert_eq!(p.uids, vec![17, 11, 9]);
    for u in &p.uids {
        assert!(found.contains(u));
    }
    for x in &found {
        if !p.uids.contains(x) {
            assert!(p.uids.iter().all(|u| x < u));
        }
    }
}
