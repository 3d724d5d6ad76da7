use email_cli::config::EmailConfig;
use email_cli::outgoing::{prepare_mail, send_report, smtp_security, SendError, SmtpSecurity};
use email_cli::wizard::{agrees_to_overwrite, resolve_answer, ConfigArgs, ConfigWizard, WizardAction, WizardEvent, WizardStage};

fn args(imap: Option<&str>, email: Option<&str>, password: Option<&str>) -> ConfigArgs {
    ConfigArgs {
        imap_server: imap.map(|s| s.to_string()),
        smtp_server: None,
        email: email.map(|s| s.to_string()),
        password: password.map(|s| s.to_string()),
        imap_port: 993,
        smtp_port: 465,
    }
}

fn existing() -> EmailConfig {
    EmailConfig {
        imap_server: "imap.163.com".to_string(),
        imap_port: 993,
        smtp_server: "smtp.163.com".to_string(),
        smtp_port: 465,
        email: "me@163.com".to_string(),
        password: String::new(),
    }
}

fn prompt_of(a: &WizardAction) -> String {
    match a {
        WizardAction::Ask { prompt, .. } => prompt.clone(),
        _ => panic!("expected a prompt"),
    }
}

#[test]
fn answers_and_confirmation() {
    assert!(agrees_to_overwrite("y\n"));
    assert!(agrees_to_overwrite("  Y "));
    assert!(!agrees_to_overwrite("yes"));
    assert!(!agrees_to_overwrite("\n"));
    assert!(!agrees_to_overwrite("n"));
    assert_eq!(resolve_answer("  \n", "imap.qq.com"), "imap.qq.com");
    assert_eq!(resolve_answer(" imap.163.com\n", "imap.qq.com"), "imap.163.com");
    assert_eq!(resolve_answer("\n", ""), "");
}

#[test]
fn wizard_with_everything_given_saves_at_once() {
    let a = ConfigArgs {
        imap_server: Some("imap.qq.com".to_string()),
        smtp_server: Some("smtp.qq.com".to_string()),
        email: Some("u@qq.com".to_string()),
        password: Some("secret".to_string()),
        imap_port: 993,
        smtp_port: 465,
    };
    let (w, act) = ConfigWizard::start(a);
    match act {
        WizardAction::Load(lines) => assert_eq!(lines, vec!["📧 邮箱配置\n"]),
        _ => panic!("expected a load"),
    }
    assert!(w.accepts(&WizardEvent::Loaded(None)));
    assert!(!w.accepts(&WizardEvent::Saved));
    let (w, act) = w.advance(WizardEvent::Loaded(None));
    assert_eq!(w.stage(), WizardStage::Saving);
    match act {
        WizardAction::Save(c) => {
            assert_eq!(c.imap_server, "imap.qq.com");
            assert_eq!(c.smtp_server, "smtp.qq.com");
            assert_eq!(c.email, "u@qq.com");
            assert_eq!(c.password, "secret");
            assert_eq!(c.imap_port, 993);
            assert_eq!(c.smtp_port, 465);
        }
        _ => panic!("expected a save"),
    }
    let (w, act) = w.advance(WizardEvent::Saved);
    assert_eq!(w.stage(), WizardStage::Finished);
    match act {
        WizardAction::Finish(lines) => {
            assert_eq!(lines[0], "\n✓ 配置完成！");
            assert_eq!(lines.len(), 6);
        }
        _ => panic!("expected the end"),
    }
    assert!(!w.accepts(&WizardEvent::Saved));
}

#[test]
fn wizard_declined_overwrite_keeps_configuration() {
    let (w, _) = ConfigWizard::start(args(None, None, None));
    let (w, act) = w.advance(WizardEvent::Loaded(Some(existing())));
    assert_eq!(w.stage(), WizardStage::ConfirmingOverwrite);
    match &act {
        WizardAction::Ask { lines, prompt } => {
            assert_eq!(lines, &vec!["发现现有配置：", "  邮箱：me@163.com", "  IMAP: imap.163.com:993", "  SMTP: smtp.163.com:465"]);
            assert_eq!(prompt, "\n是否覆盖配置？(y/N): ");
        }
        _ => panic!("expected a question"),
    }
    let (w, act) = w.advance(WizardEvent::Answered("no\n".to_string()));
    assert_eq!(w.stage(), WizardStage::Kept);
    match act {
        WizardAction::Finish(lines) => assert_eq!(lines, vec!["ℹ 保留现有配置"]),
        _ => panic!("expected the end"),
    }
    assert!(!w.accepts(&WizardEvent::Answered(String::new())));
}

#[test]
fn wizard_asks_only_for_missing_fields_and_uses_defaults() {
    let (w, _) = ConfigWizard::start(args(Some("imap.example.org"), None, Some("pw")));
    let (w, act) = w.advance(WizardEvent::Loaded(Some(existing())));
    assert_eq!(prompt_of(&act), "\n是否覆盖配置？(y/N): ");
    let (w, act) = w.advance(WizardEvent::Answered(" y\n".to_string()));
    assert_eq!(w.stage(), WizardStage::AskingSmtp);
    assert_eq!(prompt_of(&act), "SMTP 服务器 [smtp.qq.com]: ");
    let (w, act) = w.advance(WizardEvent::Answered("\n".to_string()));
    assert_eq!(w.stage(), WizardStage::AskingEmail);
    assert_eq!(prompt_of(&act), "邮箱地址: ");
    let (w, act) = w.advance(WizardEvent::Answered("  me@example.org \n".to_string()));
    assert_eq!(w.stage(), WizardStage::Saving);
    match act {
        WizardAction::Save(c) => {
            assert_eq!(c.imap_server, "imap.example.org");
            assert_eq!(c.smtp_server, "smtp.qq.com");
            assert_eq!(c.email, "me@example.org");
            assert_eq!(c.password, "pw");
        }
        _ => panic!("expected a save"),
    }
}

#[test]
fn wizard_asks_every_field_in_order() {
    let (w, _) = ConfigWizard::start(args(None, None, None));
    let (w, act) = w.advance(WizardEvent::Loaded(None));
    assert_eq!(w.stage(), WizardStage::AskingImap);
    assert_eq!(prompt_of(&act), "IMAP 服务器 [imap.qq.com]: ");
    let (w, _) = w.advance(WizardEvent::Answered("\n".to_string()));
    let (w, _) = w.advance(WizardEvent::Answered("smtp.office365.com\n".to_string()));
    let (w, _) = w.advance(WizardEvent::Answered("\n".to_string()));
    assert_eq!(w.stage(), WizardStage::AskingPassword);
    let (w, act) = w.advance(WizardEvent::Answered("  auth-code \n".to_string()));
    assert_eq!(w.stage(), WizardStage::Saving);
    match act {
        WizardAction::Save(c) => {
            assert_eq!(c.imap_server, "imap.qq.com");
            assert_eq!(c.smtp_server, "smtp.office365.com");
            assert_eq!(c.email, "");
            assert_eq!(c.password, "auth-code");
        }
        _ => panic!("expected a save"),
    }
}

fn account(email: &str) -> EmailConfig {
    EmailConfig {
        imap_server: "imap.qq.com".to_string(),
        imap_port: 993,
        smtp_server: "smtp.qq.com".to_string(),
        smtp_port: 465,
        email: email.to_string(),
        password: "code".to_string(),
    }
}

#[test]
fn prepared_mail_carries_sender_and_relay() {
    let m = prepare_mail(&account("your@qq.com"), "recipient@example.com", "会议通知", "明天下午 3 点开会").unwrap();
    assert_eq!(m.from.name.as_deref(), Some("your"));
    assert_eq!(m.from.email.to_string(), "your@qq.com");
    assert_eq!(m.to.email.to_string(), "recipient@example.com");
    assert_eq!(m.subject, "会议通知");
    assert_eq!(m.body, "明天下午 3 点开会");
    assert_eq!(m.relay, "smtp.qq.com");
    assert_eq!(m.port, 465);
    assert_eq!(m.security, SmtpSecurity::ImplicitTls);
    let expected_from: lettre::message::Mailbox = "your <your@qq.com>".parse().unwrap();
    let expected_to: lettre::message::Mailbox = "recipient@example.com".parse().unwrap();
    assert_eq!(m.from, expected_from);
    assert_eq!(m.to, expected_to);
    assert_eq!(m.username, "your@qq.com");
    assert_eq!(m.password, "code");
}

#[test]
fn invalid_addresses_are_refused() {
    let expected = "not an address".parse::<lettre::message::Mailbox>().unwrap_err();
    match prepare_mail(&account("your@qq.com"), "not an address", "s", "b") {
        Err(SendError::InvalidRecipient(e)) => assert_eq!(e, expected),
        other => panic!("unexpected {:?}", other),
    }
    let expected = "nobody <nobody>".parse::<lettre::message::Mailbox>().unwrap_err();
    match prepare_mail(&account("nobody"), "recipient@example.com", "s", "b") {
        Err(SendError::InvalidSender(e)) => assert_eq!(e, expected),
        other => panic!("unexpected {:?}", other),
    }
}

#[test]
fn send_reports() {
    assert_eq!(send_report("a@b.c", Ok(())), "✓ 邮件已发送到：a@b.c");
    assert_eq!(send_report("a@b.c", Err("timeout".to_string())), "❌ 发送失败：timeout");
}

#[test]
fn smtp_security_by_port() {
    assert_eq!(smtp_security(587), SmtpSecurity::StartTls);
    assert_eq!(smtp_security(465), SmtpSecurity::ImplicitTls);
    assert_eq!(smtp_security(25), SmtpSecurity::ImplicitTls);
    let mut c = account("a@b.com");
    c.smtp_port = 587;
    assert_eq!(prepare_mail(&c, "x@y.com", "s", "b").unwrap().security, SmtpSecurity::StartTls);
}

fn shown(a: &WizardAction) -> Vec<String> {
    match a {
        WizardAction::Load(l) | WizardAction::Finish(l) => l.clone(),
        WizardAction::Ask { lines, prompt } => {
            let mut v = lines.clone();
            v.push(prompt.clone());
            v
        }
        WizardAction::Save(_) => vec![],
    }
}

#[test]
fn passwords_are_never_shown() {
    let run = |pw_arg: Option<&str>, stored_pw: &str, typed_pw: &str| -> Vec<String> {
        let (mut w, mut act) = ConfigWizard::start(args(None, None, pw_arg));
        let mut out = shown(&act);
        let mut stored = existing();
        stored.password = stored_pw.to_string();
        let events = vec![
            WizardEvent::Loaded(Some(stored)),
            WizardEvent::Answered("y".to_string()),
            WizardEvent::Answered("\n".to_string()),
            WizardEvent::Answered("\n".to_string()),
            WizardEvent::Answered("me@qq.com".to_string()),
        ];
        for e in events {
            let (nw, na) = w.advance(e);
            w = nw;
            act = na;
            out.extend(shown(&act));
        }
        if w.stage() == WizardStage::AskingPassword {
            let (nw, na) = w.advance(WizardEvent::Answered(typed_pw.to_string()));
            w = nw;
            act = na;
            out.extend(shown(&act));
        }
        let (_, na) = w.advance(WizardEvent::Saved);
        out.extend(shown(&na));
        out
    };
    let a = run(None, "old-secret", "new-secret");
    let b = run(None, "other", "typed");
    assert_eq!(a, b);
    assert!(a.iter().all(|l| !l.contains("secret")));
    let c = run(Some("arg-secret"), "old-secret", "");
    let d = run(Some("arg-other"), "x", "");
    assert_eq!(c, d);
}
