//! The account configuration: its fields, where it is stored, and the text
//! derived from it (server address, sender, summary).

use vstd::prelude::*;
use crate::decimal::{decimal, to_decimal};
use crate::text::texts;

verus! {

/// The settings of one mail account.
#[derive(Debug, PartialEq, Eq)]
pub struct EmailConfig {
    pub imap_server: String,
    pub imap_port: u16,
    pub smtp_server: String,
    pub smtp_port: u16,
    pub email: String,
    /// The password or authorisation code.
    pub password: String,
}

/// What a configuration holds, as text.
pub struct ConfigText {
    pub imap_server: Seq<char>,
    pub imap_port: u16,
    pub smtp_server: Seq<char>,
    pub smtp_port: u16,
    pub email: Seq<char>,
    pub password: Seq<char>,
}

impl View for EmailConfig {
    type V = ConfigText;

    open spec fn view(&self) -> ConfigText {
        ConfigText {
            imap_server: self.imap_server@,
            imap_port: self.imap_port,
            smtp_server: self.smtp_server@,
            smtp_port: self.smtp_port,
            email: self.email@,
            password: self.password@,
        }
    }
}

/// `host:port`, the address at which a server is reached.
pub open spec fn host_port(host: Seq<char>, port: u16) -> Seq<char> {
    host + ":"@ + decimal(port as nat)
}

/// The part of an address before its first `@`; the whole text when there is none.
pub open spec fn local_part(email: Seq<char>) -> Seq<char> {
    match email.index_of_first('@') {
        Some(i) => email.take(i),
        None => email,
    }
}

/// The sender's name is the whole text before the first `@` of the address
/// (dots and all other characters included), or the whole address when it
/// has no `@`.
pub proof fn law_sender_name(email: Seq<char>, i: int)
    requires
        0 <= i < email.len(),
        email[i] == '@',
        forall|k: int| 0 <= k < i ==> email[k] != '@',
    ensures
        local_part(email) == email.subrange(0, i),
        sender_text(email) == email.subrange(0, i) + " <"@ + email + ">"@,
{
    email.index_of_first_ensures('@');
    assert(email.contains('@'));
    let f = email.index_of_first('@')->0;
    assert(!(f < i));
    assert(!(i < f));
    assert(email.take(i) =~= email.subrange(0, i));
}

/// An address without `@` is its own sender name.
pub proof fn law_sender_name_without_at(email: Seq<char>)
    requires
        forall|k: int| 0 <= k < email.len() ==> email[k] != '@',
    ensures
        local_part(email) == email,
        sender_text(email) == email + " <"@ + email + ">"@,
{
    email.index_of_first_ensures('@');
    if email.contains('@') {
        let k = choose|k: int| 0 <= k < email.len() && email[k] == '@';
        assert(email[k] != '@');
    }
}

/// `local <email>`, the sender under which mail is sent.
pub open spec fn sender_text(email: Seq<char>) -> Seq<char> {
    local_part(email) + " <"@ + email + ">"@
}

/// The three lines that describe a configuration.
pub open spec fn summary(c: EmailConfig) -> Seq<Seq<char>> {
    seq![
        "  邮箱："@ + c.email@,
        "  IMAP: "@ + host_port(c.imap_server@, c.imap_port),
        "  SMTP: "@ + host_port(c.smtp_server@, c.smtp_port),
    ]
}

/// The summary never shows the password: configurations that differ only
/// in their passwords have the same summary.
pub proof fn law_summary_hides_password(a: EmailConfig, b: EmailConfig)
    requires
        a.email@ == b.email@,
        a.imap_server@ == b.imap_server@,
        a.imap_port == b.imap_port,
        a.smtp_server@ == b.smtp_server@,
        a.smtp_port == b.smtp_port,
    ensures
        summary(a) == summary(b),
{
}

/// Renders `host:port`.
pub fn host_port_text(host: &str, port: u16) -> (r: String)
    ensures
        r@ == host_port(host@, port),
{
    let mut r = String::from_str(host);
    r.append(":");
    let p = to_decimal(port as u64);
    r.append(p.as_str());
    r
}

/// The part of `email` before its first `@`.
pub fn local_part_of(email: &str) -> (r: String)
    ensures
        r@ == local_part(email@),
{
    let n = email.unicode_len();
    let mut i: usize = 0;
    while i < n && email.get_char(i) != '@'
        invariant
            n == email@.len(),
            i <= n,
            forall|k: int| 0 <= k < i ==> email@[k] != '@',
        decreases n - i,
    {
        i = i + 1;
    }
    proof {
        email@.index_of_first_ensures('@');
        if i < n {
            assert(email@.contains('@'));
            let f = email@.index_of_first('@')->0;
            assert(!(f < i));
            assert(!(i < f));
        } else {
            assert(!email@.contains('@'));
            assert(email@.take(n as int) =~= email@);
        }
    }
    String::from_str(email.substring_char(0, i))
}

impl EmailConfig {
    /// The address of the IMAP server, `server:port`.
    pub fn imap_address(&self) -> (r: String)
        ensures
            r@ == host_port(self.imap_server@, self.imap_port),
    {
        host_port_text(self.imap_server.as_str(), self.imap_port)
    }

    /// The sender of outgoing mail: the part of the address before its first
    /// `@` (the whole address when it has none), then the address in angle brackets.
    pub fn sender_display(&self) -> (r: String)
        ensures
            r@ == sender_text(self.email@),
    {
        let mut r = local_part_of(self.email.as_str());
        r.append(" <");
        r.append(self.email.as_str());
        r.append(">");
        r
    }

    /// The lines that show the address and both servers.
    pub fn summary_lines(&self) -> (r: Vec<String>)
        ensures
            texts(r@) == summary(*self),
    {
        let mut a = String::from_str("  邮箱：");
        a.append(self.email.as_str());
        let mut b = String::from_str("  IMAP: ");
        let imap = self.imap_address();
        b.append(imap.as_str());
        let mut c = String::from_str("  SMTP: ");
        let smtp = host_port_text(self.smtp_server.as_str(), self.smtp_port);
        c.append(smtp.as_str());
        let r = vec![a, b, c];
        assert(texts(r@) =~= summary(*self));
        r
    }
}

/// Why the configuration directory could not be found.
#[derive(Debug, PartialEq, Eq)]
pub enum LocationError {
    /// On Windows the directory is taken from `APPDATA`, which was not set.
    MissingAppData,
}

impl LocationError {
    /// The message shown for the error.
    pub fn message(&self) -> (r: String)
        ensures
            r@ == "Failed to get APPDATA"@,
    {
        String::from_str("Failed to get APPDATA")
    }
}

/// The kind of system the program runs on, as far as the place of the
/// configuration depends on it.
#[derive(Debug, Clone, Copy, PartialEq, Eq, Structural)]
pub enum Platform {
    Windows,
    MacOs,
    /// Linux and the other Unix systems.
    Unix,
}

/// The directory under which the configuration is kept: `APPDATA` on
/// Windows; `~/.config` under the home directory on macOS; the platform's
/// configuration directory (`$XDG_CONFIG_HOME`, by default `~/.config`)
/// elsewhere. When no directory is known, the text `~/.config` is used.
pub open spec fn config_base(
    platform: Platform,
    appdata: Option<Seq<char>>,
    config_dir: Option<Seq<char>>,
    home: Option<Seq<char>>,
) -> Result<Seq<char>, LocationError> {
    match platform {
        Platform::Windows => match appdata {
            Some(d) => Ok(d),
            None => Err(LocationError::MissingAppData),
        },
        Platform::MacOs => match home {
            Some(h) => Ok(h + "/.config"@),
            None => Ok("~/.config"@),
        },
        Platform::Unix => match config_dir {
            Some(d) => Ok(d),
            None => Ok("~/.config"@),
        },
    }
}

/// The view of an optional string.
pub open spec fn opt_text(o: Option<String>) -> Option<Seq<char>> {
    match o {
        Some(s) => Some(s@),
        None => None,
    }
}

/// Chooses the directory under which the configuration is kept.
pub fn config_base_dir(
    platform: Platform,
    appdata: Option<String>,
    config_dir: Option<String>,
    home: Option<String>,
) -> (r: Result<String, LocationError>)
    ensures
        match r {
            Ok(d) => config_base(platform, opt_text(appdata), opt_text(config_dir), opt_text(home))
                == Ok::<Seq<char>, LocationError>(d@),
            Err(e) => config_base(platform, opt_text(appdata), opt_text(config_dir), opt_text(home))
                == Err::<Seq<char>, LocationError>(e),
        },
{
    match platform {
        Platform::Windows => match appdata {
            Some(d) => Ok(d),
            None => Err(LocationError::MissingAppData),
        },
        Platform::MacOs => match home {
            Some(h) => {
                let mut d = h;
                d.append("/.config");
                Ok(d)
            },
            None => Ok(String::from_str("~/.config")),
        },
        Platform::Unix => match config_dir {
            Some(d) => Ok(d),
            None => Ok(String::from_str("~/.config")),
        },
    }
}

/// The directory, under the base, that holds this program's configuration.
pub fn config_dir_name() -> (r: &'static str)
    ensures
        r@ == "email_cli"@,
{
    "email_cli"
}

/// The name of the configuration file.
pub fn config_file_name() -> (r: &'static str)
    ensures
        r@ == "config.json"@,
{
    "config.json"
}

/// The line printed after the configuration is cleared, or found absent.
pub fn clear_report(existed: bool) -> (r: String)
    ensures
        r@ == (if existed { "✓ 配置已清除"@ } else { "ℹ 配置文件不存在"@ }),
{
    if existed {
        String::from_str("✓ 配置已清除")
    } else {
        String::from_str("ℹ 配置文件不存在")
    }
}

/// The lines of the `show-config` command, for a configuration that loaded.
pub fn show_config_lines(c: &EmailConfig) -> (r: Vec<String>)
    ensures
        texts(r@) == seq!["📧 当前配置:"@] + summary(*c),
{
    let mut r = vec![String::from_str("📧 当前配置:")];
    let mut s = c.summary_lines();
    r.append(&mut s);
    assert(texts(r@) =~= seq!["📧 当前配置:"@] + summary(*c));
    r
}

/// The line of the `show-config` command when the configuration could not be loaded.
pub fn load_failure_line(reason: &str) -> (r: String)
    ensures
        r@ == "❌ 无法加载配置："@ + reason@,
{
    let mut r = String::from_str("❌ 无法加载配置：");
    r.append(reason);
    r
}

} // verus!
