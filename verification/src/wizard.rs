//! The interactive `config` command as a state machine: each step takes
//! what the last action brought back and says what to do next. The caller
//! prints, reads and stores; the decisions are made here.

use vstd::prelude::*;
use crate::config::{EmailConfig, ConfigText, summary, opt_text};
use crate::text::{texts, trimmed, trim};

verus! {

/// What the `config` command was given on its command line.
pub struct ConfigArgs {
    pub imap_server: Option<String>,
    pub smtp_server: Option<String>,
    pub email: Option<String>,
    pub password: Option<String>,
    pub imap_port: u16,
    pub smtp_port: u16,
}

/// Where the wizard stands.
#[derive(Clone, Copy, Debug, PartialEq, Eq, Structural)]
pub enum WizardStage {
    /// Waiting for the stored configuration to be loaded.
    Loading,
    /// Waiting for the answer to whether the stored configuration is replaced.
    ConfirmingOverwrite,
    AskingImap,
    AskingSmtp,
    AskingEmail,
    AskingPassword,
    /// Waiting for the new configuration to be stored.
    Saving,
    /// Done, with a new configuration stored.
    Finished,
    /// Done, with the stored configuration kept.
    Kept,
}

/// What the caller reports back.
pub enum WizardEvent {
    /// The stored configuration, or nothing when none could be loaded.
    Loaded(Option<EmailConfig>),
    /// A line read from the terminal.
    Answered(String),
    /// The new configuration was stored.
    Saved,
}

/// What the caller is to do next.
pub enum WizardAction {
    /// Print the lines, then load the stored configuration and report `Loaded`.
    Load(Vec<String>),
    /// Print the lines, then the prompt without ending its line, read a line and report `Answered`.
    Ask { lines: Vec<String>, prompt: String },
    /// Store the configuration and report `Saved`.
    Save(EmailConfig),
    /// Print the lines; nothing more is to be done.
    Finish(Vec<String>),
}

/// An action, as text.
pub enum WizardStep {
    Load(Seq<Seq<char>>),
    Ask(Seq<Seq<char>>, Seq<char>),
    Save(ConfigText),
    Finish(Seq<Seq<char>>),
}

impl View for WizardAction {
    type V = WizardStep;

    open spec fn view(&self) -> WizardStep {
        match self {
            WizardAction::Load(l) => WizardStep::Load(texts(l@)),
            WizardAction::Ask { lines, prompt } => WizardStep::Ask(texts(lines@), prompt@),
            WizardAction::Save(c) => WizardStep::Save(c@),
            WizardAction::Finish(l) => WizardStep::Finish(texts(l@)),
        }
    }
}

/// The four asked fields are numbered 2 (IMAP server), 3 (SMTP server),
/// 4 (address) and 5 (password); 6 stands for "all are known".
pub open spec fn arg_of(args: ConfigArgs, field: nat) -> Option<Seq<char>> {
    if field == 2 {
        opt_text(args.imap_server)
    } else if field == 3 {
        opt_text(args.smtp_server)
    } else if field == 4 {
        opt_text(args.email)
    } else {
        opt_text(args.password)
    }
}

/// The first field, from `field` on, that the command line did not give; 6 when there is none.
pub open spec fn first_missing(args: ConfigArgs, field: nat) -> nat
    decreases 6 - field,
{
    if field >= 6 {
        6
    } else if arg_of(args, field) is None {
        field
    } else {
        first_missing(args, field + 1)
    }
}

/// The stage in which `field` is asked for; `Saving` once all are known.
pub open spec fn asking(field: nat) -> WizardStage {
    if field == 2 {
        WizardStage::AskingImap
    } else if field == 3 {
        WizardStage::AskingSmtp
    } else if field == 4 {
        WizardStage::AskingEmail
    } else if field == 5 {
        WizardStage::AskingPassword
    } else {
        WizardStage::Saving
    }
}

/// The prompt for a field.
pub open spec fn prompt_of(field: nat) -> Seq<char> {
    if field == 2 {
        "IMAP 服务器 [imap.qq.com]: "@
    } else if field == 3 {
        "SMTP 服务器 [smtp.qq.com]: "@
    } else if field == 4 {
        "邮箱地址: "@
    } else {
        "邮箱密码/授权码: "@
    }
}

/// The value a blank answer gives a field.
pub open spec fn default_of(field: nat) -> Seq<char> {
    if field == 2 {
        "imap.qq.com"@
    } else if field == 3 {
        "smtp.qq.com"@
    } else {
        Seq::empty()
    }
}

/// The value that an answer gives a field: the answer without surrounding
/// white space, or the field's default when nothing else is left.
pub open spec fn resolved(answer: Seq<char>, default: Seq<char>) -> Seq<char> {
    if trimmed(answer).len() == 0 {
        default
    } else {
        trimmed(answer)
    }
}

/// Whether an answer agrees to replace the stored configuration: `y` or `Y`,
/// with any white space around it.
pub open spec fn agrees(answer: Seq<char>) -> bool {
    trimmed(answer) == seq!['y'] || trimmed(answer) == seq!['Y']
}

/// The lines printed once the new configuration is stored.
pub open spec fn done_lines() -> Seq<Seq<char>> {
    seq![
        "\n✓ 配置完成！"@,
        "\n常用命令:"@,
        "  email inbox          - 查看收件箱"@,
        "  email read -u <UID>  - 读取邮件详情"@,
        "  email search -q <关键词> - 搜索邮件"@,
        "  email send -t <收件人> -s <主题> -b <正文> - 发送邮件"@,
    ]
}

/// Whether the value of `field` is settled in `stage` (asked or taken from the command line).
pub open spec fn settled(stage: WizardStage, field: nat) -> bool {
    match stage {
        WizardStage::AskingSmtp => field < 3,
        WizardStage::AskingEmail => field < 4,
        WizardStage::AskingPassword => field < 5,
        WizardStage::Saving | WizardStage::Finished => true,
        _ => false,
    }
}

/// Whether `answer` agrees to replace the stored configuration.
pub fn agrees_to_overwrite(answer: &str) -> (b: bool)
    ensures
        b == agrees(answer@),
{
    let t = trim(answer);
    let lower = String::from_str("y");
    let upper = String::from_str("Y");
    proof {
        reveal_strlit("y");
        reveal_strlit("Y");
        assert(lower@ =~= seq!['y']);
        assert(upper@ =~= seq!['Y']);
    }
    t == lower || t == upper
}

/// The value that `answer` gives a field whose default is `default`.
pub fn resolve_answer(answer: &str, default: &str) -> (r: String)
    ensures
        r@ == resolved(answer@, default@),
{
    let t = trim(answer);
    if t.unicode_len() == 0 {
        String::from_str(default)
    } else {
        t
    }
}

/// What an action shows on the terminal: its lines, then its prompt.
pub open spec fn shown(step: WizardStep) -> (Seq<Seq<char>>, Seq<char>) {
    match step {
        WizardStep::Load(l) => (l, Seq::empty()),
        WizardStep::Ask(l, p) => (l, p),
        WizardStep::Save(_) => (Seq::empty(), Seq::empty()),
        WizardStep::Finish(l) => (l, Seq::empty()),
    }
}

/// Command lines that agree in everything but the value of the password.
pub open spec fn args_alike(a: ConfigArgs, b: ConfigArgs) -> bool {
    &&& opt_text(a.imap_server) == opt_text(b.imap_server)
    &&& opt_text(a.smtp_server) == opt_text(b.smtp_server)
    &&& opt_text(a.email) == opt_text(b.email)
    &&& (a.password is Some) == (b.password is Some)
    &&& a.imap_port == b.imap_port
    &&& a.smtp_port == b.smtp_port
}

/// Configurations that agree in everything but the password.
pub open spec fn configs_alike(a: EmailConfig, b: EmailConfig) -> bool {
    &&& a.imap_server@ == b.imap_server@
    &&& a.imap_port == b.imap_port
    &&& a.smtp_server@ == b.smtp_server@
    &&& a.smtp_port == b.smtp_port
    &&& a.email@ == b.email@
}

/// Events that agree in everything but a password: the stored
/// configuration's, or the answer typed when the password is asked for.
pub open spec fn events_alike(stage: WizardStage, e1: WizardEvent, e2: WizardEvent) -> bool {
    match (e1, e2) {
        (WizardEvent::Loaded(None), WizardEvent::Loaded(None)) => true,
        (WizardEvent::Loaded(Some(c1)), WizardEvent::Loaded(Some(c2))) => configs_alike(c1, c2),
        (WizardEvent::Answered(a1), WizardEvent::Answered(a2)) => stage == WizardStage::AskingPassword
            || a1@ == a2@,
        (WizardEvent::Saved, WizardEvent::Saved) => true,
        _ => false,
    }
}

proof fn lemma_first_missing_alike(a: ConfigArgs, b: ConfigArgs, field: nat)
    requires
        args_alike(a, b),
        2 <= field,
    ensures
        first_missing(a, field) == first_missing(b, field),
        forall|f: nat| 2 <= f <= 4 ==> #[trigger] arg_of(a, f) == arg_of(b, f),
    decreases 6 - field,
{
    if field < 6 {
        lemma_first_missing_alike(a, b, field + 1);
    }
}

/// The state of the `config` command.
pub struct ConfigWizard {
    stage: WizardStage,
    args: ConfigArgs,
    imap_server: String,
    smtp_server: String,
    email: String,
    password: String,
}

impl ConfigWizard {
    /// Where the wizard stands.
    pub closed spec fn spec_stage(self) -> WizardStage {
        self.stage
    }

    /// What the command line gave.
    pub closed spec fn spec_args(self) -> ConfigArgs {
        self.args
    }

    /// The value held for a field so far.
    pub closed spec fn value(self, field: nat) -> Seq<char> {
        if field == 2 {
            self.imap_server@
        } else if field == 3 {
            self.smtp_server@
        } else if field == 4 {
            self.email@
        } else {
            self.password@
        }
    }

    /// The configuration that the held values make.
    pub open spec fn config(self) -> ConfigText {
        ConfigText {
            imap_server: self.value(2),
            imap_port: self.spec_args().imap_port,
            smtp_server: self.value(3),
            smtp_port: self.spec_args().smtp_port,
            email: self.value(4),
            password: self.value(5),
        }
    }

    /// A field that the command line gave is never asked for, and once
    /// settled it holds what the command line gave.
    #[verifier::type_invariant]
    closed spec fn inv(self) -> bool {
        &&& forall|f: nat|
            2 <= f <= 5 && settled(self.stage, f) && #[trigger] arg_of(self.args, f) is Some
                ==> self.value(f) == arg_of(self.args, f)->0
        &&& forall|f: nat| 2 <= f <= 5 && self.stage == asking(f) ==> #[trigger] arg_of(self.args, f) is None
    }

    /// Whether the wizard takes `event` in its current stage.
    pub open spec fn spec_accepts(self, event: WizardEvent) -> bool {
        match self.spec_stage() {
            WizardStage::Loading => event is Loaded,
            WizardStage::ConfirmingOverwrite | WizardStage::AskingImap | WizardStage::AskingSmtp
            | WizardStage::AskingEmail | WizardStage::AskingPassword => event is Answered,
            WizardStage::Saving => event is Saved,
            WizardStage::Finished | WizardStage::Kept => false,
        }
    }

    /// A wizard that is done takes no further event: once the stored
    /// configuration is kept, or the new one stored, nothing more is asked or saved.
    pub proof fn law_done_takes_nothing(self, event: WizardEvent)
        requires
            self.spec_stage() == WizardStage::Kept || self.spec_stage() == WizardStage::Finished,
        ensures
            !self.spec_accepts(event),
    {
    }

    /// `self` and `other` agree in everything but the password: the stage,
    /// the command line but for the password's value, and the fields settled
    /// so far but the password.
    pub open spec fn alike(self, other: ConfigWizard) -> bool {
        &&& self.spec_stage() == other.spec_stage()
        &&& args_alike(self.spec_args(), other.spec_args())
        &&& forall|f: nat|
            2 <= f <= 4 && settled(self.spec_stage(), f) ==> #[trigger] self.value(f) == other.value(f)
    }

    /// No password is ever shown: two wizards that differ only in passwords
    /// (given on the command line, typed, or stored) show the same lines and
    /// prompts at every step, and still differ only in passwords after it.
    pub proof fn law_password_never_shown(
        self,
        other: ConfigWizard,
        e1: WizardEvent,
        e2: WizardEvent,
        n1: ConfigWizard,
        n2: ConfigWizard,
        s1: WizardStep,
        s2: WizardStep,
    )
        requires
            self.alike(other),
            events_alike(self.spec_stage(), e1, e2),
            self.transition(e1, n1, s1),
            other.transition(e2, n2, s2),
        ensures
            shown(s1) == shown(s2),
            n1.alike(n2),
    {
        lemma_first_missing_alike(self.spec_args(), other.spec_args(), 2);
        lemma_first_missing_alike(self.spec_args(), other.spec_args(), 3);
        lemma_first_missing_alike(self.spec_args(), other.spec_args(), 4);
        lemma_first_missing_alike(self.spec_args(), other.spec_args(), 5);
        lemma_first_missing_alike(self.spec_args(), other.spec_args(), 6);
        match (e1, e2) {
            (WizardEvent::Loaded(Some(c1)), WizardEvent::Loaded(Some(c2))) => {
                assert(summary(c1) == summary(c2));
            },
            _ => {},
        }
    }

    /// An answer to a field's prompt sets that field: to the answer without
    /// surrounding white space when anything is left of it, and to the field's
    /// default (`imap.qq.com`, `smtp.qq.com`, else empty) only when nothing is.
    pub proof fn law_answer_sets_field(
        self,
        field: nat,
        answer: String,
        next: ConfigWizard,
        step: WizardStep,
    )
        requires
            2 <= field <= 5,
            self.spec_stage() == asking(field),
            self.transition(WizardEvent::Answered(answer), next, step),
        ensures
            trimmed(answer@).len() > 0 ==> next.value(field) == trimmed(answer@),
            trimmed(answer@).len() == 0 && field == 2 ==> next.value(field) == "imap.qq.com"@,
            trimmed(answer@).len() == 0 && field == 3 ==> next.value(field) == "smtp.qq.com"@,
            trimmed(answer@).len() == 0 && field >= 4 ==> next.value(field).len() == 0,
            forall|f: nat| 2 <= f < field ==> #[trigger] next.value(f) == self.value(f),
    {
    }

    /// `next` holds the values that `self` holds for the fields before `field`.
    pub open spec fn keeps(self, next: ConfigWizard, field: nat) -> bool {
        forall|f: nat| 2 <= f < field ==> #[trigger] next.value(f) == self.value(f)
    }

    /// `next` continues `self` from `field` on: the fields that the command
    /// line gave are taken from it up to the first it did not give, which is
    /// asked for; when none is missing the configuration is to be stored.
    pub open spec fn continues(self, next: ConfigWizard, step: WizardStep, field: nat) -> bool {
        let missing = first_missing(self.spec_args(), field);
        &&& next.spec_args() == self.spec_args()
        &&& next.spec_stage() == asking(missing)
        &&& forall|f: nat|
            field <= f < missing ==> #[trigger] next.value(f) == arg_of(self.spec_args(), f)->0
        &&& step == if missing < 6 {
            WizardStep::Ask(Seq::empty(), prompt_of(missing))
        } else {
            WizardStep::Save(next.config())
        }
    }

    /// Starts the command: the banner is printed and the stored configuration loaded.
    pub fn start(args: ConfigArgs) -> (r: (ConfigWizard, WizardAction))
        ensures
            r.0.spec_stage() == WizardStage::Loading,
            r.0.spec_args() == args,
            r.1@ == WizardStep::Load(seq!["📧 邮箱配置\n"@]),
    {
        let w = ConfigWizard {
            stage: WizardStage::Loading,
            args,
            imap_server: String::new(),
            smtp_server: String::new(),
            email: String::new(),
            password: String::new(),
        };
        let lines = vec![String::from_str("📧 邮箱配置\n")];
        assert(texts(lines@) =~= seq!["📧 邮箱配置\n"@]);
        (w, WizardAction::Load(lines))
    }

    /// Where the wizard stands.
    pub fn stage(&self) -> (s: WizardStage)
        ensures
            s == self.spec_stage(),
    {
        self.stage
    }

    /// Whether the wizard takes `event` now.
    pub fn accepts(&self, event: &WizardEvent) -> (b: bool)
        ensures
            b == self.spec_accepts(*event),
    {
        match self.stage {
            WizardStage::Loading => matches!(event, WizardEvent::Loaded(_)),
            WizardStage::ConfirmingOverwrite | WizardStage::AskingImap | WizardStage::AskingSmtp
            | WizardStage::AskingEmail | WizardStage::AskingPassword => matches!(event, WizardEvent::Answered(_)),
            WizardStage::Saving => matches!(event, WizardEvent::Saved),
            WizardStage::Finished | WizardStage::Kept => false,
        }
    }

    /// One step of the command: what `next` and the action `step` are after
    /// `self` takes `event`.
    pub open spec fn transition(self, event: WizardEvent, next: ConfigWizard, step: WizardStep) -> bool {
        &&& next.spec_args() == self.spec_args()
        &&& match (self.spec_stage(), event) {
            (WizardStage::Loading, WizardEvent::Loaded(Some(c))) => {
                &&& next.spec_stage() == WizardStage::ConfirmingOverwrite
                &&& step == WizardStep::Ask(
                    seq!["发现现有配置："@] + summary(c),
                    "\n是否覆盖配置？(y/N): "@,
                )
            },
            (WizardStage::Loading, WizardEvent::Loaded(None)) => self.continues(next, step, 2),
            (WizardStage::ConfirmingOverwrite, WizardEvent::Answered(a)) => if agrees(a@) {
                self.continues(next, step, 2)
            } else {
                &&& next.spec_stage() == WizardStage::Kept
                &&& step == WizardStep::Finish(seq!["ℹ 保留现有配置"@])
            },
            (WizardStage::AskingImap, WizardEvent::Answered(a)) => {
                &&& next.value(2) == resolved(a@, default_of(2))
                &&& self.continues(next, step, 3)
            },
            (WizardStage::AskingSmtp, WizardEvent::Answered(a)) => {
                &&& self.keeps(next, 3)
                &&& next.value(3) == resolved(a@, default_of(3))
                &&& self.continues(next, step, 4)
            },
            (WizardStage::AskingEmail, WizardEvent::Answered(a)) => {
                &&& self.keeps(next, 4)
                &&& next.value(4) == resolved(a@, default_of(4))
                &&& self.continues(next, step, 5)
            },
            (WizardStage::AskingPassword, WizardEvent::Answered(a)) => {
                &&& self.keeps(next, 5)
                &&& next.value(5) == resolved(a@, default_of(5))
                &&& self.continues(next, step, 6)
            },
            (WizardStage::Saving, WizardEvent::Saved) => {
                &&& next.spec_stage() == WizardStage::Finished
                &&& self.keeps(next, 6)
                &&& step == WizardStep::Finish(done_lines())
            },
            _ => false,
        }
    }

    /// Takes what the last action brought back and says what to do next.
    pub fn advance(self, event: WizardEvent) -> (r: (ConfigWizard, WizardAction))
        requires
            self.spec_accepts(event),
        ensures
            self.transition(event, r.0, r.1@),
            // A field that the command line gave is never asked for.
            forall|f: nat|
                2 <= f <= 5 && r.0.spec_stage() == asking(f) ==> #[trigger] arg_of(
                    r.0.spec_args(),
                    f,
                ) is None,
            // A configuration to be stored holds what the command line gave.
            r.1@ matches WizardStep::Save(c) ==> forall|f: nat|
                2 <= f <= 5 && #[trigger] arg_of(r.0.spec_args(), f) is Some ==> r.0.value(f)
                    == arg_of(r.0.spec_args(), f)->0 && c == r.0.config(),
    {
        proof {
            use_type_invariant(&self);
        }
        let r = self.step(event);
        proof {
            use_type_invariant(&r.0);
        }
        r
    }

    fn step(self, event: WizardEvent) -> (r: (ConfigWizard, WizardAction))
        requires
            self.spec_accepts(event),
            forall|f: nat|
                2 <= f <= 5 && settled(self.spec_stage(), f) && #[trigger] arg_of(self.spec_args(), f) is Some
                    ==> self.value(f) == arg_of(self.spec_args(), f)->0,
            forall|f: nat| 2 <= f <= 5 && self.spec_stage() == asking(f) ==> #[trigger] arg_of(self.spec_args(), f) is None,
        ensures
            self.transition(event, r.0, r.1@),
    {
        match event {
            WizardEvent::Loaded(Some(c)) => {
                let mut lines = vec![String::from_str("发现现有配置：")];
                let mut s = c.summary_lines();
                lines.append(&mut s);
                assert(texts(lines@) =~= seq!["发现现有配置："@] + summary(c));
                let ConfigWizard { stage: _, args, imap_server, smtp_server, email, password } = self;
                let w = ConfigWizard {
                    stage: WizardStage::ConfirmingOverwrite,
                    args,
                    imap_server,
                    smtp_server,
                    email,
                    password,
                };
                (w, WizardAction::Ask { lines, prompt: String::from_str("\n是否覆盖配置？(y/N): ") })
            },
            WizardEvent::Loaded(None) => self.proceed(2),
            WizardEvent::Answered(a) => {
                match self.stage {
                    WizardStage::ConfirmingOverwrite => {
                        if agrees_to_overwrite(a.as_str()) {
                            self.proceed(2)
                        } else {
                            let ConfigWizard { stage: _, args, imap_server, smtp_server, email, password } =
                                self;
                            let w = ConfigWizard {
                                stage: WizardStage::Kept,
                                args,
                                imap_server,
                                smtp_server,
                                email,
                                password,
                            };
                            let lines = vec![String::from_str("ℹ 保留现有配置")];
                            assert(texts(lines@) =~= seq!["ℹ 保留现有配置"@]);
                            (w, WizardAction::Finish(lines))
                        }
                    },
                    WizardStage::AskingImap => {
                        let ConfigWizard { stage, args, imap_server: _, smtp_server, email, password } = self;
                        let v = resolve_answer(a.as_str(), "imap.qq.com");
                        let w = ConfigWizard { stage, args, imap_server: v, smtp_server, email, password };
                        w.proceed(3)
                    },
                    WizardStage::AskingSmtp => {
                        let ConfigWizard { stage, args, imap_server, smtp_server: _, email, password } = self;
                        let v = resolve_answer(a.as_str(), "smtp.qq.com");
                        let w = ConfigWizard { stage, args, imap_server, smtp_server: v, email, password };
                        w.proceed(4)
                    },
                    WizardStage::AskingEmail => {
                        let ConfigWizard { stage, args, imap_server, smtp_server, email: _, password } = self;
                        proof {
                            reveal_strlit("");
                            assert(""@ =~= default_of(4));
                            assert(""@ =~= default_of(5));
                        }
                        let v = resolve_answer(a.as_str(), "");
                        let w = ConfigWizard { stage, args, imap_server, smtp_server, email: v, password };
                        w.proceed(5)
                    },
                    _ => {
                        let ConfigWizard { stage, args, imap_server, smtp_server, email, password: _ } = self;
                        proof {
                            reveal_strlit("");
                            assert(""@ =~= default_of(4));
                            assert(""@ =~= default_of(5));
                        }
                        let v = resolve_answer(a.as_str(), "");
                        let w = ConfigWizard { stage, args, imap_server, smtp_server, email, password: v };
                        w.proceed(6)
                    },
                }
            },
            WizardEvent::Saved => {
                let ConfigWizard { stage: _, args, imap_server, smtp_server, email, password } = self;
                let w = ConfigWizard { stage: WizardStage::Finished, args, imap_server, smtp_server, email, password };
                let lines = vec![
                    String::from_str("\n✓ 配置完成！"),
                    String::from_str("\n常用命令:"),
                    String::from_str("  email inbox          - 查看收件箱"),
                    String::from_str("  email read -u <UID>  - 读取邮件详情"),
                    String::from_str("  email search -q <关键词> - 搜索邮件"),
                    String::from_str("  email send -t <收件人> -s <主题> -b <正文> - 发送邮件"),
                ];
                assert(texts(lines@) =~= done_lines());
                (w, WizardAction::Finish(lines))
            },
        }
    }

    fn ask(field: u8) -> (a: WizardAction)
        requires
            2 <= field <= 5,
        ensures
            a@ == WizardStep::Ask(Seq::empty(), prompt_of(field as nat)),
    {
        let prompt = if field == 2 {
            String::from_str("IMAP 服务器 [imap.qq.com]: ")
        } else if field == 3 {
            String::from_str("SMTP 服务器 [smtp.qq.com]: ")
        } else if field == 4 {
            String::from_str("邮箱地址: ")
        } else {
            String::from_str("邮箱密码/授权码: ")
        };
        let lines: Vec<String> = Vec::new();
        assert(texts(lines@) =~= Seq::empty());
        WizardAction::Ask { lines, prompt }
    }

    /// Takes the fields from `field` on from the command line, until one is
    /// missing, which is then asked for; stores the configuration when none is.
    fn proceed(self, field: u8) -> (r: (ConfigWizard, WizardAction))
        requires
            2 <= field <= 6,
            forall|f: nat|
                2 <= f < field && #[trigger] arg_of(self.spec_args(), f) is Some ==> self.value(f)
                    == arg_of(self.spec_args(), f)->0,
        ensures
            self.keeps(r.0, field as nat),
            self.continues(r.0, r.1@, field as nat),
    {
        proof {
            reveal_with_fuel(first_missing, 5);
        }
        let ConfigWizard { stage: _, args, mut imap_server, mut smtp_server, mut email, mut password } =
            self;
        if field <= 2 {
            match &args.imap_server {
                Some(v) => {
                    imap_server = v.clone();
                },
                None => {},
            }
            if args.imap_server.is_none() {
                let w = ConfigWizard {
                    stage: WizardStage::AskingImap,
                    args,
                    imap_server,
                    smtp_server,
                    email,
                    password,
                };
                return (w, Self::ask(2));
            }
        }
        if field <= 3 {
            match &args.smtp_server {
                Some(v) => {
                    smtp_server = v.clone();
                },
                None => {},
            }
            if args.smtp_server.is_none() {
                let w = ConfigWizard {
                    stage: WizardStage::AskingSmtp,
                    args,
                    imap_server,
                    smtp_server,
                    email,
                    password,
                };
                return (w, Self::ask(3));
            }
        }
        if field <= 4 {
            match &args.email {
                Some(v) => {
                    email = v.clone();
                },
                None => {},
            }
            if args.email.is_none() {
                let w = ConfigWizard {
                    stage: WizardStage::AskingEmail,
                    args,
                    imap_server,
                    smtp_server,
                    email,
                    password,
                };
                return (w, Self::ask(4));
            }
        }
        if field <= 5 {
            match &args.password {
                Some(v) => {
                    password = v.clone();
                },
                None => {},
            }
            if args.password.is_none() {
                let w = ConfigWizard {
                    stage: WizardStage::AskingPassword,
                    args,
                    imap_server,
                    smtp_server,
                    email,
                    password,
                };
                return (w, Self::ask(5));
            }
        }
        let config = EmailConfig {
            imap_server: imap_server.clone(),
            imap_port: args.imap_port,
            smtp_server: smtp_server.clone(),
            smtp_port: args.smtp_port,
            email: email.clone(),
            password: password.clone(),
        };
        let w = ConfigWizard { stage: WizardStage::Saving, args, imap_server, smtp_server, email, password };
        (w, WizardAction::Save(config))
    }
}

} // verus!
