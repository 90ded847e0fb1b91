//! The digest as e-mail.

use crate::config::SmtpConfig;
use crate::ordering;
use crate::text;
use vstd::prelude::*;
use vstd::string::*;

verus! {

/// How the connection to the mail server is secured.
#[derive(Debug, Clone, Copy, PartialEq, Eq, Structural)]
pub enum Security {
    /// STARTTLS where the server offers it.
    Opportunistic,
    /// TLS, or no connection.
    Required,
    /// No TLS.
    Plain,
}

/// How the configured mode secures the connection.
pub open spec fn security_of(tls_mode: Seq<char>) -> Security {
    if tls_mode == "starttls"@ {
        Security::Opportunistic
    } else if tls_mode == "tls"@ {
        Security::Required
    } else {
        Security::Plain
    }
}

/// The HTML that a text in Markdown, with all extensions, renders to.
pub uninterp spec fn markdown_html(markdown: Seq<char>) -> Seq<char>;

/// `pulldown_cmark::html::push_html` over a `Parser` with all options: the HTML for a text
/// in Markdown, which depends on the text alone.
#[verifier::external_body]
fn markdown_to_html(markdown: &str) -> (r: String)
    ensures
        r@ == markdown_html(markdown@),
{
    let options = pulldown_cmark::Options::all();
    let parser = pulldown_cmark::Parser::new_ext(markdown, options);
    let mut html = String::new();
    pulldown_cmark::html::push_html(&mut html, parser);
    html
}

/// The display name and the address in a text such as `Jo <jo@example.com>`, or else what is
/// wrong with it.
pub uninterp spec fn mailbox_of(s: Seq<char>) -> Result<(Option<Seq<char>>, Seq<char>), Seq<char>>;

/// `lettre::message::Mailbox::from_str`: the name and the address that it finds in a text, or
/// its error in words, both of which depend on the text alone.
#[verifier::external_body]
fn parse_mailbox(s: &str) -> (r: Result<Mailbox, String>)
    ensures
        match r {
            Ok(m) => mailbox_of(s@) == Ok::<(Option<Seq<char>>, Seq<char>), Seq<char>>(
                (text::text_of(m.name), m.address@),
            ),
            Err(e) => mailbox_of(s@) == Err::<(Option<Seq<char>>, Seq<char>), Seq<char>>(e@),
        },
{
    match <lettre::message::Mailbox as std::str::FromStr>::from_str(s) {
        Ok(m) => Ok(Mailbox { name: m.name, address: m.email.to_string() }),
        Err(e) => Err(e.to_string()),
    }
}

/// A sender or recipient.
#[derive(Debug)]
pub struct Mailbox {
    pub name: Option<String>,
    pub address: String,
}

#[verifier::ext_equal]
pub struct MailboxView {
    pub name: Option<Seq<char>>,
    pub address: Seq<char>,
}

impl View for Mailbox {
    type V = MailboxView;

    open spec fn view(&self) -> MailboxView {
        MailboxView { name: text::text_of(self.name), address: self.address@ }
    }
}

/// A mail with an HTML body.
#[derive(Debug)]
pub struct Mail {
    pub from: Mailbox,
    pub to: Mailbox,
    pub subject: String,
    pub html: String,
}

#[verifier::ext_equal]
pub struct MailView {
    pub from: MailboxView,
    pub to: MailboxView,
    pub subject: Seq<char>,
    pub html: Seq<char>,
}

impl View for Mail {
    type V = MailView;

    open spec fn view(&self) -> MailView {
        MailView {
            from: self.from@,
            to: self.to@,
            subject: self.subject@,
            html: self.html@,
        }
    }
}

impl MailView {
    /// Whether the mail goes from the one mailbox to the other, with this subject and body.
    pub open spec fn carries(
        self,
        from: Parsed,
        to: Parsed,
        subject: Seq<char>,
        html: Seq<char>,
    ) -> bool {
        &&& from == Ok::<MailboxView, Seq<char>>(self.from)
        &&& to == Ok::<MailboxView, Seq<char>>(self.to)
        &&& self.subject == subject
        &&& self.html == html
    }
}

/// Mails to send one after the other, and the error to report when all of them are sent.
#[derive(Debug)]
pub struct Outbox {
    pub mails: Vec<Mail>,
    pub error: Option<String>,
}

#[verifier::ext_equal]
pub struct OutboxView {
    pub mails: Seq<MailView>,
    pub error: Option<Seq<char>>,
}

impl View for Outbox {
    type V = OutboxView;

    open spec fn view(&self) -> OutboxView {
        OutboxView { mails: ordering::views(self.mails@), error: text::text_of(self.error) }
    }
}

pub type Parsed = Result<MailboxView, Seq<char>>;

/// A mailbox that was read, or what is wrong with its text.
pub open spec fn parsed(r: Result<Mailbox, String>) -> Parsed {
    match r {
        Ok(m) => Ok(m@),
        Err(e) => Err(e@),
    }
}

pub open spec fn all_parsed(v: Seq<Result<Mailbox, String>>) -> Seq<Parsed> {
    Seq::new(v.len(), |i: int| parsed(v[i]))
}

/// The mailbox in a text.
pub open spec fn mailbox_in(s: Seq<char>) -> Parsed {
    match mailbox_of(s) {
        Ok((name, address)) => Ok(MailboxView { name, address }),
        Err(e) => Err(e),
    }
}

/// The mail to each recipient in turn, up to the first mailbox that cannot be read.
pub open spec fn composed(
    from: Parsed,
    recipients: Seq<Parsed>,
    subject: Seq<char>,
    html: Seq<char>,
) -> OutboxView
    decreases recipients.len(),
{
    if recipients.len() == 0 {
        OutboxView { mails: Seq::empty(), error: None }
    } else {
        let before = composed(from, recipients.drop_last(), subject, html);
        match (before.error, from, recipients.last()) {
            (Some(_), _, _) => before,
            (None, Err(e), _) => OutboxView { error: Some(e), ..before },
            (None, Ok(_), Err(e)) => OutboxView { error: Some(e), ..before },
            (None, Ok(from), Ok(to)) => OutboxView {
                mails: before.mails.push(MailView { from, to, subject, html }),
                error: None,
            },
        }
    }
}

/// The mails that carry a digest, written in Markdown, to its recipients.
pub open spec fn digest_mails(
    from: Seq<char>,
    recipients: Seq<Seq<char>>,
    subject: Seq<char>,
    body_markdown: Seq<char>,
) -> OutboxView {
    composed(
        mailbox_in(from),
        recipients.map_values(|s: Seq<char>| mailbox_in(s)),
        subject,
        markdown_html(body_markdown),
    )
}

fn copy_mailbox(m: &Mailbox) -> (r: Mailbox)
    ensures
        r@ == m@,
{
    Mailbox { name: text::copy_text(&m.name), address: m.address.clone() }
}

/// The mail to each recipient in turn, up to the first mailbox that could not be read.
pub fn compose(
    from: &Result<Mailbox, String>,
    recipients: Vec<Result<Mailbox, String>>,
    subject: &str,
    html: &str,
) -> (r: Outbox)
    ensures
        r@ == composed(parsed(*from), all_parsed(recipients@), subject@, html@),
{
    let ghost all = all_parsed(recipients@);
    let mut outbox = Outbox { mails: Vec::new(), error: None };
    assert(outbox@ =~= composed(parsed(*from), all.take(0), subject@, html@));
    for recipient in it: recipients
        invariant
            it.seq() == recipients@,
            all == all_parsed(recipients@),
            outbox@ == composed(parsed(*from), all.take(it.index()), subject@, html@),
    {
        let ghost before = outbox@;
        assert(all.take(it.index() + 1).drop_last() =~= all.take(it.index()));
        assert(all.take(it.index() + 1).last() == parsed(recipient));
        if outbox.error.is_none() {
            match (from, recipient) {
                (Ok(sender), Ok(to)) => {
                    let mail = Mail {
                        from: copy_mailbox(sender),
                        to,
                        subject: subject.to_owned(),
                        html: html.to_owned(),
                    };
                    outbox.mails.push(mail);
                    assert(outbox@.mails =~= before.mails.push(mail@));
                },
                (Err(e), _) => {
                    outbox.error = Some(e.clone());
                },
                (_, Err(e)) => {
                    outbox.error = Some(e);
                },
            }
        }
    }
    assert(all.take(all.len() as int) =~= all);
    outbox
}

/// A client of the mail server.
#[derive(Debug)]
pub struct EmailClient {
    pub config: SmtpConfig,
}

impl EmailClient {
    pub fn new(config: SmtpConfig) -> (r: Self)
        ensures
            r.config == config,
    {
        EmailClient { config }
    }

    /// How the connection to the mail server is secured.
    pub fn security(&self) -> (r: Security)
        ensures
            r == security_of(self.config.tls_mode@),
    {
        if text::same_text(self.config.tls_mode.as_str(), "starttls") {
            Security::Opportunistic
        } else if text::same_text(self.config.tls_mode.as_str(), "tls") {
            Security::Required
        } else {
            Security::Plain
        }
    }

    /// The mails that carry a digest, written in Markdown, to its recipients.
    pub fn send_digest(&self, subject: &str, body_markdown: &str, recipients: &Vec<String>) -> (r:
        Outbox)
        ensures
            r@ == digest_mails(
                self.config.from@,
                text::texts(recipients@),
                subject@,
                body_markdown@,
            ),
    {
        let html = markdown_to_html(body_markdown);
        let from = parse_mailbox(self.config.from.as_str());
        let mut mailboxes: Vec<Result<Mailbox, String>> = Vec::new();
        let ghost all = text::texts(recipients@).map_values(|s: Seq<char>| mailbox_in(s));
        for i in 0..recipients.len()
            invariant
                all == text::texts(recipients@).map_values(|s: Seq<char>| mailbox_in(s)),
                all_parsed(mailboxes@) == all.take(i as int),
        {
            let mailbox = parse_mailbox(recipients[i].as_str());
            let ghost before = all_parsed(mailboxes@);
            mailboxes.push(mailbox);
            assert(all_parsed(mailboxes@) =~= before.push(parsed(mailbox)));
            assert(all[i as int] == parsed(mailbox));
            assert(all.take(i + 1) =~= all.take(i as int).push(all[i as int]));
        }
        assert(all.take(all.len() as int) =~= all);
        compose(&from, mailboxes, subject, html.as_str())
    }
}

/// Mails go to the recipients in their order: there is one for each recipient before the
/// first whose mailbox cannot be read, with the digest's subject and body, and there is an
/// error just where a recipient is left out.
pub proof fn law_mails_follow_recipients(
    from: Parsed,
    recipients: Seq<Parsed>,
    subject: Seq<char>,
    html: Seq<char>,
)
    ensures
        ({
            let outbox = composed(from, recipients, subject, html);
            &&& outbox.mails.len() <= recipients.len()
            &&& outbox.error is None <==> outbox.mails.len() == recipients.len()
            &&& forall|i: int|
                0 <= i < outbox.mails.len() ==> (#[trigger] outbox.mails[i]).carries(
                    from,
                    recipients[i],
                    subject,
                    html,
                )
            &&& outbox.error is Some ==> from is Err || recipients[outbox.mails.len() as int] is Err
        }),
    decreases recipients.len(),
{
    if recipients.len() > 0 {
        let shorter = recipients.drop_last();
        law_mails_follow_recipients(from, shorter, subject, html);
        let before = composed(from, shorter, subject, html);
        let outbox = composed(from, recipients, subject, html);
        let n = before.mails.len() as int;
        assert(n < shorter.len() ==> shorter[n] == recipients[n]);
        assert forall|i: int| 0 <= i < outbox.mails.len() implies (
        #[trigger] outbox.mails[i]).carries(from, recipients[i], subject, html) by {
            if i < before.mails.len() {
                assert(before.mails[i] == outbox.mails[i]);
                assert(shorter[i] == recipients[i]);
            }
        }
    }
}

/// What came of sending a mail.
#[derive(Debug)]
pub enum SendResult {
    Sent,
    /// The mail server did not take the mail, with what it or the connection said.
    Refused(String),
    /// The mail was not handed to the server at all, with what is reported of it.
    Unsent(String),
}

pub enum SendResultView {
    Sent,
    Refused(Seq<char>),
    Unsent(Seq<char>),
}

impl View for SendResult {
    type V = SendResultView;

    open spec fn view(&self) -> SendResultView {
        match self {
            SendResult::Sent => SendResultView::Sent,
            SendResult::Refused(detail) => SendResultView::Refused(detail@),
            SendResult::Unsent(message) => SendResultView::Unsent(message@),
        }
    }
}

/// The sending of mails: those before `next` are sent.
#[derive(Debug)]
pub struct Delivery {
    pub outbox: Outbox,
    pub next: usize,
    /// What is reported of the mail that could not be sent.
    pub failure: Option<String>,
}

#[verifier::ext_equal]
pub struct DeliveryView {
    pub outbox: OutboxView,
    pub next: int,
    pub failure: Option<Seq<char>>,
}

impl View for Delivery {
    type V = DeliveryView;

    open spec fn view(&self) -> DeliveryView {
        DeliveryView {
            outbox: self.outbox@,
            next: self.next as int,
            failure: text::text_of(self.failure),
        }
    }
}

/// The sending of mails, before the first.
pub open spec fn delivery_start(outbox: OutboxView) -> DeliveryView {
    DeliveryView { outbox, next: 0, failure: None }
}

impl DeliveryView {
    pub open spec fn wf(self) -> bool {
        0 <= self.next <= self.outbox.mails.len()
    }

    /// The mail that is to be sent next, while there is one.
    pub open spec fn mail(self) -> Option<MailView> {
        if self.failure is None && self.next < self.outbox.mails.len() {
            Some(self.outbox.mails[self.next])
        } else {
            None
        }
    }

    /// The sending after what came of a mail. The first mail that is not sent ends it.
    pub open spec fn after(self, result: SendResultView) -> DeliveryView {
        if self.mail() is None {
            self
        } else {
            match result {
                SendResultView::Sent => DeliveryView { next: self.next + 1, ..self },
                SendResultView::Refused(detail) => DeliveryView {
                    failure: Some("SMTP error: "@ + detail),
                    ..self
                },
                SendResultView::Unsent(message) => DeliveryView { failure: Some(message), ..self },
            }
        }
    }

    /// The sending after what came of some mails.
    pub open spec fn run(self, results: Seq<SendResultView>) -> DeliveryView
        decreases results.len(),
    {
        if results.len() == 0 {
            self
        } else {
            self.run(results.drop_last()).after(results.last())
        }
    }

    /// How the sending ended, once no mail is left to send: with the report of the mail that
    /// could not be sent, or else with the error of the outbox, or else well.
    pub open spec fn result(self) -> Option<Result<(), Seq<char>>> {
        if self.mail() is Some {
            None
        } else {
            match (self.failure, self.outbox.error) {
                (Some(report), _) => Some(Err(report)),
                (None, Some(error)) => Some(Err(error)),
                (None, None) => Some(Ok(())),
            }
        }
    }
}

impl Outbox {
    /// Starts sending the mails.
    pub fn deliver(self) -> (r: Delivery)
        ensures
            r@ == delivery_start(self@),
            r@.wf(),
    {
        Delivery { outbox: self, next: 0, failure: None }
    }
}

impl Delivery {
    /// The mail that is to be sent next, while there is one.
    pub fn mail(&self) -> (r: Option<&Mail>)
        ensures
            match r {
                Some(mail) => self@.mail() == Some(mail@),
                None => self@.mail() is None,
            },
    {
        if self.failure.is_none() && self.next < self.outbox.mails.len() {
            Some(&self.outbox.mails[self.next])
        } else {
            None
        }
    }

    /// The sending after what came of a mail. The first mail that is not sent ends it.
    pub fn after(self, result: SendResult) -> (r: Delivery)
        requires
            self@.wf(),
        ensures
            r@ == self@.after(result@),
            r@.wf(),
    {
        let mut r = self;
        if r.failure.is_some() || r.next >= r.outbox.mails.len() {
            return r;
        }
        match result {
            SendResult::Sent => {
                r.next = r.next + 1;
            },
            SendResult::Refused(detail) => {
                r.failure = Some("SMTP error: ".to_owned().concat(detail.as_str()));
            },
            SendResult::Unsent(message) => {
                r.failure = Some(message);
            },
        }
        r
    }

    /// How the sending ended, once no mail is left to send.
    pub fn result(self) -> (r: Option<Result<(), String>>)
        ensures
            match r {
                Some(Ok(())) => self@.result() == Some(Ok::<(), Seq<char>>(())),
                Some(Err(e)) => self@.result() == Some(Err::<(), Seq<char>>(e@)),
                None => self@.result() is None,
            },
    {
        match self.failure {
            Some(report) => Some(Err(report)),
            None => if self.next < self.outbox.mails.len() {
                None
            } else {
                match self.outbox.error {
                    Some(error) => Some(Err(error)),
                    None => Some(Ok(())),
                }
            },
        }
    }
}

/// The first mail that is not sent ends the sending: no other is sent, whatever comes later,
/// and the sending has failed.
pub proof fn law_first_unsent_mail_ends_the_sending(
    delivery: DeliveryView,
    failed: SendResultView,
    later: Seq<SendResultView>,
)
    requires
        delivery.mail() is Some,
        !(failed is Sent),
    ensures
        ({
            let ended = delivery.after(failed).run(later);
            &&& ended == delivery.after(failed)
            &&& ended.mail() is None
            &&& ended.next == delivery.next
            &&& ended.result() matches Some(Err(_))
        }),
    decreases later.len(),
{
    if later.len() > 0 {
        law_first_unsent_mail_ends_the_sending(delivery, failed, later.drop_last());
    }
}

proof fn lemma_sent_so_far(outbox: OutboxView, results: Seq<SendResultView>)
    requires
        results.len() <= outbox.mails.len(),
    ensures
        ({
            let delivery = delivery_start(outbox).run(results);
            &&& delivery.outbox == outbox
            &&& delivery.failure is None ==> delivery.next == results.len()
            &&& delivery.failure is None <==> (forall|i: int|
                0 <= i < results.len() ==> (#[trigger] results[i]) is Sent)
        }),
    decreases results.len(),
{
    if results.len() > 0 {
        let shorter = results.drop_last();
        lemma_sent_so_far(outbox, shorter);
        let delivery = delivery_start(outbox).run(results);
        if delivery.failure is None {
            assert forall|i: int| 0 <= i < results.len() implies (#[trigger] results[i]) is Sent by {
                if i < shorter.len() {
                    assert(shorter[i] == results[i]);
                }
            }
        }
        if forall|i: int| 0 <= i < results.len() ==> (#[trigger] results[i]) is Sent {
            assert forall|i: int| 0 <= i < shorter.len() implies (#[trigger] shorter[i]) is Sent by {
                assert(results[i] is Sent);
            }
            assert(results[results.len() - 1] is Sent);
        }
    }
}

/// A digest is delivered just where every recipient gets it: the sending ends well if and
/// only if each mail was sent and no mailbox was unreadable.
pub proof fn law_delivery_succeeds_just_by_all(
    from: Parsed,
    recipients: Seq<Parsed>,
    subject: Seq<char>,
    html: Seq<char>,
    results: Seq<SendResultView>,
)
    requires
        results.len() == composed(from, recipients, subject, html).mails.len(),
    ensures
        ({
            let outbox = composed(from, recipients, subject, html);
            let delivery = delivery_start(outbox).run(results);
            &&& delivery.result() is Some
            &&& delivery.result() == Some(Ok::<(), Seq<char>>(())) <==> outbox.mails.len()
                == recipients.len() && (forall|i: int|
                0 <= i < results.len() ==> (#[trigger] results[i]) is Sent)
        }),
{
    let outbox = composed(from, recipients, subject, html);
    law_mails_follow_recipients(from, recipients, subject, html);
    lemma_sent_so_far(outbox, results);
}

/// The error of an outbox is the sender's where the sender cannot be read, and else that of
/// the first recipient that cannot be read; the recipients before it have their mails.
pub proof fn law_unreadable_mailbox_is_reported(
    from: Parsed,
    recipients: Seq<Parsed>,
    subject: Seq<char>,
    html: Seq<char>,
    i: int,
)
    requires
        0 <= i < recipients.len(),
    ensures
        ({
            let outbox = composed(from, recipients, subject, html);
            &&& from matches Err(e) ==> outbox.error == Some(e) && outbox.mails.len() == 0
            &&& from is Ok && recipients[i] is Err && (forall|j: int|
                0 <= j < i ==> (#[trigger] recipients[j]) is Ok) ==> outbox.error == Some(
                recipients[i]->Err_0,
            ) && outbox.mails.len() == i
            &&& from is Ok && (forall|j: int|
                0 <= j < recipients.len() ==> (#[trigger] recipients[j]) is Ok)
                ==> outbox.error is None && outbox.mails.len() == recipients.len()
                && outbox.mails[i] == (MailView {
                from: from->Ok_0,
                to: recipients[i]->Ok_0,
                subject,
                html,
            })
        }),
    decreases recipients.len(),
{
    let shorter = recipients.drop_last();
    let last = recipients.len() - 1;
    assert forall|j: int| 0 <= j < shorter.len() implies #[trigger] shorter[j]
        == recipients[j] by {}
    let good = from is Ok && (forall|j: int|
        0 <= j < recipients.len() ==> (#[trigger] recipients[j]) is Ok);
    let leads = from is Ok && recipients[i] is Err && (forall|j: int|
        0 <= j < i ==> (#[trigger] recipients[j]) is Ok);
    if i < last {
        law_unreadable_mailbox_is_reported(from, shorter, subject, html, i);
    } else if last > 0 {
        law_unreadable_mailbox_is_reported(from, shorter, subject, html, 0);
        assert(shorter[0] == recipients[0]);
    } else {
        assert(shorter =~= Seq::empty());
        assert(composed(from, shorter, subject, html).mails.len() == 0);
    }
    if good {
        assert(recipients[last] is Ok);
    }
}

/// The report of a sending that failed is what the server said, named as the server's, or
/// what kept the mail from being sent; a mail that is sent lets the next one follow.
pub proof fn law_failed_mail_is_reported(
    delivery: DeliveryView,
    detail: Seq<char>,
    message: Seq<char>,
)
    requires
        delivery.wf(),
        delivery.mail() is Some,
    ensures
        delivery.mail() == Some(delivery.outbox.mails[delivery.next]),
        delivery.result() is None,
        delivery.after(SendResultView::Refused(detail)).result() == Some(
            Err::<(), Seq<char>>("SMTP error: "@ + detail),
        ),
        delivery.after(SendResultView::Unsent(message)).result() == Some(
            Err::<(), Seq<char>>(message),
        ),
        ({
            let sent = delivery.after(SendResultView::Sent);
            &&& sent.outbox == delivery.outbox
            &&& sent.next == delivery.next + 1
            &&& sent.next < sent.outbox.mails.len() ==> sent.mail() == Some(
                delivery.outbox.mails[delivery.next + 1],
            )
            &&& sent.next == sent.outbox.mails.len() ==> sent.mail() is None && match sent.outbox.error {
                Some(e) => sent.result() == Some(Err::<(), Seq<char>>(e)),
                None => sent.result() == Some(Ok::<(), Seq<char>>(())),
            }
        }),
{
}

/// A mode that asks for encryption is heeded: "tls" has it from the start, "starttls" has it
/// where the server offers it, and any other text is for a plain connection.
pub proof fn law_mode_secures_the_connection(tls_mode: Seq<char>)
    ensures
        security_of(tls_mode) is Required <==> tls_mode == "tls"@,
        security_of(tls_mode) is Opportunistic <==> tls_mode == "starttls"@,
        security_of(tls_mode) is Plain <==> tls_mode != "tls"@ && tls_mode != "starttls"@,
{
    reveal_strlit("tls");
    reveal_strlit("starttls");
    assert("tls"@.len() == 3 && "starttls"@.len() == 8);
}

/// A mailbox is read with the name and the address that stand in its text.
pub proof fn law_mailbox_has_its_name_and_address(s: Seq<char>)
    ensures
        mailbox_of(s) matches Ok(m) ==> mailbox_in(s) is Ok && mailbox_in(s)->Ok_0.name == m.0
            && mailbox_in(s)->Ok_0.address == m.1,
        mailbox_of(s) matches Err(e) ==> mailbox_in(s) == Err::<MailboxView, Seq<char>>(e),
{
}

/// A digest goes to every recipient: where all mailboxes can be read, the mail to each comes
/// from the sender, under the subject, with the digest's text as HTML.
pub proof fn law_digest_goes_to_every_recipient(
    from: Seq<char>,
    recipients: Seq<Seq<char>>,
    subject: Seq<char>,
    body_markdown: Seq<char>,
    i: int,
)
    requires
        0 <= i < recipients.len(),
        mailbox_of(from) is Ok,
        forall|j: int| 0 <= j < recipients.len() ==> mailbox_of(#[trigger] recipients[j]) is Ok,
    ensures
        ({
            let outbox = digest_mails(from, recipients, subject, body_markdown);
            let mail = outbox.mails[i];
            &&& outbox.error is None
            &&& outbox.mails.len() == recipients.len()
            &&& mailbox_of(from) == Ok::<(Option<Seq<char>>, Seq<char>), Seq<char>>(
                (mail.from.name, mail.from.address),
            )
            &&& mailbox_of(recipients[i]) == Ok::<(Option<Seq<char>>, Seq<char>), Seq<char>>(
                (mail.to.name, mail.to.address),
            )
            &&& mail.subject == subject
            &&& mail.html == markdown_html(body_markdown)
        }),
{
    let boxes = recipients.map_values(|s: Seq<char>| mailbox_in(s));
    assert forall|j: int| 0 <= j < boxes.len() implies (#[trigger] boxes[j]) is Ok by {
        assert(mailbox_of(recipients[j]) is Ok);
    }
    law_unreadable_mailbox_is_reported(
        mailbox_in(from),
        boxes,
        subject,
        markdown_html(body_markdown),
        i,
    );
}

} // verus!
