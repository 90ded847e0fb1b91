use rss_digest::config::SmtpConfig;
use rss_digest::email::{compose, EmailClient, Mailbox, Outbox, Security, SendResult};

fn client(from: &str, tls_mode: &str) -> EmailClient {
    EmailClient::new(SmtpConfig {
        host: "smtp.example.com".to_string(),
        port: 587,
        username: "user".to_string(),
        password: "password".to_string(),
        from: from.to_string(),
        tls_mode: tls_mode.to_string(),
    })
}

fn mailbox(address: &str) -> Mailbox {
    Mailbox {
        name: None,
        address: address.to_string(),
    }
}

#[test]
fn the_mode_secures_the_connection() {
    let mode = |m: &str| client("a@example.com", m).security();
    assert_eq!(mode("starttls"), Security::Opportunistic);
    assert_eq!(mode("tls"), Security::Required);
    assert_eq!(mode("none"), Security::Plain);
    assert_eq!(mode("TLS"), Security::Plain);
    assert_eq!(mode(""), Security::Plain);
}

#[test]
fn a_digest_is_mailed_as_html() {
    let outbox = client("News <news@example.com>", "tls").send_digest(
        "Subject",
        "# Head\n\n* one ~~two~~",
        &vec!["jo@example.com".to_string()],
    );
    assert_eq!(outbox.mails.len(), 1);
    assert_eq!(outbox.error, None);
    let mail = &outbox.mails[0];
    assert_eq!(
        mail.html,
        "<h1>Head</h1>\n<ul>\n<li>one <del>two</del></li>\n</ul>\n"
    );
    assert_eq!(mail.subject, "Subject");
    assert_eq!(mail.from.name.as_deref(), Some("News"));
    assert_eq!(mail.from.address, "news@example.com");
    assert_eq!(mail.to.name, None);
    assert_eq!(mail.to.address, "jo@example.com");
}

#[test]
fn sending_stops_at_a_mailbox_that_cannot_be_read() {
    let recipients = vec![
        "a@example.com".to_string(),
        "nobody".to_string(),
        "b@example.com".to_string(),
    ];
    let outbox = client("news@example.com", "tls").send_digest("S", "B", &recipients);
    assert_eq!(outbox.mails.len(), 1);
    assert_eq!(outbox.mails[0].to.address, "a@example.com");
    assert_eq!(outbox.error.as_deref(), Some("Invalid input"));
    let outbox = client("nobody", "tls").send_digest("S", "B", &recipients);
    assert!(outbox.mails.is_empty());
    assert_eq!(outbox.error.as_deref(), Some("Invalid input"));
    let outbox = client("nobody", "tls").send_digest("S", "B", &Vec::new());
    assert!(outbox.mails.is_empty());
    assert_eq!(outbox.error, None);
}

#[test]
fn mails_are_composed_of_what_was_read() {
    let outbox = compose(
        &Ok(mailbox("from@example.com")),
        vec![
            Ok(mailbox("a@example.com")),
            Ok(mailbox("b@example.com")),
            Err("bad".to_string()),
            Ok(mailbox("c@example.com")),
        ],
        "Subject",
        "<p>Body</p>",
    );
    let to: Vec<&str> = outbox.mails.iter().map(|m| m.to.address.as_str()).collect();
    assert_eq!(to, vec!["a@example.com", "b@example.com"]);
    assert_eq!(outbox.error.as_deref(), Some("bad"));
    assert_eq!(outbox.mails[1].from.address, "from@example.com");
    assert_eq!(outbox.mails[1].html, "<p>Body</p>");
    let refused = compose(
        &Err("no sender".to_string()),
        vec![Err("bad".to_string())],
        "S",
        "B",
    );
    assert_eq!(refused.error.as_deref(), Some("no sender"));
}

fn outbox(last: Result<Mailbox, String>) -> Outbox {
    compose(
        &Ok(mailbox("from@example.com")),
        vec![Ok(mailbox("a@example.com")), Ok(mailbox("b@example.com")), last],
        "S",
        "B",
    )
}

#[test]
fn every_mail_is_sent_in_turn() {
    let delivery = outbox(Ok(mailbox("c@example.com"))).deliver();
    assert_eq!(delivery.mail().unwrap().to.address, "a@example.com");
    let delivery = delivery.after(SendResult::Sent);
    assert_eq!(delivery.mail().unwrap().to.address, "b@example.com");
    let delivery = delivery.after(SendResult::Sent).after(SendResult::Sent);
    assert!(delivery.mail().is_none());
    assert_eq!(delivery.result(), Some(Ok(())));
    let pending = outbox(Ok(mailbox("c@example.com"))).deliver();
    assert_eq!(pending.result(), None);
}

#[test]
fn a_mail_that_is_not_sent_ends_the_sending() {
    let delivery = outbox(Ok(mailbox("c@example.com")))
        .deliver()
        .after(SendResult::Sent)
        .after(SendResult::Refused("no".to_string()));
    assert!(delivery.mail().is_none());
    let delivery = delivery.after(SendResult::Sent);
    assert_eq!(delivery.next, 1);
    assert_eq!(delivery.result(), Some(Err("SMTP error: no".to_string())));
    let delivery = outbox(Err("bad".to_string()))
        .deliver()
        .after(SendResult::Unsent("no message".to_string()));
    assert_eq!(delivery.result(), Some(Err("no message".to_string())));
}

#[test]
fn an_unreadable_mailbox_is_reported_when_all_else_is_sent() {
    let delivery = outbox(Err("bad".to_string()))
        .deliver()
        .after(SendResult::Sent)
        .after(SendResult::Sent);
    assert!(delivery.mail().is_none());
    assert_eq!(delivery.result(), Some(Err("bad".to_string())));
}
