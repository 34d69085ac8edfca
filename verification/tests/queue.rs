use sieve::compiler::grammar::{ByTime, Notify, Ret};
use sieve::Importance;
use sieve::runtime::actions::action_notify::{queue_notify, Notification};
use sieve::runtime::actions::action_vacation::{queue_vacation_reply, Fcc};
use sieve::runtime::disposition::Disposition;
use sieve::runtime::handler::{Action, MessageSource, Recipient, Reply};
use sieve::runtime::queue::{ActionQueue, FlushStep};
use sieve::runtime::RuntimeError;

#[test]
fn actions_are_handed_out_in_order() {
    let mut q: ActionQueue<&str> = ActionQueue::new();
    assert_eq!(q.next_action(), None);
    assert_eq!(q.reply(Reply::Ready(())), FlushStep::Done);
    q.push("keep");
    q.push("fileinto");
    q.push("redirect");
    assert_eq!(q.len(), 3);
    assert_eq!(q.next_action(), Some(&"keep"));
    assert_eq!(q.reply(Reply::Ready(())), FlushStep::Next);
    assert_eq!(q.next_action(), Some(&"fileinto"));
    assert_eq!(q.reply(Reply::Ready(())), FlushStep::Next);
    assert_eq!(q.reply(Reply::Ready(())), FlushStep::Done);
    assert_eq!(q.len(), 0);
    assert_eq!(q.next_action(), None);
}

#[test]
fn a_pending_reply_keeps_the_rest_for_later() {
    let mut q: ActionQueue<u32> = ActionQueue::new();
    q.push(1);
    q.push(2);
    assert_eq!(q.reply(Reply::Pending), FlushStep::Wait);
    assert_eq!(q.next_action(), Some(&2));
    q.push(3);
    assert_eq!(q.reply(Reply::Ready(())), FlushStep::Next);
    assert_eq!(q.next_action(), Some(&3));
}

#[test]
fn an_error_or_an_abort_drops_the_waiting_actions() {
    let mut q: ActionQueue<u32> = ActionQueue::new();
    q.push(1);
    q.push(2);
    assert_eq!(q.reply(Reply::Error(RuntimeError::CPULimitReached)), FlushStep::Failed(RuntimeError::CPULimitReached));
    assert_eq!(q.len(), 0);
    q.push(5);
    q.clear();
    assert_eq!(q.next_action(), None);
}

#[test]
fn vacation_replies_are_queued_with_the_next_number() {
    let mut d = Disposition::new();
    let mut q: ActionQueue<Action> = ActionQueue::new();
    let flags: [&str; 1] = ["\\Seen"];
    let id = queue_vacation_reply(
        &mut d,
        &mut q,
        b"reply".to_vec(),
        "joe@example.org",
        Some(Fcc { folder: "Sent", flags: &flags, mailbox_id: None, special_use: None, create: true }),
    );
    assert_eq!(id, 1);
    assert_eq!(d.last_message_id, 1);
    assert_eq!(d.num_out_messages, 1);
    assert_eq!(d.main_message_id, 0);
    assert_eq!(q.len(), 3);
    assert_eq!(q.next_action(), Some(&Action::CreatedMessage { message_id: 1, message: b"reply".to_vec() }));
    q.reply(Reply::Ready(()));
    assert_eq!(
        q.next_action(),
        Some(&Action::SendMessage {
            source: MessageSource::Vacation,
            recipient: Recipient::Address("joe@example.org"),
            notify: Notify::Never,
            return_of_content: Ret::Default,
            by_time: ByTime::Unset,
            message_id: 1,
        })
    );
    q.reply(Reply::Ready(()));
    match q.next_action() {
        Some(Action::FileInto { folder, create, message_id, .. }) => {
            assert_eq!((*folder, *create, *message_id), ("Sent", true, 1));
        }
        other => panic!("{:?}", other),
    }
    let second = queue_vacation_reply(&mut d, &mut q, b"again".to_vec(), "ann@example.org", None);
    assert_eq!(second, 2);
    assert_eq!(q.len(), 3);
}

#[test]
fn notifications_are_queued_and_counted() {
    let mut d = Disposition::new();
    let mut q: ActionQueue<Action> = ActionQueue::new();
    // A mailto notification: a message of its own, sent to its recipients.
    queue_notify(&mut d, &mut q, Some(b"note".to_vec()), Some(vec!["a@b.c"]), None, None);
    assert_eq!((d.last_message_id, d.num_out_messages), (1, 0));
    assert_eq!(q.next_action(), Some(&Action::CreatedMessage { message_id: 1, message: b"note".to_vec() }));
    q.reply(Reply::Ready(()));
    assert_eq!(
        q.next_action(),
        Some(&Action::SendMessage {
            source: MessageSource::Notification,
            recipient: Recipient::Group(vec!["a@b.c"]),
            notify: Notify::Never,
            return_of_content: Ret::Default,
            by_time: ByTime::Unset,
            message_id: 1,
        })
    );
    q.reply(Reply::Ready(()));
    // Another method: the notification goes to the host and counts as sent;
    // the copy filed is the last message numbered.
    let options: [&str; 0] = [];
    let flags: [&str; 0] = [];
    queue_notify(
        &mut d,
        &mut q,
        None,
        None,
        Some(Notification { from: None, importance: Importance::High, options: &options, message: "hi", method: "xmpp:x@y" }),
        Some(Fcc { folder: "Notes", flags: &flags, mailbox_id: None, special_use: None, create: false }),
    );
    assert_eq!((d.last_message_id, d.num_out_messages), (1, 1));
    assert_eq!(q.len(), 2);
    assert_eq!(
        q.next_action(),
        Some(&Action::Notify { from: None, importance: Importance::High, options: &options, message: "hi", method: "xmpp:x@y" })
    );
    q.reply(Reply::Ready(()));
    match q.next_action() {
        Some(Action::FileInto { folder, message_id, .. }) => assert_eq!((*folder, *message_id), ("Notes", 1)),
        other => panic!("{:?}", other),
    }
}
