use sieve::runtime::disposition::{Disposition, FinalAction, Outcome};

fn kept(flags: &[&str], message_id: usize) -> Option<FinalAction> {
    Some(FinalAction::Keep { flags: flags.iter().map(|f| f.to_string()).collect(), message_id })
}

#[test]
fn implicit_keep_without_actions() {
    let mut d = Disposition::new();
    assert_eq!(d.final_action, kept(&[], 0));
    assert_eq!(d.finish(), vec![Outcome::Keep { flags: vec![], message_id: 0 }]);
    assert_eq!(d.final_action, None);
}

#[test]
fn fileinto_cancels_implicit_keep_unless_copy() {
    let mut d = Disposition::new();
    assert_eq!(d.file_into(true), None);
    assert_eq!(d.final_action, kept(&[], 0));
    d.file_into(false);
    assert_eq!(d.final_action, None);
    assert_eq!(d.finish(), vec![]);
}

#[test]
fn fileinto_leaves_flagged_keep() {
    let mut d = Disposition::new();
    d.keep(vec!["\\Seen".to_string()]);
    d.file_into(false);
    assert_eq!(d.final_action, kept(&["\\Seen"], 0));
}

#[test]
fn redirect_cancels_keep_and_discard_replaces_it() {
    let mut d = Disposition::new();
    d.redirect(true);
    assert_eq!(d.final_action, kept(&[], 0));
    d.redirect(false);
    assert_eq!(d.final_action, None);
    d.discard();
    assert_eq!(d.final_action, Some(FinalAction::Discard));
    assert_eq!(d.finish(), vec![Outcome::Discard]);
}

#[test]
fn abort_keeps_unless_rejected() {
    let mut d = Disposition::new();
    d.discard();
    d.abort();
    assert_eq!(d.final_action, kept(&[], 0));
    assert!(d.aborted);
    d.discard();
    d.abort();
    assert_eq!(d.final_action, Some(FinalAction::Discard));
    let mut r = Disposition::new();
    r.reject();
    assert!(r.rejected);
    r.abort();
    assert_eq!(r.final_action, None);
}

#[test]
fn edited_message_is_numbered_and_kept() {
    let mut d = Disposition::new();
    d.has_changes = true;
    assert_eq!(d.file_into(true), Some(1));
    assert_eq!(d.main_message_id, 1);
    assert!(!d.has_changes);
    assert_eq!(d.build_message_id(), None);
    d.has_changes = true;
    d.flags = vec!["$x".to_string()];
    assert_eq!(
        d.finish(),
        vec![Outcome::CreatedMessage { message_id: 2 }, Outcome::Keep { flags: vec!["$x".to_string()], message_id: 2 }]
    );
    assert!(d.flags.is_empty());
    assert_eq!(d.last_message_id, 2);
}

#[test]
fn keep_with_flags_of_its_own() {
    let mut d = Disposition::new();
    d.flags = vec!["$global".to_string()];
    assert_eq!(d.keep(vec!["$own".to_string()]), None);
    assert_eq!(d.finish(), vec![Outcome::Keep { flags: vec!["$own".to_string()], message_id: 0 }]);
    assert_eq!(d.flags, vec!["$global".to_string()]);
}

#[test]
fn outgoing_messages_are_numbered_and_counted() {
    let mut d = Disposition::new();
    assert_eq!(d.add_outgoing(), 1);
    assert_eq!(d.add_outgoing(), 2);
    assert_eq!(d.num_out_messages, 2);
    assert_eq!(d.main_message_id, 0);
    d.has_changes = true;
    assert_eq!(d.build_message_id(), Some(3));
}
