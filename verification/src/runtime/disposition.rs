//! What becomes of the message at the end of a run: the implicit keep that
//! `fileinto`, `redirect`, `discard` and `reject` cancel, the keep an abort
//! falls back to, and the numbers of the messages that edits created.

use vstd::prelude::*;

verus! {

/// What is done with the message when the script ends.
#[derive(Debug, PartialEq, Eq)]
pub enum FinalAction {
    Keep { flags: Vec<String>, message_id: usize },
    Discard,
}

/// What the end of a run hands to the host: a message that edits created
/// (its number; its bytes are written by `build_message`), the keep, or
/// the discard.
#[derive(Debug, PartialEq, Eq)]
pub enum Outcome {
    CreatedMessage { message_id: usize },
    Keep { flags: Vec<String>, message_id: usize },
    Discard,
}

/// The state of a run that decides what becomes of the message: the final
/// action, the flags set on the message, whether the message was edited
/// since it was last written out, whether it was rejected, whether the run
/// was aborted, and the numbers of the last message written out and of the
/// message that actions now apply to.
pub struct Disposition {
    pub final_action: Option<FinalAction>,
    pub flags: Vec<String>,
    pub has_changes: bool,
    pub rejected: bool,
    pub aborted: bool,
    pub last_message_id: usize,
    pub main_message_id: usize,
    pub num_out_messages: usize,
}

/// The state after an edited message is written out as a new message: the
/// next number, which actions now apply to; unchanged when nothing was
/// edited.
pub open spec fn with_new_message(d: Disposition) -> Disposition {
    if d.has_changes {
        Disposition {
            has_changes: false,
            last_message_id: (d.last_message_id + 1) as usize,
            main_message_id: (d.last_message_id + 1) as usize,
            ..d
        }
    } else {
        d
    }
}

/// The number of the message written out, when one is.
pub open spec fn new_message_id(d: Disposition) -> Option<usize> {
    if d.has_changes {
        Some((d.last_message_id + 1) as usize)
    } else {
        None
    }
}

/// Whether the final action is a keep.
pub open spec fn keeps(d: Disposition) -> bool {
    d.final_action matches Some(FinalAction::Keep { .. })
}

/// `fileinto`: without `:copy`, it cancels the final action, unless that
/// is a keep with flags.
pub open spec fn after_fileinto(d: Disposition, copy: bool) -> Disposition {
    let e = with_new_message(d);
    if !copy && !(e.final_action matches Some(FinalAction::Keep { flags, .. }) && flags@.len() > 0) {
        Disposition { final_action: None, ..e }
    } else {
        e
    }
}

/// `redirect`: without `:copy`, it cancels a keep.
pub open spec fn after_redirect(d: Disposition, copy: bool) -> Disposition {
    let e = if !copy && keeps(d) {
        Disposition { final_action: None, ..d }
    } else {
        d
    };
    with_new_message(e)
}

/// Whether `a` is a keep of `flags` of the message `id`.
pub open spec fn is_keep(a: Option<FinalAction>, flags: Seq<String>, id: usize) -> bool {
    a matches Some(FinalAction::Keep { flags: f, message_id }) && f@ == flags && message_id == id
}

/// `keep`: the final action keeps the message with `flags`, the edited
/// message when it was edited (see `with_new_message`).
pub open spec fn after_keep(d: Disposition, flags: Vec<String>) -> Disposition {
    let e = with_new_message(d);
    Disposition { final_action: Some(FinalAction::Keep { flags, message_id: e.main_message_id }), ..e }
}

/// `discard`: the message is discarded.
pub open spec fn after_discard(d: Disposition) -> Disposition {
    Disposition { final_action: Some(FinalAction::Discard), ..d }
}

/// `reject`: the final action is cancelled and the message rejected.
pub open spec fn after_reject(d: Disposition) -> Disposition {
    Disposition { final_action: None, rejected: true, ..d }
}

/// Whether a keep with no flags of its own takes the flags set on the
/// message.
pub open spec fn keep_takes_flags(d: Disposition) -> bool {
    d.final_action matches Some(FinalAction::Keep { flags, .. }) && flags@.len() == 0 && d.flags@.len() > 0
}

/// What the end of a run hands over: a keep of the edited message comes
/// after the new message and names it; a keep with no flags of its own
/// takes the flags set on the message; a discard is handed over as it is.
pub open spec fn finish_outcomes(d: Disposition) -> Seq<Outcome> {
    match d.final_action {
        Some(FinalAction::Keep { flags, message_id }) => {
            let kept = if keep_takes_flags(d) {
                d.flags
            } else {
                flags
            };
            match new_message_id(d) {
                Some(id) => seq![
                    Outcome::CreatedMessage { message_id: id },
                    Outcome::Keep { flags: kept, message_id: id },
                ],
                None => seq![Outcome::Keep { flags: kept, message_id }],
            }
        },
        Some(FinalAction::Discard) => seq![Outcome::Discard],
        None => seq![],
    }
}

/// Whether `e` is the state after the end of a run from `d`: no final
/// action left, the message numbered anew when a keep of an edited message
/// was handed over, and the flags gone when the keep took them.
pub open spec fn finished(d: Disposition, e: Disposition) -> bool {
    let w = if keeps(d) {
        with_new_message(d)
    } else {
        d
    };
    &&& e.final_action is None
    &&& e.flags@ == if keep_takes_flags(d) {
        Seq::<String>::empty()
    } else {
        d.flags@
    }
    &&& e.has_changes == w.has_changes
    &&& e.rejected == w.rejected
    &&& e.aborted == w.aborted
    &&& e.last_message_id == w.last_message_id
    &&& e.main_message_id == w.main_message_id
}

/// Filing or redirecting with `:copy` leaves the final action as it was:
/// only the plain forms cancel the implicit keep.
pub proof fn lemma_copy_keeps_final_action(d: Disposition)
    ensures
        after_fileinto(d, true).final_action == d.final_action,
        after_redirect(d, true).final_action == d.final_action,
        keeps(d) ==> after_redirect(d, false).final_action is None,
        keeps(d) && !(d.final_action matches Some(FinalAction::Keep { flags, .. }) && flags@.len() > 0)
            ==> after_fileinto(d, false).final_action is None,
{
}

impl Disposition {
    /// The state a run starts in: the message is kept (the implicit keep),
    /// with no flags, and nothing is edited.
    pub fn new() -> (r: Disposition)
        ensures
            is_keep(r.final_action, seq![], 0),
            r.flags@ == Seq::<String>::empty(),
            !r.has_changes,
            !r.rejected,
            !r.aborted,
            r.last_message_id == 0,
            r.main_message_id == 0,
            r.num_out_messages == 0,
    {
        Disposition {
            final_action: Some(FinalAction::Keep { flags: Vec::new(), message_id: 0 }),
            flags: Vec::new(),
            has_changes: false,
            rejected: false,
            aborted: false,
            last_message_id: 0,
            main_message_id: 0,
            num_out_messages: 0,
        }
    }

    /// When the message was edited, numbers it as a new message, which
    /// actions now apply to (see `with_new_message`); gives its number.
    pub fn build_message_id(&mut self) -> (r: Option<usize>)
        requires
            old(self).has_changes ==> old(self).last_message_id < usize::MAX,
        ensures
            *final(self) == with_new_message(*old(self)),
            r == new_message_id(*old(self)),
    {
        if self.has_changes {
            self.last_message_id = self.last_message_id + 1;
            self.main_message_id = self.last_message_id;
            self.has_changes = false;
            Some(self.main_message_id)
        } else {
            None
        }
    }

    /// A message the script makes gets the next number; the message that
    /// actions apply to stays the same.
    pub fn next_message_id(&mut self) -> (r: usize)
        requires
            old(self).last_message_id < usize::MAX,
        ensures
            r == old(self).last_message_id + 1,
            *final(self) == (Disposition { last_message_id: r, ..*old(self) }),
    {
        self.last_message_id = self.last_message_id + 1;
        self.last_message_id
    }

    /// One more message counts as sent.
    pub fn count_out_message(&mut self)
        requires
            old(self).num_out_messages < usize::MAX,
        ensures
            *final(self) == (Disposition { num_out_messages: (old(self).num_out_messages + 1) as usize, ..*old(self) }),
    {
        self.num_out_messages = self.num_out_messages + 1;
    }

    /// A message the script sends (a vacation reply, a notification) gets
    /// the next number, and one more message counts as sent; the message
    /// that actions apply to stays the same.
    pub fn add_outgoing(&mut self) -> (r: usize)
        requires
            old(self).last_message_id < usize::MAX,
            old(self).num_out_messages < usize::MAX,
        ensures
            r == old(self).last_message_id + 1,
            *final(self) == (Disposition {
                last_message_id: r,
                num_out_messages: (old(self).num_out_messages + 1) as usize,
                ..*old(self)
            }),
    {
        self.last_message_id = self.last_message_id + 1;
        self.num_out_messages = self.num_out_messages + 1;
        self.last_message_id
    }

    /// `keep`: the final action keeps the message (the edited one, numbered
    /// anew, when it was edited) with `flags`; gives the number of a
    /// message written out.
    pub fn keep(&mut self, flags: Vec<String>) -> (r: Option<usize>)
        requires
            old(self).has_changes ==> old(self).last_message_id < usize::MAX,
        ensures
            r == new_message_id(*old(self)),
            *final(self) == after_keep(*old(self), flags),
    {
        let created = self.build_message_id();
        self.final_action = Some(FinalAction::Keep { flags, message_id: self.main_message_id });
        created
    }

    /// `fileinto` (see `after_fileinto`); gives the number of a message
    /// written out.
    pub fn file_into(&mut self, copy: bool) -> (r: Option<usize>)
        requires
            old(self).has_changes ==> old(self).last_message_id < usize::MAX,
        ensures
            r == new_message_id(*old(self)),
            *final(self) == after_fileinto(*old(self), copy),
    {
        let created = self.build_message_id();
        let flagged_keep = match &self.final_action {
            Some(FinalAction::Keep { flags, .. }) => flags.len() > 0,
            _ => false,
        };
        if !copy && !flagged_keep {
            self.final_action = None;
        }
        created
    }

    /// `redirect` (see `after_redirect`); gives the number of a message
    /// written out.
    pub fn redirect(&mut self, copy: bool) -> (r: Option<usize>)
        requires
            old(self).has_changes ==> old(self).last_message_id < usize::MAX,
        ensures
            r == new_message_id(*old(self)),
            *final(self) == after_redirect(*old(self), copy),
    {
        let is_keep = match &self.final_action {
            Some(FinalAction::Keep { .. }) => true,
            _ => false,
        };
        if !copy && is_keep {
            self.final_action = None;
        }
        self.build_message_id()
    }

    /// `discard`: the message is discarded.
    pub fn discard(&mut self)
        ensures
            *final(self) == after_discard(*old(self)),
    {
        self.final_action = Some(FinalAction::Discard);
    }

    /// `reject`: the final action is cancelled and the message rejected.
    pub fn reject(&mut self)
        ensures
            *final(self) == after_reject(*old(self)),
    {
        self.final_action = None;
        self.rejected = true;
    }

    /// An abort (see `after_abort`).
    pub fn abort(&mut self)
        ensures
            final(self).aborted,
            final(self).rejected == old(self).rejected,
            final(self).has_changes == old(self).has_changes,
            final(self).flags == old(self).flags,
            final(self).last_message_id == old(self).last_message_id,
            final(self).main_message_id == old(self).main_message_id,
            final(self).num_out_messages == old(self).num_out_messages,
            if !old(self).aborted && !old(self).rejected {
                is_keep(final(self).final_action, seq![], 0)
            } else {
                final(self).final_action == old(self).final_action
            },
    {
        if !self.aborted && !self.rejected {
            self.final_action = Some(FinalAction::Keep { flags: Vec::new(), message_id: 0 });
        }
        self.aborted = true;
    }

    /// The end of a run: the final action handed over. A keep of the
    /// edited message comes after the new message and names it; a keep
    /// with no flags of its own takes the flags set on the message.
    pub fn finish(&mut self) -> (r: Vec<Outcome>)
        requires
            old(self).has_changes ==> old(self).last_message_id < usize::MAX,
        ensures
            r@ == finish_outcomes(*old(self)),
            finished(*old(self), *final(self)),
    {
        let action = self.final_action.take();
        match action {
            Some(FinalAction::Keep { flags, message_id }) => {
                let created = self.build_message_id();
                let flags = if flags.len() == 0 && self.flags.len() > 0 {
                    let mut taken: Vec<String> = Vec::new();
                    std::mem::swap(&mut taken, &mut self.flags);
                    taken
                } else {
                    flags
                };
                match created {
                    Some(id) => vec![Outcome::CreatedMessage { message_id: id }, Outcome::Keep { flags, message_id: id }],
                    None => vec![Outcome::Keep { flags, message_id }],
                }
            },
            Some(FinalAction::Discard) => vec![Outcome::Discard],
            None => Vec::new(),
        }
    }
}

} // verus!
