//! The image role of the general channel: posting an image there takes the role away
//! for twelve hours.
use vstd::prelude::*;

use crate::idmap::IdMap;

verus! {

/// Milliseconds before the image role comes back: twelve hours.
pub const GENIMG_WAIT_MS: i64 = 43_200_000;

/// What to do with a member's image role after one of their messages.
#[derive(Debug, Clone, Copy, PartialEq, Eq, Structural)]
pub enum GenImgAction {
    Nothing,
    /// Take the role away.
    RemoveRole,
    /// Give the role back.
    AddRole,
}

/// The time, for each user, at which they last posted an image in the general channel
/// (milliseconds since the epoch).
pub struct GenImg {
    last_sent: IdMap<i64>,
}

/// What a message does to a member's image role, and to the record of when they last
/// posted an image.
pub open spec fn genimg_step(
    last: Map<u64, i64>,
    author: u64,
    is_member: bool,
    is_ignored: bool,
    has_role: bool,
    in_gen: bool,
    has_media: bool,
    now: i64,
) -> (GenImgAction, Map<u64, i64>) {
    if !is_member || is_ignored {
        (if has_role { GenImgAction::RemoveRole } else { GenImgAction::Nothing }, last)
    } else if !has_role && (!last.contains_key(author) || last[author] + GENIMG_WAIT_MS < now) {
        (GenImgAction::AddRole, last)
    } else if !in_gen {
        (GenImgAction::Nothing, last)
    } else if has_role && has_media {
        (GenImgAction::RemoveRole, last.insert(author, now))
    } else {
        (GenImgAction::Nothing, last)
    }
}

impl View for GenImg {
    type V = Map<u64, i64>;

    closed spec fn view(&self) -> Map<u64, i64> {
        self.last_sent@
    }
}

impl GenImg {
    /// The record is well formed.
    pub closed spec fn wf(&self) -> bool {
        self.last_sent.wf()
    }

    /// Nobody has posted an image yet.
    pub fn new() -> (g: Self)
        ensures
            g.wf(),
            g@ == Map::<u64, i64>::empty(),
    {
        GenImg { last_sent: IdMap::new() }
    }

    /// A message of `author`: a verified member (`is_member`) without a role that
    /// needs no image role (`is_ignored`) gets the role back twelve hours after their
    /// last image in the general channel, and loses it when they post an image or
    /// embed there (`in_gen`, `has_media`).
    pub fn on_message(
        &mut self,
        author: u64,
        is_member: bool,
        is_ignored: bool,
        has_role: bool,
        in_gen: bool,
        has_media: bool,
        now: i64,
    ) -> (a: GenImgAction)
        requires
            old(self).wf(),
            old(self)@.contains_key(author) ==> old(self)@[author] <= i64::MAX - GENIMG_WAIT_MS,
        ensures
            final(self).wf(),
            (a, final(self)@) == genimg_step(
                old(self)@,
                author,
                is_member,
                is_ignored,
                has_role,
                in_gen,
                has_media,
                now,
            ),
    {
        if !is_member || is_ignored {
            return if has_role {
                GenImgAction::RemoveRole
            } else {
                GenImgAction::Nothing
            };
        }
        let due = match self.last_sent.get(author) {
            None => true,
            Some(t) => *t + GENIMG_WAIT_MS < now,
        };
        if !has_role && due {
            return GenImgAction::AddRole;
        }
        if !in_gen {
            return GenImgAction::Nothing;
        }
        if has_role && has_media {
            self.last_sent.insert(author, now);
            GenImgAction::RemoveRole
        } else {
            GenImgAction::Nothing
        }
    }
}

} // verus!
