//! When a running count of "late" votes deserves a broadcast.
use vstd::prelude::*;

use crate::store::{day_for, lemma_vote_lands, with_vote_on, VoteStore};
use crate::votes::{day_key, EARLIEST_MILLIS};

verus! {

/// Every this many "late" votes on a day, a celebration is broadcast.
pub const MILESTONE_INTERVAL: usize = 5;

/// The milestone rule over plain values.
pub open spec fn announces(late_count: int, notification_chat_id: int) -> bool {
    &&& notification_chat_id != 0
    &&& late_count > 0
    &&& late_count % (MILESTONE_INTERVAL as int) == 0
}

/// Whether a celebration should be sent to `notification_chat_id` now that a
/// day holds `late_count` "late" votes. A zero chat id means no chat is
/// configured, and a count of zero is never a milestone.
pub fn should_announce(late_count: usize, notification_chat_id: i64) -> (r: bool)
    ensures
        r == announces(late_count as int, notification_chat_id as int),
{
    notification_chat_id != 0 && late_count > 0 && late_count % MILESTONE_INTERVAL == 0
}

/// Records `user_id`'s vote on today's aggregate for `now_ms` and says
/// whether a celebration is due: only a "late" vote can bring one, when the
/// day's "late" count, after the vote, is a milestone and a chat is set.
pub fn record_vote(
    store: &mut VoteStore,
    now_ms: i64,
    user_id: i64,
    vote_yes: bool,
    notification_chat_id: i64,
) -> (announce: bool)
    requires
        now_ms >= EARLIEST_MILLIS,
    ensures
        final(store)@ == with_vote_on(old(store)@, day_key(now_ms as int) as i64, user_id, vote_yes),
        old(store).wf() ==> final(store).wf(),
        announce == (vote_yes && announces(
            day_for(final(store)@, day_key(now_ms as int) as i64).late.len() as int,
            notification_chat_id as int,
        )),
{
    store.vote(now_ms, user_id, vote_yes);
    if !vote_yes {
        return false;
    }
    proof {
        lemma_vote_lands(old(store)@, day_key(now_ms as int) as i64, user_id, vote_yes);
    }
    let today = store.check_today_document(now_ms);
    should_announce(today.late_count(), notification_chat_id)
}

} // verus!
