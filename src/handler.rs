use crate::confirm::{ConfirmationSession, Emoji, marker_for};
use crate::history::{MessageHistoryCache, MessageSnapshot, SnapshotView};
use crate::middleware::BlocklistGuard;
use crate::readiness::{
    AggregateSnapshot, ReadinessError, ShardReadinessAggregator, report_next, report_outcome,
    view_all_ready, view_wf,
};
use vstd::prelude::*;
use vstd::string::StrSliceExecFns;

verus! {

/// How long after joining a group its create event still counts as a join,
/// in milliseconds.
pub const JOIN_GRACE_MS: i64 = 30000;

pub open spec fn mentions(hay: Seq<char>, needle: Seq<char>) -> bool {
    exists|i: int|
        0 <= i && i + needle.len() <= hay.len() && #[trigger] hay.subrange(i, i + needle.len()) == needle
}

/// Whether `needle` occurs in `hay`, compared character by character.
fn str_contains(hay: &str, needle: &str) -> (r: bool)
    ensures
        r == mentions(hay@, needle@),
{
    let n = hay.unicode_len();
    let m = needle.unicode_len();
    if m == 0 {
        assert(hay@.subrange(0, 0int + needle@.len()) =~= needle@);
        return true;
    }
    if m > n {
        return false;
    }
    let mut i: usize = 0;
    while i <= n - m
        invariant
            n == hay@.len(),
            m == needle@.len(),
            1 <= m <= n,
            i <= n - m + 1,
            forall|k: int| 0 <= k < i ==> #[trigger] hay@.subrange(k, k + m) != needle@,
        decreases n - m + 1 - i,
    {
        let mut j: usize = 0;
        let mut mismatch = false;
        while j < m && !mismatch
            invariant
                n == hay@.len(),
                m == needle@.len(),
                i + m <= n,
                j <= m,
                forall|t: int| 0 <= t < j ==> hay@[i + t] == needle@[t],
                mismatch ==> j < m && hay@[i + j] != needle@[j as int],
            decreases m - j + (if mismatch { 0int } else { 1int }),
        {
            if hay.get_char(i + j) != needle.get_char(j) {
                mismatch = true;
            } else {
                j = j + 1;
            }
        }
        if !mismatch {
            assert(hay@.subrange(i as int, i + m) =~= needle@);
            return true;
        }
        assert(hay@.subrange(i as int, i + m)[j as int] == hay@[i + j]);
        i = i + 1;
    }
    assert(!mentions(hay@, needle@)) by {
        if mentions(hay@, needle@) {
            let k = choose|k: int|
                0 <= k && k + needle@.len() <= hay@.len() && #[trigger] hay@.subrange(
                    k,
                    k + needle@.len(),
                ) == needle@;
            assert(hay@.subrange(k, k + m) != needle@);
        }
    }
    false
}

/// A channel of a group, as far as the welcome logic reads it.
pub struct ChannelInfo {
    pub id: u64,
    pub name: String,
}

pub open spec fn is_general(c: ChannelInfo) -> bool {
    mentions(c.name@, "general"@)
}

/// Ids of the channels whose name mentions "general", in order.
pub open spec fn general_ids(chs: Seq<ChannelInfo>) -> Seq<u64>
    decreases chs.len(),
{
    if chs.len() == 0 {
        Seq::empty()
    } else {
        let rest = general_ids(chs.drop_last());
        if is_general(chs.last()) {
            rest.push(chs.last().id)
        } else {
            rest
        }
    }
}

/// The channels a welcome goes to: the system channel when the group has
/// one, else every channel whose name mentions "general".
pub fn welcome_channels(system_channel: Option<u64>, channels: &Vec<ChannelInfo>) -> (r: Vec<u64>)
    ensures
        r@ == (match system_channel {
            Some(c) => seq![c],
            None => general_ids(channels@),
        }),
{
    match system_channel {
        Some(c) => {
            let r = vec![c];
            assert(r@ =~= seq![c]);
            r
        },
        None => {
            let mut r: Vec<u64> = Vec::new();
            let mut i: usize = 0;
            while i < channels.len()
                invariant
                    i <= channels@.len(),
                    r@ == general_ids(channels@.subrange(0, i as int)),
                decreases channels@.len() - i,
            {
                let ghost pre = channels@.subrange(0, i as int);
                let ghost next = channels@.subrange(0, i as int + 1);
                assert(next.drop_last() =~= pre);
                assert(next.last() == channels@[i as int]);
                proof {
                    reveal_strlit("general");
                }
                if str_contains(channels[i].name.as_str(), "general") {
                    r.push(channels[i].id);
                }
                i = i + 1;
            }
            assert(channels@.subrange(0, channels@.len() as int) =~= channels@);
            r
        },
    }
}

/// A create event counts as a join when it comes within the grace period
/// after the join time.
pub fn is_fresh_join(joined_at_ms: i64, now_ms: i64) -> (r: bool)
    ensures
        r == (joined_at_ms + JOIN_GRACE_MS > now_ms),
{
    (now_ms as i128) - (joined_at_ms as i128) < JOIN_GRACE_MS as i128
}

/// What to do after the readiness barrier closed.
#[derive(Clone, Copy, Debug, PartialEq, Eq, Structural)]
pub struct BarrierPlan {
    /// Publish the counts to the statistics endpoint.
    pub publish_stats: bool,
    pub group_count: u64,
    pub shard_count: u64,
}

/// What to do for a group-joined event.
pub struct JoinPlan {
    /// Channel of the join log to announce the group in.
    pub announce_to: Option<u64>,
    /// Record the new group with the statistics endpoint.
    pub record_join: bool,
    /// Publish the counts and refresh the presence.
    pub publish_counts: bool,
    pub group_count: u64,
    pub shard_count: u64,
    /// Channels to send the welcome message to.
    pub welcome_to: Vec<u64>,
}

/// What to do for a group-left event.
#[derive(Clone, Copy, Debug, PartialEq, Eq, Structural)]
pub struct LeavePlan {
    pub announce_to: Option<u64>,
    pub record_leave: bool,
    pub publish_counts: bool,
    pub group_count: u64,
    pub shard_count: u64,
}

/// A tracked reply whose triggering message was edited: the reply is to be
/// regenerated from the new content.
pub struct EditRequest {
    pub reply: MessageSnapshot,
    pub content: String,
    pub author_id: u64,
}

/// The blocklist and the configured settings are the same in both states.
pub open spec fn settings_kept(before: Handler, after: Handler) -> bool {
    &&& after.blocklist@ == before.blocklist@
    &&& after.tracking == before.tracking
    &&& after.marker_emoji_id == before.marker_emoji_id
    &&& after.join_log == before.join_log
}

/// Dispatcher state: the components that the gateway events and the command
/// hooks act on.
pub struct Handler {
    pub readiness: ShardReadinessAggregator,
    pub history: MessageHistoryCache,
    pub blocklist: BlocklistGuard,
    /// Whether statistics are collected and published.
    pub tracking: bool,
    /// Groups the client is in, as far as the events have told.
    pub group_count: u64,
    /// Custom emoji used as the confirmation marker, if one is configured.
    pub marker_emoji_id: Option<u64>,
    /// Channel of the join log, if one is configured.
    pub join_log: Option<u64>,
}

impl Handler {
    pub open spec fn wf(&self) -> bool {
        self.readiness.wf() && self.history.wf()
    }

    pub fn new(
        shard_total: u64,
        history_capacity: usize,
        blocklist: BlocklistGuard,
        tracking: bool,
        marker_emoji_id: Option<u64>,
        join_log: Option<u64>,
    ) -> (r: Handler)
        requires
            history_capacity > 0,
        ensures
            r.wf(),
            r.readiness@ == crate::readiness::initial_view(shard_total as nat),
            r.history@ == Map::<u64, SnapshotView>::empty(),
            r.history.cap() == history_capacity,
            r.blocklist@ == blocklist@,
            r.tracking == tracking,
            r.group_count == 0,
            r.marker_emoji_id == marker_emoji_id,
            r.join_log == join_log,
    {
        Handler {
            readiness: ShardReadinessAggregator::new(shard_total),
            history: MessageHistoryCache::new(history_capacity),
            blocklist,
            tracking,
            group_count: 0,
            marker_emoji_id,
            join_log,
        }
    }

    /// A shard reported ready with `group_count` groups. The report is
    /// counted once per shard index; a report whose count would overflow the
    /// running sum is refused. When it closes the barrier, the plan says to
    /// publish the total.
    pub fn ready(&mut self, shard_index: u64, group_count: u64) -> (r: Result<
        (AggregateSnapshot, Option<BarrierPlan>),
        ReadinessError,
    >)
        requires
            old(self).wf(),
        ensures
            final(self).wf(),
            final(self).history == old(self).history,
            settings_kept(*old(self), *final(self)),
            view_wf(final(self).readiness@),
            final(self).readiness@.reported.dom().finite(),
            final(self).readiness@.reported.dom().len() <= final(self).readiness@.expected,
            final(self).readiness@.expected == old(self).readiness@.expected,
            view_all_ready(old(self).readiness@) ==> r is Err && final(self).readiness@ == old(
                self,
            ).readiness@ && final(self).group_count == old(self).group_count,
            old(self).readiness@.cumulative + group_count > u64::MAX ==> r == Err::<
                (AggregateSnapshot, Option<BarrierPlan>),
                ReadinessError,
            >(ReadinessError::GroupCountOverflow) && final(self).readiness@ == old(
                self,
            ).readiness@ && final(self).group_count == old(self).group_count,
            old(self).readiness@.cumulative + group_count <= u64::MAX ==> {
                &&& final(self).readiness@ == report_next(
                    old(self).readiness@,
                    shard_index,
                    group_count,
                )
                &&& match report_outcome(old(self).readiness@, shard_index, group_count) {
                    Err(e) => r == Err::<(AggregateSnapshot, Option<BarrierPlan>), ReadinessError>(
                        e,
                    ) && final(self).group_count == old(self).group_count,
                    Ok(s) => r matches Ok((s2, plan)) && s2 == s && final(self).group_count == (
                        if s.just_became_ready {
                            s.cumulative_groups
                        } else {
                            old(self).group_count
                        }) && (plan is Some <==> s.just_became_ready) && (s.just_became_ready
                        ==> plan == Some(
                        BarrierPlan {
                            publish_stats: old(self).tracking,
                            group_count: s.cumulative_groups,
                            shard_count: s.reports_received,
                        },
                    )),
                }
            },
    {
        proof {
            self.readiness.lemma_reports_bounded();
        }
        if group_count > u64::MAX - self.readiness.cumulative_groups() {
            return Err(ReadinessError::GroupCountOverflow);
        }
        match self.readiness.report_shard_ready(shard_index, group_count) {
            Err(e) => Err(e),
            Ok(s) => {
                if s.just_became_ready {
                    self.group_count = s.cumulative_groups;
                    let plan = BarrierPlan {
                        publish_stats: self.tracking,
                        group_count: s.cumulative_groups,
                        shard_count: s.reports_received,
                    };
                    Ok((s, Some(plan)))
                } else {
                    Ok((s, None))
                }
            },
        }
    }

    /// A group-created event. Only a fresh join is acted on: the group count
    /// goes up by one (saturating), the join is announced in the join log if
    /// there is one, recorded when tracking, the counts are published while the
    /// group count is positive, and the group is welcomed.
    pub fn guild_create(
        &mut self,
        joined_at_ms: i64,
        now_ms: i64,
        system_channel: Option<u64>,
        channels: &Vec<ChannelInfo>,
    ) -> (r: Option<JoinPlan>)
        requires
            old(self).wf(),
        ensures
            final(self).wf(),
            final(self).readiness == old(self).readiness,
            final(self).history == old(self).history,
            settings_kept(*old(self), *final(self)),
            r is Some <==> joined_at_ms + JOIN_GRACE_MS > now_ms,
            r is None ==> final(self).group_count == old(self).group_count,
            r matches Some(p) ==> {
                &&& final(self).group_count == if old(self).group_count < u64::MAX {
                    (old(self).group_count + 1) as u64
                } else {
                    old(self).group_count
                }
                &&& p.announce_to == old(self).join_log
                &&& p.record_join == old(self).tracking
                &&& p.publish_counts == (final(self).group_count > 0)
                &&& p.group_count == final(self).group_count
                &&& p.shard_count == old(self).readiness@.reported.dom().len()
                &&& p.welcome_to@ == (match system_channel {
                    Some(c) => seq![c],
                    None => general_ids(channels@),
                })
            },
    {
        if !is_fresh_join(joined_at_ms, now_ms) {
            return None;
        }
        if self.group_count < u64::MAX {
            self.group_count = self.group_count + 1;
        }
        Some(
            JoinPlan {
                announce_to: self.join_log,
                record_join: self.tracking,
                publish_counts: self.group_count > 0,
                group_count: self.group_count,
                shard_count: self.readiness.reports_received(),
                welcome_to: welcome_channels(system_channel, channels),
            },
        )
    }

    /// A group-left event: the group count goes down by one (not below
    /// zero), the leave is announced and recorded, and the counts are
    /// published while the group count is positive.
    pub fn guild_delete(&mut self) -> (r: LeavePlan)
        requires
            old(self).wf(),
        ensures
            final(self).wf(),
            final(self).readiness == old(self).readiness,
            final(self).history == old(self).history,
            settings_kept(*old(self), *final(self)),
            final(self).group_count == if old(self).group_count > 0 {
                (old(self).group_count - 1) as u64
            } else {
                0
            },
            r == (LeavePlan {
                announce_to: old(self).join_log,
                record_leave: old(self).tracking,
                publish_counts: final(self).group_count > 0,
                group_count: final(self).group_count,
                shard_count: old(self).readiness@.reported.dom().len() as u64,
            }),
    {
        if self.group_count > 0 {
            self.group_count = self.group_count - 1;
        }
        LeavePlan {
            announce_to: self.join_log,
            record_leave: self.tracking,
            publish_counts: self.group_count > 0,
            group_count: self.group_count,
            shard_count: self.readiness.reports_received(),
        }
    }

    /// A new message. A confirmation session is opened, with the configured
    /// marker, when the message carries an attachment that resolved to an
    /// execution target.
    pub fn message(
        &self,
        message_id: u64,
        channel_id: u64,
        author_id: u64,
        has_attachment: bool,
        target_resolved: bool,
    ) -> (r: Option<ConfirmationSession>)
        ensures
            r is Some <==> has_attachment && target_resolved,
            r matches Some(s) ==> s == (ConfirmationSession {
                triggering_message_id: message_id,
                channel_id,
                requester_id: author_id,
                marker: match self.marker_emoji_id {
                    Some(id) => Emoji::Custom(id),
                    None => Emoji::Unicode('\u{1F4BB}'),
                },
                armed_at: 0,
                state: crate::confirm::SessionState::Pending,
            }),
    {
        let marker = marker_for(self.marker_emoji_id);
        ConfirmationSession::open(message_id, channel_id, author_id, marker, has_attachment && target_resolved)
    }

    /// An edit of message `id`. When a reply is tracked for it and the edit
    /// carries both content and author, the reply is to be regenerated;
    /// otherwise nothing is done.
    pub fn message_update(&self, id: u64, content: Option<String>, author_id: Option<u64>) -> (r:
        Option<EditRequest>)
        requires
            self.wf(),
        ensures
            r is Some <==> self.history@.contains_key(id) && content is Some && author_id is Some,
            r matches Some(q) ==> q.reply@ == self.history@[id] && q.content@ == content->Some_0@
                && q.author_id == author_id->Some_0,
    {
        match self.history.get(id) {
            Some(reply) => match (content, author_id) {
                (Some(content), Some(author_id)) => Some(EditRequest { reply, content, author_id }),
                _ => None,
            },
            None => None,
        }
    }

    /// Records the regenerated content of the reply tracked for `id`.
    pub fn record_edit(&mut self, id: u64, content: String) -> (r: bool)
        requires
            old(self).wf(),
        ensures
            final(self).wf(),
            settings_kept(*old(self), *final(self)),
            final(self).readiness == old(self).readiness,
            final(self).group_count == old(self).group_count,
            r == old(self).history@.contains_key(id),
            r ==> final(self).history@ == old(self).history@.insert(
                id,
                crate::history::with_content(old(self).history@[id], content@),
            ),
            !r ==> final(self).history@ == old(self).history@,
    {
        self.history.update_content(id, content)
    }

    /// A deletion of message `id`: the reply tracked for it, if any, stops
    /// being tracked and is handed back to be deleted.
    pub fn message_delete(&mut self, id: u64) -> (r: Option<MessageSnapshot>)
        requires
            old(self).wf(),
        ensures
            final(self).wf(),
            settings_kept(*old(self), *final(self)),
            final(self).readiness == old(self).readiness,
            final(self).group_count == old(self).group_count,
            final(self).history@ == old(self).history@.remove(id),
            r is Some <==> old(self).history@.contains_key(id),
            r is Some ==> r->Some_0@ == old(self).history@[id],
    {
        self.history.remove(id)
    }

    /// Tracks a reply that was sent for message `id`.
    pub fn track_reply(&mut self, id: u64, reply: MessageSnapshot)
        requires
            old(self).wf(),
        ensures
            final(self).wf(),
            settings_kept(*old(self), *final(self)),
            final(self).readiness == old(self).readiness,
            final(self).group_count == old(self).group_count,
            final(self).history@.contains_key(id),
            final(self).history@[id] == reply@,
            forall|k: u64|
                k != id && #[trigger] final(self).history@.contains_key(k) ==> old(
                    self,
                ).history@.contains_key(k) && final(self).history@[k] == old(self).history@[k],
    {
        self.history.put(id, reply);
    }
}

} // verus!
