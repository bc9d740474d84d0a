use shard_gateway::confirm::{
    marker_for, ConfirmationSession, Emoji, SessionAction, SessionEvent, SessionState,
    COLLECTION_WINDOW_MS,
};
use shard_gateway::handler::{is_fresh_join, welcome_channels, ChannelInfo, Handler};
use shard_gateway::history::MessageSnapshot;
use shard_gateway::middleware::{
    after, before, dispatch_error, group_or_sentinel, BlockedBy, BlocklistGuard, DispatchFailure,
};
use shard_gateway::readiness::ReadinessError;

fn armed(at: u64) -> ConfirmationSession {
    let mut s = ConfirmationSession::open(50, 60, 70, Emoji::Custom(5), true).unwrap();
    let a = s.step(SessionEvent::MarkerPosted { at });
    assert_eq!(a, SessionAction::AwaitConfirmation { deadline: at + COLLECTION_WINDOW_MS });
    assert_eq!(s.state, SessionState::Armed);
    s
}

#[test]
fn unconfirmed_session_expires_without_messages() {
    let mut s = armed(1_000);
    let events = [
        SessionEvent::Reaction { actor: 71, emoji: Emoji::Custom(5), at: 2_000 },
        SessionEvent::Reaction { actor: 70, emoji: Emoji::Custom(6), at: 3_000 },
        SessionEvent::Reaction { actor: 70, emoji: Emoji::Unicode('x'), at: 4_000 },
        SessionEvent::ExecutionSucceeded,
        SessionEvent::WindowElapsed { at: 1_000 + COLLECTION_WINDOW_MS },
    ];
    let mut actions = Vec::new();
    for e in events.iter() {
        actions.push(s.step(*e));
    }
    assert_eq!(s.state, SessionState::Expired);
    assert!(s.is_finished());
    assert_eq!(actions[4], SessionAction::StripMarker);
    for a in actions.iter() {
        assert!(!matches!(a, SessionAction::SendResult { .. } | SessionAction::SendFailure { .. }));
    }
}

#[test]
fn reaction_just_inside_window_confirms() {
    let mut s = armed(1_000);
    let a = s.step(SessionEvent::Reaction {
        actor: 70,
        emoji: Emoji::Custom(5),
        at: 1_000 + COLLECTION_WINDOW_MS - 1,
    });
    assert_eq!(a, SessionAction::StripMarkerAndExecute);
    assert_eq!(s.state, SessionState::Confirmed);
}

#[test]
fn reaction_just_outside_window_does_not_confirm() {
    let mut s = armed(1_000);
    let a = s.step(SessionEvent::Reaction {
        actor: 70,
        emoji: Emoji::Custom(5),
        at: 1_000 + COLLECTION_WINDOW_MS + 1,
    });
    assert_eq!(a, SessionAction::Nothing);
    assert_eq!(s.state, SessionState::Armed);
}

#[test]
fn marker_rejection_aborts() {
    let mut s = ConfirmationSession::open(1, 2, 3, marker_for(None), true).unwrap();
    assert_eq!(s.marker, Emoji::Unicode('\u{1F4BB}'));
    assert_eq!(s.step(SessionEvent::MarkerRejected), SessionAction::Nothing);
    assert_eq!(s.state, SessionState::Aborted);
    assert!(ConfirmationSession::open(1, 2, 3, marker_for(Some(8)), false).is_none());
}

#[test]
fn execution_failure_sends_notice_to_requester() {
    let mut s = armed(0);
    s.step(SessionEvent::Reaction { actor: 70, emoji: Emoji::Custom(5), at: 10 });
    assert!(s.start_execution("rust", "fn main() {}").is_some());
    assert_eq!(
        s.step(SessionEvent::ExecutionFailed),
        SessionAction::SendFailure { requester_id: 70, channel_id: 60 }
    );
    assert_eq!(s.state, SessionState::Failed);
}

#[test]
fn attachment_to_reply_is_tracked() {
    let mut h = Handler::new(1, 8, BlocklistGuard::new(), false, Some(42), None);
    let mut s = h.message(500, 600, 700, true, true).unwrap();
    assert_eq!(s.marker, Emoji::Custom(42));
    assert!(h.message(501, 600, 700, false, true).is_none());
    assert!(h.message(502, 600, 700, true, false).is_none());
    assert!(matches!(s.step(SessionEvent::MarkerPosted { at: 5 }), SessionAction::AwaitConfirmation { .. }));
    assert_eq!(
        s.step(SessionEvent::Reaction { actor: 700, emoji: Emoji::Custom(42), at: 6 }),
        SessionAction::StripMarkerAndExecute
    );
    let payload = s.start_execution("cpp", "int main(){}").unwrap();
    assert_eq!(payload, ";compile\n```cpp\nint main(){}\n```");
    assert_eq!(s.state, SessionState::Executing);
    let a = s.step(SessionEvent::ExecutionSucceeded);
    assert_eq!(a, SessionAction::SendResult { reply_to: 500, channel_id: 600 });
    assert_eq!(s.state, SessionState::Completed);
    assert_eq!(s.step(SessionEvent::ExecutionSucceeded), SessionAction::Nothing);
    h.track_reply(
        500,
        MessageSnapshot { message_id: 900, channel_id: 600, author_id: 1, content: "ok".to_string(), sent_at: 7 },
    );
    assert_eq!(h.history.get(500).unwrap().message_id, 900);
    assert_eq!(h.history.len(), 1);
}

#[test]
fn blocked_user_or_group_is_denied_once() {
    let mut bl = BlocklistGuard::new();
    bl.block(10);
    bl.block(20);
    for name in ["compile", "help", ""].iter() {
        let d = before(&bl, true, 10, Some(99), name);
        assert!(!d.proceed);
        assert_eq!(d.denial, Some(BlockedBy::User));
        assert!(d.record_request);
        let g = before(&bl, false, 11, Some(20), name);
        assert!(!g.proceed);
        assert_eq!(g.denial, Some(BlockedBy::Group));
        assert!(!g.record_request);
    }
    let ok = before(&bl, true, 11, None, "help");
    assert!(ok.proceed);
    assert_eq!(ok.denial, None);
    bl.block(0);
    assert!(!before(&bl, true, 11, None, "help").proceed);
    bl.unblock(0);
    assert!(!bl.contains(0));
    assert_eq!(group_or_sentinel(None), 0);
    assert_eq!(group_or_sentinel(Some(4)), 4);
}

#[test]
fn after_hook_reports_failure_and_metric() {
    let name = "compile".to_string();
    let failed = after(&Err("boom".to_string()), true, &name, Some(3));
    assert_eq!(failed.failure_notice, Some("boom".to_string()));
    assert!(failed.emit_metric);
    assert_eq!(failed.command_name, "compile");
    assert_eq!(failed.group_id, Some(3));
    let fine = after(&Ok(()), false, &name, None);
    assert_eq!(fine.failure_notice, None);
    assert!(!fine.emit_metric);
}

#[test]
fn only_rate_limit_is_answered() {
    assert!(dispatch_error(DispatchFailure::RateLimited));
    assert!(!dispatch_error(DispatchFailure::Other));
}

#[test]
fn fresh_join_window() {
    assert!(is_fresh_join(1_000, 1_000));
    assert!(is_fresh_join(1_000, 30_999));
    assert!(!is_fresh_join(1_000, 31_000));
    assert!(is_fresh_join(i64::MAX, i64::MIN));
    assert!(!is_fresh_join(i64::MIN, i64::MAX));
}

#[test]
fn welcome_goes_to_system_or_general_channels() {
    let chans = vec![
        ChannelInfo { id: 1, name: "general".to_string() },
        ChannelInfo { id: 2, name: "random".to_string() },
        ChannelInfo { id: 3, name: "general-chat".to_string() },
        ChannelInfo { id: 4, name: "gen".to_string() },
    ];
    assert_eq!(welcome_channels(None, &chans), vec![1, 3]);
    assert_eq!(welcome_channels(Some(9), &chans), vec![9]);
    assert_eq!(welcome_channels(None, &Vec::new()), Vec::<u64>::new());
}

#[test]
fn handler_barrier_join_leave_and_edits() {
    let mut h = Handler::new(2, 4, BlocklistGuard::new(), true, None, Some(77));
    let (s, plan) = h.ready(0, 10).unwrap();
    assert!(!s.just_became_ready);
    assert!(plan.is_none());
    assert_eq!(h.ready(0, 10).unwrap_err(), ReadinessError::DuplicateReport);
    assert_eq!(h.ready(1, u64::MAX).unwrap_err(), ReadinessError::GroupCountOverflow);
    let (s, plan) = h.ready(1, 5).unwrap();
    assert!(s.just_became_ready);
    let plan = plan.unwrap();
    assert_eq!((plan.group_count, plan.shard_count, plan.publish_stats), (15, 2, true));
    assert_eq!(h.group_count, 15);

    let chans = vec![ChannelInfo { id: 5, name: "the-general".to_string() }];
    assert!(h.guild_create(0, 40_000, None, &chans).is_none());
    assert_eq!(h.group_count, 15);
    let j = h.guild_create(39_000, 40_000, None, &chans).unwrap();
    assert_eq!(j.announce_to, Some(77));
    assert!(j.record_join && j.publish_counts);
    assert_eq!((j.group_count, j.shard_count), (16, 2));
    assert_eq!(j.welcome_to, vec![5]);
    let l = h.guild_delete();
    assert_eq!((l.group_count, l.shard_count, l.publish_counts), (15, 2, true));

    h.track_reply(1, MessageSnapshot { message_id: 2, channel_id: 3, author_id: 4, content: "v1".to_string(), sent_at: 0 });
    let q = h.message_update(1, Some("new code".to_string()), Some(8)).unwrap();
    assert_eq!(q.reply.message_id, 2);
    assert_eq!(q.content, "new code");
    assert!(h.message_update(1, None, Some(8)).is_none());
    assert!(h.message_update(9, Some("x".to_string()), Some(8)).is_none());
    assert!(h.record_edit(1, "v2".to_string()));
    assert_eq!(h.history.get(1).unwrap().content, "v2");
    assert_eq!(h.message_delete(1).unwrap().message_id, 2);
    assert!(h.message_delete(1).is_none());
}

#[test]
fn leave_never_goes_below_zero() {
    let mut h = Handler::new(1, 1, BlocklistGuard::new(), false, None, None);
    let l = h.guild_delete();
    assert_eq!(l.group_count, 0);
    assert!(!l.publish_counts);
    assert!(!l.record_leave);
    assert_eq!(l.announce_to, None);
}

#[test]
fn counts_published_only_while_groups_remain() {
    let mut h = Handler::new(1, 2, BlocklistGuard::new(), true, None, None);
    let (s, _) = h.ready(0, 1).unwrap();
    assert!(s.just_became_ready);
    assert_eq!(h.ready(0, 3).unwrap_err(), ReadinessError::DuplicateReport);
    assert_eq!(h.group_count, 1);
    let l = h.guild_delete();
    assert_eq!(l.group_count, 0);
    assert!(!l.publish_counts);
    let j = h.guild_create(5, 6, Some(3), &Vec::new()).unwrap();
    assert_eq!(j.group_count, 1);
    assert!(j.publish_counts);
    assert!(h.tracking);
    assert!(h.blocklist.contains(0) == false);
}

#[test]
fn general_search_edges() {
    let chans = vec![
        ChannelInfo { id: 1, name: String::new() },
        ChannelInfo { id: 2, name: "genera".to_string() },
        ChannelInfo { id: 3, name: "ggeneral".to_string() },
        ChannelInfo { id: 4, name: "\u{e9}-general-\u{e9}".to_string() },
        ChannelInfo { id: 5, name: "General".to_string() },
    ];
    assert_eq!(welcome_channels(None, &chans), vec![3, 4]);
}
