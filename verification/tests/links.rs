use posthaste::domain::DomainEvent;
use posthaste::errors::{RuntimeAdapterError, RuntimeErrorCode, Terminality};
use posthaste::sessions::{
    collapse_session_frames, is_reconnect, session_catch_up, SessionFrame, StoredSession,
};
use posthaste::links::{
    ensure_caller_matches_link, ensure_caller_matches_session, event_matches_link_scope,
    idle_reap_verdict, mail_list_delta, mutation_notification, terminal_class_for, LinkFrame,
    LinkViews, MailListContinuation, MailListRow, MailListViewState, MailOperation,
    MutationNotification,
    MutationSettlementState, StoredMutation, TerminalClass, ViewData, ViewFrame, ViewSnapshot,
};

fn row(key: &str, flagged: bool) -> MailListRow {
    MailListRow {
        row_key: key.to_string(),
        resource_ref: None,
        projection: format!("{{\"id\":\"{key}\",\"isFlagged\":{flagged}}}"),
        sort_key: "{}".to_string(),
        order_key: key.to_string(),
        pending_markers: "[]".to_string(),
    }
}

fn snapshot(rows: Vec<MailListRow>, has_after: bool) -> ViewSnapshot {
    ViewSnapshot {
        view_id: "v1".to_string(),
        family: "mailList".to_string(),
        revision: 1,
        data: ViewData::MailList(MailListViewState {
            scope: "{}".to_string(),
            projection_kind: "\"message\"".to_string(),
            sort: "{}".to_string(),
            window_request: "{}".to_string(),
            rows,
            continuation: MailListContinuation {
                before_cursor: None,
                after_cursor: None,
                has_before: false,
                has_after,
            },
            read_watermark: None,
            coverage: "{\"ranges\":[{\"from\":null,\"to\":null}]}".to_string(),
            known_total_count: None,
            anchor: "{\"kind\":\"notRequested\"}".to_string(),
        }),
    }
}

fn flag_toggle_is_a_single_upsert() {
    let old = snapshot(vec![row("m1", false), row("m2", false)], false);
    let new = snapshot(vec![row("m1", true), row("m2", false)], false);
    let delta = mail_list_delta(&old, &new).expect("row-local change yields a delta");
    assert!(delta.order.is_none(), "order unchanged");
    assert_eq!(delta.upserts.len(), 1, "only the changed row");
    assert_eq!(delta.upserts[0].row_key, "m1");
}

fn removal_sends_the_new_order() {
    let old = snapshot(vec![row("m1", false), row("m2", false)], false);
    let new = snapshot(vec![row("m2", false)], false);
    let delta = mail_list_delta(&old, &new).expect("removal yields a delta");
    assert_eq!(delta.order.as_deref(), Some(["m2".to_string()].as_slice()));
    assert!(delta.upserts.is_empty(), "the surviving row is unchanged");
}

fn structural_change_is_a_whole_replace() {
    let old = snapshot(vec![row("m1", false)], false);
    // Same rows, but the continuation (hasAfter) changed — a structural change.
    let new = snapshot(vec![row("m1", false)], true);
    assert!(
        mail_list_delta(&old, &new).is_none(),
        "a non-row-local change must re-serve the whole view"
    );
}

#[test]
fn links_flag_toggle_is_a_single_upsert_no_reorder() {
    flag_toggle_is_a_single_upsert();
}

#[test]
fn links_removal_sends_the_new_order_and_no_upserts() {
    removal_sends_the_new_order();
}

#[test]
fn links_structural_change_falls_back_to_a_whole_replace() {
    structural_change_is_a_whole_replace();
}

#[test]
fn sessions_flag_toggle_is_a_single_upsert_no_reorder() {
    flag_toggle_is_a_single_upsert();
}

#[test]
fn sessions_removal_sends_the_new_order_and_no_upserts() {
    removal_sends_the_new_order();
}

#[test]
fn sessions_structural_change_falls_back_to_a_whole_replace() {
    structural_change_is_a_whole_replace();
}

#[test]
fn new_rows_and_other_families_are_handled() {
    let old = snapshot(vec![row("m1", false)], false);
    let new = snapshot(vec![row("m0", false), row("m1", false)], false);
    let delta = mail_list_delta(&old, &new).expect("an arrival is row-local");
    assert_eq!(delta.order, Some(vec!["m0".to_string(), "m1".to_string()]));
    assert_eq!(delta.upserts.len(), 1);
    assert_eq!(delta.upserts[0].row_key, "m0");

    let other = ViewSnapshot {
        view_id: "v1".to_string(),
        family: "conversation".to_string(),
        revision: 2,
        data: ViewData::Other("{}".to_string()),
    };
    assert!(mail_list_delta(&old, &other).is_none());
}

fn error() -> RuntimeAdapterError {
    RuntimeAdapterError {
        code: RuntimeErrorCode::NotFound,
        message: "gone".to_string(),
        terminality: Terminality::Permanent,
        details: "{}".to_string(),
    }
}

#[test]
fn frames_of_views_the_link_does_not_hold_are_dropped() {
    let mut link = LinkViews::new(true);
    assert!(link.view_frame_to_runtime(ViewFrame::Snapshot { snapshot: snapshot(vec![], false) }).is_none());
    assert!(link
        .view_frame_to_runtime(ViewFrame::Error { view_id: "v1".to_string(), revision: 3, error: error() })
        .is_none());
    assert!(link.view_frame_to_runtime(ViewFrame::Closed { view_id: "v1".to_string() }).is_none());
    assert!(!link.is_open("v1"));
}

#[test]
fn a_delta_capable_link_gets_row_local_deltas() {
    let mut link = LinkViews::new(true);
    link.record_open_view(snapshot(vec![row("m1", false), row("m2", false)], false));
    let frame = link.view_frame_to_runtime(ViewFrame::Replace {
        snapshot: snapshot(vec![row("m1", true), row("m2", false)], false),
    });
    match frame {
        Some(LinkFrame::ViewDelta { view_id, revision, delta }) => {
            assert_eq!(view_id, "v1");
            assert_eq!(revision, 1);
            assert_eq!(delta.upserts.len(), 1);
        }
        other => panic!("expected a delta, got {other:?}"),
    }
    // The replace became the latest snapshot.
    match &link.latest_snapshot("v1").expect("held").data {
        ViewData::MailList(state) => assert!(state.rows[0].projection.contains("true")),
        ViewData::Other(_) => panic!("family changed"),
    }
    // A structural change is a whole replace.
    let frame = link.view_frame_to_runtime(ViewFrame::Replace {
        snapshot: snapshot(vec![row("m1", true)], true),
    });
    assert!(matches!(frame, Some(LinkFrame::ViewReplace { .. })));
}

#[test]
fn a_link_without_deltas_gets_whole_replaces_and_closing_forgets_the_view() {
    let mut link = LinkViews::new(false);
    link.record_open_view(snapshot(vec![row("m1", false)], false));
    let frame = link.view_frame_to_runtime(ViewFrame::Replace {
        snapshot: snapshot(vec![row("m1", true)], false),
    });
    assert!(matches!(frame, Some(LinkFrame::ViewReplace { .. })));
    let frame = link.view_frame_to_runtime(ViewFrame::Error { view_id: "v1".to_string(), revision: 3, error: error() });
    assert!(matches!(frame, Some(LinkFrame::ViewError { .. })));
    let frame = link.view_frame_to_runtime(ViewFrame::Closed { view_id: "v1".to_string() });
    assert!(matches!(frame, Some(LinkFrame::ViewClosed { view_id }) if view_id == "v1"));
    assert!(!link.is_open("v1"));
    assert!(link.latest_snapshot("v1").is_none());
    assert!(link.view_frame_to_runtime(ViewFrame::Closed { view_id: "v1".to_string() }).is_none());
}

#[test]
fn settlements_are_classed_by_terminality() {
    assert_eq!(terminal_class_for(MutationSettlementState::Confirmed, None), TerminalClass::Confirmed);
    assert_eq!(terminal_class_for(MutationSettlementState::Failed, None), TerminalClass::Rejected);
    let mut transient = error();
    transient.terminality = Terminality::Transient;
    assert_eq!(
        terminal_class_for(MutationSettlementState::Failed, Some(&transient)),
        TerminalClass::Failed
    );
    assert_eq!(
        terminal_class_for(MutationSettlementState::Failed, Some(&error())),
        TerminalClass::Rejected
    );
    assert_eq!(terminal_class_for(MutationSettlementState::Accepted, None), TerminalClass::Rejected);
}

#[test]
fn only_terminal_settlements_are_notified() {
    assert!(mutation_notification(MutationSettlementState::Accepted, None).is_none());
    assert!(matches!(
        mutation_notification(MutationSettlementState::Confirmed, None),
        Some(MutationNotification::Confirmed)
    ));
    match mutation_notification(MutationSettlementState::Failed, None) {
        Some(MutationNotification::Rejected { error }) => {
            assert_eq!(error.code, RuntimeErrorCode::Internal);
            assert_eq!(error.message, "mutation rejected without an error");
        }
        other => panic!("expected a rejection, got {other:?}"),
    }
    match mutation_notification(MutationSettlementState::Failed, Some(&error())) {
        Some(MutationNotification::Rejected { error }) => assert_eq!(error.message, "gone"),
        other => panic!("expected a rejection, got {other:?}"),
    }
}

#[test]
fn scoped_callers_must_match_the_link_scope() {
    let a = vec!["a".to_string()];
    let b = vec!["b".to_string()];
    assert!(ensure_caller_matches_link(None, None).is_ok());
    assert!(ensure_caller_matches_link(Some(&a), None).is_ok());
    assert!(ensure_caller_matches_link(Some(&a), Some(&a)).is_ok());
    let e = ensure_caller_matches_link(None, Some(&a)).unwrap_err();
    assert_eq!(e.0.code, RuntimeErrorCode::Unauthorized);
    assert_eq!(e.0.message, "account-scoped caller cannot access a full-scope runtime link");
    let e = ensure_caller_matches_link(Some(&a), Some(&b)).unwrap_err();
    assert_eq!(e.0.message, "caller account scope does not match runtime link");
    let e = ensure_caller_matches_session(Some(&a), Some(&b)).unwrap_err();
    assert_eq!(e.0.message, "caller account scope does not match runtime session");
}

#[test]
fn events_reach_links_of_their_account() {
    let event = DomainEvent {
        seq: 1,
        account_id: "a".to_string(),
        topic: "message.updated".to_string(),
        occurred_at: "t".to_string(),
        mailbox_id: None,
        message_id: None,
        payload: "{}".to_string(),
    };
    assert!(event_matches_link_scope(&event, None));
    assert!(event_matches_link_scope(&event, Some(&vec!["b".to_string(), "a".to_string()])));
    assert!(!event_matches_link_scope(&event, Some(&vec!["b".to_string()])));
    assert!(!event_matches_link_scope(&event, Some(&Vec::new())));
}

#[test]
fn idle_links_are_reaped_after_the_ttl_and_live_ones_never() {
    let mut last_active = 100;
    assert!(!idle_reap_verdict(1, &mut last_active, 10_000));
    assert_eq!(last_active, 10_000);
    assert!(!idle_reap_verdict(0, &mut last_active, 10_300));
    assert!(idle_reap_verdict(0, &mut last_active, 10_301));
    assert_eq!(last_active, 10_000);
    // A clock that went backwards never reaps.
    assert!(!idle_reap_verdict(0, &mut last_active, 5));
}

fn stored_mutation(id: u64, state: MutationSettlementState) -> StoredMutation {
    StoredMutation {
        mutation_id: format!("mutation-{id}"),
        client_mutation_id: format!("client-{id}"),
        operation: MailOperation {
            name: "message.setFlaggedState".to_string(),
            arguments: "{}".to_string(),
        },
        state,
        error: None,
        output: "null".to_string(),
    }
}

fn collapse_replays_one_notification_per_terminal_mutation() {
    let link = LinkViews::new(false);
    let mutations: Vec<_> =
        (1..=3).map(|id| stored_mutation(id, MutationSettlementState::Confirmed)).collect();
    let frames = link.collapse_frames(&mutations);
    let mutation_frames = frames
        .iter()
        .filter(|f| matches!(f, LinkFrame::MutationNotification { .. }))
        .count();
    assert_eq!(mutation_frames, 3, "one settlement frame per terminal mutation");
}

fn collapse_into_a_stream_pushes_the_window() {
    // The forwarder lagged and dropped events: the collapsed state is pushed
    // into the link's frame stream so the client resyncs.
    let link = LinkViews::new(false);
    let mutations: Vec<_> =
        (1..=3).map(|id| stored_mutation(id, MutationSettlementState::Confirmed)).collect();
    let mut stream: Vec<LinkFrame> = Vec::new();
    for frame in link.collapse_frames(&mutations) {
        stream.push(frame);
    }
    let streamed =
        stream.iter().filter(|f| matches!(f, LinkFrame::MutationNotification { .. })).count();
    assert_eq!(streamed, 3, "collapse streamed the mutation window into the stream");
}

#[test]
fn links_collapse_replays_a_terminal_notification_per_mutation() {
    collapse_replays_one_notification_per_terminal_mutation();
}

#[test]
fn links_collapse_into_stream_pushes_the_window_for_resync() {
    collapse_into_a_stream_pushes_the_window();
}

#[test]
fn sessions_collapse_replays_a_terminal_notification_per_mutation() {
    let mut session = StoredSession::open(None, false);
    let mutations: Vec<_> =
        (1..=3).map(|id| stored_mutation(id, MutationSettlementState::Confirmed)).collect();
    let frames = collapse_session_frames(&mut session, &mutations);
    let mutation_frames = frames
        .iter()
        .filter(|f| matches!(f.frame, LinkFrame::MutationNotification { .. }))
        .count();
    assert_eq!(mutation_frames, 3, "one settlement frame per terminal mutation");
    assert_eq!(frames.iter().map(|f| f.session_seq).collect::<Vec<_>>(), vec![1, 2, 3]);
    assert_eq!(session.last_seq, 3);
}

#[test]
fn sessions_collapse_into_stream_pushes_the_window_for_resync() {
    let mut session = StoredSession::open(None, false);
    session.last_seq = 40;
    let mutations: Vec<_> =
        (1..=3).map(|id| stored_mutation(id, MutationSettlementState::Confirmed)).collect();
    let mut stream: Vec<SessionFrame> = Vec::new();
    for frame in collapse_session_frames(&mut session, &mutations) {
        stream.push(frame);
    }
    let streamed = stream
        .iter()
        .filter(|f| matches!(f.frame, LinkFrame::MutationNotification { .. }))
        .count();
    assert_eq!(streamed, 3, "collapse streamed the mutation window into the stream");
    assert_eq!(stream.last().map(|f| f.session_seq), Some(43));
    assert_eq!(session.last_seq, 43);
}

#[test]
fn session_subscribes_catch_up_unless_current() {
    assert!(!is_reconnect(None, 5));
    assert!(!is_reconnect(Some(5), 5));
    assert!(is_reconnect(Some(3), 5));

    // A fresh session holding nothing: a subscribe at its head gets nothing.
    let mut fresh = StoredSession::open(Some(vec!["acct".to_string()]), true);
    assert!(session_catch_up(&mut fresh, Some(0), &Vec::new()).is_empty());
    // Its first subscribe still gets the initial frames once it holds a view.
    fresh.views.record_open_view(snapshot_of("v1", 2));
    let initial = session_catch_up(&mut fresh, Some(0), &Vec::new());
    assert_eq!(initial.len(), 1);
    assert_eq!(initial[0].session_seq, 1);
    // Resuming at the head afterwards: nothing; from a stale cursor: the collapse.
    assert!(session_catch_up(&mut fresh, Some(1), &Vec::new()).is_empty());
    assert_eq!(fresh.last_seq, 1);
    let stale = session_catch_up(&mut fresh, Some(0), &vec![stored_mutation(4, MutationSettlementState::Failed)]);
    assert_eq!(stale.iter().map(|f| f.session_seq).collect::<Vec<_>>(), vec![2, 3]);
    assert!(matches!(stale[1].frame, LinkFrame::MutationNotification { .. }));
    let unresumed = session_catch_up(&mut fresh, None, &Vec::new());
    assert_eq!(unresumed.len(), 1);
}

fn snapshot_of(view_id: &str, revision: u64) -> ViewSnapshot {
    ViewSnapshot {
        view_id: view_id.to_string(),
        family: "conversation".to_string(),
        revision,
        data: ViewData::Other("{}".to_string()),
    }
}

#[test]
fn collapse_orders_snapshots_by_view_then_terminal_mutations_by_id() {
    let mut link = LinkViews::new(false);
    link.record_open_view(snapshot_of("v2", 7));
    link.record_open_view(snapshot_of("v10", 1));
    link.record_open_view(snapshot_of("v1", 3));
    let mutations = vec![
        stored_mutation(9, MutationSettlementState::Failed),
        stored_mutation(2, MutationSettlementState::Accepted),
        stored_mutation(10, MutationSettlementState::Confirmed),
    ];
    let frames = link.collapse_frames(&mutations);
    let summary: Vec<String> = frames
        .iter()
        .map(|f| match f {
            LinkFrame::ViewSnapshot { view_id, revision, .. } => format!("{view_id}@{revision}"),
            LinkFrame::MutationNotification { client_mutation_id, notification } => {
                match notification {
                    MutationNotification::Confirmed => format!("{client_mutation_id}:ok"),
                    MutationNotification::Rejected { .. } => format!("{client_mutation_id}:no"),
                }
            }
            other => panic!("unexpected frame {other:?}"),
        })
        .collect();
    assert_eq!(summary, vec!["v1@3", "v10@1", "v2@7", "client-10:ok", "client-9:no"]);
}

fn rebuild(old: &[MailListRow], order: Option<&[String]>, upserts: &[MailListRow]) -> Vec<String> {
    let keys: Vec<String> = match order {
        Some(keys) => keys.to_vec(),
        None => old.iter().map(|r| r.row_key.clone()).collect(),
    };
    keys.iter()
        .map(|k| {
            let row = upserts
                .iter()
                .rev()
                .find(|r| &r.row_key == k)
                .or_else(|| old.iter().rev().find(|r| &r.row_key == k))
                .expect("every key resolves");
            row.projection.clone()
        })
        .collect()
}

#[test]
fn a_delta_rebuilds_the_new_rows() {
    let old_rows = vec![row("m1", false), row("m2", false), row("m3", true)];
    let new_rows = vec![row("m3", false), row("m0", true), row("m1", false)];
    let old = snapshot(old_rows.iter().map(|r| r.duplicate()).collect(), false);
    let new = snapshot(new_rows.iter().map(|r| r.duplicate()).collect(), false);
    let delta = mail_list_delta(&old, &new).expect("same structure");
    let rebuilt = rebuild(&old_rows, delta.order.as_deref(), &delta.upserts);
    let expected: Vec<String> = new_rows.iter().map(|r| r.projection.clone()).collect();
    assert_eq!(rebuilt, expected);
    assert_eq!(delta.upserts.len(), 2);
}
