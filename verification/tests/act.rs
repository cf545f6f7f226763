use starfold_ui::act::{context_action, ContextStep, act_step, move_focused, move_to_edge, try_run, ActView, AppState, Cursors, Follow, NextOp, Opens, Request};
use starfold_ui::keymap::Action;
use starfold_ui::layout::LayoutState;
use starfold_ui::ops::{Format, OpId, OpKind};
use starfold_ui::overlays::context::Action as A;
use starfold_ui::panels::ModuleId;

fn state() -> AppState {
    AppState {
        layout: LayoutState::new(8, 6, 3),
        filter: None,
        last_preview_for: Some("/home/me/a.txt".to_string()),
        quit: false,
        repaint: false,
    }
}

fn view() -> ActView {
    ActView {
        commander: false,
        active_pane: 0,
        crumbs: 3,
        cursor_path: Some("/home/me/a.txt".to_string()),
        audio_path: None,
        home: "/home/me".to_string(),
        show_hidden: false,
        filter: "rs".to_string(),
        running: None,
        op_at_cursor: Some(OpId(7)),
        ops: 2,
    }
}

#[test]
fn queued_operations_run_only_with_enter_on_the_queue_or_the_run_keys() {
    let s = act_step(state(), &view(), Action::QueueCopy);
    assert_eq!(s.request, Some(Request::QueueCopyHere));
    assert_eq!(s.follow, None);
    let s = act_step(state(), &view(), Action::RunQueue);
    assert_eq!(s.request, None);
    assert_eq!(s.follow, Some(Follow::TryRun));
    let mut st = state();
    st.layout.focus_set(ModuleId::Operations);
    let s = act_step(st, &view(), Action::Activate);
    assert_eq!(s.request, Some(Request::Run));
    let s = act_step(state(), &view(), Action::Activate);
    assert_eq!(s.follow, Some(Follow::ActivateEntry));
}

#[test]
fn quitting_while_an_operation_runs_asks_first() {
    let mut v = view();
    v.running = Some((OpId(1), "COPY 2 items".to_string()));
    let s = act_step(state(), &v, Action::Quit);
    assert!(!s.state.quit);
    assert_eq!(s.opens, Some(Opens::QuitWithRunning("COPY 2 items".to_string())));
    let s = act_step(state(), &view(), Action::Quit);
    assert!(s.state.quit);
    let s = act_step(state(), &v, Action::ClearQueue);
    assert_eq!(s.opens, Some(Opens::ClearQueue(2)));
    assert_eq!(act_step(state(), &view(), Action::ClearQueue).request, Some(Request::ClearQueue));
}

#[test]
fn the_jumps_move_through_the_fold_stack() {
    assert_eq!(act_step(state(), &view(), Action::JumpUp).request, Some(Request::JumpTo(2)));
    assert_eq!(act_step(state(), &view(), Action::JumpDown).request, Some(Request::Forward));
    let mut v = view();
    v.crumbs = 0;
    assert_eq!(act_step(state(), &v, Action::JumpUp).request, Some(Request::JumpTo(0)));
}

#[test]
fn a_change_of_view_closes_the_filter_and_focuses_the_stack() {
    let mut st = state();
    st.filter = Some("x".to_string());
    st.layout.focus_set(ModuleId::Preview);
    let s = act_step(st, &view(), Action::ToggleView);
    assert_eq!(s.request, Some(Request::ToggleView));
    assert_eq!(s.follow, Some(Follow::Refresh));
    assert_eq!(s.state.filter, None);
    assert_eq!(s.state.last_preview_for, None);
    assert_eq!(s.state.layout.focus(), ModuleId::Stack);
}

#[test]
fn the_filter_opens_with_the_listing_filter_and_back_clears_it() {
    let s = act_step(state(), &view(), Action::Filter);
    assert_eq!(s.state.filter, Some("rs".to_string()));
    let s = act_step(s.state, &view(), Action::Back);
    assert_eq!(s.state.filter, None);
    assert_eq!(s.request, Some(Request::ClearFilter));
    assert_eq!(act_step(state(), &view(), Action::Back).request, None);
}

#[test]
fn commander_focus_keys_switch_panes() {
    let mut v = view();
    v.commander = true;
    let s = act_step(state(), &v, Action::FocusNext);
    assert_eq!(s.request, Some(Request::FocusPane(1)));
    let s = act_step(state(), &view(), Action::FocusNext);
    assert_eq!(s.request, None);
    assert_eq!(s.state.layout.focus(), ModuleId::Preview);
}

#[test]
fn folding_the_preview_closes_it_and_stops_the_player() {
    let s = act_step(state(), &view(), Action::TogglePreview);
    assert_eq!(s.request, Some(Request::ClosePreview));
    assert_eq!(s.follow, Some(Follow::StopAudio));
    assert!(!s.state.layout.preview_open);
    let s = act_step(s.state, &view(), Action::TogglePreview);
    assert_eq!(s.request, None);
    assert!(s.state.layout.preview_open);
}

#[test]
fn simple_actions_ask_the_core() {
    assert_eq!(act_step(state(), &view(), Action::GoHome).request, Some(Request::Push("/home/me".to_string())));
    assert_eq!(act_step(state(), &view(), Action::GoRoot).request, Some(Request::PushRoot));
    assert_eq!(act_step(state(), &view(), Action::ToggleHidden).request, Some(Request::SetHidden(true)));
    assert_eq!(act_step(state(), &view(), Action::DropOp).request, Some(Request::RemoveOp(OpId(7))));
    assert_eq!(act_step(state(), &view(), Action::CancelRun).request, None);
    assert_eq!(
        act_step(state(), &view(), Action::Rename).opens,
        Some(Opens::Rename("/home/me/a.txt".to_string()))
    );
    assert_eq!(act_step(state(), &view(), Action::PageDown).follow, Some(Follow::Page { down: true }));
    assert_eq!(act_step(state(), &view(), Action::CursorUpBig).follow, Some(Follow::Move(-10)));
}

#[test]
fn moving_keeps_each_module_in_its_bounds() {
    let c = Cursors { preview_scroll: 2, ops_cursor: 1 };
    assert_eq!(move_focused(ModuleId::Preview, c, 3, -5).0.preview_scroll, 0);
    assert_eq!(move_focused(ModuleId::Preview, c, 3, 10).0.preview_scroll, 12);
    assert_eq!(move_focused(ModuleId::Operations, c, 3, 10).0.ops_cursor, 2);
    assert_eq!(move_focused(ModuleId::Operations, c, 0, 10).0, c);
    assert_eq!(move_focused(ModuleId::Stack, c, 3, -10).1, Some(Request::CursorBy(-10)));
    assert_eq!(move_to_edge(ModuleId::Operations, c, 3, false).0.ops_cursor, 2);
    assert_eq!(move_to_edge(ModuleId::Stack, c, 3, false).1, Some(Request::CursorTo(usize::MAX)));
}

#[test]
fn a_permanent_delete_asks_before_it_runs() {
    let n = NextOp { id: OpId(4), permanent_delete: true, sources: 2 };
    assert_eq!(try_run(true, Some(n)), (Some(Opens::DeletePermanently(OpId(4), 2)), None));
    assert_eq!(try_run(false, Some(n)), (None, Some(Request::Run)));
    assert_eq!(try_run(true, None), (None, Some(Request::Run)));
}

fn target(clicked: &str, directory: bool, sources: &[&str]) -> starfold_ui::overlays::context::Target {
    starfold_ui::overlays::context::Target {
        clicked: clicked.to_string(),
        directory,
        sources: sources.iter().map(|s| s.to_string()).collect(),
        destination: "/other".to_string(),
        create_dir: "/home/me".to_string(),
    }
}

#[test]
fn a_menu_line_does_what_it_says() {
    let dir = target("/home/me/src", true, &["/home/me/src"]);
    assert_eq!(context_action(dir, A::Open, false), ContextStep::Ask(Request::Push("/home/me/src".to_string())));
    let file = target("/home/me/a.txt", false, &["/home/me/a.txt"]);
    assert_eq!(context_action(file.clone(), A::Open, true), ContextStep::ActivateEntry);
    assert_eq!(
        context_action(file.clone(), A::Open, false),
        ContextStep::Ask(Request::OpenExternal("/home/me/a.txt".to_string()))
    );
    match context_action(file.clone(), A::Compress, true) {
        ContextStep::Destination(q) => {
            assert_eq!(q.kind, OpKind::Compress(Format::Zip));
            assert_eq!(q.destination, "/home/me/a.txt.zip");
        }
        other => panic!("{other:?}"),
    }
    let two = target("/home/me/a.txt", false, &["/home/me/a.txt", "/home/me/b.txt"]);
    match context_action(two.clone(), A::Compress, true) {
        ContextStep::Destination(q) => assert_eq!(q.destination, "/home/me/Archive.zip"),
        other => panic!("{other:?}"),
    }
    let archive = target("/home/me/photos.tar.gz", false, &["/home/me/photos.tar.gz"]);
    match context_action(archive, A::Extract, true) {
        ContextStep::Destination(q) => assert_eq!(q.destination, "/home/me/photos"),
        other => panic!("{other:?}"),
    }
    match context_action(two.clone(), A::Extract, true) {
        ContextStep::Destination(q) => assert_eq!(q.destination, "/other"),
        other => panic!("{other:?}"),
    }
    assert_eq!(
        context_action(two, A::Delete, true),
        ContextStep::Ask(Request::QueueDeleteSources(vec!["/home/me/a.txt".to_string(), "/home/me/b.txt".to_string()]))
    );
    assert_eq!(
        context_action(file, A::CreateDirectory, true),
        ContextStep::Create { directory: true, dir: "/home/me".to_string() }
    );
}
