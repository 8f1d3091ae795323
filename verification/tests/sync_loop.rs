use hltas_manager::cfg::Cfg;
use hltas_manager::commands::link_hltas::link_hltas;
use hltas_manager::commands::sync::{
    sync, SyncEvent, SyncLoop, SyncPhase, SyncStep, SYNC_INTERVAL_SECONDS,
};

fn cfg_with(second: Option<&str>) -> Cfg {
    Cfg {
        init_git_on_project: true,
        project_dir: "tas".to_string(),
        ignore_games: Vec::new(),
        no_client_dll_dir: second.map(|s| s.to_string()),
        cfgs_dir: None,
        half_life_dir: "Half-Life".to_string(),
    }
}

fn steps(start: SyncLoop, events: &[SyncEvent]) -> (SyncLoop, Vec<SyncStep>) {
    let mut state = start;
    let mut out = Vec::new();
    for event in events {
        let (next, step) = state.step(*event);
        state = next;
        out.push(step);
    }
    (state, out)
}

#[test]
fn full_sync_links_then_reconciles_then_sleeps() {
    let (state, first) = sync(&cfg_with(Some("second")));
    assert_eq!(first, SyncStep::LinkScripts { silent: true });
    let events = [
        SyncEvent::Done { ok: true },
        SyncEvent::Done { ok: true },
        SyncEvent::Slept,
        SyncEvent::Done { ok: false },
        SyncEvent::Done { ok: false },
        SyncEvent::Slept,
    ];
    let (end, out) = steps(state, &events);
    assert_eq!(
        out,
        vec![
            SyncStep::SyncSaves,
            SyncStep::Sleep { seconds: 1 },
            SyncStep::LinkScripts { silent: true },
            SyncStep::SyncSaves,
            SyncStep::Sleep { seconds: 1 },
            SyncStep::LinkScripts { silent: true },
        ]
    );
    assert_eq!(end.phase, SyncPhase::Linking);
    assert_eq!(SYNC_INTERVAL_SECONDS, 1);
}

#[test]
fn full_sync_without_second_installation_only_links() {
    let (state, first) = sync(&cfg_with(None));
    assert_eq!(first, SyncStep::LinkScripts { silent: true });
    assert_eq!(state, SyncLoop { forever: true, links: true, saves: false, phase: SyncPhase::Linking });
    let (_, out) = steps(state, &[SyncEvent::Done { ok: true }, SyncEvent::Slept]);
    assert_eq!(out, vec![SyncStep::Sleep { seconds: 1 }, SyncStep::LinkScripts { silent: true }]);
}

#[test]
fn single_link_pass_stops_after_one_pass() {
    let (state, first) = link_hltas(false);
    assert_eq!(first, SyncStep::LinkScripts { silent: false });
    let (end, step) = state.step(SyncEvent::Done { ok: true });
    assert_eq!(step, SyncStep::Stop);
    assert_eq!(end.phase, SyncPhase::Finished);
    let (end, step) = state.step(SyncEvent::Done { ok: false });
    assert_eq!(step, SyncStep::Stop);
    assert_eq!(end.phase, SyncPhase::Finished);
}

#[test]
fn kept_alive_link_pass_repeats_silently() {
    let (state, first) = link_hltas(true);
    assert_eq!(first, SyncStep::LinkScripts { silent: true });
    let (_, out) = steps(state, &[SyncEvent::Done { ok: false }, SyncEvent::Slept]);
    assert_eq!(out, vec![SyncStep::Sleep { seconds: 1 }, SyncStep::LinkScripts { silent: true }]);
}

#[test]
fn single_pass_ends_at_its_first_failure() {
    let (state, first) = SyncLoop::begin(false, true, true);
    assert_eq!(first, SyncStep::LinkScripts { silent: false });
    let (end, step) = state.step(SyncEvent::Done { ok: false });
    assert_eq!(step, SyncStep::Stop);
    assert_eq!(end.phase, SyncPhase::Finished);
    let (mid, step) = state.step(SyncEvent::Done { ok: true });
    assert_eq!(step, SyncStep::SyncSaves);
    let (end, step) = mid.step(SyncEvent::Done { ok: true });
    assert_eq!(step, SyncStep::Stop);
    assert_eq!(end.phase, SyncPhase::Finished);
}

#[test]
fn loop_with_nothing_to_do_sleeps_or_stops() {
    let (state, first) = SyncLoop::begin(false, false, false);
    assert_eq!(first, SyncStep::Stop);
    assert_eq!(state.phase, SyncPhase::Finished);
    let (state, first) = SyncLoop::begin(true, false, false);
    assert_eq!(first, SyncStep::Sleep { seconds: 1 });
    let (state, step) = state.step(SyncEvent::Slept);
    assert_eq!(step, SyncStep::Sleep { seconds: 1 });
    assert_eq!(state.pending(), SyncStep::Sleep { seconds: 1 });
}

#[test]
fn events_out_of_turn_change_nothing() {
    let (state, _) = SyncLoop::begin(true, true, true);
    let (same, step) = state.step(SyncEvent::Slept);
    assert_eq!(same, state);
    assert_eq!(step, SyncStep::LinkScripts { silent: true });
    let finished = SyncLoop { forever: false, links: true, saves: true, phase: SyncPhase::Finished };
    let (same, step) = finished.step(SyncEvent::Done { ok: true });
    assert_eq!(same, finished);
    assert_eq!(step, SyncStep::Stop);
}
