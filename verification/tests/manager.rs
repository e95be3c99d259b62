use media_graph::attach::{AttachCallback, CallbackState};
use media_graph::command::{assembly, Command, Container};
use media_graph::fanout::{build_fanout, BuildError};
use media_graph::manager::{Paintable, StateError, SOURCE_IDS};
use media_graph::unit::{Connection, RunState, Unit, UnitKind};
use media_graph::GstManager;

fn unit(id: u64, kind: UnitKind) -> Unit {
    Unit { id, kind }
}

fn member_ids(manager: &GstManager) -> Vec<u64> {
    manager.get_pipeline().graph().units().iter().map(|u| u.id).collect()
}

#[test]
fn new_manager_has_display_and_empty_graph() {
    let manager = GstManager::new();
    assert_eq!(manager.display_unit(), unit(0, UnitKind::DisplaySink));
    assert_eq!(manager.run_state(), RunState::Stopped);
    assert!(manager.get_pipeline().graph().units().is_empty());
    assert!(manager.get_pipeline().graph().connections().is_empty());
    assert!(manager.get_pipeline().subgraph().is_none());
    assert_eq!(manager.location(), None);
}

#[test]
fn paintable_exists_before_any_source() {
    let manager = GstManager::new();
    assert_eq!(manager.get_paintable_sink(), Paintable { sink: 0 });
}

#[test]
fn a_source_takes_sixteen_identifiers() {
    assert_eq!(SOURCE_IDS, 16);
    let mut manager = GstManager::new();
    manager.set_video_filename(None).unwrap();
    assert_eq!(member_ids(&manager), vec![1, 2, 3]);
    manager.set_video_filename(None).unwrap();
    assert_eq!(member_ids(&manager), vec![17, 18, 19]);
}

#[test]
fn loading_builds_the_dynamic_region() {
    let mut manager = GstManager::new();
    let plan = manager.set_video_filename(Some("sample.mp4")).unwrap();
    let pipeline = manager.get_pipeline();
    assert_eq!(
        pipeline.graph().units(),
        &vec![
            unit(1, UnitKind::FileSource),
            unit(2, UnitKind::Demux),
            unit(3, UnitKind::Subgraph),
        ]
    );
    assert_eq!(pipeline.graph().connections(), &vec![Connection { src: 1, port: 0, dst: 2 }]);
    let sub = pipeline.subgraph().unwrap();
    assert_eq!(sub.id(), 3);
    assert_eq!(sub.state(), RunState::Stopped);
    assert_eq!(sub.inputs(), &vec![4]);
    assert_eq!(sub.graph().units().len(), 14);
    assert_eq!(sub.graph().units()[4], unit(0, UnitKind::DisplaySink));
    assert_eq!(sub.graph().connections().len(), 13);
    assert_eq!(manager.location(), Some("sample.mp4"));
    assert_eq!(manager.run_state(), RunState::Stopped);
    assert_eq!(
        plan.callback,
        AttachCallback { subgraph: 3, state: CallbackState::RegisteredWaiting }
    );
}

#[test]
fn first_plan_creates_adds_links_and_watches() {
    let mut manager = GstManager::new();
    let plan = manager.set_video_filename(Some("sample.mp4")).unwrap();
    let sub = build_fanout(unit(0, UnitKind::DisplaySink), 3).unwrap();
    let mut expected = vec![
        Command::Create(unit(1, UnitKind::FileSource)),
        Command::Create(unit(2, UnitKind::Demux)),
    ];
    expected.extend(assembly(&sub, 0));
    expected.extend([
        Command::Insert { container: Container::Graph, member: unit(1, UnitKind::FileSource) },
        Command::Insert { container: Container::Graph, member: unit(2, UnitKind::Demux) },
        Command::Insert { container: Container::Graph, member: unit(3, UnitKind::Subgraph) },
        Command::Link(Connection { src: 1, port: 0, dst: 2 }),
        Command::Watch { unit: 2 },
    ]);
    assert_eq!(plan.commands.len(), 49);
    assert_eq!(plan.commands, expected);
}

#[test]
fn second_plan_tears_the_first_region_down_first() {
    let mut manager = GstManager::new();
    manager.set_video_filename(Some("first.mp4")).unwrap();
    let plan = manager.set_video_filename(Some("second.mp4")).unwrap();
    assert_eq!(
        plan.commands[..7],
        [
            Command::Remove { container: Container::Graph, unit: 1 },
            Command::Remove { container: Container::Graph, unit: 2 },
            Command::Remove { container: Container::Graph, unit: 3 },
            Command::Remove { container: Container::Subgraph(3), unit: 0 },
            Command::Dispose { unit: 1 },
            Command::Dispose { unit: 2 },
            Command::Dispose { unit: 3 },
        ]
    );
    assert_eq!(plan.commands[7], Command::Create(unit(17, UnitKind::FileSource)));
    assert_eq!(plan.commands[8], Command::Create(unit(18, UnitKind::Demux)));
    assert_eq!(plan.commands[9], Command::Create(unit(19, UnitKind::Subgraph)));
    assert_eq!(plan.commands.len(), 56);
    assert_eq!(plan.commands[55], Command::Watch { unit: 18 });
    assert_eq!(plan.callback.subgraph, 19);
    assert_eq!(manager.location(), Some("second.mp4"));
}

#[test]
fn set_source_then_play_is_playing() {
    for path in ["sample.mp4", "", "a/b c.ogv", "\u{e9}t\u{e9}.mkv"] {
        let mut manager = GstManager::new();
        assert!(manager.set_video_filename(Some(path)).is_ok());
        assert_eq!(manager.set_play_stream(true), Ok(()));
        assert_eq!(manager.run_state(), RunState::Playing);
        assert_eq!(manager.get_pipeline().state(), RunState::Playing);
        assert_eq!(manager.get_pipeline().subgraph().unwrap().state(), RunState::Playing);
        assert_eq!(manager.location(), Some(path));
    }
}

#[test]
fn rejected_play_is_reported_and_changes_nothing() {
    let mut manager = GstManager::new();
    manager.set_video_filename(Some("sample.mp4")).unwrap();
    assert_eq!(manager.set_play_stream(false), Err(StateError::Rejected(RunState::Playing)));
    assert_eq!(manager.run_state(), RunState::Stopped);
    assert_eq!(manager.get_pipeline().subgraph().unwrap().state(), RunState::Stopped);
    assert_eq!(manager.set_play_stream(true), Ok(()));
    assert_eq!(manager.run_state(), RunState::Playing);
}

#[test]
fn play_without_source_follows_the_real_graph() {
    let mut manager = GstManager::new();
    assert_eq!(manager.set_play_stream(false), Err(StateError::Rejected(RunState::Playing)));
    assert_eq!(manager.set_play_stream(true), Ok(()));
    assert_eq!(manager.run_state(), RunState::Playing);
    assert!(manager.get_pipeline().graph().units().is_empty());
}

#[test]
fn stop_is_idempotent() {
    let mut manager = GstManager::new();
    manager.set_video_filename(Some("sample.mp4")).unwrap();
    manager.set_play_stream(true).unwrap();
    assert_eq!(manager.set_stop_stream(true), Ok(()));
    let once = (
        manager.run_state(),
        manager.get_pipeline().subgraph().unwrap().state(),
        member_ids(&manager),
        manager.get_pipeline().graph().connections().clone(),
    );
    assert_eq!(manager.set_stop_stream(true), Ok(()));
    let twice = (
        manager.run_state(),
        manager.get_pipeline().subgraph().unwrap().state(),
        member_ids(&manager),
        manager.get_pipeline().graph().connections().clone(),
    );
    assert_eq!(once, twice);
    assert_eq!(once.0, RunState::Stopped);
    assert_eq!(once.1, RunState::Stopped);
}

#[test]
fn stop_while_stopped_is_no_error() {
    let mut manager = GstManager::new();
    assert_eq!(manager.set_stop_stream(true), Ok(()));
    assert_eq!(manager.set_stop_stream(false), Ok(()));
    assert_eq!(manager.run_state(), RunState::Stopped);
}

#[test]
fn rejected_stop_is_reported_and_changes_nothing() {
    let mut manager = GstManager::new();
    manager.set_video_filename(None).unwrap();
    manager.set_play_stream(true).unwrap();
    assert_eq!(manager.set_stop_stream(false), Err(StateError::Rejected(RunState::Stopped)));
    assert_eq!(manager.run_state(), RunState::Playing);
    assert_eq!(manager.get_pipeline().subgraph().unwrap().state(), RunState::Playing);
    assert_eq!(manager.set_stop_stream(false), Err(StateError::Rejected(RunState::Stopped)));
    assert_eq!(manager.set_stop_stream(true), Ok(()));
    assert_eq!(manager.run_state(), RunState::Stopped);
}

#[test]
fn play_and_stop_leave_the_topology() {
    let mut manager = GstManager::new();
    manager.set_video_filename(Some("sample.mp4")).unwrap();
    let units = manager.get_pipeline().graph().units().clone();
    let connections = manager.get_pipeline().graph().connections().clone();
    let inner = manager.get_pipeline().subgraph().unwrap().graph().units().clone();
    manager.set_play_stream(true).unwrap();
    manager.set_stop_stream(true).unwrap();
    manager.set_play_stream(true).unwrap();
    assert_eq!(manager.get_pipeline().graph().units(), &units);
    assert_eq!(manager.get_pipeline().graph().connections(), &connections);
    assert_eq!(manager.get_pipeline().subgraph().unwrap().graph().units(), &inner);
}

#[test]
fn loading_keeps_the_run_state() {
    let mut manager = GstManager::new();
    manager.set_play_stream(true).unwrap();
    manager.set_video_filename(Some("sample.mp4")).unwrap();
    assert_eq!(manager.run_state(), RunState::Playing);
    assert_eq!(manager.get_pipeline().subgraph().unwrap().state(), RunState::Stopped);
}

#[test]
fn paintable_is_stable_across_sources() {
    let mut manager = GstManager::new();
    let before = manager.get_paintable_sink();
    for round in 0..20 {
        let name = format!("clip{}.mp4", round);
        manager.set_video_filename(Some(&name)).unwrap();
        assert_eq!(manager.get_paintable_sink(), before);
        assert_eq!(manager.display_unit(), unit(0, UnitKind::DisplaySink));
        let sub = manager.get_pipeline().subgraph().unwrap();
        assert!(sub.graph().contains(before.sink));
    }
    manager.set_play_stream(true).unwrap();
    manager.set_stop_stream(true).unwrap();
    manager.source_failed(Command::Watch { unit: 0 });
    assert_eq!(manager.get_paintable_sink(), before);
}

#[test]
fn absent_path_builds_an_idle_region() {
    let mut manager = GstManager::new();
    let plan = manager.set_video_filename(None).unwrap();
    assert_eq!(manager.location(), None);
    assert_eq!(member_ids(&manager), vec![1, 2, 3]);
    assert_eq!(plan.commands[0], Command::Create(unit(1, UnitKind::FileSource)));
}

#[test]
fn scenario_load_play_unload_stop() {
    let mut manager = GstManager::new();
    assert!(manager.set_video_filename(Some("sample.mp4")).is_ok());
    assert_eq!(manager.set_play_stream(true), Ok(()));
    assert_eq!(manager.run_state(), RunState::Playing);

    let plan = manager.set_video_filename(None).unwrap();
    for old in 1..=16u64 {
        assert!(!manager.get_pipeline().graph().contains(old));
        assert!(!manager.get_pipeline().subgraph().unwrap().graph().contains(old));
        assert!(!manager.resolves(old));
    }
    for gone in [1u64, 2, 3] {
        assert!(plan.commands.contains(&Command::Remove { container: Container::Graph, unit: gone }));
        assert!(plan.commands.contains(&Command::Dispose { unit: gone }));
    }
    assert_eq!(manager.location(), None);
    assert_eq!(member_ids(&manager), vec![17, 18, 19]);

    assert_eq!(manager.set_stop_stream(true), Ok(()));
    assert_eq!(manager.set_stop_stream(true), Ok(()));
    assert_eq!(manager.run_state(), RunState::Stopped);
}

#[test]
fn failed_creation_is_a_construction_error() {
    let mut manager = GstManager::new();
    let plan = manager.set_video_filename(Some("sample.mp4")).unwrap();
    let e = manager.source_failed(plan.commands[0]);
    assert_eq!(e, BuildError::Construction(unit(1, UnitKind::FileSource)));
    assert!(manager.get_pipeline().graph().units().is_empty());
    assert!(manager.get_pipeline().graph().connections().is_empty());
    assert!(manager.get_pipeline().subgraph().is_none());
    assert_eq!(manager.location(), None);
}

#[test]
fn failed_insertion_is_a_construction_error() {
    let mut manager = GstManager::new();
    manager.set_video_filename(None).unwrap();
    let e = manager.source_failed(Command::Insert {
        container: Container::Subgraph(3),
        member: unit(0, UnitKind::DisplaySink),
    });
    assert_eq!(e, BuildError::Construction(unit(0, UnitKind::DisplaySink)));
    assert!(manager.get_pipeline().subgraph().is_none());
}

#[test]
fn failed_link_is_a_linking_error() {
    let mut manager = GstManager::new();
    manager.set_video_filename(None).unwrap();
    let feed = Connection { src: 1, port: 0, dst: 2 };
    assert_eq!(manager.source_failed(Command::Link(feed)), BuildError::Linking(feed));
    assert!(manager.get_pipeline().graph().units().is_empty());
}

#[test]
fn failed_port_is_a_linking_error() {
    let mut manager = GstManager::new();
    manager.set_video_filename(None).unwrap();
    assert_eq!(
        manager.source_failed(Command::Expose { subgraph: 3, target: 4 }),
        BuildError::Linking(Connection { src: 3, port: 0, dst: 4 })
    );
}

#[test]
fn other_failed_steps_are_named() {
    for step in [
        Command::Remove { container: Container::Graph, unit: 1 },
        Command::Watch { unit: 2 },
        Command::SyncState { unit: 3 },
        Command::Dispose { unit: 1 },
    ] {
        let mut manager = GstManager::new();
        manager.set_video_filename(None).unwrap();
        assert_eq!(manager.source_failed(step), BuildError::Refused(step));
        assert!(manager.get_pipeline().graph().units().is_empty());
    }
}

#[test]
fn there_is_no_going_back_after_a_failed_build() {
    let mut manager = GstManager::new();
    manager.set_video_filename(Some("good.mp4")).unwrap();
    manager.set_play_stream(true).unwrap();
    let plan = manager.set_video_filename(Some("bad.mp4")).unwrap();
    manager.source_failed(plan.commands[7]);
    assert_eq!(manager.location(), None);
    assert!(manager.get_pipeline().graph().units().is_empty());
    assert_eq!(manager.run_state(), RunState::Playing);
    manager.set_video_filename(Some("good.mp4")).unwrap();
    assert_eq!(member_ids(&manager), vec![33, 34, 35]);
}

#[test]
fn attach_links_the_port_and_syncs() {
    let mut manager = GstManager::new();
    manager.set_video_filename(None).unwrap();
    manager.set_play_stream(true).unwrap();
    manager.set_video_filename(Some("sample.mp4")).unwrap();
    let commands = manager.attach(6);
    assert_eq!(
        commands,
        vec![
            Command::Remove { container: Container::Graph, unit: 19 },
            Command::Insert { container: Container::Graph, member: unit(19, UnitKind::Subgraph) },
            Command::SyncState { unit: 19 },
            Command::Link(Connection { src: 18, port: 6, dst: 19 }),
        ]
    );
    assert_eq!(manager.get_pipeline().subgraph().unwrap().state(), RunState::Playing);
    assert_eq!(
        manager.get_pipeline().graph().connections(),
        &vec![Connection { src: 17, port: 0, dst: 18 }, Connection { src: 18, port: 6, dst: 19 }]
    );
    assert_eq!(member_ids(&manager), vec![17, 18, 19]);
}

#[test]
fn attach_again_replaces_the_link() {
    let mut manager = GstManager::new();
    manager.set_video_filename(None).unwrap();
    manager.attach(0);
    manager.attach(1);
    assert_eq!(
        manager.get_pipeline().graph().connections(),
        &vec![Connection { src: 1, port: 0, dst: 2 }, Connection { src: 2, port: 1, dst: 3 }]
    );
    manager.detach();
    assert_eq!(
        manager.get_pipeline().graph().connections(),
        &vec![Connection { src: 1, port: 0, dst: 2 }]
    );
    assert_eq!(member_ids(&manager), vec![1, 2, 3]);
    manager.detach();
    assert_eq!(manager.get_pipeline().graph().connections().len(), 1);
}

#[test]
fn attach_without_source_does_nothing() {
    let mut manager = GstManager::new();
    assert_eq!(manager.attach(0), vec![]);
    manager.detach();
    assert!(manager.get_pipeline().graph().units().is_empty());
    assert!(!manager.resolves(2));
}

#[test]
fn only_the_present_subgraph_resolves() {
    let mut manager = GstManager::new();
    assert!(!manager.resolves(3));
    manager.set_video_filename(None).unwrap();
    assert!(manager.resolves(3));
    assert!(!manager.resolves(1));
    assert!(!manager.resolves(4));
    manager.set_video_filename(None).unwrap();
    assert!(!manager.resolves(3));
    assert!(manager.resolves(19));
}
