use media_graph::command::{assembly, Command, Container};
use media_graph::fanout::{build_fanout, BuildError, FANOUT_IDS};
use media_graph::unit::{Connection, RunState, Unit, UnitKind};

fn unit(id: u64, kind: UnitKind) -> Unit {
    Unit { id, kind }
}

fn link(src: u64, port: u32, dst: u64) -> Connection {
    Connection { src, port, dst }
}

fn display() -> Unit {
    unit(0, UnitKind::DisplaySink)
}

fn expected_units(base: u64, display: Unit) -> Vec<Unit> {
    vec![
        unit(base + 1, UnitKind::Splitter),
        unit(base + 2, UnitKind::Queue),
        unit(base + 3, UnitKind::ColorConvert),
        unit(base + 4, UnitKind::Scale),
        display,
        unit(base + 5, UnitKind::Queue),
        unit(base + 6, UnitKind::DatagramEncoder),
        unit(base + 7, UnitKind::TransportMux),
        unit(base + 8, UnitKind::RtpPayloader),
        unit(base + 9, UnitKind::UdpSink),
        unit(base + 10, UnitKind::Queue),
        unit(base + 11, UnitKind::StreamEncoder),
        unit(base + 12, UnitKind::ContainerMux),
        unit(base + 13, UnitKind::TcpServerSink),
    ]
}

fn expected_connections(base: u64, display: u64) -> Vec<Connection> {
    vec![
        link(base + 1, 0, base + 2),
        link(base + 2, 0, base + 3),
        link(base + 3, 0, base + 4),
        link(base + 4, 0, display),
        link(base + 1, 1, base + 5),
        link(base + 5, 0, base + 6),
        link(base + 6, 0, base + 7),
        link(base + 7, 0, base + 8),
        link(base + 8, 0, base + 9),
        link(base + 1, 2, base + 10),
        link(base + 10, 0, base + 11),
        link(base + 11, 0, base + 12),
        link(base + 12, 0, base + 13),
    ]
}

#[test]
fn fanout_takes_fourteen_identifiers() {
    assert_eq!(FANOUT_IDS, 14);
}

#[test]
fn fanout_holds_splitter_and_three_branches() {
    let sub = build_fanout(display(), 3).unwrap();
    assert_eq!(sub.id(), 3);
    assert_eq!(sub.state(), RunState::Stopped);
    assert_eq!(sub.graph().units(), &expected_units(3, display()));
    assert_eq!(sub.graph().connections(), &expected_connections(3, 0));
}

#[test]
fn fanout_exposes_exactly_one_input_port() {
    let sub = build_fanout(display(), 3).unwrap();
    assert_eq!(sub.inputs(), &vec![4]);
    assert_eq!(sub.graph().find(4), Some(unit(4, UnitKind::Splitter)));
    assert!(!sub.graph().input_busy(4));
    assert!(sub.as_unit().kind.ends_branch());
}

#[test]
fn every_branch_starts_with_a_queue_behind_the_splitter() {
    let sub = build_fanout(display(), 100).unwrap();
    let graph = sub.graph();
    for port in 0..3u32 {
        let first = graph
            .connections()
            .iter()
            .find(|c| c.src == 101 && c.port == port)
            .map(|c| c.dst)
            .unwrap();
        assert_eq!(graph.find(first).unwrap().kind, UnitKind::Queue);
    }
    assert!(!graph.output_busy(101, 3));
}

#[test]
fn every_branch_ends_in_its_sink() {
    let sub = build_fanout(display(), 100).unwrap();
    let graph = sub.graph();
    for sink in [0u64, 109, 113] {
        assert!(graph.input_busy(sink));
        assert!(graph.find(sink).unwrap().kind.ends_branch());
        assert!(!graph.output_busy(sink, 0));
    }
    assert_eq!(graph.find(109).unwrap().kind, UnitKind::UdpSink);
    assert_eq!(graph.find(113).unwrap().kind, UnitKind::TcpServerSink);
    assert_eq!(graph.find(0).unwrap().kind, UnitKind::DisplaySink);
}

#[test]
fn fanout_fits_below_the_last_identifier() {
    let base = u64::MAX - 13;
    let sub = build_fanout(display(), base).unwrap();
    assert_eq!(sub.id(), base);
    assert_eq!(sub.graph().units()[13], unit(u64::MAX, UnitKind::TcpServerSink));
}

#[test]
fn fanout_fails_when_identifiers_run_out() {
    assert_eq!(build_fanout(display(), u64::MAX - 12).err(), Some(BuildError::Exhausted));
    assert_eq!(build_fanout(display(), u64::MAX).err(), Some(BuildError::Exhausted));
}

#[test]
fn fanout_fails_on_a_display_that_takes_its_identifier() {
    let clash = unit(10, UnitKind::DisplaySink);
    assert_eq!(build_fanout(clash, 10).err(), Some(BuildError::Construction(clash)));
    let clash = unit(11, UnitKind::DisplaySink);
    assert_eq!(build_fanout(clash, 10).err(), Some(BuildError::Construction(clash)));
    let clash = unit(14, UnitKind::DisplaySink);
    assert_eq!(build_fanout(clash, 10).err(), Some(BuildError::Construction(clash)));
}

#[test]
fn fanout_fails_on_the_unit_that_meets_the_display() {
    let clash = unit(15, UnitKind::DisplaySink);
    assert_eq!(
        build_fanout(clash, 10).err(),
        Some(BuildError::Construction(unit(15, UnitKind::Queue)))
    );
    let clash = unit(23, UnitKind::DisplaySink);
    assert_eq!(
        build_fanout(clash, 10).err(),
        Some(BuildError::Construction(unit(23, UnitKind::TcpServerSink)))
    );
    assert!(build_fanout(unit(24, UnitKind::DisplaySink), 10).is_ok());
    assert!(build_fanout(unit(9, UnitKind::DisplaySink), 10).is_ok());
}

#[test]
fn fanout_fails_on_a_display_without_input() {
    let odd = unit(0, UnitKind::FileSource);
    assert_eq!(build_fanout(odd, 10).err(), Some(BuildError::Linking(link(14, 0, 0))));
}

#[test]
fn assembly_creates_inserts_links_exposes() {
    let sub = build_fanout(display(), 3).unwrap();
    let commands = assembly(&sub, 0);
    let mut expected = vec![Command::Create(unit(3, UnitKind::Subgraph))];
    for u in expected_units(3, display()) {
        if u.id != 0 {
            expected.push(Command::Create(u));
        }
    }
    for u in expected_units(3, display()) {
        expected.push(Command::Insert { container: Container::Subgraph(3), member: u });
    }
    for c in expected_connections(3, 0) {
        expected.push(Command::Link(c));
    }
    expected.push(Command::Expose { subgraph: 3, target: 4 });
    assert_eq!(commands.len(), 42);
    assert_eq!(commands, expected);
}

#[test]
fn assembly_never_creates_the_reused_unit() {
    let sub = build_fanout(display(), 3).unwrap();
    let commands = assembly(&sub, 0);
    assert!(!commands.contains(&Command::Create(display())));
    assert!(commands
        .contains(&Command::Insert { container: Container::Subgraph(3), member: display() }));
    let all = assembly(&sub, 999);
    assert_eq!(all.len(), 43);
    assert!(all.contains(&Command::Create(display())));
}
