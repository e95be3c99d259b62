use media_graph::graph::{Graph, GraphError};
use media_graph::pipeline::Pipeline;
use media_graph::subgraph::Subgraph;
use media_graph::unit::{Connection, RunState, Unit, UnitKind};

fn unit(id: u64, kind: UnitKind) -> Unit {
    Unit { id, kind }
}

fn small_graph() -> Graph {
    let mut g = Graph::new();
    g.add(unit(1, UnitKind::FileSource)).unwrap();
    g.add(unit(2, UnitKind::Splitter)).unwrap();
    g.add(unit(3, UnitKind::Queue)).unwrap();
    g.add(unit(4, UnitKind::UdpSink)).unwrap();
    g
}

#[test]
fn new_graph_is_empty() {
    let g = Graph::new();
    assert!(g.units().is_empty());
    assert!(g.connections().is_empty());
    assert!(!g.contains(0));
    assert_eq!(g.find(0), None);
}

#[test]
fn add_keeps_order() {
    let g = small_graph();
    assert_eq!(
        g.units(),
        &vec![
            unit(1, UnitKind::FileSource),
            unit(2, UnitKind::Splitter),
            unit(3, UnitKind::Queue),
            unit(4, UnitKind::UdpSink),
        ]
    );
    assert!(g.contains(3));
    assert!(!g.contains(5));
    assert_eq!(g.find(2), Some(unit(2, UnitKind::Splitter)));
    assert_eq!(g.find(9), None);
}

#[test]
fn add_refuses_a_duplicate() {
    let mut g = small_graph();
    assert_eq!(g.add(unit(3, UnitKind::Scale)), Err(GraphError::Duplicate(3)));
    assert_eq!(g.units().len(), 4);
    assert_eq!(g.find(3), Some(unit(3, UnitKind::Queue)));
}

#[test]
fn link_records_the_connection() {
    let mut g = small_graph();
    assert_eq!(g.link(1, 0, 2), Ok(()));
    assert_eq!(g.link(2, 5, 3), Ok(()));
    assert_eq!(g.link(3, 0, 4), Ok(()));
    assert_eq!(
        g.connections(),
        &vec![
            Connection { src: 1, port: 0, dst: 2 },
            Connection { src: 2, port: 5, dst: 3 },
            Connection { src: 3, port: 0, dst: 4 },
        ]
    );
    assert!(g.output_busy(2, 5));
    assert!(!g.output_busy(2, 0));
    assert!(g.input_busy(4));
    assert!(!g.input_busy(1));
}

#[test]
fn link_refuses_strangers() {
    let mut g = small_graph();
    assert_eq!(g.link(7, 0, 2), Err(GraphError::NotMember(7)));
    assert_eq!(g.link(1, 0, 8), Err(GraphError::NotMember(8)));
    assert_eq!(g.link(7, 0, 8), Err(GraphError::NotMember(7)));
    assert!(g.connections().is_empty());
}

#[test]
fn link_refuses_missing_ports() {
    let mut g = small_graph();
    assert_eq!(g.link(4, 0, 3), Err(GraphError::NoOutput { unit: 4, port: 0 }));
    assert_eq!(g.link(3, 1, 4), Err(GraphError::NoOutput { unit: 3, port: 1 }));
    assert_eq!(g.link(2, 0, 1), Err(GraphError::NoInput(1)));
    assert!(g.connections().is_empty());
}

#[test]
fn link_refuses_busy_ports() {
    let mut g = small_graph();
    g.link(2, 0, 3).unwrap();
    assert_eq!(g.link(2, 0, 4), Err(GraphError::OutputBusy { unit: 2, port: 0 }));
    assert_eq!(g.link(2, 1, 3), Err(GraphError::InputBusy(3)));
    assert_eq!(g.link_check(2, 1, 4), Ok(()));
    assert_eq!(g.connections().len(), 1);
}

#[test]
fn remove_drops_the_connections_of_the_unit() {
    let mut g = small_graph();
    g.link(1, 0, 2).unwrap();
    g.link(2, 0, 3).unwrap();
    g.link(2, 1, 4).unwrap();
    assert_eq!(g.remove(2), Some(unit(2, UnitKind::Splitter)));
    assert_eq!(
        g.units(),
        &vec![unit(1, UnitKind::FileSource), unit(3, UnitKind::Queue), unit(4, UnitKind::UdpSink)]
    );
    assert!(g.connections().is_empty());
    assert_eq!(g.remove(2), None);
}

#[test]
fn remove_keeps_the_other_connections() {
    let mut g = small_graph();
    g.link(1, 0, 2).unwrap();
    g.link(2, 0, 3).unwrap();
    g.link(3, 0, 4).unwrap();
    assert_eq!(g.remove(4), Some(unit(4, UnitKind::UdpSink)));
    assert_eq!(
        g.connections(),
        &vec![Connection { src: 1, port: 0, dst: 2 }, Connection { src: 2, port: 0, dst: 3 }]
    );
    assert_eq!(g.remove(9), None);
    assert_eq!(g.units().len(), 3);
}

#[test]
fn new_subgraph_is_empty_and_stopped() {
    let s = Subgraph::new(40);
    assert_eq!(s.id(), 40);
    assert_eq!(s.state(), RunState::Stopped);
    assert!(s.graph().units().is_empty());
    assert!(s.inputs().is_empty());
    assert_eq!(s.as_unit(), unit(40, UnitKind::Subgraph));
}

#[test]
fn subgraph_refuses_its_own_identifier() {
    let mut s = Subgraph::new(40);
    assert_eq!(s.add(unit(40, UnitKind::Queue)), Err(GraphError::Duplicate(40)));
    assert_eq!(s.add(unit(41, UnitKind::Queue)), Ok(()));
    assert_eq!(s.add(unit(41, UnitKind::Scale)), Err(GraphError::Duplicate(41)));
    assert_eq!(s.graph().units(), &vec![unit(41, UnitKind::Queue)]);
}

#[test]
fn subgraph_exposes_a_free_input() {
    let mut s = Subgraph::new(40);
    s.add(unit(41, UnitKind::Splitter)).unwrap();
    s.add(unit(42, UnitKind::Queue)).unwrap();
    s.add(unit(43, UnitKind::FileSource)).unwrap();
    s.link(41, 0, 42).unwrap();
    assert_eq!(s.expose_input(44), Err(GraphError::NotMember(44)));
    assert_eq!(s.expose_input(43), Err(GraphError::NoInput(43)));
    assert_eq!(s.expose_input(42), Err(GraphError::InputBusy(42)));
    assert_eq!(s.expose_input(41), Ok(()));
    assert_eq!(s.expose_input(41), Err(GraphError::InputBusy(41)));
    assert_eq!(s.inputs(), &vec![41]);
}

#[test]
fn subgraph_keeps_an_exposed_input_free() {
    let mut s = Subgraph::new(40);
    s.add(unit(41, UnitKind::Splitter)).unwrap();
    s.add(unit(42, UnitKind::Queue)).unwrap();
    s.expose_input(42).unwrap();
    assert_eq!(s.link(41, 0, 42), Err(GraphError::InputBusy(42)));
    assert_eq!(s.link(41, 0, 49), Err(GraphError::NotMember(49)));
    assert_eq!(s.link(42, 0, 41), Ok(()));
    assert_eq!(s.graph().connections(), &vec![Connection { src: 42, port: 0, dst: 41 }]);
}

#[test]
fn subgraph_state_is_set() {
    let mut s = Subgraph::new(40);
    s.set_state(RunState::Playing);
    assert_eq!(s.state(), RunState::Playing);
    s.set_state(RunState::Stopped);
    assert_eq!(s.state(), RunState::Stopped);
}

fn sub_with_input(id: u64) -> Subgraph {
    let mut s = Subgraph::new(id);
    s.add(unit(id + 1, UnitKind::Splitter)).unwrap();
    s.expose_input(id + 1).unwrap();
    s
}

#[test]
fn new_pipeline_is_empty_and_stopped() {
    let p = Pipeline::new();
    assert_eq!(p.state(), RunState::Stopped);
    assert!(p.graph().units().is_empty());
    assert!(p.subgraph().is_none());
    assert!(!p.holds_subgraph(0));
}

#[test]
fn pipeline_takes_plain_units_only() {
    let mut p = Pipeline::new();
    assert_eq!(p.add_unit(unit(1, UnitKind::Subgraph)), Err(GraphError::Composite(1)));
    assert_eq!(p.add_unit(unit(1, UnitKind::FileSource)), Ok(()));
    assert_eq!(p.add_unit(unit(1, UnitKind::Demux)), Err(GraphError::Duplicate(1)));
    assert_eq!(p.graph().units(), &vec![unit(1, UnitKind::FileSource)]);
}

#[test]
fn pipeline_holds_one_subgraph() {
    let mut p = Pipeline::new();
    p.add_unit(unit(1, UnitKind::Demux)).unwrap();
    assert_eq!(p.add_subgraph(sub_with_input(1)), Err(GraphError::Duplicate(1)));
    assert!(p.subgraph().is_none());
    assert_eq!(p.add_subgraph(sub_with_input(10)), Ok(()));
    assert_eq!(p.add_subgraph(sub_with_input(20)), Err(GraphError::Occupied));
    assert!(p.holds_subgraph(10));
    assert!(!p.holds_subgraph(20));
    assert_eq!(p.subgraph().map(|s| s.id()), Some(10));
    assert_eq!(
        p.graph().units(),
        &vec![unit(1, UnitKind::Demux), unit(10, UnitKind::Subgraph)]
    );
}

#[test]
fn pipeline_links_into_an_exposed_subgraph() {
    let mut p = Pipeline::new();
    p.add_unit(unit(1, UnitKind::Demux)).unwrap();
    p.add_subgraph(sub_with_input(10)).unwrap();
    assert_eq!(p.link(10, 0, 1), Err(GraphError::NoOutput { unit: 10, port: 0 }));
    assert_eq!(p.link(1, 3, 10), Ok(()));
    assert_eq!(p.link(1, 4, 10), Err(GraphError::InputBusy(10)));
    assert_eq!(p.graph().connections(), &vec![Connection { src: 1, port: 3, dst: 10 }]);
}

#[test]
fn pipeline_does_not_link_into_a_closed_subgraph() {
    let mut p = Pipeline::new();
    p.add_unit(unit(1, UnitKind::Demux)).unwrap();
    p.add_subgraph(Subgraph::new(10)).unwrap();
    assert_eq!(p.link(1, 0, 10), Err(GraphError::NoInput(10)));
    assert_eq!(p.link_check(1, 0, 11), Err(GraphError::NotMember(11)));
    assert!(p.graph().connections().is_empty());
}

#[test]
fn pipeline_removes_members_by_their_sort() {
    let mut p = Pipeline::new();
    p.add_unit(unit(1, UnitKind::Demux)).unwrap();
    p.add_subgraph(sub_with_input(10)).unwrap();
    p.link(1, 0, 10).unwrap();
    assert_eq!(p.remove_unit(10), None);
    assert!(p.remove_subgraph(1).is_none());
    assert_eq!(p.graph().units().len(), 2);
    let sub = p.remove_subgraph(10).unwrap();
    assert_eq!(sub.id(), 10);
    assert_eq!(sub.inputs(), &vec![11]);
    assert!(p.subgraph().is_none());
    assert!(p.graph().connections().is_empty());
    assert_eq!(p.remove_unit(1), Some(unit(1, UnitKind::Demux)));
    assert_eq!(p.remove_unit(1), None);
    assert!(p.graph().units().is_empty());
}

#[test]
fn pipeline_state_reaches_the_subgraph() {
    let mut p = Pipeline::new();
    p.add_subgraph(sub_with_input(10)).unwrap();
    p.set_state(RunState::Playing);
    assert_eq!(p.state(), RunState::Playing);
    assert_eq!(p.subgraph().unwrap().state(), RunState::Playing);
    p.set_state(RunState::Stopped);
    assert_eq!(p.subgraph().unwrap().state(), RunState::Stopped);
}

#[test]
fn late_subgraph_is_synced_on_request() {
    let mut p = Pipeline::new();
    p.set_state(RunState::Playing);
    p.add_subgraph(sub_with_input(10)).unwrap();
    assert_eq!(p.subgraph().unwrap().state(), RunState::Stopped);
    p.sync_subgraph();
    assert_eq!(p.subgraph().unwrap().state(), RunState::Playing);
    assert_eq!(p.state(), RunState::Playing);
}
