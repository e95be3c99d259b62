use media_graph::unit::{unit_options, OptionValue, UnitKind, UnitOption};

fn option(key: &str, value: OptionValue) -> UnitOption {
    UnitOption { key: key.to_string(), value }
}

#[test]
fn factory_names() {
    assert_eq!(UnitKind::FileSource.name(), "filesrc");
    assert_eq!(UnitKind::Demux.name(), "decodebin");
    assert_eq!(UnitKind::Splitter.name(), "tee");
    assert_eq!(UnitKind::Queue.name(), "queue");
    assert_eq!(UnitKind::ColorConvert.name(), "videoconvert");
    assert_eq!(UnitKind::Scale.name(), "videoscale");
    assert_eq!(UnitKind::DisplaySink.name(), "gtk4paintablesink");
    assert_eq!(UnitKind::DatagramEncoder.name(), "avenc_mpeg4");
    assert_eq!(UnitKind::TransportMux.name(), "mpegtsmux");
    assert_eq!(UnitKind::RtpPayloader.name(), "rtpmp2tpay");
    assert_eq!(UnitKind::UdpSink.name(), "udpsink");
    assert_eq!(UnitKind::StreamEncoder.name(), "theoraenc");
    assert_eq!(UnitKind::ContainerMux.name(), "oggmux");
    assert_eq!(UnitKind::TcpServerSink.name(), "tcpserversink");
    assert_eq!(UnitKind::Subgraph.name(), "bin");
}

#[test]
fn file_source_has_no_input() {
    assert!(!UnitKind::FileSource.accepts_input());
    assert!(UnitKind::Demux.accepts_input());
    assert!(UnitKind::Splitter.accepts_input());
    assert!(UnitKind::DisplaySink.accepts_input());
    assert!(UnitKind::Subgraph.accepts_input());
}

#[test]
fn splitter_and_demux_have_any_output() {
    assert!(UnitKind::Splitter.offers_output(0));
    assert!(UnitKind::Splitter.offers_output(2));
    assert!(UnitKind::Splitter.offers_output(u32::MAX));
    assert!(UnitKind::Demux.offers_output(0));
    assert!(UnitKind::Demux.offers_output(17));
}

#[test]
fn plain_units_have_one_output() {
    assert!(UnitKind::Queue.offers_output(0));
    assert!(!UnitKind::Queue.offers_output(1));
    assert!(UnitKind::FileSource.offers_output(0));
    assert!(!UnitKind::FileSource.offers_output(1));
    assert!(UnitKind::Scale.offers_output(0));
    assert!(!UnitKind::ContainerMux.offers_output(3));
}

#[test]
fn sinks_and_subgraph_end_a_branch() {
    assert!(UnitKind::DisplaySink.ends_branch());
    assert!(UnitKind::UdpSink.ends_branch());
    assert!(UnitKind::TcpServerSink.ends_branch());
    assert!(UnitKind::Subgraph.ends_branch());
    assert!(!UnitKind::DisplaySink.offers_output(0));
    assert!(!UnitKind::UdpSink.offers_output(0));
    assert!(!UnitKind::TcpServerSink.offers_output(0));
    assert!(!UnitKind::Subgraph.offers_output(0));
    assert!(!UnitKind::Queue.ends_branch());
    assert!(!UnitKind::Splitter.ends_branch());
    assert!(!UnitKind::FileSource.ends_branch());
}

#[test]
fn file_source_options_carry_the_path() {
    assert_eq!(
        unit_options(UnitKind::FileSource, Some("sample.mp4")),
        vec![option("location", OptionValue::Text("sample.mp4".to_string()))]
    );
}

#[test]
fn file_source_without_path_is_unset() {
    assert_eq!(
        unit_options(UnitKind::FileSource, None),
        vec![option("location", OptionValue::Unset)]
    );
}

#[test]
fn display_sink_is_unsynchronized() {
    assert_eq!(
        unit_options(UnitKind::DisplaySink, None),
        vec![option("sync", OptionValue::Flag(false))]
    );
    assert_eq!(
        unit_options(UnitKind::DisplaySink, Some("ignored.mp4")),
        vec![option("sync", OptionValue::Flag(false))]
    );
}

#[test]
fn udp_sink_options() {
    assert_eq!(
        unit_options(UnitKind::UdpSink, None),
        vec![
            option("host", OptionValue::Text("127.0.0.1".to_string())),
            option("port", OptionValue::Number(5000)),
            option("sync", OptionValue::Flag(false)),
        ]
    );
}

#[test]
fn tcp_server_sink_options() {
    assert_eq!(
        unit_options(UnitKind::TcpServerSink, Some("x")),
        vec![
            option("host", OptionValue::Text("127.0.0.1".to_string())),
            option("port", OptionValue::Number(8180)),
            option("sync", OptionValue::Flag(false)),
        ]
    );
}

#[test]
fn other_kinds_have_no_options() {
    for kind in [
        UnitKind::Demux,
        UnitKind::Splitter,
        UnitKind::Queue,
        UnitKind::ColorConvert,
        UnitKind::Scale,
        UnitKind::DatagramEncoder,
        UnitKind::TransportMux,
        UnitKind::RtpPayloader,
        UnitKind::StreamEncoder,
        UnitKind::ContainerMux,
        UnitKind::Subgraph,
    ] {
        assert_eq!(unit_options(kind, Some("sample.mp4")), vec![]);
    }
}
