//! Processing units, their ports and their configuration options.

use vstd::prelude::*;

verus! {

/// Identifier of a processing unit. A manager never hands out the same
/// identifier twice.
pub type UnitId = u64;

/// Global run state of a graph or of a subgraph.
#[derive(Clone, Copy, Debug, PartialEq, Eq, Structural)]
pub enum RunState {
    Stopped,
    Playing,
}

/// The kinds of processing unit that the graph is built from.
#[derive(Clone, Copy, Debug, PartialEq, Eq, Structural)]
pub enum UnitKind {
    /// Reads the media file.
    FileSource,
    /// Sniffs the container format and exposes output ports once it is known.
    Demux,
    /// Duplicates one input stream to any number of outputs.
    Splitter,
    /// Buffers between the splitter and one branch.
    Queue,
    ColorConvert,
    Scale,
    /// Renders frames onto the surface handed to the display layer.
    DisplaySink,
    DatagramEncoder,
    TransportMux,
    RtpPayloader,
    UdpSink,
    StreamEncoder,
    ContainerMux,
    TcpServerSink,
    /// A subgraph seen as one unit of the graph that encloses it.
    Subgraph,
}

impl UnitKind {
    /// Name under which the unit factory knows this kind.
    pub open spec fn factory_name(self) -> Seq<char> {
        match self {
            UnitKind::FileSource => "filesrc"@,
            UnitKind::Demux => "decodebin"@,
            UnitKind::Splitter => "tee"@,
            UnitKind::Queue => "queue"@,
            UnitKind::ColorConvert => "videoconvert"@,
            UnitKind::Scale => "videoscale"@,
            UnitKind::DisplaySink => "gtk4paintablesink"@,
            UnitKind::DatagramEncoder => "avenc_mpeg4"@,
            UnitKind::TransportMux => "mpegtsmux"@,
            UnitKind::RtpPayloader => "rtpmp2tpay"@,
            UnitKind::UdpSink => "udpsink"@,
            UnitKind::StreamEncoder => "theoraenc"@,
            UnitKind::ContainerMux => "oggmux"@,
            UnitKind::TcpServerSink => "tcpserversink"@,
            UnitKind::Subgraph => "bin"@,
        }
    }

    /// Whether a unit of this kind has an input port.
    pub open spec fn has_input(self) -> bool {
        self != UnitKind::FileSource
    }

    /// Whether a unit of this kind has an output port numbered `port`.
    /// Splitter and demultiplexer have any number of them, a sink and a
    /// subgraph none, every other kind exactly one, numbered 0.
    pub open spec fn has_output(self, port: u32) -> bool {
        match self {
            UnitKind::Splitter | UnitKind::Demux => true,
            UnitKind::DisplaySink | UnitKind::UdpSink | UnitKind::TcpServerSink
            | UnitKind::Subgraph => false,
            _ => port == 0,
        }
    }

    /// Whether a unit of this kind ends a branch: it has no output port.
    pub open spec fn is_terminal(self) -> bool {
        forall|port: u32| !self.has_output(port)
    }

    pub fn name(self) -> (r: &'static str)
        ensures
            r@ == self.factory_name(),
    {
        match self {
            UnitKind::FileSource => "filesrc",
            UnitKind::Demux => "decodebin",
            UnitKind::Splitter => "tee",
            UnitKind::Queue => "queue",
            UnitKind::ColorConvert => "videoconvert",
            UnitKind::Scale => "videoscale",
            UnitKind::DisplaySink => "gtk4paintablesink",
            UnitKind::DatagramEncoder => "avenc_mpeg4",
            UnitKind::TransportMux => "mpegtsmux",
            UnitKind::RtpPayloader => "rtpmp2tpay",
            UnitKind::UdpSink => "udpsink",
            UnitKind::StreamEncoder => "theoraenc",
            UnitKind::ContainerMux => "oggmux",
            UnitKind::TcpServerSink => "tcpserversink",
            UnitKind::Subgraph => "bin",
        }
    }

    pub fn accepts_input(self) -> (r: bool)
        ensures
            r == self.has_input(),
    {
        match self {
            UnitKind::FileSource => false,
            _ => true,
        }
    }

    pub fn offers_output(self, port: u32) -> (r: bool)
        ensures
            r == self.has_output(port),
    {
        match self {
            UnitKind::Splitter | UnitKind::Demux => true,
            UnitKind::DisplaySink | UnitKind::UdpSink | UnitKind::TcpServerSink
            | UnitKind::Subgraph => false,
            _ => port == 0,
        }
    }

    pub fn ends_branch(self) -> (r: bool)
        ensures
            r == self.is_terminal(),
    {
        let r = match self {
            UnitKind::DisplaySink | UnitKind::UdpSink | UnitKind::TcpServerSink
            | UnitKind::Subgraph => true,
            _ => false,
        };
        proof {
            if !r {
                assert(self.has_output(0));
            }
        }
        r
    }
}

/// A processing unit: an opaque node of a known kind.
#[derive(Clone, Copy, Debug, PartialEq, Eq, Structural)]
pub struct Unit {
    pub id: UnitId,
    pub kind: UnitKind,
}

/// A directed edge from output port `port` of unit `src` to the input port
/// of unit `dst`.
#[derive(Clone, Copy, Debug, PartialEq, Eq, Structural)]
pub struct Connection {
    pub src: UnitId,
    pub port: u32,
    pub dst: UnitId,
}

/// Value of one configuration option.
#[derive(Clone, Debug, PartialEq, Eq)]
pub enum OptionValue {
    Flag(bool),
    Number(i32),
    Text(String),
    /// The option is named but left without a value.
    Unset,
}

/// Mathematical value of an [`OptionValue`].
pub enum OptionValueView {
    Flag(bool),
    Number(i32),
    Text(Seq<char>),
    Unset,
}

impl DeepView for OptionValue {
    type V = OptionValueView;

    open spec fn deep_view(&self) -> OptionValueView {
        match self {
            OptionValue::Flag(b) => OptionValueView::Flag(*b),
            OptionValue::Number(n) => OptionValueView::Number(*n),
            OptionValue::Text(t) => OptionValueView::Text(t@),
            OptionValue::Unset => OptionValueView::Unset,
        }
    }
}

/// One configuration option of a unit: a key and its typed value.
#[derive(Clone, Debug, PartialEq, Eq)]
pub struct UnitOption {
    pub key: String,
    pub value: OptionValue,
}

/// Mathematical value of a [`UnitOption`].
pub struct UnitOptionView {
    pub key: Seq<char>,
    pub value: OptionValueView,
}

impl DeepView for UnitOption {
    type V = UnitOptionView;

    open spec fn deep_view(&self) -> UnitOptionView {
        UnitOptionView { key: self.key@, value: self.value.deep_view() }
    }
}

/// The option that switches a sink's clock synchronisation off, so that it
/// emits as fast as data is produced.
pub open spec fn unsynchronized() -> UnitOptionView {
    UnitOptionView { key: "sync"@, value: OptionValueView::Flag(false) }
}

/// The options of a network sink at `port` of the local host.
pub open spec fn endpoint(port: i32) -> Seq<UnitOptionView> {
    seq![
        UnitOptionView { key: "host"@, value: OptionValueView::Text("127.0.0.1"@) },
        UnitOptionView { key: "port"@, value: OptionValueView::Number(port) },
        unsynchronized(),
    ]
}

impl UnitKind {
    /// The options that a unit of this kind is created with. Only the file
    /// source depends on `location`, the path of the media file; without a
    /// path its option is left unset and the source stays idle.
    pub open spec fn options(self, location: Option<Seq<char>>) -> Seq<UnitOptionView> {
        match self {
            UnitKind::FileSource => seq![
                UnitOptionView {
                    key: "location"@,
                    value: match location {
                        Some(path) => OptionValueView::Text(path),
                        None => OptionValueView::Unset,
                    },
                },
            ],
            UnitKind::DisplaySink => seq![unsynchronized()],
            UnitKind::UdpSink => endpoint(5000),
            UnitKind::TcpServerSink => endpoint(8180),
            _ => Seq::empty(),
        }
    }
}

fn flag_option(key: &str, value: bool) -> (r: UnitOption)
    ensures
        r.deep_view() == (UnitOptionView { key: key@, value: OptionValueView::Flag(value) }),
{
    UnitOption { key: key.to_owned(), value: OptionValue::Flag(value) }
}

fn endpoint_options(port: i32) -> (r: Vec<UnitOption>)
    ensures
        r.deep_view() == endpoint(port),
{
    let mut options: Vec<UnitOption> = Vec::new();
    options.push(
        UnitOption { key: "host".to_owned(), value: OptionValue::Text("127.0.0.1".to_owned()) },
    );
    options.push(UnitOption { key: "port".to_owned(), value: OptionValue::Number(port) });
    options.push(flag_option("sync", false));
    assert(options.deep_view() =~= endpoint(port));
    options
}

/// Builds the options that a unit of kind `kind` is created with.
pub fn unit_options(kind: UnitKind, location: Option<&str>) -> (r: Vec<UnitOption>)
    ensures
        r.deep_view() == kind.options(
            match location {
                Some(path) => Some(path@),
                None => None,
            },
        ),
{
    match kind {
        UnitKind::FileSource => {
            let value = match location {
                Some(path) => OptionValue::Text(path.to_owned()),
                None => OptionValue::Unset,
            };
            let mut options: Vec<UnitOption> = Vec::new();
            options.push(UnitOption { key: "location".to_owned(), value });
            assert(options.deep_view() =~= kind.options(
                match location {
                    Some(path) => Some(path@),
                    None => None,
                },
            ));
            options
        },
        UnitKind::DisplaySink => {
            let mut options: Vec<UnitOption> = Vec::new();
            options.push(flag_option("sync", false));
            assert(options.deep_view() =~= kind.options(None));
            options
        },
        UnitKind::UdpSink => endpoint_options(5000),
        UnitKind::TcpServerSink => endpoint_options(8180),
        _ => {
            let options: Vec<UnitOption> = Vec::new();
            assert(options.deep_view() =~= Seq::<UnitOptionView>::empty());
            options
        },
    }
}

} // verus!
