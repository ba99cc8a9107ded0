//! The state of a session, and what can be asked of it at any time.
use vstd::prelude::*;
use crate::abi::{
    LENNY_CODEC_H264, LENNY_E_IO, LENNY_OK, lenny_control_state, lenny_identity, lenny_mode,
    lenny_peer_info, lenny_state, lenny_stats, lenny_stream_settings,
};
use crate::pairing::{EntryView, TokenStore};
use crate::session::peer::{PeerView, no_peer};
use crate::session::queue::{Vq, VqView, empty_queue};
use crate::timing::{ClockSync, Sample};
use crate::wire::caps::{Caps, CapsView, Codec, Lens, lenses_view, no_caps};
use crate::wire::frame::{VERSION_MAJOR, VERSION_MINOR};
use crate::wire::message::{DeviceId, PairToken};
use crate::wire::simple::{Hello, HelloView};

verus! {

#[derive(Clone, Copy, PartialEq, Eq, Debug, Structural)]
pub enum Role {
    Sender,
    Receiver,
}

impl Role {
    /// The role's number in a HELLO.
    #[verifier::allow_in_spec]
    pub fn code(self) -> u8
        returns
            (match self {
                Role::Sender => 1u8,
                Role::Receiver => 2u8,
            }),
    {
        match self {
            Role::Sender => 1,
            Role::Receiver => 2,
        }
    }
}

#[derive(Clone, Copy, PartialEq, Eq, Debug, Structural)]
pub enum Phase {
    HelloWait,
    PairWait,
    PairOrCaps,
    ApprovalWait,
    CapsWait,
    StreamStartWait,
    Streaming,
}

/// What the user said of a device that asks to connect.
#[derive(Clone, Copy, PartialEq, Eq, Debug, Structural)]
pub enum Approval {
    Pending,
    Denied,
    Accepted,
}

/// What a sender is made from.
pub struct SenderConfig {
    pub identity: lenny_identity,
    pub modes: Vec<lenny_mode>,
    pub max_bitrate_kbps: u32,
    pub controls: u32,
    pub lenses: Vec<Lens>,
    pub exposure_comp_min: i32,
    pub exposure_comp_max: i32,
    pub exposure_comp_step_milli: u32,
}

/// What a receiver is made from.
pub struct ReceiverConfig {
    pub identity: lenny_identity,
    pub port: u16,
    pub preferred: lenny_stream_settings,
}

/// What is known of the other side and of the stream.
pub struct Info {
    pub has_peer: bool,
    pub has_settings: bool,
    pub has_control_state: bool,
    /// `peer_caps` are those of the current peer.
    pub has_caps: bool,
    pub peer_info: lenny_peer_info,
    pub settings: lenny_stream_settings,
    pub control_state: lenny_control_state,
    /// Receiver: the last CAPS.
    pub peer_caps: Caps,
    /// Receiver: what the user asks for.
    pub preferred: lenny_stream_settings,
}

#[verifier::ext_equal]
pub struct InfoView {
    pub has_peer: bool,
    pub has_settings: bool,
    pub has_control_state: bool,
    pub has_caps: bool,
    pub peer_info: PeerView,
    pub settings: lenny_stream_settings,
    pub control_state: lenny_control_state,
    pub peer_caps: CapsView,
    pub preferred: lenny_stream_settings,
}

impl View for Info {
    type V = InfoView;

    open spec fn view(&self) -> InfoView {
        InfoView {
            has_peer: self.has_peer,
            has_settings: self.has_settings,
            has_control_state: self.has_control_state,
            has_caps: self.has_caps,
            peer_info: self.peer_info@,
            settings: self.settings,
            control_state: self.control_state,
            peer_caps: self.peer_caps@,
            preferred: self.preferred,
        }
    }
}

/// Where the current link stands.
pub struct Link {
    pub phase: Phase,
    pub phase_deadline: i64,
    pub last_rx: i64,
    pub next_ping: i64,
    pub peer: Hello,
    /// Sender: the token from a QR code, still to be redeemed.
    pub pair_token: Option<PairToken>,
    /// This link got to streaming.
    pub reached_streaming: bool,
}

#[verifier::ext_equal]
pub struct LinkView {
    pub phase: Phase,
    pub phase_deadline: i64,
    pub last_rx: i64,
    pub next_ping: i64,
    pub peer: HelloView,
    pub pair_token: Option<Seq<u8>>,
    pub reached_streaming: bool,
}

impl View for Link {
    type V = LinkView;

    open spec fn view(&self) -> LinkView {
        LinkView {
            phase: self.phase,
            phase_deadline: self.phase_deadline,
            last_rx: self.last_rx,
            next_ping: self.next_ping,
            peer: self.peer@,
            pair_token: match self.pair_token {
                Some(t) => Some(t@),
                None => None,
            },
            reached_streaming: self.reached_streaming,
        }
    }
}

/// A session: one side of the protocol, without the sockets, threads and clocks around it.
pub struct Session {
    pub role: Role,
    /// Our own HELLO.
    pub hello: Hello,
    /// Sender: our own CAPS.
    pub caps: Caps,
    pub listen_port: u16,
    pub bound_port: u16,
    pub state: lenny_state,
    pub last_reason: i32,
    pub info: Info,
    pub streaming: bool,
    /// The negotiated minor version.
    pub minor: u8,
    pub ping_seq: u32,
    pub ever_streamed: bool,
    pub vq: Vq,
    pub tokens: TokenStore,
    pub trusted: Vec<DeviceId>,
    pub approval: Approval,
    pub next_req_id: u32,
    pub stats: lenny_stats,
    pub clock: ClockSync,
    pub link: Link,
}

#[verifier::ext_equal]
pub struct SessionView {
    pub role: Role,
    pub hello: HelloView,
    pub caps: CapsView,
    pub listen_port: u16,
    pub bound_port: u16,
    pub state: lenny_state,
    pub last_reason: i32,
    pub info: InfoView,
    pub streaming: bool,
    pub minor: u8,
    pub ping_seq: u32,
    pub ever_streamed: bool,
    pub vq: VqView,
    pub tokens: Seq<EntryView>,
    pub trusted: Set<Seq<u8>>,
    pub approval: Approval,
    pub next_req_id: u32,
    pub stats: lenny_stats,
    pub clock: Seq<Sample>,
    pub link: LinkView,
}

/// The devices in a list.
pub open spec fn devices(ids: Seq<DeviceId>) -> Set<Seq<u8>> {
    Set::new(|id: Seq<u8>| exists|i: int| 0 <= i < ids.len() && #[trigger] ids[i]@ == id)
}

impl View for Session {
    type V = SessionView;

    open spec fn view(&self) -> SessionView {
        SessionView {
            role: self.role,
            hello: self.hello@,
            caps: self.caps@,
            listen_port: self.listen_port,
            bound_port: self.bound_port,
            state: self.state,
            last_reason: self.last_reason,
            info: self.info@,
            streaming: self.streaming,
            minor: self.minor,
            ping_seq: self.ping_seq,
            ever_streamed: self.ever_streamed,
            vq: self.vq@,
            tokens: self.tokens@,
            trusted: devices(self.trusted@),
            approval: self.approval,
            next_req_id: self.next_req_id,
            stats: self.stats,
            clock: self.clock@,
            link: self.link@,
        }
    }
}

// ---- A new session -----------------------------------------------------------------------------

pub open spec fn no_settings() -> lenny_stream_settings {
    lenny_stream_settings {
        codec: 0,
        mode: lenny_mode { width: 0, height: 0, fps_num: 0, fps_den: 0 },
        bitrate_kbps: 0,
        has_lens: 0,
        lens_id: 0,
    }
}

pub open spec fn no_control_state() -> lenny_control_state {
    lenny_control_state {
        af_mode: 0,
        exposure_comp: 0,
        exposure_lock: 0,
        wb_lock: 0,
        torch: 0,
        lens_id: 0,
        zoom: 0,
        battery: 0,
        charging: 0,
        pan_x: 0,
        pan_y: 0,
    }
}

pub open spec fn no_stats() -> lenny_stats {
    lenny_stats {
        rtt_us: (-1) as i64,
        clock_offset_us: 0,
        frames: 0,
        bytes: 0,
        bad_messages: 0,
        reconnects: 0,
        latency_us: (-1) as i64,
        dropped_frames: 0,
        bitrate_kbps: 0,
    }
}

/// A HELLO that says nothing.
pub open spec fn no_hello() -> HelloView {
    HelloView {
        proto_major: VERSION_MAJOR,
        proto_minor: VERSION_MINOR,
        role: 0,
        device_id: Seq::new(16, |i: int| 0u8),
        device_name: Seq::empty(),
        app_version: Seq::empty(),
        platform: 0,
        pairing_required: false,
        features: 0,
    }
}

/// How a device introduces itself.
pub open spec fn hello_of(id: lenny_identity, role: Role) -> HelloView {
    HelloView {
        role: role.code(),
        device_id: id.device_id@,
        device_name: id.device_name@,
        app_version: id.app_version@,
        platform: id.platform,
        ..no_hello()
    }
}

fn make_hello(id: lenny_identity, role: Role) -> (h: Hello)
    ensures
        h@ == hello_of(id, role),
{
    let mut h = Hello::default();
    h.role = role.code();
    h.device_id = id.device_id;
    h.device_name = id.device_name;
    h.app_version = id.app_version;
    h.platform = id.platform;
    h
}

/// Whether a controls mask has the exposure compensation bit.
pub open spec fn has_exposure_comp(controls: u32) -> bool {
    controls / 4 % 2 == 1
}

/// What a sender offers: H.264, and the exposure range only with the control for it.
pub open spec fn caps_of(cfg: SenderConfig) -> CapsView {
    let range = has_exposure_comp(cfg.controls);
    CapsView {
        codecs: seq![Codec { id: LENNY_CODEC_H264, profile: 0, level: 0 }],
        modes: cfg.modes@,
        max_bitrate_kbps: cfg.max_bitrate_kbps,
        controls: cfg.controls as u64,
        lenses: lenses_view(cfg.lenses@),
        has_exposure_range: range,
        exposure_min: if range {
            cfg.exposure_comp_min
        } else {
            0
        },
        exposure_max: if range {
            cfg.exposure_comp_max
        } else {
            0
        },
        exposure_step_milli: if range {
            cfg.exposure_comp_step_milli
        } else {
            0
        },
    }
}

/// A session before anything happened.
pub open spec fn fresh(
    role: Role,
    hello: HelloView,
    caps: CapsView,
    port: u16,
    preferred: lenny_stream_settings,
) -> SessionView {
    SessionView {
        role,
        hello,
        caps,
        listen_port: port,
        bound_port: 0,
        state: lenny_state::LENNY_STATE_IDLE,
        last_reason: 0,
        info: InfoView {
            has_peer: false,
            has_settings: false,
            has_control_state: false,
            has_caps: false,
            peer_info: no_peer(),
            settings: no_settings(),
            control_state: no_control_state(),
            peer_caps: no_caps(),
            preferred,
        },
        streaming: false,
        minor: VERSION_MINOR,
        ping_seq: 0,
        ever_streamed: false,
        vq: empty_queue(),
        tokens: Seq::empty(),
        trusted: Set::empty(),
        approval: Approval::Pending,
        next_req_id: 1,
        stats: no_stats(),
        clock: Seq::empty(),
        link: LinkView {
            phase: Phase::HelloWait,
            phase_deadline: 0,
            last_rx: 0,
            next_ping: 0,
            peer: no_hello(),
            pair_token: None,
            reached_streaming: false,
        },
    }
}

/// The code that a request reports once its bytes were sent, or not.
pub fn sent_code(ok: bool) -> (r: i32)
    ensures
        r == (if ok {
            LENNY_OK
        } else {
            LENNY_E_IO
        }),
{
    if ok {
        LENNY_OK
    } else {
        LENNY_E_IO
    }
}

impl Session {
    pub open spec fn wf(&self) -> bool {
        self.vq.wf()
    }

    fn with(
        role: Role,
        hello: Hello,
        caps: Caps,
        port: u16,
        preferred: lenny_stream_settings,
    ) -> (s: Session)
        ensures
            s.wf(),
            s@ == fresh(role, hello@, caps@, port, preferred),
    {
        let s = Session {
            role,
            hello,
            caps,
            listen_port: port,
            bound_port: 0,
            state: lenny_state::LENNY_STATE_IDLE,
            last_reason: 0,
            info: Info {
                has_peer: false,
                has_settings: false,
                has_control_state: false,
                has_caps: false,
                peer_info: lenny_peer_info::default(),
                settings: lenny_stream_settings::default(),
                control_state: lenny_control_state::default(),
                peer_caps: Caps::default(),
                preferred,
            },
            streaming: false,
            minor: VERSION_MINOR,
            ping_seq: 0,
            ever_streamed: false,
            vq: Vq::new(),
            tokens: TokenStore::default(),
            trusted: Vec::new(),
            approval: Approval::Pending,
            next_req_id: 1,
            stats: lenny_stats::default(),
            clock: ClockSync::default(),
            link: Link {
                phase: Phase::HelloWait,
                phase_deadline: 0,
                last_rx: 0,
                next_ping: 0,
                peer: Hello::default(),
                pair_token: None,
                reached_streaming: false,
            },
        };
        assert(devices(s.trusted@) =~= Set::empty());
        assert(s@ =~= fresh(role, hello@, caps@, port, preferred));
        s
    }

    pub fn new_sender(cfg: SenderConfig) -> (s: Session)
        ensures
            s.wf(),
            s@ == fresh(
                Role::Sender,
                hello_of(cfg.identity, Role::Sender),
                caps_of(cfg),
                0,
                no_settings(),
            ),
    {
        let mut codecs: Vec<Codec> = Vec::new();
        codecs.push(Codec { id: LENNY_CODEC_H264, profile: 0, level: 0 });
        assert(codecs@ =~= seq![Codec { id: LENNY_CODEC_H264, profile: 0, level: 0 }]);
        let mut caps = Caps {
            codecs,
            modes: cfg.modes,
            max_bitrate_kbps: cfg.max_bitrate_kbps,
            controls: cfg.controls as u64,
            lenses: cfg.lenses,
            has_exposure_range: false,
            exposure_min: 0,
            exposure_max: 0,
            exposure_step_milli: 0,
        };
        if cfg.controls / 4 % 2 == 1 {
            caps.has_exposure_range = true;
            caps.exposure_min = cfg.exposure_comp_min;
            caps.exposure_max = cfg.exposure_comp_max;
            caps.exposure_step_milli = cfg.exposure_comp_step_milli;
        }
        assert(caps@ =~= caps_of(cfg));
        let hello = make_hello(cfg.identity, Role::Sender);
        Session::with(Role::Sender, hello, caps, 0, lenny_stream_settings::default())
    }

    pub fn new_receiver(cfg: ReceiverConfig) -> (s: Session)
        ensures
            s.wf(),
            s@ == fresh(
                Role::Receiver,
                hello_of(cfg.identity, Role::Receiver),
                no_caps(),
                cfg.port,
                cfg.preferred,
            ),
    {
        let hello = make_hello(cfg.identity, Role::Receiver);
        Session::with(Role::Receiver, hello, Caps::default(), cfg.port, cfg.preferred)
    }

    #[verifier::allow_in_spec]
    pub fn role(&self) -> Role
        returns
            self.role,
    {
        self.role
    }
}

} // verus!
