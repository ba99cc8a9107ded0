//! The messages that carry a few plain values.
use vstd::prelude::*;
use crate::abi::{LENNY_CODEC_H264, lenny_control_state};
use crate::bytes::{copy, copy16};
use crate::wire::frame::{VERSION_MAJOR, VERSION_MINOR};
use crate::wire::lookup::{Slot, exact, exact_value, last_of, lemma_exact_len, last_value, number, number_of};
use crate::wire::message::{DeviceId, Message, PairToken, Str, decoded};
use crate::wire::msg;
use crate::wire::tlv::{
    Field, TlvWriter, blob, clipped, fields, fields_view, law_written_fields_read_back, num, push_if,
    tlv_bytes,
};

verus! {

/// CONTROL pan / CONTROL_STATE pan_x, pan_y: 0..65535 across the pannable range, this = centered.
pub const PAN_CENTER: u16 = 32768;

/// The value of an optional text, empty where the message has none.
pub open spec fn text_of(fs: Seq<Field>, tag: u16) -> Seq<u8> {
    match last_of(fs, tag) {
        Some(v) => v,
        None => Seq::empty(),
    }
}

// ---- HELLO -------------------------------------------------------------------------------------

#[derive(Clone, Debug, PartialEq, Eq)]
pub struct Hello {
    pub proto_major: u8,
    pub proto_minor: u8,
    /// 1 sender, 2 receiver.
    pub role: u8,
    pub device_id: DeviceId,
    pub device_name: Str,
    /// Optional (empty = absent).
    pub app_version: Str,
    /// Optional (0 = absent).
    pub platform: u8,
    pub pairing_required: bool,
    pub features: u64,
}

#[verifier::ext_equal]
pub struct HelloView {
    pub proto_major: u8,
    pub proto_minor: u8,
    pub role: u8,
    pub device_id: Seq<u8>,
    pub device_name: Seq<u8>,
    pub app_version: Seq<u8>,
    pub platform: u8,
    pub pairing_required: bool,
    pub features: u64,
}

impl View for Hello {
    type V = HelloView;

    open spec fn view(&self) -> HelloView {
        HelloView {
            proto_major: self.proto_major,
            proto_minor: self.proto_minor,
            role: self.role,
            device_id: self.device_id@,
            device_name: self.device_name@,
            app_version: self.app_version@,
            platform: self.platform,
            pairing_required: self.pairing_required,
            features: self.features,
        }
    }
}

impl Default for Hello {
    fn default() -> (h: Self)
        ensures
            h@ == (HelloView {
                proto_major: VERSION_MAJOR,
                proto_minor: VERSION_MINOR,
                role: 0,
                device_id: Seq::new(16, |i: int| 0u8),
                device_name: Seq::empty(),
                app_version: Seq::empty(),
                platform: 0,
                pairing_required: false,
                features: 0,
            }),
    {
        let h = Hello {
            proto_major: VERSION_MAJOR,
            proto_minor: VERSION_MINOR,
            role: 0,
            device_id: [0; 16],
            device_name: Vec::new(),
            app_version: Vec::new(),
            platform: 0,
            pairing_required: false,
            features: 0,
        };
        assert(h.device_id@ =~= Seq::new(16, |i: int| 0u8));
        h
    }
}

impl Message for Hello {
    const TYPE: u16 = msg::HELLO;

    open spec fn type_id() -> u16 {
        msg::HELLO
    }

    fn message_type() -> (r: u16) {
        Self::TYPE
    }

    open spec fn fields(m: HelloView, _minor: u8) -> Seq<Field> {
        let fs = Seq::empty().push(num(1, m.proto_major)).push(num(2, m.proto_minor)).push(
            num(3, m.role),
        ).push(blob(4, m.device_id)).push(blob(5, clipped(m.device_name)));
        let fs = push_if(fs, m.app_version.len() > 0, blob(6, clipped(m.app_version)));
        let fs = push_if(fs, m.platform != 0, num(7, m.platform));
        let fs = push_if(fs, m.pairing_required, num(8, 1u8));
        push_if(fs, m.features != 0, num(9, m.features))
    }

    open spec fn from_fields(fs: Seq<Field>) -> Option<HelloView> {
        match (
            number_of::<u8>(fs, 1),
            number_of::<u8>(fs, 2),
            number_of::<u8>(fs, 3),
            exact(fs, 4, 16),
            last_of(fs, 5),
            number_of::<u8>(fs, 7).or(0),
            number_of::<u8>(fs, 8).or(0),
            number_of::<u64>(fs, 9).or(0),
        ) {
            (
                Slot::Is(proto_major),
                Slot::Is(proto_minor),
                Slot::Is(role),
                Slot::Is(device_id),
                Some(device_name),
                Some(platform),
                Some(pairing),
                Some(features),
            ) => Some(
                HelloView {
                    proto_major,
                    proto_minor,
                    role,
                    device_id,
                    device_name,
                    app_version: text_of(fs, 6),
                    platform,
                    pairing_required: pairing != 0,
                    features,
                },
            ),
            _ => None,
        }
    }

    open spec fn knows(tag: u16) -> bool {
        1 <= tag <= 9
    }

    proof fn law_unknown_fields_are_skipped(a: Seq<Field>, f: Field, b: Seq<Field>) {
        broadcast use crate::wire::lookup::group_skips;

    }

    fn encode(&self, w: &mut TlvWriter<'_>, _minor: u8) {
        broadcast use crate::wire::tlv::lemma_append;

        assert(w.0@ =~= old(w).0@ + tlv_bytes(Seq::empty()));
        w.u8(1, self.proto_major);
        w.u8(2, self.proto_minor);
        w.u8(3, self.role);
        w.bytes(4, self.device_id.as_slice());
        w.str(5, self.device_name.as_slice());
        if self.app_version.len() > 0 {
            w.str(6, self.app_version.as_slice());
        }
        if self.platform != 0 {
            w.u8(7, self.platform);
        }
        if self.pairing_required {
            w.u8(8, 1);
        }
        if self.features != 0 {
            w.u64(9, self.features);
        }
    }

    fn decode(v: &[u8]) -> (r: Option<Self>) {
        let fs = fields(v)?;
        let proto_major: u8 = number::<u8>(&fs, 1).required()?;
        let proto_minor: u8 = number::<u8>(&fs, 2).required()?;
        let role: u8 = number::<u8>(&fs, 3).required()?;
        let id = exact_value(&fs, 4, 16).required()?;
        let name = last_value(&fs, 5)?;
        let platform: u8 = number::<u8>(&fs, 7).or(0)?;
        let pairing: u8 = number::<u8>(&fs, 8).or(0)?;
        let features: u64 = number::<u64>(&fs, 9).or(0)?;
        proof {
            lemma_exact_len(fields_view(fs@), 4, 16);
        }
        Some(
            Hello {
                proto_major,
                proto_minor,
                role,
                device_id: copy16(id),
                device_name: copy(name),
                app_version: text(last_value(&fs, 6)),
                platform,
                pairing_required: pairing != 0,
                features,
            },
        )
    }
}

/// An optional value as a text of its own.
pub fn text(v: Option<&[u8]>) -> (r: Vec<u8>)
    ensures
        r@ == match v {
            Some(x) => x@,
            None => Seq::empty(),
        },
{
    match v {
        Some(x) => copy(x),
        None => Vec::new(),
    }
}

/// What is left of a HELLO on the wire: texts that are too long for a field are cut.
pub open spec fn hello_on_wire(m: HelloView) -> HelloView {
    HelloView { device_name: clipped(m.device_name), app_version: clipped(m.app_version), ..m }
}

/// A HELLO comes back as it was sent, but for texts that are too long for a field, which are cut.
pub proof fn law_hello_round_trip(m: HelloView, minor: u8)
    requires
        m.device_id.len() == 16,
    ensures
        decoded::<Hello>(tlv_bytes(Hello::fields(m, minor))) == Some(hello_on_wire(m)),
{
    broadcast use {
        crate::le::lemma_le,
        crate::wire::lookup::group_push,
        crate::wire::tlv::lemma_all_fit_push,
    };

    law_written_fields_read_back(Hello::fields(m, minor));
}

// ---- GOODBYE --------------------------------------------------------------------------------------

#[derive(Clone, Debug, PartialEq, Eq)]
pub struct Goodbye {
    pub reason: u16,
    pub detail: Str,
}

#[verifier::ext_equal]
pub struct GoodbyeView {
    pub reason: u16,
    pub detail: Seq<u8>,
}

impl View for Goodbye {
    type V = GoodbyeView;

    open spec fn view(&self) -> GoodbyeView {
        GoodbyeView { reason: self.reason, detail: self.detail@ }
    }
}

impl Default for Goodbye {
    fn default() -> (m: Self)
        ensures
            m@ == (GoodbyeView { reason: 0, detail: Seq::empty() }),
    {
        Goodbye { reason: 0, detail: Vec::new() }
    }
}

impl Message for Goodbye {
    const TYPE: u16 = msg::GOODBYE;

    open spec fn type_id() -> u16 {
        msg::GOODBYE
    }

    fn message_type() -> (r: u16) {
        Self::TYPE
    }

    open spec fn fields(m: GoodbyeView, _minor: u8) -> Seq<Field> {
        push_if(Seq::empty().push(num(1, m.reason)), m.detail.len() > 0, blob(2, clipped(m.detail)))
    }

    open spec fn from_fields(fs: Seq<Field>) -> Option<GoodbyeView> {
        match number_of::<u16>(fs, 1) {
            Slot::Is(reason) => Some(GoodbyeView { reason, detail: text_of(fs, 2) }),
            _ => None,
        }
    }

    open spec fn knows(tag: u16) -> bool {
        1 <= tag <= 2
    }

    proof fn law_unknown_fields_are_skipped(a: Seq<Field>, f: Field, b: Seq<Field>) {
        broadcast use crate::wire::lookup::group_skips;

    }

    fn encode(&self, w: &mut TlvWriter<'_>, _minor: u8) {
        broadcast use crate::wire::tlv::lemma_append;

        assert(w.0@ =~= old(w).0@ + tlv_bytes(Seq::empty()));
        w.u16(1, self.reason);
        if self.detail.len() > 0 {
            w.str(2, self.detail.as_slice());
        }
    }

    fn decode(v: &[u8]) -> (r: Option<Self>) {
        let fs = fields(v)?;
        let reason: u16 = number::<u16>(&fs, 1).required()?;
        Some(Goodbye { reason, detail: text(last_value(&fs, 2)) })
    }
}

/// A GOODBYE comes back as it was sent, but for a text that is too long for a field, which is cut.
pub proof fn law_goodbye_round_trip(m: GoodbyeView, minor: u8)
    ensures
        decoded::<Goodbye>(tlv_bytes(Goodbye::fields(m, minor))) == Some(
            GoodbyeView { detail: clipped(m.detail), ..m },
        ),
{
    broadcast use {
        crate::le::lemma_le,
        crate::wire::lookup::group_push,
        crate::wire::tlv::lemma_all_fit_push,
    };

    law_written_fields_read_back(Goodbye::fields(m, minor));
}

// ---- PING -----------------------------------------------------------------------------------------

#[derive(Clone, Copy, Debug, PartialEq, Eq, Structural)]
pub struct Ping {
    pub seq: u32,
    pub t1: i64,
}

impl View for Ping {
    type V = Ping;

    open spec fn view(&self) -> Ping {
        *self
    }
}

impl Default for Ping {
    fn default() -> (m: Self)
        ensures
            m == (Ping { seq: 0, t1: 0 }),
    {
        Ping { seq: 0, t1: 0 }
    }
}

impl Message for Ping {
    const TYPE: u16 = msg::PING;

    open spec fn type_id() -> u16 {
        msg::PING
    }

    fn message_type() -> (r: u16) {
        Self::TYPE
    }

    open spec fn fields(m: Ping, _minor: u8) -> Seq<Field> {
        Seq::empty().push(num(1, m.seq)).push(num(2, m.t1))
    }

    open spec fn from_fields(fs: Seq<Field>) -> Option<Ping> {
        match (number_of::<u32>(fs, 1), number_of::<i64>(fs, 2)) {
            (Slot::Is(seq), Slot::Is(t1)) => Some(Ping { seq, t1 }),
            _ => None,
        }
    }

    open spec fn knows(tag: u16) -> bool {
        1 <= tag <= 2
    }

    proof fn law_unknown_fields_are_skipped(a: Seq<Field>, f: Field, b: Seq<Field>) {
        broadcast use crate::wire::lookup::group_skips;

    }

    fn encode(&self, w: &mut TlvWriter<'_>, _minor: u8) {
        broadcast use crate::wire::tlv::lemma_append;

        assert(w.0@ =~= old(w).0@ + tlv_bytes(Seq::empty()));
        w.u32(1, self.seq);
        w.i64(2, self.t1);
    }

    fn decode(v: &[u8]) -> (r: Option<Self>) {
        let fs = fields(v)?;
        let seq: u32 = number::<u32>(&fs, 1).required()?;
        let t1: i64 = number::<i64>(&fs, 2).required()?;
        Some(Ping { seq, t1 })
    }
}

/// A PING comes back as it was sent.
pub proof fn law_ping_round_trip(m: Ping, minor: u8)
    ensures
        decoded::<Ping>(tlv_bytes(Ping::fields(m, minor))) == Some(m),
{
    broadcast use {
        crate::le::lemma_le,
        crate::wire::lookup::group_push,
        crate::wire::tlv::lemma_all_fit_push,
    };

    law_written_fields_read_back(Ping::fields(m, minor));
}

// ---- PONG -----------------------------------------------------------------------------------------

#[derive(Clone, Copy, Debug, PartialEq, Eq, Structural)]
pub struct Pong {
    pub seq: u32,
    pub t1: i64,
    pub t2: i64,
    pub t3: i64,
}

impl View for Pong {
    type V = Pong;

    open spec fn view(&self) -> Pong {
        *self
    }
}

impl Default for Pong {
    fn default() -> (m: Self)
        ensures
            m == (Pong { seq: 0, t1: 0, t2: 0, t3: 0 }),
    {
        Pong { seq: 0, t1: 0, t2: 0, t3: 0 }
    }
}

impl Message for Pong {
    const TYPE: u16 = msg::PONG;

    open spec fn type_id() -> u16 {
        msg::PONG
    }

    fn message_type() -> (r: u16) {
        Self::TYPE
    }

    open spec fn fields(m: Pong, _minor: u8) -> Seq<Field> {
        Seq::empty().push(num(1, m.seq)).push(num(2, m.t1)).push(num(3, m.t2)).push(num(4, m.t3))
    }

    open spec fn from_fields(fs: Seq<Field>) -> Option<Pong> {
        match (number_of::<u32>(fs, 1), number_of::<i64>(fs, 2), number_of::<i64>(fs, 3), number_of::<i64>(fs, 4)) {
            (Slot::Is(seq), Slot::Is(t1), Slot::Is(t2), Slot::Is(t3)) => Some(Pong { seq, t1, t2, t3 }),
            _ => None,
        }
    }

    open spec fn knows(tag: u16) -> bool {
        1 <= tag <= 4
    }

    proof fn law_unknown_fields_are_skipped(a: Seq<Field>, f: Field, b: Seq<Field>) {
        broadcast use crate::wire::lookup::group_skips;

    }

    fn encode(&self, w: &mut TlvWriter<'_>, _minor: u8) {
        broadcast use crate::wire::tlv::lemma_append;

        assert(w.0@ =~= old(w).0@ + tlv_bytes(Seq::empty()));
        w.u32(1, self.seq);
        w.i64(2, self.t1);
        w.i64(3, self.t2);
        w.i64(4, self.t3);
    }

    fn decode(v: &[u8]) -> (r: Option<Self>) {
        let fs = fields(v)?;
        let seq: u32 = number::<u32>(&fs, 1).required()?;
        let t1: i64 = number::<i64>(&fs, 2).required()?;
        let t2: i64 = number::<i64>(&fs, 3).required()?;
        let t3: i64 = number::<i64>(&fs, 4).required()?;
        Some(Pong { seq, t1, t2, t3 })
    }
}

/// A PONG comes back as it was sent.
pub proof fn law_pong_round_trip(m: Pong, minor: u8)
    ensures
        decoded::<Pong>(tlv_bytes(Pong::fields(m, minor))) == Some(m),
{
    broadcast use {
        crate::le::lemma_le,
        crate::wire::lookup::group_push,
        crate::wire::tlv::lemma_all_fit_push,
    };

    law_written_fields_read_back(Pong::fields(m, minor));
}

// ---- PAIR_REQUEST --------------------------------------------------------------------------------

#[derive(Clone, Copy, Debug, PartialEq, Eq)]
pub struct PairRequest {
    pub token: PairToken,
}

impl View for PairRequest {
    type V = Seq<u8>;

    open spec fn view(&self) -> Seq<u8> {
        self.token@
    }
}

impl Default for PairRequest {
    fn default() -> (m: Self)
        ensures
            m@ =~= Seq::new(16, |i: int| 0u8),
    {
        PairRequest { token: [0; 16] }
    }
}

impl Message for PairRequest {
    const TYPE: u16 = msg::PAIR_REQUEST;

    open spec fn type_id() -> u16 {
        msg::PAIR_REQUEST
    }

    fn message_type() -> (r: u16) {
        Self::TYPE
    }

    open spec fn fields(token: Seq<u8>, _minor: u8) -> Seq<Field> {
        Seq::empty().push(blob(1, token))
    }

    open spec fn from_fields(fs: Seq<Field>) -> Option<Seq<u8>> {
        match exact(fs, 1, 16) {
            Slot::Is(token) => Some(token),
            _ => None,
        }
    }

    open spec fn knows(tag: u16) -> bool {
        tag == 1
    }

    proof fn law_unknown_fields_are_skipped(a: Seq<Field>, f: Field, b: Seq<Field>) {
        broadcast use crate::wire::lookup::group_skips;

    }

    fn encode(&self, w: &mut TlvWriter<'_>, _minor: u8) {
        broadcast use crate::wire::tlv::lemma_append;

        assert(w.0@ =~= old(w).0@ + tlv_bytes(Seq::empty()));
        w.bytes(1, self.token.as_slice());
    }

    fn decode(v: &[u8]) -> (r: Option<Self>) {
        let fs = fields(v)?;
        let token = exact_value(&fs, 1, 16).required()?;
        proof {
            lemma_exact_len(fields_view(fs@), 1, 16);
        }
        Some(PairRequest { token: copy16(token) })
    }
}

/// A PAIR_REQUEST comes back as it was sent.
pub proof fn law_pair_request_round_trip(token: Seq<u8>, minor: u8)
    requires
        token.len() == 16,
    ensures
        decoded::<PairRequest>(tlv_bytes(PairRequest::fields(token, minor))) == Some(token),
{
    broadcast use {
        crate::le::lemma_le,
        crate::wire::lookup::group_push,
        crate::wire::tlv::lemma_all_fit_push,
    };

    law_written_fields_read_back(PairRequest::fields(token, minor));
}

// ---- PAIR_RESULT ----------------------------------------------------------------------------------

#[derive(Clone, Copy, Debug, PartialEq, Eq, Structural)]
pub struct PairResult {
    pub result: u8,
}

impl View for PairResult {
    type V = PairResult;

    open spec fn view(&self) -> PairResult {
        *self
    }
}

impl Default for PairResult {
    fn default() -> (m: Self)
        ensures
            m == (PairResult { result: 0 }),
    {
        PairResult { result: 0 }
    }
}

impl Message for PairResult {
    const TYPE: u16 = msg::PAIR_RESULT;

    open spec fn type_id() -> u16 {
        msg::PAIR_RESULT
    }

    fn message_type() -> (r: u16) {
        Self::TYPE
    }

    open spec fn fields(m: PairResult, _minor: u8) -> Seq<Field> {
        Seq::empty().push(num(1, m.result))
    }

    open spec fn from_fields(fs: Seq<Field>) -> Option<PairResult> {
        match number_of::<u8>(fs, 1) {
            Slot::Is(result) => Some(PairResult { result }),
            _ => None,
        }
    }

    open spec fn knows(tag: u16) -> bool {
        tag == 1
    }

    proof fn law_unknown_fields_are_skipped(a: Seq<Field>, f: Field, b: Seq<Field>) {
        broadcast use crate::wire::lookup::group_skips;

    }

    fn encode(&self, w: &mut TlvWriter<'_>, _minor: u8) {
        broadcast use crate::wire::tlv::lemma_append;

        assert(w.0@ =~= old(w).0@ + tlv_bytes(Seq::empty()));
        w.u8(1, self.result);
    }

    fn decode(v: &[u8]) -> (r: Option<Self>) {
        let fs = fields(v)?;
        let result: u8 = number::<u8>(&fs, 1).required()?;
        Some(PairResult { result })
    }
}

/// A PAIR_RESULT comes back as it was sent.
pub proof fn law_pair_result_round_trip(m: PairResult, minor: u8)
    ensures
        decoded::<PairResult>(tlv_bytes(PairResult::fields(m, minor))) == Some(m),
{
    broadcast use {
        crate::le::lemma_le,
        crate::wire::lookup::group_push,
        crate::wire::tlv::lemma_all_fit_push,
    };

    law_written_fields_read_back(PairResult::fields(m, minor));
}

// ---- STREAM_STATUS --------------------------------------------------------------------------------

#[derive(Clone, Debug, PartialEq, Eq)]
pub struct StreamStatus {
    pub state: u8,
    pub reason: Str,
}

#[verifier::ext_equal]
pub struct StreamStatusView {
    pub state: u8,
    pub reason: Seq<u8>,
}

impl View for StreamStatus {
    type V = StreamStatusView;

    open spec fn view(&self) -> StreamStatusView {
        StreamStatusView { state: self.state, reason: self.reason@ }
    }
}

impl Default for StreamStatus {
    fn default() -> (m: Self)
        ensures
            m@ == (StreamStatusView { state: 0, reason: Seq::empty() }),
    {
        StreamStatus { state: 0, reason: Vec::new() }
    }
}

impl Message for StreamStatus {
    const TYPE: u16 = msg::STREAM_STATUS;

    open spec fn type_id() -> u16 {
        msg::STREAM_STATUS
    }

    fn message_type() -> (r: u16) {
        Self::TYPE
    }

    open spec fn fields(m: StreamStatusView, _minor: u8) -> Seq<Field> {
        push_if(Seq::empty().push(num(1, m.state)), m.reason.len() > 0, blob(2, clipped(m.reason)))
    }

    open spec fn from_fields(fs: Seq<Field>) -> Option<StreamStatusView> {
        match number_of::<u8>(fs, 1) {
            Slot::Is(state) => Some(StreamStatusView { state, reason: text_of(fs, 2) }),
            _ => None,
        }
    }

    open spec fn knows(tag: u16) -> bool {
        1 <= tag <= 2
    }

    proof fn law_unknown_fields_are_skipped(a: Seq<Field>, f: Field, b: Seq<Field>) {
        broadcast use crate::wire::lookup::group_skips;

    }

    fn encode(&self, w: &mut TlvWriter<'_>, _minor: u8) {
        broadcast use crate::wire::tlv::lemma_append;

        assert(w.0@ =~= old(w).0@ + tlv_bytes(Seq::empty()));
        w.u8(1, self.state);
        if self.reason.len() > 0 {
            w.str(2, self.reason.as_slice());
        }
    }

    fn decode(v: &[u8]) -> (r: Option<Self>) {
        let fs = fields(v)?;
        let state: u8 = number::<u8>(&fs, 1).required()?;
        Some(StreamStatus { state, reason: text(last_value(&fs, 2)) })
    }
}

/// A STREAM_STATUS comes back as it was sent, but for a text that is too long for a field, which is cut.
pub proof fn law_stream_status_round_trip(m: StreamStatusView, minor: u8)
    ensures
        decoded::<StreamStatus>(tlv_bytes(StreamStatus::fields(m, minor))) == Some(
            StreamStatusView { reason: clipped(m.reason), ..m },
        ),
{
    broadcast use {
        crate::le::lemma_le,
        crate::wire::lookup::group_push,
        crate::wire::tlv::lemma_all_fit_push,
    };

    law_written_fields_read_back(StreamStatus::fields(m, minor));
}

// ---- VIDEO_CONFIG --------------------------------------------------------------------------------

#[derive(Clone, Debug, PartialEq, Eq)]
pub struct VideoConfig {
    pub codec: u8,
    pub config: Vec<u8>,
}

#[verifier::ext_equal]
pub struct VideoConfigView {
    pub codec: u8,
    pub config: Seq<u8>,
}

impl View for VideoConfig {
    type V = VideoConfigView;

    open spec fn view(&self) -> VideoConfigView {
        VideoConfigView { codec: self.codec, config: self.config@ }
    }
}

impl Default for VideoConfig {
    fn default() -> (m: Self)
        ensures
            m@ == (VideoConfigView { codec: LENNY_CODEC_H264, config: Seq::empty() }),
    {
        VideoConfig { codec: LENNY_CODEC_H264, config: Vec::new() }
    }
}

impl Message for VideoConfig {
    const TYPE: u16 = msg::VIDEO_CONFIG;

    open spec fn type_id() -> u16 {
        msg::VIDEO_CONFIG
    }

    fn message_type() -> (r: u16) {
        Self::TYPE
    }

    open spec fn fields(m: VideoConfigView, _minor: u8) -> Seq<Field> {
        Seq::empty().push(num(1, m.codec)).push(blob(2, m.config))
    }

    open spec fn from_fields(fs: Seq<Field>) -> Option<VideoConfigView> {
        match (number_of::<u8>(fs, 1).or(LENNY_CODEC_H264), last_of(fs, 2)) {
            (Some(codec), Some(config)) => Some(VideoConfigView { codec, config }),
            _ => None,
        }
    }

    open spec fn knows(tag: u16) -> bool {
        1 <= tag <= 2
    }

    proof fn law_unknown_fields_are_skipped(a: Seq<Field>, f: Field, b: Seq<Field>) {
        broadcast use crate::wire::lookup::group_skips;

    }

    fn encode(&self, w: &mut TlvWriter<'_>, _minor: u8) {
        broadcast use crate::wire::tlv::lemma_append;

        assert(w.0@ =~= old(w).0@ + tlv_bytes(Seq::empty()));
        w.u8(1, self.codec);
        w.bytes(2, self.config.as_slice());
    }

    fn decode(v: &[u8]) -> (r: Option<Self>) {
        let fs = fields(v)?;
        let codec: u8 = number::<u8>(&fs, 1).or(LENNY_CODEC_H264)?;
        let config = last_value(&fs, 2)?;
        Some(VideoConfig { codec, config: copy(config) })
    }
}

/// A VIDEO_CONFIG comes back as it was sent. The configuration must fit in a field.
pub proof fn law_video_config_round_trip(m: VideoConfigView, minor: u8)
    requires
        m.config.len() <= 0xFFFF,
    ensures
        decoded::<VideoConfig>(tlv_bytes(VideoConfig::fields(m, minor))) == Some(m),
{
    broadcast use {
        crate::le::lemma_le,
        crate::wire::lookup::group_push,
        crate::wire::tlv::lemma_all_fit_push,
    };

    law_written_fields_read_back(VideoConfig::fields(m, minor));
}

// ---- CONTROL_ACK ----------------------------------------------------------------------------------

#[derive(Clone, Copy, Debug, PartialEq, Eq, Structural)]
pub struct ControlAck {
    pub req_id: u32,
    pub result: u8,
}

impl View for ControlAck {
    type V = ControlAck;

    open spec fn view(&self) -> ControlAck {
        *self
    }
}

impl Default for ControlAck {
    fn default() -> (m: Self)
        ensures
            m == (ControlAck { req_id: 0, result: 0 }),
    {
        ControlAck { req_id: 0, result: 0 }
    }
}

impl Message for ControlAck {
    const TYPE: u16 = msg::CONTROL_ACK;

    open spec fn type_id() -> u16 {
        msg::CONTROL_ACK
    }

    fn message_type() -> (r: u16) {
        Self::TYPE
    }

    open spec fn fields(m: ControlAck, _minor: u8) -> Seq<Field> {
        Seq::empty().push(num(1, m.req_id)).push(num(2, m.result))
    }

    open spec fn from_fields(fs: Seq<Field>) -> Option<ControlAck> {
        match (number_of::<u32>(fs, 1), number_of::<u8>(fs, 2)) {
            (Slot::Is(req_id), Slot::Is(result)) => Some(ControlAck { req_id, result }),
            _ => None,
        }
    }

    open spec fn knows(tag: u16) -> bool {
        1 <= tag <= 2
    }

    proof fn law_unknown_fields_are_skipped(a: Seq<Field>, f: Field, b: Seq<Field>) {
        broadcast use crate::wire::lookup::group_skips;

    }

    fn encode(&self, w: &mut TlvWriter<'_>, _minor: u8) {
        broadcast use crate::wire::tlv::lemma_append;

        assert(w.0@ =~= old(w).0@ + tlv_bytes(Seq::empty()));
        w.u32(1, self.req_id);
        w.u8(2, self.result);
    }

    fn decode(v: &[u8]) -> (r: Option<Self>) {
        let fs = fields(v)?;
        let req_id: u32 = number::<u32>(&fs, 1).required()?;
        let result: u8 = number::<u8>(&fs, 2).required()?;
        Some(ControlAck { req_id, result })
    }
}

/// A CONTROL_ACK comes back as it was sent.
pub proof fn law_control_ack_round_trip(m: ControlAck, minor: u8)
    ensures
        decoded::<ControlAck>(tlv_bytes(ControlAck::fields(m, minor))) == Some(m),
{
    broadcast use {
        crate::le::lemma_le,
        crate::wire::lookup::group_push,
        crate::wire::tlv::lemma_all_fit_push,
    };

    law_written_fields_read_back(ControlAck::fields(m, minor));
}

// ---- CONTROL_STATE -------------------------------------------------------------------------------

#[derive(Clone, Copy, Debug, PartialEq, Eq, Structural)]
pub struct ControlState(pub lenny_control_state);

impl View for ControlState {
    type V = ControlState;

    open spec fn view(&self) -> ControlState {
        *self
    }
}

impl Message for ControlState {
    const TYPE: u16 = msg::CONTROL_STATE;

    open spec fn type_id() -> u16 {
        msg::CONTROL_STATE
    }

    fn message_type() -> (r: u16) {
        Self::TYPE
    }

    open spec fn fields(m: ControlState, minor: u8) -> Seq<Field> {
        let s = m.0;
        let fs = Seq::empty()
        .push(num(1, s.af_mode))
        .push(num(2, s.exposure_comp))
        .push(num(3, s.exposure_lock))
        .push(num(4, s.wb_lock))
        .push(num(5, s.torch))
        .push(num(6, s.lens_id))
        .push(num(7, s.zoom))
        .push(num(8, s.battery))
        .push(num(9, s.charging));
        let fs = push_if(fs, minor >= 1, num(10, s.pan_x));
        push_if(fs, minor >= 1, num(11, s.pan_y))
    }

    /// Older phones send no battery or pan: unknown battery, centered.
    open spec fn from_fields(fs: Seq<Field>) -> Option<ControlState> {
        match (
            number_of::<u8>(fs, 1).or(0),
            number_of::<i32>(fs, 2).or(0),
            number_of::<u8>(fs, 3).or(0),
            number_of::<u8>(fs, 4).or(0),
            number_of::<u8>(fs, 5).or(0),
            number_of::<u8>(fs, 6).or(0),
            number_of::<u16>(fs, 7).or(0),
            number_of::<u8>(fs, 8).or(255),
            number_of::<u8>(fs, 9).or(0),
            number_of::<u16>(fs, 10).or(PAN_CENTER),
            number_of::<u16>(fs, 11).or(PAN_CENTER),
        ) {
            (
                Some(af_mode),
                Some(exposure_comp),
                Some(exposure_lock),
                Some(wb_lock),
                Some(torch),
                Some(lens_id),
                Some(zoom),
                Some(battery),
                Some(charging),
                Some(pan_x),
                Some(pan_y),
            ) => Some(
                ControlState(
                    lenny_control_state {
                        af_mode,
                        exposure_comp,
                        exposure_lock,
                        wb_lock,
                        torch,
                        lens_id,
                        zoom,
                        battery,
                        charging,
                        pan_x,
                        pan_y,
                    },
                ),
            ),
            _ => None,
        }
    }

    open spec fn knows(tag: u16) -> bool {
        1 <= tag <= 11
    }

    proof fn law_unknown_fields_are_skipped(a: Seq<Field>, f: Field, b: Seq<Field>) {
        broadcast use crate::wire::lookup::group_skips;

    }

    fn encode(&self, w: &mut TlvWriter<'_>, minor: u8) {
        broadcast use crate::wire::tlv::lemma_append;

        assert(w.0@ =~= old(w).0@ + tlv_bytes(Seq::empty()));
        let s = &self.0;
        w.u8(1, s.af_mode);
        w.i32(2, s.exposure_comp);
        w.u8(3, s.exposure_lock);
        w.u8(4, s.wb_lock);
        w.u8(5, s.torch);
        w.u8(6, s.lens_id);
        w.u16(7, s.zoom);
        w.u8(8, s.battery);
        w.u8(9, s.charging);
        if minor >= 1 {
            w.u16(10, s.pan_x);
            w.u16(11, s.pan_y);
        }
    }

    fn decode(v: &[u8]) -> (r: Option<Self>) {
        let fs = fields(v)?;
        let af_mode: u8 = number::<u8>(&fs, 1).or(0)?;
        let exposure_comp: i32 = number::<i32>(&fs, 2).or(0)?;
        let exposure_lock: u8 = number::<u8>(&fs, 3).or(0)?;
        let wb_lock: u8 = number::<u8>(&fs, 4).or(0)?;
        let torch: u8 = number::<u8>(&fs, 5).or(0)?;
        let lens_id: u8 = number::<u8>(&fs, 6).or(0)?;
        let zoom: u16 = number::<u16>(&fs, 7).or(0)?;
        let battery: u8 = number::<u8>(&fs, 8).or(255)?;
        let charging: u8 = number::<u8>(&fs, 9).or(0)?;
        let pan_x: u16 = number::<u16>(&fs, 10).or(PAN_CENTER)?;
        let pan_y: u16 = number::<u16>(&fs, 11).or(PAN_CENTER)?;
        Some(
            ControlState(
                lenny_control_state {
                    af_mode,
                    exposure_comp,
                    exposure_lock,
                    wb_lock,
                    torch,
                    lens_id,
                    zoom,
                    battery,
                    charging,
                    pan_x,
                    pan_y,
                },
            ),
        )
    }
}

/// A CONTROL_STATE comes back as it was sent, but for the pan, which a peer older than 1.1 is not
/// told and takes to be centered.
pub proof fn law_control_state_round_trip(m: ControlState, minor: u8)
    ensures
        decoded::<ControlState>(tlv_bytes(ControlState::fields(m, minor))) == Some(
            ControlState(
                lenny_control_state {
                    pan_x: if minor >= 1 {
                        m.0.pan_x
                    } else {
                        PAN_CENTER
                    },
                    pan_y: if minor >= 1 {
                        m.0.pan_y
                    } else {
                        PAN_CENTER
                    },
                    ..m.0
                },
            ),
        ),
{
    broadcast use {
        crate::le::lemma_le,
        crate::wire::lookup::group_push,
        crate::wire::tlv::lemma_all_fit_push,
    };

    law_written_fields_read_back(ControlState::fields(m, minor));
}

} // verus!
