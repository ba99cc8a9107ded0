//! What a session asks the program around it to do.
use vstd::prelude::*;
use crate::abi::{
    lenny_control, lenny_control_state, lenny_event, lenny_state, lenny_stream_settings, lenny_video_frame,
};
use crate::wire::message::DeviceId;

verus! {

/// One thing to do. Effects are carried out in order.
pub enum Effect {
    /// Send these bytes. If that fails, the link is lost, and nothing that follows is done.
    Send(Vec<u8>),
    /// Send these bytes. If that fails, the next read will tell.
    Post(Vec<u8>),
    /// Send these bytes if the link is free, before it is closed.
    Goodbye(Vec<u8>),
    /// The state changed.
    State(lenny_state, i32),
    /// Tell the user interface.
    Event(lenny_event, i32, i32),
    /// Ask the user whether this device, with this name, may connect.
    ApprovalNeeded(DeviceId, Vec<u8>),
    /// Ask the platform what it makes of these settings, and pass the answer to
    /// `stream_configured`.
    StreamConfig(lenny_stream_settings),
    /// Have the platform carry out a control, and pass the result to `control_done`.
    Control(lenny_control),
    /// Have the encoder produce a keyframe.
    KeyframeRequest,
    /// Have the encoder produce this many kbit/s.
    Bitrate(u32),
    StreamStart(lenny_stream_settings),
    /// The stream's state and the reason for it.
    StreamStatus(u8, Vec<u8>),
    VideoConfig(Vec<u8>),
    VideoFrame(lenny_video_frame),
    ControlState(lenny_control_state),
    /// The request's id and its result.
    ControlAck(u32, u8),
}

#[verifier::ext_equal]
pub struct FrameView {
    pub frame_seq: u32,
    pub pts_us: i64,
    pub local_pts_us: i64,
    pub orientation: u8,
    pub flags: u8,
    pub data: Seq<u8>,
}

impl View for lenny_video_frame {
    type V = FrameView;

    open spec fn view(&self) -> FrameView {
        FrameView {
            frame_seq: self.frame_seq,
            pts_us: self.pts_us,
            local_pts_us: self.local_pts_us,
            orientation: self.orientation,
            flags: self.flags,
            data: self.data@,
        }
    }
}

#[verifier::ext_equal]
pub enum EffectView {
    Send(Seq<u8>),
    Post(Seq<u8>),
    Goodbye(Seq<u8>),
    State(lenny_state, i32),
    Event(lenny_event, i32, i32),
    ApprovalNeeded(Seq<u8>, Seq<u8>),
    StreamConfig(lenny_stream_settings),
    Control(lenny_control),
    KeyframeRequest,
    Bitrate(u32),
    StreamStart(lenny_stream_settings),
    StreamStatus(u8, Seq<u8>),
    VideoConfig(Seq<u8>),
    VideoFrame(FrameView),
    ControlState(lenny_control_state),
    ControlAck(u32, u8),
}

impl View for Effect {
    type V = EffectView;

    open spec fn view(&self) -> EffectView {
        match self {
            Effect::Send(b) => EffectView::Send(b@),
            Effect::Post(b) => EffectView::Post(b@),
            Effect::Goodbye(b) => EffectView::Goodbye(b@),
            Effect::State(s, r) => EffectView::State(*s, *r),
            Effect::Event(e, a, b) => EffectView::Event(*e, *a, *b),
            Effect::ApprovalNeeded(id, name) => EffectView::ApprovalNeeded(id@, name@),
            Effect::StreamConfig(s) => EffectView::StreamConfig(*s),
            Effect::Control(c) => EffectView::Control(*c),
            Effect::KeyframeRequest => EffectView::KeyframeRequest,
            Effect::Bitrate(k) => EffectView::Bitrate(*k),
            Effect::StreamStart(s) => EffectView::StreamStart(*s),
            Effect::StreamStatus(s, r) => EffectView::StreamStatus(*s, r@),
            Effect::VideoConfig(c) => EffectView::VideoConfig(c@),
            Effect::VideoFrame(f) => EffectView::VideoFrame(f@),
            Effect::ControlState(s) => EffectView::ControlState(*s),
            Effect::ControlAck(id, r) => EffectView::ControlAck(*id, *r),
        }
    }
}

/// What a list of effects stands for.
pub open spec fn effects_view(es: Seq<Effect>) -> Seq<EffectView> {
    es.map_values(|e: Effect| e@)
}

/// What a step of a link came to.
pub struct Step {
    pub effects: Vec<Effect>,
    /// The reason to end the link, if it is to end.
    pub end: Option<i32>,
}

#[verifier::ext_equal]
pub struct StepView {
    pub effects: Seq<EffectView>,
    pub end: Option<i32>,
}

impl View for Step {
    type V = StepView;

    open spec fn view(&self) -> StepView {
        StepView { effects: effects_view(self.effects@), end: self.end }
    }
}

/// Do these things and go on.
pub open spec fn go_on(effects: Seq<EffectView>) -> StepView {
    StepView { effects, end: None }
}

/// Nothing to do.
pub open spec fn nothing() -> StepView {
    go_on(Seq::empty())
}

impl Step {
    pub fn nothing() -> (r: Step)
        ensures
            r@ == nothing(),
    {
        let r = Step { effects: Vec::new(), end: None };
        assert(r@ =~= nothing());
        r
    }

    /// A step without effects that ends the link.
    pub fn end(reason: i32) -> (r: Step)
        ensures
            r@ == (StepView { effects: Seq::empty(), end: Some(reason) }),
    {
        let r = Step { effects: Vec::new(), end: Some(reason) };
        assert(effects_view(r.effects@) =~= Seq::empty());
        r
    }

    /// Adds an effect.
    pub fn push(&mut self, e: Effect)
        ensures
            final(self)@ == (StepView { effects: old(self)@.effects.push(e@), ..old(self)@ }),
    {
        self.effects.push(e);
        assert(effects_view(self.effects@) =~= effects_view(old(self).effects@).push(e@));
    }
}

} // verus!
