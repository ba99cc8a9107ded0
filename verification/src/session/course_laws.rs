//! What holds of the course of a link: who says what when, how long each waits, and what is known of the other side.
use vstd::prelude::*;
use crate::abi::{
    lenny_control, lenny_control_cmd, lenny_event, lenny_identity, lenny_state, lenny_stats, lenny_stream_settings,
};
use crate::pairing::{answer, law_the_first_issue_of_a_token_counts};
use crate::session::api::{connect_code, control_refused, stats_of, with_token};
use crate::session::effect::{EffectView, go_on};
use crate::session::laws::hears;
use crate::session::link::{
    caps_received, configured_step, ended, goodbye, message_step, start_received, start_step, started_step, tick_step,
};
use crate::session::peer::{law_text_that_fits_reads_back, text_into, until_nul};
use crate::session::state::{Approval, Phase, Role, SenderConfig, SessionView, caps_of, fresh, hello_of};
use crate::wire::caps::{CapsView, Lens};
use crate::wire::frame::{Front, Header, after_front, front};
use crate::wire::message::{Message, decoded, law_a_message_reads_back, message_bytes};
use crate::wire::simple::{
    Goodbye, GoodbyeView, Hello, HelloView, PairRequest, PairResult, Ping, Pong, StreamStatus, StreamStatusView,
    law_goodbye_round_trip, law_hello_round_trip, law_pair_request_round_trip, law_pair_result_round_trip,
    law_ping_round_trip, law_pong_round_trip, law_stream_status_round_trip,
};
use crate::wire::tlv::{all_fit, lemma_tlv_bytes_empty, tlv_bytes, tlv_fields};

verus! {

/// A time that lies `d` after `now`, as long as there is such a time.
pub open spec fn is_after(t: i64, now: i64, d: int) -> bool {
    now + d <= i64::MAX ==> t == now + d
}

/// `bytes` are one whole message of this type and minor version, and it says `m`.
pub open spec fn is_saying<M: Message>(bytes: Seq<u8>, typ: u16, minor: u8, m: M::V) -> bool {
    front(bytes) matches Front::Message(h, p) && h.ver_major == 1 && h.ver_minor == minor && h.typ == typ && decoded::<
        M,
    >(p) == Some(m) && after_front(bytes).len() == 0
}

pub proof fn lemma_whole<M: Message>(m: M::V, minor: u8)
    requires
        all_fit(M::fields(m, minor)),
        tlv_bytes(M::fields(m, minor)).len() <= 65536,
        M::from_fields(M::fields(m, minor)) == Some(m),
    ensures
        is_saying::<M>(message_bytes::<M>(m, minor), M::type_id(), minor, m),
{
    law_a_message_reads_back::<M>(m, minor, Seq::empty());
    assert(message_bytes::<M>(m, minor) + Seq::<u8>::empty() =~= message_bytes::<M>(m, minor));
}

/// `bytes` say GOODBYE with this reason and no text.
pub open spec fn says_goodbye(bytes: Seq<u8>, reason: int, minor: u8) -> bool {
    is_saying::<Goodbye>(bytes, 2, minor, GoodbyeView { reason: reason as u16, detail: Seq::empty() })
}

/// A link that is ended with a reason ends with a GOODBYE that tells the other side that reason.
pub proof fn law_a_goodbye_tells_the_reason(s: SessionView, reason: i32)
    requires
        0 <= reason < 65536,
    ensures
        goodbye(s, reason).end == Some(reason),
        goodbye(s, reason).effects.len() == 1,
        goodbye(s, reason).effects[0] matches EffectView::Goodbye(b) && says_goodbye(b, reason as int, s.minor),
{
    broadcast use {crate::le::lemma_le, crate::wire::tlv::lemma_all_fit_push, crate::wire::tlv::lemma_tlv_bytes_push};

    let m = GoodbyeView { reason: reason as u16, detail: Seq::empty() };
    lemma_tlv_bytes_empty();
    law_goodbye_round_trip(m, s.minor);
    crate::wire::tlv::law_written_fields_read_back(Goodbye::fields(m, s.minor));
    lemma_whole::<Goodbye>(m, s.minor);
}

/// A side that hears GOODBYE ends the link for the reason that it was told, in any phase, and changes nothing.
pub proof fn law_a_goodbye_ends_the_link(s: SessionView, m: GoodbyeView, minor: u8, now: i64)
    ensures
        hears::<Goodbye>(s, m, minor, now).0 == s,
        hears::<Goodbye>(s, m, minor, now).1.end == Some(m.reason as i32),
        hears::<Goodbye>(s, m, minor, now).1.effects.len() == 0,
{
    law_goodbye_round_trip(m, minor);
}

/// A new link starts with HELLO, which the sender says and the receiver waits for, five seconds at most. What the last
/// link came to is forgotten: version, clocks, answers.
pub proof fn law_a_link_starts_with_hello(s: SessionView, now: i64)
    ensures
        ({
            let (t, told) = start_step(s, now);
            &&& t.link.phase == Phase::HelloWait
            &&& is_after(t.link.phase_deadline, now, 5_000_000)
            &&& t.link.last_rx == now
            &&& !t.link.reached_streaming
            &&& t.link.pair_token == s.link.pair_token
            &&& t.minor == 1
            &&& t.approval == Approval::Pending
            &&& t.clock.len() == 0
            &&& t.state == lenny_state::LENNY_STATE_HANDSHAKE
            &&& t.last_reason == 0
            &&& t.trusted == s.trusted && t.tokens == s.tokens && t.vq == s.vq && t.stats == s.stats
            &&& s.role == Role::Sender ==> told.len() > 0 && told.last() == EffectView::Send(
                message_bytes::<Hello>(s.hello, 1),
            )
            &&& s.role == Role::Receiver ==> forall|i: int|
                0 <= i < told.len() ==> !((#[trigger] told[i]) is Send) && !(told[i] is Post)
        }),
{
}

/// A state is told when it, or the reason for it, is new, and only then: as a state and as an event, with its number.
pub proof fn law_a_new_state_is_told(s: SessionView, now: i64)
    ensures
        ({
            let (t, told) = start_step(s, now);
            let known = s.state == lenny_state::LENNY_STATE_HANDSHAKE && s.last_reason == 0;
            &&& !known ==> told.len() >= 2 && told[0] == EffectView::State(lenny_state::LENNY_STATE_HANDSHAKE, 0)
                && told[1] == EffectView::Event(lenny_event::LENNY_EVENT_STATE, 2, 0)
            &&& known ==> forall|i: int|
                0 <= i < told.len() ==> !((#[trigger] told[i]) is State) && !(told[i] is Event)
        }),
{
}

/// What a side learns from HELLO: who the other one is, and the lower of both minor versions. The receiver answers with
/// its own HELLO in that version and waits five seconds for a token or CAPS. The sender redeems its token where it has
/// one, and waits thirty seconds; else it tells what it can do, and waits thirty-five. A PING follows a second later.
#[verifier::spinoff_prover]
#[verifier::rlimit(40)]
pub proof fn law_hello_introduces_the_other_side(s: SessionView, h: HelloView, minor: u8, now: i64)
    requires
        s.link.phase == Phase::HelloWait,
        h.proto_major == 1,
        h.device_id.len() == 16,
        h.device_name.len() <= 0xFFFF,
        h.app_version.len() <= 0xFFFF,
        h.role != s.hello.role,
    ensures
        ({
            let (t, step) = hears::<Hello>(s, h, minor, now);
            let low = if h.proto_minor < 1 {
                h.proto_minor
            } else {
                1
            };
            &&& t.minor == low
            &&& t.link.peer == h
            &&& t.info.has_peer && !t.info.has_caps
            &&& t.info.peer_info.device_id == h.device_id
            &&& t.info.peer_info.platform == h.platform
            &&& t.info.peer_info.lens_count == 0 && t.info.peer_info.mode_count == 0
            &&& t.info.peer_info.name == text_into(Seq::new(64, |i: int| 0u8), h.device_name)
            &&& is_after(t.link.next_ping, now, 1_000_000)
            &&& step.end is None
            &&& step.effects.len() == 1
            &&& s.role == Role::Receiver ==> t.link.phase == Phase::PairOrCaps && is_after(
                t.link.phase_deadline,
                now,
                5_000_000,
            ) && step.effects[0] == EffectView::Send(message_bytes::<Hello>(s.hello, low))
            &&& s.role == Role::Sender && s.link.pair_token is Some ==> t.link.phase == Phase::PairWait && is_after(
                t.link.phase_deadline,
                now,
                30_000_000,
            ) && step.effects[0] == EffectView::Post(message_bytes::<PairRequest>(s.link.pair_token->0, low))
            &&& s.role == Role::Sender && s.link.pair_token is None ==> t.link.phase == Phase::CapsWait && is_after(
                t.link.phase_deadline,
                now,
                35_000_000,
            ) && step.effects[0] == EffectView::Post(message_bytes::<crate::wire::caps::Caps>(s.caps, low))
            &&& t.trusted == s.trusted && t.tokens == s.tokens && t.state == s.state && t.clock == s.clock
        }),
{
    law_hello_round_trip(h, minor);
}

/// A name that a peer info can hold, at most 63 bytes and none of them zero, reads back from it.
pub proof fn law_the_other_sides_name_is_known(s: SessionView, h: HelloView, minor: u8, now: i64)
    requires
        s.link.phase == Phase::HelloWait,
        h.proto_major == 1,
        h.device_id.len() == 16,
        h.device_name.len() < 64,
        h.app_version.len() <= 0xFFFF,
        h.role != s.hello.role,
        forall|i: int| 0 <= i < h.device_name.len() ==> #[trigger] h.device_name[i] != 0,
    ensures
        until_nul(hears::<Hello>(s, h, minor, now).0.info.peer_info.name) == h.device_name,
{
    law_hello_introduces_the_other_side(s, h, minor, now);
    law_text_that_fits_reads_back(Seq::new(64, |i: int| 0u8), h.device_name);
}

/// A side that cannot be talked to is told why: another major version 1, the same role 2.
pub proof fn law_a_hello_that_does_not_fit_is_refused(s: SessionView, h: HelloView, minor: u8, now: i64)
    requires
        s.link.phase == Phase::HelloWait,
        h.device_id.len() == 16,
        h.proto_major != 1 || h.role == s.hello.role,
    ensures
        ({
            let (t, step) = hears::<Hello>(s, h, minor, now);
            let why = if h.proto_major != 1 {
                1i32
            } else {
                2
            };
            &&& t == s
            &&& step.end == Some(why)
            &&& step.effects.len() == 1
            &&& step.effects[0] matches EffectView::Goodbye(b) && says_goodbye(b, why as int, s.minor)
        }),
{
    law_hello_round_trip(h, minor);
    law_a_goodbye_tells_the_reason(s, 1);
    law_a_goodbye_tells_the_reason(s, 2);
}

/// A PING is answered at once, with its own number and time, when it came in and when it was answered.
pub proof fn law_a_ping_is_answered(s: SessionView, ping: Ping, minor: u8, now: i64, at: i64)
    requires
        s.link.phase != Phase::HelloWait,
    ensures
        ({
            let p = tlv_bytes(Ping::fields(ping, minor));
            let (t, step) = message_step(s, crate::session::laws::header_for(3, minor, p.len()), p, now, at);
            &&& t == s
            &&& step.end is None
            &&& step.effects.len() == 1
            &&& step.effects[0] matches EffectView::Send(b) && is_saying::<Pong>(
                b,
                4,
                s.minor,
                Pong { seq: ping.seq, t1: ping.t1, t2: now, t3: at },
            )
        }),
{
    broadcast use {crate::le::lemma_le, crate::wire::tlv::lemma_all_fit_push, crate::wire::tlv::lemma_tlv_bytes_push};

    let pong = Pong { seq: ping.seq, t1: ping.t1, t2: now, t3: at };
    lemma_tlv_bytes_empty();
    law_ping_round_trip(ping, minor);
    law_pong_round_trip(pong, s.minor);
    crate::wire::tlv::law_written_fields_read_back(Pong::fields(pong, s.minor));
    lemma_whole::<Pong>(pong, s.minor);
    let p = tlv_bytes(Ping::fields(ping, minor));
    let step = message_step(s, crate::session::laws::header_for(3, minor, p.len()), p, now, at).1;
    assert(decoded::<Ping>(p) == Some(ping));
    assert(step.effects[0] == EffectView::Send(message_bytes::<Pong>(pong, s.minor)));
}

/// A link is silent for three seconds at most, in any phase.
pub proof fn law_three_seconds_of_silence_end_a_link(s: SessionView, now: i64)
    requires
        now - s.link.last_rx > 3_000_000,
    ensures
        tick_step(s, now).0 == s,
        tick_step(s, now).1.end == Some(100i32),
        tick_step(s, now).1.effects.len() == 0,
{
}

/// A phase that takes longer than it may ends the link, and the other side is told: 5 for a timeout, 3 where the user
/// did not answer. A running stream has no such limit.
pub proof fn law_a_phase_that_takes_too_long_ends_the_link(s: SessionView, now: i64)
    requires
        now - s.link.last_rx <= 3_000_000,
        s.link.phase != Phase::Streaming,
        s.link.phase == Phase::ApprovalWait ==> s.approval == Approval::Pending,
        now > s.link.phase_deadline,
    ensures
        ({
            let (t, step) = tick_step(s, now);
            let why = if s.link.phase == Phase::ApprovalWait {
                3i32
            } else {
                5
            };
            &&& t == s
            &&& step.end == Some(why)
            &&& step.effects.len() == 1
            &&& step.effects[0] matches EffectView::Goodbye(b) && says_goodbye(b, why as int, s.minor)
        }),
{
    law_a_goodbye_tells_the_reason(s, 3);
    law_a_goodbye_tells_the_reason(s, 5);
    let bye = goodbye(
        s,
        if s.link.phase == Phase::ApprovalWait {
            3
        } else {
            5
        },
    );
    assert(Seq::<EffectView>::empty() + bye.effects =~= bye.effects);
}

/// While a link goes on, a PING goes out every second, each with the next number and the time at which it was sent.
pub proof fn law_a_ping_goes_out_every_second(s: SessionView, now: i64)
    requires
        now - s.link.last_rx <= 3_000_000,
        s.link.phase != Phase::HelloWait,
        s.link.phase == Phase::ApprovalWait ==> s.approval == Approval::Pending,
        s.link.phase == Phase::Streaming || now <= s.link.phase_deadline,
    ensures
        ({
            let (t, step) = tick_step(s, now);
            let number = if s.ping_seq == u32::MAX {
                0u32
            } else {
                (s.ping_seq + 1) as u32
            };
            &&& step.end is None
            &&& now < s.link.next_ping ==> t == s && step.effects.len() == 0
            &&& now >= s.link.next_ping ==> {
                &&& is_after(t.link.next_ping, now, 1_000_000)
                &&& t.ping_seq == number
                &&& t.link.phase == s.link.phase && t.link.phase_deadline == s.link.phase_deadline
                &&& step.effects.len() == 1
                &&& step.effects[0] matches EffectView::Send(b) && is_saying::<Ping>(
                    b,
                    3,
                    s.minor,
                    Ping { seq: number, t1: now },
                )
            }
        }),
{
    broadcast use {crate::le::lemma_le, crate::wire::tlv::lemma_all_fit_push, crate::wire::tlv::lemma_tlv_bytes_push};

    let number = if s.ping_seq == u32::MAX {
        0u32
    } else {
        (s.ping_seq + 1) as u32
    };
    let ping = Ping { seq: number, t1: now };
    lemma_tlv_bytes_empty();
    law_ping_round_trip(ping, s.minor);
    crate::wire::tlv::law_written_fields_read_back(Ping::fields(ping, s.minor));
    lemma_whole::<Ping>(ping, s.minor);
    if now >= s.link.next_ping {
        assert(tick_step(s, now).1.effects[0] == EffectView::Send(message_bytes::<Ping>(ping, s.minor)));
    }
}

/// Before HELLO there are no PINGs: until the deadline nothing happens.
pub proof fn law_nothing_is_sent_before_hello(s: SessionView, now: i64)
    requires
        now - s.link.last_rx <= 3_000_000,
        s.link.phase == Phase::HelloWait,
        now <= s.link.phase_deadline,
    ensures
        tick_step(s, now).0 == s,
        tick_step(s, now).1.effects.len() == 0,
        tick_step(s, now).1.end is None,
{
}

/// A device that the user accepts is trusted from then on, and gets the receiver's choice first; the stream has five
/// seconds to start.
pub proof fn law_an_accepted_device_goes_on(s: SessionView, now: i64)
    requires
        now - s.link.last_rx <= 3_000_000,
        now <= i64::MAX - 5_000_000,
        s.link.phase == Phase::ApprovalWait,
        s.approval == Approval::Accepted,
    ensures
        ({
            let (t, step) = tick_step(s, now);
            &&& t.trusted == s.trusted.insert(s.link.peer.device_id)
            &&& t.link.phase == Phase::StreamStartWait
            &&& t.link.phase_deadline == now + 5_000_000
            &&& t.state == lenny_state::LENNY_STATE_HANDSHAKE
            &&& step.end is None
            &&& step.effects[0] == EffectView::Post(
                message_bytes::<crate::wire::control::CapsSelect>(
                    crate::session::negotiate::chosen(s.info.peer_caps, s.info.preferred),
                    s.minor,
                ),
            )
        }),
{
}

/// A token that the receiver issued is good for the time that was asked for, a minute and a half where none was, and
/// once. A phone that redeems it is told so, and is trusted.
#[verifier::spinoff_prover]
#[verifier::rlimit(40)]
pub proof fn law_an_issued_token_pairs_a_phone(
    rx: SessionView,
    ttl_ms: u32,
    token: Seq<u8>,
    issued: i64,
    minor: u8,
    now: i64,
)
    requires
        token.len() == 16,
        forall|i: int| 0 <= i < rx.tokens.len() ==> (#[trigger] rx.tokens[i]).token != token,
        rx.role == Role::Receiver,
        rx.link.phase == Phase::PairOrCaps,
    ensures
        ({
            let s = with_token(rx, ttl_ms, token, issued);
            let (t, step) = hears::<PairRequest>(s, token, minor, now);
            let time = if ttl_ms == 0 {
                90_000_000int
            } else {
                ttl_ms * 1000
            };
            let good = now - issued <= time;
            &&& s.trusted == rx.trusted && s.link == rx.link
            &&& good ==> t.trusted == rx.trusted.insert(rx.link.peer.device_id) && step.end is None && is_after(
                t.link.phase_deadline,
                now,
                5_000_000,
            ) && t.link.phase == Phase::PairOrCaps
            &&& good ==> answer(t.tokens, token, now) == 3
            &&& !good ==> t == s && step.end == Some(3i32)
            &&& step.effects.len() > 0
            &&& step.effects[0] matches EffectView::Post(b) && is_saying::<PairResult>(
                b,
                0x11,
                rx.minor,
                PairResult {
                    result: if good {
                        0
                    } else {
                        2
                    },
                },
            )
        }),
{
    broadcast use {crate::le::lemma_le, crate::wire::tlv::lemma_all_fit_push, crate::wire::tlv::lemma_tlv_bytes_push};

    let s = with_token(rx, ttl_ms, token, issued);
    let k = rx.tokens.len() as int;
    lemma_tlv_bytes_empty();
    law_pair_request_round_trip(token, minor);
    law_the_first_issue_of_a_token_counts(s.tokens, token, k, now);
    let r = PairResult { result: answer(s.tokens, token, now) };
    law_pair_result_round_trip(r, rx.minor);
    crate::wire::tlv::law_written_fields_read_back(PairResult::fields(r, rx.minor));
    lemma_whole::<PairResult>(r, rx.minor);
    let t = hears::<PairRequest>(s, token, minor, now).0;
    if r.result == 0 {
        assert forall|i: int| 0 <= i < k implies (#[trigger] t.tokens[i]).token != token by {
            assert(t.tokens[i].token == s.tokens[i].token);
            assert(s.tokens[i] == rx.tokens[i]);
        }
        assert(t.tokens[k].token == s.tokens[k].token);
        law_the_first_issue_of_a_token_counts(t.tokens, token, k, now);
    }
}

/// A token that was never issued is answered 1, and the link is ended with 3: nobody is trusted for it.
pub proof fn law_a_token_that_was_never_issued_is_refused(rx: SessionView, token: Seq<u8>, minor: u8, now: i64)
    requires
        token.len() == 16,
        forall|i: int| 0 <= i < rx.tokens.len() ==> (#[trigger] rx.tokens[i]).token != token,
        rx.role == Role::Receiver,
        rx.link.phase == Phase::PairOrCaps,
    ensures
        hears::<PairRequest>(rx, token, minor, now).0 == rx,
        hears::<PairRequest>(rx, token, minor, now).1.end == Some(3i32),
        hears::<PairRequest>(rx, token, minor, now).1.effects[0] == EffectView::Post(
            message_bytes::<PairResult>(PairResult { result: 1 }, rx.minor),
        ),
{
    law_pair_request_round_trip(token, minor);
    law_the_first_issue_of_a_token_counts(rx.tokens, token, rx.tokens.len() as int, now);
}

/// What is known of a phone once its CAPS came in: its controls, and its lenses and modes as far as there is room,
/// eight and thirty-two, each at its own place.
pub proof fn law_caps_describe_the_phone(s: SessionView, caps: CapsView, now: i64, i: int)
    requires
        s.info.peer_info.lens_ids.len() == 8,
        s.info.peer_info.lens_facing.len() == 8,
        s.info.peer_info.lens_labels.len() == 8,
        s.info.peer_info.modes.len() == 32,
        forall|k: int| 0 <= k < 8 ==> (#[trigger] s.info.peer_info.lens_labels[k]).len() == 32,
    ensures
        ({
            let (t, _) = caps_received(s, caps, now);
            let p = t.info.peer_info;
            let lenses = if caps.lenses.len() < 8 {
                caps.lenses.len()
            } else {
                8
            };
            let modes = if caps.modes.len() < 32 {
                caps.modes.len()
            } else {
                32
            };
            &&& t.info.has_caps && t.info.peer_caps == caps
            &&& p.device_id == s.info.peer_info.device_id && p.name == s.info.peer_info.name && p.platform
                == s.info.peer_info.platform
            &&& p.controls == caps.controls % 0x1_0000_0000
            &&& p.lens_count == lenses && p.mode_count == modes
            &&& 0 <= i < lenses ==> p.lens_ids[i] == caps.lenses[i].id && p.lens_facing[i] == caps.lenses[i].facing
            &&& 0 <= i < lenses && caps.lenses[i].label.len() < 32 && (forall|k: int|
                0 <= k < caps.lenses[i].label.len() ==> #[trigger] caps.lenses[i].label[k] != 0) ==> until_nul(
                p.lens_labels[i],
            ) == caps.lenses[i].label
            &&& 0 <= i < modes ==> p.modes[i] == caps.modes[i]
            &&& caps.has_exposure_range ==> p.exposure_min == caps.exposure_min && p.exposure_max == caps.exposure_max
                && p.exposure_step_milli == caps.exposure_step_milli
        }),
{
    if 0 <= i < 8 && i < caps.lenses.len() && caps.lenses[i].label.len() < 32 && (forall|k: int|
        0 <= k < caps.lenses[i].label.len() ==> #[trigger] caps.lenses[i].label[k] != 0) {
        assert(s.info.peer_info.lens_labels[i].len() == 32);
        law_text_that_fits_reads_back(s.info.peer_info.lens_labels[i], caps.lenses[i].label);
    }
}

/// A text reads as far as its first zero byte.
pub proof fn law_a_text_ends_at_its_first_zero(b: Seq<u8>, n: int)
    requires
        0 <= n <= b.len(),
        n < b.len() ==> b[n] == 0,
        forall|i: int| 0 <= i < n ==> #[trigger] b[i] != 0,
    ensures
        until_nul(b) == b.take(n),
    decreases n,
{
    if n > 0 {
        let c = b.skip(1);
        assert forall|i: int| 0 <= i < n - 1 implies #[trigger] c[i] != 0 by {
            assert(c[i] == b[i + 1]);
        }
        assert(b[0] != 0);
        law_a_text_ends_at_its_first_zero(c, n - 1);
        assert(seq![b[0]] + c.take(n - 1) =~= b.take(n));
    } else {
        assert(until_nul(b) =~= b.take(0));
    }
}

/// A text that does not fit is cut, and a zero ends it in any case.
pub proof fn law_a_text_that_is_too_long_is_cut(dst: Seq<u8>, src: Seq<u8>)
    requires
        0 < dst.len() <= src.len(),
    ensures
        text_into(dst, src).len() == dst.len(),
        forall|i: int| 0 <= i < dst.len() - 1 ==> #[trigger] text_into(dst, src)[i] == src[i],
        text_into(dst, src)[dst.len() - 1] == 0,
{
}

/// The state of a stream arrives as the phone told it, with its text up to the first zero byte.
pub proof fn law_a_stream_status_arrives(rx: SessionView, m: StreamStatusView, minor: u8, now: i64)
    requires
        rx.role == Role::Receiver,
        rx.link.phase == Phase::Streaming,
        m.reason.len() <= 0xFFFF,
        forall|i: int| 0 <= i < m.reason.len() ==> #[trigger] m.reason[i] != 0,
    ensures
        hears::<StreamStatus>(rx, m, minor, now).0 == rx,
        hears::<StreamStatus>(rx, m, minor, now).1 == go_on(
            seq![
                EffectView::StreamStatus(m.state, m.reason),
                EffectView::Event(lenny_event::LENNY_EVENT_STREAM_STATUS, m.state as i32, 0),
            ],
        ),
{
    law_stream_status_round_trip(m, minor);
    law_a_text_ends_at_its_first_zero(m.reason, m.reason.len() as int);
    assert(m.reason.take(m.reason.len() as int) =~= m.reason);
}

/// A stream starts with the settings that the phone says it uses. From then on the phone is asked for nothing else.
pub proof fn law_a_stream_starts_with_the_phones_settings(
    tx: SessionView,
    rx: SessionView,
    st: lenny_stream_settings,
    now: i64,
)
    ensures
        ({
            let (t, step) = configured_step(tx, st);
            let (u, done) = started_step(t, st, now);
            let kbps = if st.bitrate_kbps == 0 {
                8000u32
            } else {
                st.bitrate_kbps
            };
            &&& t.vq.target_kbps == kbps && t.vq.current_kbps == kbps
            &&& t.vq.last_congestion == 0 && t.vq.next_raise == 0
            &&& t.vq.q == tx.vq.q && t.vq.video_config == tx.vq.video_config
            &&& t.stats.bitrate_kbps == st.bitrate_kbps
            &&& u.info.settings == st && u.info.has_settings
            &&& u.link.phase == Phase::Streaming
            &&& tx.link.phase != Phase::Streaming ==> u.streaming && u.link.reached_streaming && u.ever_streamed
                && u.state == lenny_state::LENNY_STATE_STREAMING
            &&& tx.link.phase != Phase::Streaming && tx.ever_streamed && tx.stats.reconnects < u32::MAX
                ==> u.stats.reconnects == tx.stats.reconnects + 1
            &&& tx.link.phase == Phase::Streaming || !tx.ever_streamed ==> u.stats.reconnects == tx.stats.reconnects
            &&& done.effects.len() > 0 && done.effects.last() == EffectView::KeyframeRequest
            &&& done.effects[0] == EffectView::Event(lenny_event::LENNY_EVENT_STREAM_START, 0, 0)
        }),
        ({
            let (t, step) = start_received(rx, st, now);
            let n = step.effects.len();
            &&& t.info.settings == st && t.info.has_settings
            &&& rx.link.phase != Phase::Streaming ==> t.streaming && t.link.phase == Phase::Streaming && t.state
                == lenny_state::LENNY_STATE_STREAMING
            &&& n >= 2 && step.effects[n - 2] == EffectView::StreamStart(st) && step.effects[n - 1]
                == EffectView::Event(lenny_event::LENNY_EVENT_STREAM_START, 0, 0)
        }),
{
}

/// When a connection is gone the stream is over. A sender forgets what waits, and starts again from a keyframe; it
/// keeps the configuration and the negotiated bitrate.
pub proof fn law_the_end_of_a_link(s: SessionView)
    ensures
        !ended(s).streaming,
        s.role == Role::Sender ==> ended(s).vq.q.len() == 0 && ended(s).vq.drop_until_key && ended(
            s,
        ).vq.video_config == s.vq.video_config && ended(s).vq.target_kbps == s.vq.target_kbps,
        s.role == Role::Receiver ==> ended(s).vq == s.vq,
        ended(s).trusted == s.trusted && ended(s).tokens == s.tokens && ended(s).stats == s.stats && ended(s).info
            == s.info && ended(s).link == s.link,
{
}

/// A control is sent by a receiver on a running stream, where there is one with its number, from 10 to 21, and not 21
/// to a phone of version 1.0. The errors: -1 no such control, -2 not now.
pub proof fn law_a_control_is_sent_only_where_it_can_be(s: SessionView, c: lenny_control)
    ensures
        control_refused(s, c) is None <==> s.role == Role::Receiver && s.streaming && 10 <= c.cmd <= 21 && (c.cmd != 21
            || s.minor >= 1),
        s.role == Role::Receiver && !(10 <= c.cmd <= 21) ==> control_refused(s, c) == Some(-1i32),
        control_refused(s, c) is Some && (s.role != Role::Receiver || 10 <= c.cmd <= 21) ==> control_refused(s, c)
            == Some(-2i32),
{
}

/// A sender connects to a host and a port that were given, once at a time.
pub proof fn law_a_sender_connects_once(s: SessionView, host: Seq<char>, port: u16, running: bool)
    ensures
        connect_code(s, host, port, running) == 0 <==> s.role == Role::Sender && host.len() > 0 && port != 0
            && !running,
        s.role == Role::Sender && host.len() > 0 && port != 0 && running ==> connect_code(s, host, port, running) == -2,
        s.role != Role::Sender || host.len() == 0 || port == 0 ==> connect_code(s, host, port, running) == -1,
{
}

/// The statistics tell the clocks where they are known, -1 and 0 where not, and all that was counted.
pub proof fn law_the_statistics_tell_what_was_counted(s: SessionView)
    ensures
        s.clock.len() == 0 ==> stats_of(s).rtt_us == -1 && stats_of(s).clock_offset_us == 0,
        s.clock.len() == 1 ==> stats_of(s).rtt_us == s.clock[0].rtt_us && stats_of(s).clock_offset_us
            == s.clock[0].offset_us,
        stats_of(s) == (lenny_stats {
            rtt_us: stats_of(s).rtt_us,
            clock_offset_us: stats_of(s).clock_offset_us,
            ..s.stats
        }),
{
}

/// How a side introduces itself: as 1, a sender, or 2, a receiver, with its own id, name, version and platform, and the
/// protocol's version 1.1. A new session has done nothing, trusts nobody and numbers its requests from 1.
pub proof fn law_a_new_session(id: lenny_identity, role: Role, caps: CapsView, port: u16, pref: lenny_stream_settings)
    ensures
        ({
            let h = hello_of(id, role);
            let s = fresh(role, h, caps, port, pref);
            &&& h.proto_major == 1 && h.proto_minor == 1
            &&& h.role == (if role == Role::Sender {
                1u8
            } else {
                2
            })
            &&& h.device_id == id.device_id@ && h.device_name == id.device_name@ && h.app_version == id.app_version@
                && h.platform == id.platform
            &&& s.role == role && s.hello == h && s.caps == caps && s.listen_port == port && s.info.preferred == pref
            &&& s.state == lenny_state::LENNY_STATE_IDLE && !s.streaming && !s.ever_streamed
            &&& s.trusted == Set::<Seq<u8>>::empty() && s.tokens.len() == 0 && s.clock.len() == 0
            &&& s.next_req_id == 1
            &&& !s.info.has_peer && !s.info.has_caps && !s.info.has_settings && !s.info.has_control_state
            &&& s.vq.q.len() == 0 && s.vq.drop_until_key && s.vq.video_config.len() == 0 && s.vq.frame_seq == 0
            &&& s.stats.rtt_us == -1 && s.stats.latency_us == -1 && s.stats.frames == 0 && s.stats.bytes == 0
                && s.stats.dropped_frames == 0 && s.stats.bad_messages == 0 && s.stats.reconnects == 0
        }),
{
}

/// A sender offers H.264, and what it was made from; the range of the compensation only with the control for it (4).
pub proof fn law_what_a_sender_offers(cfg: SenderConfig)
    ensures
        ({
            let c = caps_of(cfg);
            let ranged = cfg.controls & 4 != 0;
            &&& c.codecs.len() == 1 && c.codecs[0].id == 1
            &&& c.modes == cfg.modes@ && c.max_bitrate_kbps == cfg.max_bitrate_kbps && c.controls == cfg.controls
            &&& c.lenses == cfg.lenses@.map_values(|l: Lens| l@)
            &&& c.has_exposure_range == ranged
            &&& ranged ==> c.exposure_min == cfg.exposure_comp_min && c.exposure_max == cfg.exposure_comp_max
                && c.exposure_step_milli == cfg.exposure_comp_step_milli
            &&& !ranged ==> c.exposure_min == 0 && c.exposure_max == 0 && c.exposure_step_milli == 0
        }),
{
    let k = cfg.controls;
    assert((k & 4 != 0) == (k / 4 % 2 == 1)) by (bit_vector);
    assert(caps_of(cfg).lenses =~= cfg.lenses@.map_values(|l: Lens| l@));
}

/// The numbers of the interface, of states, events and controls.
pub proof fn law_the_numbers_of_the_interface(n: u16)
    ensures
        lenny_state::LENNY_STATE_IDLE.code() == 0,
        lenny_state::LENNY_STATE_CONNECTING.code() == 1,
        lenny_state::LENNY_STATE_HANDSHAKE.code() == 2,
        lenny_state::LENNY_STATE_AWAITING_APPROVAL.code() == 3,
        lenny_state::LENNY_STATE_STREAMING.code() == 4,
        lenny_state::LENNY_STATE_RECONNECTING.code() == 5,
        lenny_state::LENNY_STATE_CLOSED.code() == 6,
        lenny_event::LENNY_EVENT_STATE.code() == 1,
        lenny_event::LENNY_EVENT_APPROVAL_NEEDED.code() == 2,
        lenny_event::LENNY_EVENT_STREAM_START.code() == 3,
        lenny_event::LENNY_EVENT_STREAM_STATUS.code() == 4,
        lenny_event::LENNY_EVENT_CONTROL_STATE.code() == 5,
        lenny_event::LENNY_EVENT_CONTROL_ACK.code() == 6,
        lenny_control_cmd::LENNY_CTL_KEYFRAME_REQUEST.code() == 10,
        lenny_control_cmd::LENNY_CTL_FOCUS_AT.code() == 11,
        lenny_control_cmd::LENNY_CTL_FOCUS_LOCK.code() == 12,
        lenny_control_cmd::LENNY_CTL_FOCUS_AUTO.code() == 13,
        lenny_control_cmd::LENNY_CTL_EXPOSURE_COMP.code() == 14,
        lenny_control_cmd::LENNY_CTL_EXPOSURE_LOCK.code() == 15,
        lenny_control_cmd::LENNY_CTL_WB_LOCK.code() == 16,
        lenny_control_cmd::LENNY_CTL_TORCH.code() == 17,
        lenny_control_cmd::LENNY_CTL_SELECT_LENS.code() == 18,
        lenny_control_cmd::LENNY_CTL_ZOOM.code() == 19,
        lenny_control_cmd::LENNY_CTL_RESET_AUTO.code() == 20,
        lenny_control_cmd::LENNY_CTL_PAN.code() == 21,
        lenny_control_cmd::of(n) is Some <==> 10 <= n <= 21,
        lenny_control_cmd::of(n) matches Some(c) ==> c.code() == n,
{
}

/// A message that cannot be read is counted, and changes nothing else: in the phase that waits for it, on the side that
/// it is meant for. A HELLO that cannot be read ends the link with 6.
#[verifier::spinoff_prover]
#[verifier::rlimit(40)]
pub proof fn law_what_cannot_be_read_is_counted(s: SessionView, h: Header, p: Seq<u8>, now: i64, at: i64)
    requires
        h.ver_major == 1,
        tlv_fields(p) is None,
        s.stats.bad_messages < u32::MAX,
    ensures
        ({
            let (t, step) = message_step(s, h, p, now, at);
            let counted = SessionView {
                stats: lenny_stats { bad_messages: (s.stats.bad_messages + 1) as u32, ..s.stats },
                ..s
            };
            let waits = s.link.phase != Phase::HelloWait;
            let meant = {
                ||| h.typ == 2
                ||| waits && (h.typ == 3 || h.typ == 4)
                ||| s.role == Role::Sender && h.typ == 0x11 && s.link.phase == Phase::PairWait
                ||| s.role == Role::Sender && h.typ == 0x21 && (s.link.phase == Phase::CapsWait || s.link.phase
                    == Phase::Streaming)
                ||| s.role == Role::Sender && h.typ == 0x40 && s.link.phase == Phase::Streaming
                ||| s.role == Role::Receiver && (h.typ == 0x10 || h.typ == 0x20) && s.link.phase == Phase::PairOrCaps
                ||| s.role == Role::Receiver && h.typ == 0x22 && (s.link.phase == Phase::StreamStartWait || s.link.phase
                    == Phase::Streaming)
                ||| s.role == Role::Receiver && (h.typ == 0x23 || h.typ == 0x30 || h.typ == 0x41 || h.typ == 0x42)
                    && s.link.phase == Phase::Streaming
            };
            &&& meant ==> t == counted && step.effects.len() == 0 && step.end is None
            &&& h.typ == 1 && s.link.phase == Phase::HelloWait ==> t == s && step.end == Some(6i32)
        }),
{
}

/// A phone that is not trusted waits for the user's answer, for thirty seconds; one that is trusted has five to start
/// its stream.
pub proof fn law_how_long_caps_may_wait(s: SessionView, caps: CapsView, now: i64)
    ensures
        ({
            let (t, step) = caps_received(s, caps, now);
            let known = s.trusted.contains(s.link.peer.device_id);
            &&& known ==> t.link.phase == Phase::StreamStartWait && is_after(t.link.phase_deadline, now, 5_000_000)
            &&& !known ==> t.link.phase == Phase::ApprovalWait && is_after(t.link.phase_deadline, now, 30_000_000)
            &&& t.trusted == s.trusted
            &&& step.end is None
        }),
{
}

} // verus!
