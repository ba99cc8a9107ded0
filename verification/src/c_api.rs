//! What the C interface decides before and after it calls a session. Pointers stay outside: an argument that C left out
//! is one that is not there.
use vstd::prelude::*;

use crate::abi::{
    lenny_identity, lenny_lens, lenny_lens_caps, lenny_mode, lenny_receiver_config, lenny_sender_config, lenny_state,
    LENNY_E_INVALID_ARG, LENNY_E_STATE, LENNY_OK,
};
use crate::bytes::copy;
use crate::session::state::{ReceiverConfig, Role, SenderConfig};
use crate::wire::caps::{Lens, LensView};

verus! {

/// A lens with its capabilities, which may be left out.
pub open spec fn lens_of(l: lenny_lens, caps: Option<lenny_lens_caps>) -> LensView {
    LensView {
        id: l.lens_id,
        facing: l.facing,
        label: l.label@,
        modes: match caps {
            Some(c) => c.modes@,
            None => Seq::empty(),
        },
        zoom_min: match caps {
            Some(c) => c.zoom_min,
            None => 0,
        },
        zoom_max: match caps {
            Some(c) => c.zoom_max,
            None => 0,
        },
        zoom_base: match caps {
            Some(c) => c.zoom_base,
            None => 0,
        },
    }
}

/// The capabilities of the `i`th lens.
pub open spec fn caps_at(caps: Seq<lenny_lens_caps>, i: int) -> Option<lenny_lens_caps> {
    if 0 <= i < caps.len() {
        Some(caps[i])
    } else {
        None
    }
}

/// The lenses of a configuration.
pub open spec fn lenses_of(lenses: Seq<lenny_lens>, caps: Seq<lenny_lens_caps>) -> Seq<LensView> {
    Seq::new(lenses.len(), |i: int| lens_of(lenses[i], caps_at(caps, i)))
}

/// Two identities hold the same.
pub open spec fn same_identity(a: lenny_identity, b: lenny_identity) -> bool {
    &&& a.device_id@ == b.device_id@
    &&& a.device_name@ == b.device_name@
    &&& a.app_version@ == b.app_version@
    &&& a.platform == b.platform
}

fn copy_modes(modes: &Vec<lenny_mode>) -> (r: Vec<lenny_mode>)
    ensures
        r@ == modes@,
{
    let mut r: Vec<lenny_mode> = Vec::new();
    let mut i: usize = 0;
    while i < modes.len()
        invariant
            i <= modes@.len(),
            r@ == modes@.take(i as int),
        decreases modes.len() - i,
    {
        r.push(modes[i]);
        assert(modes@.take(i as int + 1) =~= modes@.take(i as int).push(modes@[i as int]));
        i = i + 1;
    }
    assert(modes@.take(i as int) =~= modes@);
    r
}

fn copy_identity(i: &lenny_identity) -> (r: lenny_identity)
    ensures
        same_identity(r, *i),
{
    lenny_identity {
        device_id: i.device_id,
        device_name: copy(i.device_name.as_slice()),
        app_version: copy(i.app_version.as_slice()),
        platform: i.platform,
    }
}

/// What a sender is made from: each lens with the capabilities that stand at its place.
pub fn sender_config(c: &lenny_sender_config) -> (r: SenderConfig)
    ensures
        same_identity(r.identity, c.identity),
        r.modes@ == c.modes@,
        r.max_bitrate_kbps == c.max_bitrate_kbps,
        r.controls == c.controls,
        r.lenses@.map_values(|l: Lens| l@) == lenses_of(c.lenses@, c.lens_caps@),
        r.exposure_comp_min == c.exposure_comp_min,
        r.exposure_comp_max == c.exposure_comp_max,
        r.exposure_comp_step_milli == c.exposure_comp_step_milli,
{
    let mut lenses: Vec<Lens> = Vec::new();
    let mut i: usize = 0;
    let ghost want = lenses_of(c.lenses@, c.lens_caps@);
    assert(lenses@.map_values(|l: Lens| l@) =~= want.take(0));
    while i < c.lenses.len()
        invariant
            i <= c.lenses@.len(),
            want == lenses_of(c.lenses@, c.lens_caps@),
            lenses@.map_values(|l: Lens| l@) == want.take(i as int),
        decreases c.lenses.len() - i,
    {
        let l = &c.lenses[i];
        let lens = if i < c.lens_caps.len() {
            let k = &c.lens_caps[i];
            Lens {
                id: l.lens_id,
                facing: l.facing,
                label: copy(l.label.as_slice()),
                modes: copy_modes(&k.modes),
                zoom_min: k.zoom_min,
                zoom_max: k.zoom_max,
                zoom_base: k.zoom_base,
            }
        } else {
            Lens {
                id: l.lens_id,
                facing: l.facing,
                label: copy(l.label.as_slice()),
                modes: Vec::new(),
                zoom_min: 0,
                zoom_max: 0,
                zoom_base: 0,
            }
        };
        assert(lens@ =~= want[i as int]);
        let ghost before = lenses@;
        lenses.push(lens);
        assert(lenses@.map_values(|l: Lens| l@) =~= before.map_values(|l: Lens| l@).push(want[i as int]));
        assert(want.take(i as int + 1) =~= want.take(i as int).push(want[i as int]));
        i = i + 1;
    }
    assert(want.take(i as int) =~= want);
    SenderConfig {
        identity: copy_identity(&c.identity),
        modes: copy_modes(&c.modes),
        max_bitrate_kbps: c.max_bitrate_kbps,
        controls: c.controls,
        lenses,
        exposure_comp_min: c.exposure_comp_min,
        exposure_comp_max: c.exposure_comp_max,
        exposure_comp_step_milli: c.exposure_comp_step_milli,
    }
}

/// What a receiver is made from.
pub fn receiver_config(c: &lenny_receiver_config) -> (r: ReceiverConfig)
    ensures
        same_identity(r.identity, c.identity),
        r.port == c.port,
        r.preferred == c.preferred,
{
    ReceiverConfig { identity: copy_identity(&c.identity), port: c.port, preferred: c.preferred }
}

/// What a call that sends video answers before it sends: there has to be a session, it has to be a sender's, and there
/// has to be data.
pub fn video_call(role: Option<Role>, has_data: bool) -> (code: i32)
    ensures
        code == (match role {
            None => LENNY_E_INVALID_ARG,
            Some(Role::Receiver) => LENNY_E_STATE,
            Some(Role::Sender) => if has_data {
                LENNY_OK
            } else {
                LENNY_E_INVALID_ARG
            },
        }),
{
    match role {
        None => LENNY_E_INVALID_ARG,
        Some(Role::Receiver) => LENNY_E_STATE,
        Some(Role::Sender) => if has_data {
            LENNY_OK
        } else {
            LENNY_E_INVALID_ARG
        },
    }
}

/// What a call for a pairing token answers before it makes one: only a receiver has tokens, and there has to be room.
pub fn token_call(role: Option<Role>, has_room: bool) -> (code: i32)
    ensures
        code == (if role == Some(Role::Receiver) && has_room {
            LENNY_OK
        } else {
            LENNY_E_INVALID_ARG
        }),
{
    match role {
        Some(Role::Receiver) => if has_room {
            LENNY_OK
        } else {
            LENNY_E_INVALID_ARG
        },
        _ => LENNY_E_INVALID_ARG,
    }
}

/// What any other call answers before it goes on: all that it needs has to be there.
pub fn plain_call(has_session: bool, has_argument: bool) -> (code: i32)
    ensures
        code == (if has_session && has_argument {
            LENNY_OK
        } else {
            LENNY_E_INVALID_ARG
        }),
{
    if has_session && has_argument {
        LENNY_OK
    } else {
        LENNY_E_INVALID_ARG
    }
}

/// Hands out what a session tells, whether it is known or not, and says which.
pub fn out_or_state<T>(r: (bool, T), out: &mut T) -> (code: i32)
    ensures
        *final(out) == r.1,
        code == (if r.0 {
            LENNY_OK
        } else {
            LENNY_E_STATE
        }),
{
    *out = r.1;
    if r.0 {
        LENNY_OK
    } else {
        LENNY_E_STATE
    }
}

/// The state of a session that may not be there: one that is not there is closed.
pub fn state_or_closed(state: Option<i32>) -> (code: i32)
    ensures
        code == (match state {
            Some(s) => s,
            None => lenny_state::LENNY_STATE_CLOSED.code(),
        }),
{
    match state {
        Some(s) => s,
        None => lenny_state::LENNY_STATE_CLOSED.code(),
    }
}

/// Each lens is told as it was given, with the capabilities at its own place, where there are any.
pub proof fn law_a_lens_has_the_capabilities_at_its_place(lenses: Seq<lenny_lens>, caps: Seq<lenny_lens_caps>, i: int)
    requires
        0 <= i < lenses.len(),
    ensures
        lenses_of(lenses, caps).len() == lenses.len(),
        ({
            let l = lenses_of(lenses, caps)[i];
            &&& l.id == lenses[i].lens_id && l.facing == lenses[i].facing && l.label == lenses[i].label@
            &&& i < caps.len() ==> l.modes == caps[i].modes@ && l.zoom_min == caps[i].zoom_min && l.zoom_max
                == caps[i].zoom_max && l.zoom_base == caps[i].zoom_base
            &&& i >= caps.len() ==> l.modes.len() == 0 && l.zoom_min == 0 && l.zoom_max == 0 && l.zoom_base == 0
        }),
{
}

/// Identities that are the same are so in every part.
pub proof fn law_the_same_identity(a: lenny_identity, b: lenny_identity)
    requires
        same_identity(a, b),
    ensures
        a.device_id@ == b.device_id@,
        a.device_name@ == b.device_name@,
        a.app_version@ == b.app_version@,
        a.platform == b.platform,
{
}

} // verus!
