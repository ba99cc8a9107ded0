//! What the Windows camera tells of itself: one writer for two cameras, of which the second needs a ring that all
//! sessions see, and a registered class.
use vstd::prelude::*;

verus! {

/// What became of the Media Foundation camera.
#[derive(Clone, Copy, Debug, PartialEq, Eq, Structural)]
pub enum MfCamera {
    /// It may be registered.
    Possible,
    NoGlobalRing,
    NotRegistered,
}

/// Whether the Media Foundation camera can be registered.
pub fn mf_camera(global: bool, registered: bool) -> (m: MfCamera)
    ensures
        m == (if !global {
            MfCamera::NoGlobalRing
        } else if !registered {
            MfCamera::NotRegistered
        } else {
            MfCamera::Possible
        }),
{
    if !global {
        MfCamera::NoGlobalRing
    } else if !registered {
        MfCamera::NotRegistered
    } else {
        MfCamera::Possible
    }
}

/// The words for a camera that cannot be registered.
pub open spec fn refusal_words(m: MfCamera) -> Seq<char> {
    match m {
        MfCamera::Possible => ""@,
        MfCamera::NoGlobalRing => "MF camera off: no Global\\ frame buffer (Frame Server can't see Local\\)"@,
        MfCamera::NotRegistered => "MF camera not registered (run the installer or regsvr32 lenny_vcam_mf.dll)"@,
    }
}

impl MfCamera {
    pub fn refusal(self) -> (t: &'static str)
        ensures
            t@ == refusal_words(self),
    {
        match self {
            MfCamera::Possible => "",
            MfCamera::NoGlobalRing => "MF camera off: no Global\\ frame buffer (Frame Server can't see Local\\)",
            MfCamera::NotRegistered => "MF camera not registered (run the installer or regsvr32 lenny_vcam_mf.dll)",
        }
    }
}

/// The camera is real once frames can be written and other programs can find it.
pub fn is_real(open: bool, dshow_registered: bool) -> (r: bool)
    ensures
        r == (open && dshow_registered),
{
    open && dshow_registered
}

/// One line on the camera.
pub open spec fn description(global: bool, dshow_registered: bool, mf: Seq<char>) -> Seq<char> {
    let buffer = if global {
        "Global\\"@
    } else {
        "Local\\ (DirectShow only)"@
    };
    let dshow = if dshow_registered {
        "DirectShow \"Lenny (Classic)\" registered"@
    } else {
        "DirectShow filter not registered (regsvr32 lenny_vcam_dshow.dll)"@
    };
    "shared frames in "@ + buffer + "; "@ + dshow + "; "@ + mf
}

pub fn describe(global: bool, dshow_registered: bool, mf: &str) -> (t: String)
    ensures
        t@ == description(global, dshow_registered, mf@),
{
    let mut t = String::new();
    t.append("shared frames in ");
    t.append(
        if global {
            "Global\\"
        } else {
            "Local\\ (DirectShow only)"
        },
    );
    t.append("; ");
    t.append(
        if dshow_registered {
            "DirectShow \"Lenny (Classic)\" registered"
        } else {
            "DirectShow filter not registered (regsvr32 lenny_vcam_dshow.dll)"
        },
    );
    t.append("; ");
    t.append(mf);
    assert(t@ =~= description(global, dshow_registered, mf@));
    t
}

/// The DirectShow camera's name: where Media Foundation has one too, that one is "Lenny".
pub open spec fn filter_name(has_mf: bool) -> Seq<char> {
    if has_mf {
        "Lenny (Classic)"@
    } else {
        "Lenny"@
    }
}

pub fn friendly_name(has_mf: bool) -> (t: &'static str)
    ensures
        t@ == filter_name(has_mf),
{
    if has_mf {
        "Lenny (Classic)"
    } else {
        "Lenny"
    }
}

} // verus!
