use vstd::prelude::*;
use crate::ids::{LayerId, WaypointId};

verus! {

/// Why an edit could not find what it was aimed at.
#[derive(Debug, Clone, PartialEq, Eq)]
pub enum ProjectLayerError {
    TrackLayerNotPresent(LayerId),
    WaypointLayerUnavailable(LayerId),
    WaypointNotFound(LayerId, WaypointId),
    MissingTrack { layer_id: u64, track_id: u64 },
    MissingTrackSegment { layer_id: u64, track_id: u64, segment_id: u64 },
    MissingTrackPoint { layer_id: u64, track_id: u64, segment_id: u64, point_id: u64 },
    InvalidSegmentOperation { layer_id: u64, track_id: u64, segment_id: u64, reason: &'static str },
}

/// The character for a decimal digit.
pub open spec fn digit_char(d: nat) -> char {
    if d == 0 { '0' } else if d == 1 { '1' } else if d == 2 { '2' } else if d == 3 { '3' } else if d == 4 { '4' }
    else if d == 5 { '5' } else if d == 6 { '6' } else if d == 7 { '7' } else if d == 8 { '8' } else { '9' }
}

/// `n` written in decimal, without leading zeros.
pub open spec fn decimal(n: nat) -> Seq<char>
    decreases n,
{
    if n < 10 {
        seq![digit_char(n)]
    } else {
        decimal(n / 10) + seq![digit_char(n % 10)]
    }
}

fn digit_str(d: u64) -> (s: &'static str)
    requires
        d < 10,
    ensures
        s@ == seq![digit_char(d as nat)],
{
    proof {
        reveal_strlit("0");
        reveal_strlit("1");
        reveal_strlit("2");
        reveal_strlit("3");
        reveal_strlit("4");
        reveal_strlit("5");
        reveal_strlit("6");
        reveal_strlit("7");
        reveal_strlit("8");
        reveal_strlit("9");
    }
    let s = if d == 0 { "0" } else if d == 1 { "1" } else if d == 2 { "2" } else if d == 3 { "3" } else if d == 4 { "4" }
    else if d == 5 { "5" } else if d == 6 { "6" } else if d == 7 { "7" } else if d == 8 { "8" } else { "9" };
    assert(s@ =~= seq![digit_char(d as nat)]);
    s
}

/// Append `n` in decimal.
pub fn push_decimal(out: &mut String, n: u64)
    ensures
        final(out)@ == old(out)@ + decimal(n as nat),
    decreases n,
{
    if n >= 10 {
        push_decimal(out, n / 10);
    }
    out.append(digit_str(n % 10));
    proof {
        if n >= 10 {
            assert(old(out)@ + decimal(n as nat) =~= old(out)@ + decimal((n / 10) as nat) + seq![digit_char((n % 10) as nat)]);
        } else {
            assert(decimal(n as nat) == seq![digit_char(n as nat)]);
        }
    }
}

/// The message each error is shown with.
pub open spec fn error_message(e: ProjectLayerError) -> Seq<char> {
    match e {
        ProjectLayerError::TrackLayerNotPresent(l) => "missing track layer with id "@ + decimal(l.0 as nat),
        ProjectLayerError::WaypointLayerUnavailable(l) => "missing waypoint layer with id "@ + decimal(l.0 as nat),
        ProjectLayerError::WaypointNotFound(l, w) =>
            "missing waypoint with id "@ + decimal(w.0 as nat) + " in layer "@ + decimal(l.0 as nat),
        ProjectLayerError::MissingTrack { layer_id, track_id } =>
            "missing track with id "@ + decimal(track_id as nat) + " in layer "@ + decimal(layer_id as nat),
        ProjectLayerError::MissingTrackSegment { layer_id, track_id, segment_id } =>
            "missing track segment with id "@ + decimal(segment_id as nat) + " in track "@ + decimal(track_id as nat)
                + " in layer "@ + decimal(layer_id as nat),
        ProjectLayerError::MissingTrackPoint { layer_id, track_id, segment_id, point_id } =>
            "missing track point with id "@ + decimal(point_id as nat) + " in segment "@ + decimal(segment_id as nat)
                + " in track "@ + decimal(track_id as nat) + " in layer "@ + decimal(layer_id as nat),
        ProjectLayerError::InvalidSegmentOperation { layer_id, track_id, segment_id, reason } =>
            "invalid segment operation on segment "@ + decimal(segment_id as nat) + " in track "@ + decimal(track_id as nat)
                + " in layer "@ + decimal(layer_id as nat) + ": "@ + reason@,
    }
}

impl ProjectLayerError {
    /// The message the error is shown with; see `error_message`.
    pub fn to_string(&self) -> (s: String)
        ensures
            s@ == error_message(*self),
    {
        match self {
            ProjectLayerError::TrackLayerNotPresent(l) => {
                let mut s = String::from_str("missing track layer with id ");
                push_decimal(&mut s, l.0);
                s
            },
            ProjectLayerError::WaypointLayerUnavailable(l) => {
                let mut s = String::from_str("missing waypoint layer with id ");
                push_decimal(&mut s, l.0);
                s
            },
            ProjectLayerError::WaypointNotFound(l, w) => {
                let mut s = String::from_str("missing waypoint with id ");
                push_decimal(&mut s, w.0);
                s.append(" in layer ");
                push_decimal(&mut s, l.0);
                s
            },
            ProjectLayerError::MissingTrack { layer_id, track_id } => {
                let mut s = String::from_str("missing track with id ");
                push_decimal(&mut s, *track_id);
                s.append(" in layer ");
                push_decimal(&mut s, *layer_id);
                s
            },
            ProjectLayerError::MissingTrackSegment { layer_id, track_id, segment_id } => {
                let mut s = String::from_str("missing track segment with id ");
                push_decimal(&mut s, *segment_id);
                s.append(" in track ");
                push_decimal(&mut s, *track_id);
                s.append(" in layer ");
                push_decimal(&mut s, *layer_id);
                s
            },
            ProjectLayerError::MissingTrackPoint { layer_id, track_id, segment_id, point_id } => {
                let mut s = String::from_str("missing track point with id ");
                push_decimal(&mut s, *point_id);
                s.append(" in segment ");
                push_decimal(&mut s, *segment_id);
                s.append(" in track ");
                push_decimal(&mut s, *track_id);
                s.append(" in layer ");
                push_decimal(&mut s, *layer_id);
                s
            },
            ProjectLayerError::InvalidSegmentOperation { layer_id, track_id, segment_id, reason } => {
                let mut s = String::from_str("invalid segment operation on segment ");
                push_decimal(&mut s, *segment_id);
                s.append(" in track ");
                push_decimal(&mut s, *track_id);
                s.append(" in layer ");
                push_decimal(&mut s, *layer_id);
                s.append(": ");
                s.append(reason);
                s
            },
        }
    }
}

} // verus!
