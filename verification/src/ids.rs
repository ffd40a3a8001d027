use vstd::prelude::*;

verus! {

/// Identifies a track within its layer.
#[derive(Debug, Clone, Copy, PartialEq, Eq, Hash, Structural)]
pub struct TrackId(pub u64);

impl TrackId {
    pub fn new(value: u64) -> (id: Self)
        ensures
            id.0 == value,
    {
        TrackId(value)
    }

    pub fn value(&self) -> (v: u64)
        ensures
            v == self.0,
    {
        self.0
    }
}

/// Identifies a segment within its track.
#[derive(Debug, Clone, Copy, PartialEq, Eq, Hash, Structural)]
pub struct TrackSegmentId(pub u64);

impl TrackSegmentId {
    pub fn new(value: u64) -> (id: Self)
        ensures
            id.0 == value,
    {
        TrackSegmentId(value)
    }

    pub fn value(&self) -> (v: u64)
        ensures
            v == self.0,
    {
        self.0
    }
}

/// Identifies a point within its segment.
#[derive(Debug, Clone, Copy, PartialEq, Eq, Hash, Structural)]
pub struct TrackPointId(pub u64);

impl TrackPointId {
    pub fn new(value: u64) -> (id: Self)
        ensures
            id.0 == value,
    {
        TrackPointId(value)
    }

    pub fn value(&self) -> (v: u64)
        ensures
            v == self.0,
    {
        self.0
    }
}

/// Identifies a waypoint within its layer.
#[derive(Debug, Clone, Copy, PartialEq, Eq, Hash, Structural)]
pub struct WaypointId(pub u64);

impl WaypointId {
    pub fn new(value: u64) -> (id: Self)
        ensures
            id.0 == value,
    {
        WaypointId(value)
    }

    pub fn value(&self) -> (v: u64)
        ensures
            v == self.0,
    {
        self.0
    }
}

/// Identifies a layer among the layers of its kind.
#[derive(Debug, Clone, Copy, PartialEq, Eq, Hash, Structural)]
pub struct LayerId(pub u64);

impl LayerId {
    pub fn new(value: u64) -> (id: Self)
        ensures
            id.0 == value,
    {
        LayerId(value)
    }

    pub fn value(&self) -> (v: u64)
        ensures
            v == self.0,
    {
        self.0
    }
}

/// Identifies a project.
#[derive(Debug, Clone, Copy, PartialEq, Eq, Hash, Structural)]
pub struct ProjectId(pub u64);

impl ProjectId {
    pub fn new(value: u64) -> (id: Self)
        ensures
            id.0 == value,
    {
        ProjectId(value)
    }
}

/// Anything that names a layer: a `LayerId` or its bare number.
pub trait LayerIdLike {
    spec fn id_value(&self) -> u64;

    fn into_u64(self) -> (v: u64)
        ensures
            v == self.id_value(),
    ;
}

impl LayerIdLike for u64 {
    open spec fn id_value(&self) -> u64 {
        *self
    }

    fn into_u64(self) -> (v: u64) {
        self
    }
}

impl LayerIdLike for LayerId {
    open spec fn id_value(&self) -> u64 {
        self.0
    }

    fn into_u64(self) -> (v: u64) {
        self.0
    }
}

/// Anything that names a waypoint: a `WaypointId` or its bare number.
pub trait WaypointIdLike {
    spec fn id_value(&self) -> u64;

    fn into_u64(self) -> (v: u64)
        ensures
            v == self.id_value(),
    ;
}

impl WaypointIdLike for u64 {
    open spec fn id_value(&self) -> u64 {
        *self
    }

    fn into_u64(self) -> (v: u64) {
        self
    }
}

impl WaypointIdLike for WaypointId {
    open spec fn id_value(&self) -> u64 {
        self.0
    }

    fn into_u64(self) -> (v: u64) {
        self.0
    }
}

} // verus!
