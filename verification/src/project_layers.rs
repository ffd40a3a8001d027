use vstd::prelude::*;
use crate::ids::{LayerId, ProjectId};
use crate::index::first_index;
use crate::layers::{MapLayer, MapLayerV, TrackLayer, TrackLayerV, WaypointLayer, WaypointLayerV};
use crate::project::{
    Project, ProjectV, find_map_layer, find_track_layer, find_waypoint_layer, map_layer_keys,
    map_layers_view, track_layer_keys, track_layers_view, waypoint_layer_keys, waypoint_layers_view,
};

verus! {

// ── whole layers ─────────────────────────────────────────────────────────

/// Remove the first map layer with this id; false when there is none.
pub open spec fn p_remove_map_layer(p: ProjectV, id: LayerId) -> (ProjectV, bool) {
    match first_index(map_layer_keys(p.map_layers), id.0) {
        Some(i) => (ProjectV { map_layers: p.map_layers.remove(i), ..p }, true),
        None => (p, false),
    }
}

pub open spec fn p_remove_track_layer(p: ProjectV, id: LayerId) -> (ProjectV, bool) {
    match first_index(track_layer_keys(p.track_layers), id.0) {
        Some(i) => (ProjectV { track_layers: p.track_layers.remove(i), ..p }, true),
        None => (p, false),
    }
}

pub open spec fn p_remove_waypoint_layer(p: ProjectV, id: LayerId) -> (ProjectV, bool) {
    match first_index(waypoint_layer_keys(p.waypoint_layers), id.0) {
        Some(i) => (ProjectV { waypoint_layers: p.waypoint_layers.remove(i), ..p }, true),
        None => (p, false),
    }
}

/// The default track layer every open project has at least one of.
pub open spec fn default_track_layer() -> TrackLayerV {
    TrackLayerV { id: LayerId(1), name: "Tracks"@, tracks: Seq::empty() }
}

/// The default waypoint layer every open project has at least one of.
pub open spec fn default_waypoint_layer() -> WaypointLayerV {
    WaypointLayerV { id: LayerId(1), name: "Waypoints"@, waypoints: Seq::empty() }
}

/// The project with a default layer appended for each kind it has none of.
pub open spec fn with_default_layers(p: ProjectV) -> ProjectV {
    ProjectV {
        track_layers: if p.track_layers.len() == 0 { seq![default_track_layer()] } else { p.track_layers },
        waypoint_layers: if p.waypoint_layers.len() == 0 { seq![default_waypoint_layer()] } else { p.waypoint_layers },
        ..p
    }
}

/// A new project as the editor opens it: one empty track layer and one
/// empty waypoint layer, both with id 1.
pub open spec fn untitled_project() -> ProjectV {
    ProjectV {
        id: ProjectId(1),
        name: "Untitled Project"@,
        map_layers: Seq::empty(),
        track_layers: seq![default_track_layer()],
        waypoint_layers: seq![default_waypoint_layer()],
    }
}

/// Making sure of the default layers twice is making sure once, and
/// afterwards the project has a track layer and a waypoint layer.
pub proof fn law_default_layers_idempotent(p: ProjectV)
    ensures
        with_default_layers(with_default_layers(p)) == with_default_layers(p),
        with_default_layers(p).track_layers.len() > 0,
        with_default_layers(p).waypoint_layers.len() > 0,
        p.track_layers.len() > 0 ==> with_default_layers(p).track_layers == p.track_layers,
        p.waypoint_layers.len() > 0 ==> with_default_layers(p).waypoint_layers == p.waypoint_layers,
{
}

impl Project {
    /// A new, empty project with the default layers.
    pub fn untitled() -> (p: Self)
        ensures
            p@ == untitled_project(),
    {
        let mut p = Project {
            id: ProjectId(1),
            name: String::from_str("Untitled Project"),
            map_layers: Vec::new(),
            track_layers: Vec::new(),
            waypoint_layers: Vec::new(),
        };
        proof {
            assert(map_layers_view(p.map_layers@) =~= Seq::<MapLayerV>::empty());
            assert(track_layers_view(p.track_layers@) =~= Seq::<TrackLayerV>::empty());
            assert(waypoint_layers_view(p.waypoint_layers@) =~= Seq::<WaypointLayerV>::empty());
        }
        p.ensure_default_layers();
        proof {
            assert(p@.track_layers =~= seq![default_track_layer()]);
            assert(p@.waypoint_layers =~= seq![default_waypoint_layer()]);
            assert(p@ =~= untitled_project());
        }
        p
    }

    /// Give the project a track layer and a waypoint layer if it lacks one;
    /// existing layers are neither changed nor reordered.
    pub fn ensure_default_layers(&mut self)
        ensures
            final(self)@ == with_default_layers(old(self)@),
    {
        if self.track_layers.len() == 0 {
            let l = TrackLayer::new(LayerId(1), "Tracks");
            self.track_layers.push(l);
            proof {
                assert(self@.track_layers =~= seq![default_track_layer()]);
            }
        }
        if self.waypoint_layers.len() == 0 {
            let l = WaypointLayer::new(LayerId(1), "Waypoints");
            self.waypoint_layers.push(l);
            proof {
                assert(self@.waypoint_layers =~= seq![default_waypoint_layer()]);
            }
        }
        proof {
            assert(self@ =~= with_default_layers(old(self)@));
        }
    }

    pub fn id(&self) -> (id: ProjectId)
        ensures
            id == self.id,
    {
        self.id
    }

    pub fn name(&self) -> (n: &str)
        ensures
            n@ == self.name@,
    {
        self.name.as_str()
    }

    pub fn map_layers(&self) -> (l: &[MapLayer])
        ensures
            l@ == self.map_layers@,
    {
        self.map_layers.as_slice()
    }

    pub fn track_layers(&self) -> (l: &[TrackLayer])
        ensures
            l@ == self.track_layers@,
    {
        self.track_layers.as_slice()
    }

    pub fn waypoint_layers(&self) -> (l: &[WaypointLayer])
        ensures
            l@ == self.waypoint_layers@,
    {
        self.waypoint_layers.as_slice()
    }

    pub fn add_map_layer(&mut self, layer: MapLayer)
        ensures
            final(self)@ == (ProjectV { map_layers: old(self)@.map_layers.push(layer@), ..old(self)@ }),
    {
        self.map_layers.push(layer);
        proof {
            assert(self@.map_layers =~= old(self)@.map_layers.push(layer@));
        }
    }

    pub fn add_track_layer(&mut self, layer: TrackLayer)
        ensures
            final(self)@ == (ProjectV { track_layers: old(self)@.track_layers.push(layer@), ..old(self)@ }),
    {
        self.track_layers.push(layer);
        proof {
            assert(self@.track_layers =~= old(self)@.track_layers.push(layer@));
        }
    }

    pub fn add_waypoint_layer(&mut self, layer: WaypointLayer)
        ensures
            final(self)@ == (ProjectV { waypoint_layers: old(self)@.waypoint_layers.push(layer@), ..old(self)@ }),
    {
        self.waypoint_layers.push(layer);
        proof {
            assert(self@.waypoint_layers =~= old(self)@.waypoint_layers.push(layer@));
        }
    }

    pub fn remove_map_layer(&mut self, layer_id: LayerId) -> (removed: bool)
        ensures
            (final(self)@, removed) == p_remove_map_layer(old(self)@, layer_id),
    {
        match find_map_layer(&self.map_layers, layer_id.0) {
            Some(i) => {
                let _gone = self.map_layers.remove(i);
                proof {
                    assert(self@.map_layers =~= old(self)@.map_layers.remove(i as int));
                }
                true
            },
            None => false,
        }
    }

    pub fn remove_track_layer(&mut self, layer_id: LayerId) -> (removed: bool)
        ensures
            (final(self)@, removed) == p_remove_track_layer(old(self)@, layer_id),
    {
        match find_track_layer(&self.track_layers, layer_id.0) {
            Some(i) => {
                let _gone = self.track_layers.remove(i);
                proof {
                    assert(self@.track_layers =~= old(self)@.track_layers.remove(i as int));
                }
                true
            },
            None => false,
        }
    }

    pub fn remove_waypoint_layer(&mut self, layer_id: LayerId) -> (removed: bool)
        ensures
            (final(self)@, removed) == p_remove_waypoint_layer(old(self)@, layer_id),
    {
        match find_waypoint_layer(&self.waypoint_layers, layer_id.0) {
            Some(i) => {
                let _gone = self.waypoint_layers.remove(i);
                proof {
                    assert(self@.waypoint_layers =~= old(self)@.waypoint_layers.remove(i as int));
                }
                true
            },
            None => false,
        }
    }
}

impl Default for Project {
    fn default() -> (p: Self)
        ensures
            p@ == untitled_project(),
    {
        Project::untitled()
    }
}

fn clone_map_layers(v: &Vec<MapLayer>) -> (c: Vec<MapLayer>)
    ensures
        map_layers_view(c@) == map_layers_view(v@),
{
    let mut out: Vec<MapLayer> = Vec::new();
    let mut i: usize = 0;
    while i < v.len()
        invariant
            i <= v.len(),
            map_layers_view(out@) =~= map_layers_view(v@.subrange(0, i as int)),
        decreases v.len() - i,
    {
        let c = v[i].clone();
        let ghost prev = out@;
        out.push(c);
        proof {
            assert(map_layers_view(out@) =~= map_layers_view(prev).push(c@));
            assert(map_layers_view(v@.subrange(0, i as int + 1)) =~= map_layers_view(v@.subrange(0, i as int)).push(v@[i as int]@));
        }
        i = i + 1;
    }
    proof {
        assert(v@.subrange(0, v.len() as int) =~= v@);
    }
    out
}

fn clone_track_layers(v: &Vec<TrackLayer>) -> (c: Vec<TrackLayer>)
    ensures
        track_layers_view(c@) == track_layers_view(v@),
{
    let mut out: Vec<TrackLayer> = Vec::new();
    let mut i: usize = 0;
    while i < v.len()
        invariant
            i <= v.len(),
            track_layers_view(out@) =~= track_layers_view(v@.subrange(0, i as int)),
        decreases v.len() - i,
    {
        let c = v[i].clone();
        let ghost prev = out@;
        out.push(c);
        proof {
            assert(track_layers_view(out@) =~= track_layers_view(prev).push(c@));
            assert(track_layers_view(v@.subrange(0, i as int + 1)) =~= track_layers_view(v@.subrange(0, i as int)).push(v@[i as int]@));
        }
        i = i + 1;
    }
    proof {
        assert(v@.subrange(0, v.len() as int) =~= v@);
    }
    out
}

fn clone_waypoint_layers(v: &Vec<WaypointLayer>) -> (c: Vec<WaypointLayer>)
    ensures
        waypoint_layers_view(c@) == waypoint_layers_view(v@),
{
    let mut out: Vec<WaypointLayer> = Vec::new();
    let mut i: usize = 0;
    while i < v.len()
        invariant
            i <= v.len(),
            waypoint_layers_view(out@) =~= waypoint_layers_view(v@.subrange(0, i as int)),
        decreases v.len() - i,
    {
        let c = v[i].clone();
        let ghost prev = out@;
        out.push(c);
        proof {
            assert(waypoint_layers_view(out@) =~= waypoint_layers_view(prev).push(c@));
            assert(waypoint_layers_view(v@.subrange(0, i as int + 1)) =~= waypoint_layers_view(v@.subrange(0, i as int)).push(v@[i as int]@));
        }
        i = i + 1;
    }
    proof {
        assert(v@.subrange(0, v.len() as int) =~= v@);
    }
    out
}

impl Clone for Project {
    fn clone(&self) -> (c: Self)
        ensures
            c@ == self@,
    {
        Project {
            id: self.id,
            name: self.name.clone(),
            map_layers: clone_map_layers(&self.map_layers),
            track_layers: clone_track_layers(&self.track_layers),
            waypoint_layers: clone_waypoint_layers(&self.waypoint_layers),
        }
    }
}

// ── repairing duplicate layer ids ────────────────────────────────────────

/// The largest of `s`, or 0 when it is empty.
pub open spec fn seq_max(s: Seq<u64>) -> int
    decreases s.len(),
{
    if s.len() == 0 {
        0
    } else {
        let rest = seq_max(s.drop_last());
        if s.last() > rest { s.last() as int } else { rest }
    }
}

/// One kind of layer, walked in order, each entry a layer's name and id. An
/// id not yet held by an earlier layer of the kind is kept; a repeated one is
/// replaced by the next number past `next`. Answers the new ids, the last
/// number handed out, and `(name, old id, new id)` for each layer renumbered.
pub open spec fn dedup_kind(entries: Seq<(Seq<char>, u64)>, next: int) -> (Seq<u64>, int, Seq<(Seq<char>, u64, u64)>)
    decreases entries.len(),
{
    if entries.len() == 0 {
        (Seq::empty(), next, Seq::empty())
    } else {
        let (ids, n, rep) = dedup_kind(entries.drop_last(), next);
        let (name, old) = entries.last();
        if ids.contains(old) {
            (ids.push((n + 1) as u64), n + 1, rep.push((name, old, (n + 1) as u64)))
        } else {
            (ids.push(old), n, rep)
        }
    }
}

pub proof fn lemma_dedup_kind_shape(entries: Seq<(Seq<char>, u64)>, next: int)
    ensures
        dedup_kind(entries, next).0.len() == entries.len(),
        dedup_kind(entries, next).1 >= next,
    decreases entries.len(),
{
    if entries.len() > 0 {
        lemma_dedup_kind_shape(entries.drop_last(), next);
    }
}

pub proof fn lemma_dedup_kind_monotone(entries: Seq<(Seq<char>, u64)>, next: int, i: int)
    requires
        0 <= i <= entries.len(),
    ensures
        dedup_kind(entries.take(i), next).1 <= dedup_kind(entries, next).1,
    decreases entries.len(),
{
    if i < entries.len() {
        assert(entries.drop_last().take(i) =~= entries.take(i));
        lemma_dedup_kind_monotone(entries.drop_last(), next, i);
    } else {
        assert(entries.take(i) =~= entries);
    }
}

pub open spec fn map_entries(ls: Seq<MapLayerV>) -> Seq<(Seq<char>, u64)> {
    Seq::new(ls.len(), |i: int| (ls[i].name, ls[i].id.0))
}

pub open spec fn track_entries(ls: Seq<TrackLayerV>) -> Seq<(Seq<char>, u64)> {
    Seq::new(ls.len(), |i: int| (ls[i].name, ls[i].id.0))
}

pub open spec fn waypoint_entries(ls: Seq<WaypointLayerV>) -> Seq<(Seq<char>, u64)> {
    Seq::new(ls.len(), |i: int| (ls[i].name, ls[i].id.0))
}

pub open spec fn with_map_ids(ls: Seq<MapLayerV>, ids: Seq<u64>) -> Seq<MapLayerV> {
    Seq::new(ls.len(), |i: int| MapLayerV { id: LayerId(ids[i]), ..ls[i] })
}

pub open spec fn with_track_ids(ls: Seq<TrackLayerV>, ids: Seq<u64>) -> Seq<TrackLayerV> {
    Seq::new(ls.len(), |i: int| TrackLayerV { id: LayerId(ids[i]), ..ls[i] })
}

pub open spec fn with_waypoint_ids(ls: Seq<WaypointLayerV>, ids: Seq<u64>) -> Seq<WaypointLayerV> {
    Seq::new(ls.len(), |i: int| WaypointLayerV { id: LayerId(ids[i]), ..ls[i] })
}

/// The highest layer id in use in any kind.
pub open spec fn highest_layer_id(p: ProjectV) -> int {
    let a = seq_max(map_layer_keys(p.map_layers));
    let b = seq_max(track_layer_keys(p.track_layers));
    let c = seq_max(waypoint_layer_keys(p.waypoint_layers));
    let ab = if a > b { a } else { b };
    if ab > c { ab } else { c }
}

/// The repaired project, the renumbering report, and the last number used:
/// map layers first, then track layers, then waypoint layers, new numbers
/// running on past the highest id in use anywhere.
pub open spec fn p_dedup(p: ProjectV) -> (ProjectV, Seq<(Seq<char>, u64, u64)>, int) {
    let (mids, n1, r1) = dedup_kind(map_entries(p.map_layers), highest_layer_id(p));
    let (tids, n2, r2) = dedup_kind(track_entries(p.track_layers), n1);
    let (wids, n3, r3) = dedup_kind(waypoint_entries(p.waypoint_layers), n2);
    (
        ProjectV {
            map_layers: with_map_ids(p.map_layers, mids),
            track_layers: with_track_ids(p.track_layers, tids),
            waypoint_layers: with_waypoint_ids(p.waypoint_layers, wids),
            ..p
        },
        r1 + r2 + r3,
        n3,
    )
}

/// Renumbering stays within `u64`: the one input the repair cannot take is a
/// project whose new numbers would run past the largest `u64`.
pub open spec fn dedup_fits(p: ProjectV) -> bool {
    p_dedup(p).2 <= u64::MAX
}

pub open spec fn report_view(r: Seq<(String, u64, u64)>) -> Seq<(Seq<char>, u64, u64)> {
    r.map_values(|e: (String, u64, u64)| (e.0@, e.1, e.2))
}

pub fn contains_id(v: &Vec<u64>, x: u64) -> (b: bool)
    ensures
        b == v@.contains(x),
{
    let mut i: usize = 0;
    while i < v.len()
        invariant
            i <= v.len(),
            forall|j: int| 0 <= j < i ==> v@[j] != x,
        decreases v.len() - i,
    {
        if v[i] == x {
            assert(v@[i as int] == x);
            return true;
        }
        i = i + 1;
    }
    false
}

pub fn seq_max_exec(v: &Vec<u64>) -> (m: u64)
    ensures
        m as int == seq_max(v@),
{
    let mut m: u64 = 0;
    let mut i: usize = 0;
    while i < v.len()
        invariant
            i <= v.len(),
            m as int == seq_max(v@.take(i as int)),
        decreases v.len() - i,
    {
        assert(v@.take(i as int + 1).drop_last() =~= v@.take(i as int));
        if v[i] > m {
            m = v[i];
        }
        i = i + 1;
    }
    assert(v@.take(i as int) =~= v@);
    m
}

pub(crate) fn map_layer_ids(layers: &Vec<MapLayer>) -> (ids: Vec<u64>)
    ensures
        ids@ == map_layer_keys(map_layers_view(layers@)),
{
    let mut ids: Vec<u64> = Vec::new();
    let mut i: usize = 0;
    while i < layers.len()
        invariant
            i <= layers.len(),
            ids@ =~= map_layer_keys(map_layers_view(layers@)).take(i as int),
        decreases layers.len() - i,
    {
        ids.push(layers[i].id.0);
        i = i + 1;
    }
    assert(ids@ =~= map_layer_keys(map_layers_view(layers@)));
    ids
}

/// Renumber repeated ids among one kind of layer, as `dedup_kind` says.
fn dedup_map_layers(layers: &mut Vec<MapLayer>, next: &mut u64, report: &mut Vec<(String, u64, u64)>)
    requires
        dedup_kind(map_entries(map_layers_view(old(layers)@)), *old(next) as int).1 <= u64::MAX,
    ensures
        ({
            let (ids, n, rep) = dedup_kind(map_entries(map_layers_view(old(layers)@)), *old(next) as int);
            &&& map_layers_view(final(layers)@) == with_map_ids(map_layers_view(old(layers)@), ids)
            &&& *final(next) as int == n
            &&& report_view(final(report)@) == report_view(old(report)@) + rep
        }),
{
    let ghost orig = map_layers_view(layers@);
    let ghost entries = map_entries(orig);
    let ghost start = *next as int;
    let ghost rep0 = report_view(report@);
    let mut seen: Vec<u64> = Vec::new();
    let mut i: usize = 0;
    proof {
        assert(entries.take(0) =~= Seq::<(Seq<char>, u64)>::empty());
    }
    while i < layers.len()
        invariant
            i <= layers.len(),
            layers@.len() == orig.len(),
            entries == map_entries(orig),
            entries.len() == orig.len(),
            dedup_kind(entries, start).1 <= u64::MAX,
            ({
                let (ids, n, rep) = dedup_kind(entries.take(i as int), start);
                &&& seen@ == ids
                &&& *next as int == n
                &&& report_view(report@) == rep0 + rep
            }),
            forall|k: int| 0 <= k < i ==> #[trigger] map_layers_view(layers@)[k] == (MapLayerV { id: LayerId(seen@[k]), ..orig[k] }),
            forall|k: int| i <= k < layers@.len() ==> #[trigger] map_layers_view(layers@)[k] == orig[k],
        decreases layers.len() - i,
    {
        proof {
            lemma_dedup_kind_shape(entries.take(i as int), start);
            lemma_dedup_kind_monotone(entries, start, i as int + 1);
            assert(entries.take(i as int + 1).drop_last() =~= entries.take(i as int));
            assert(entries.take(i as int + 1).last() == (orig[i as int].name, orig[i as int].id.0));
            assert(map_layers_view(layers@)[i as int] == orig[i as int]);
        }
        let old_id = layers[i].id.0;
        let ghost before = layers@;
        let ghost seen_before = seen@;
        let ghost rep_before = report_view(report@);
        if contains_id(&seen, old_id) {
            *next = *next + 1;
            let new_id = *next;
            let mut l = MapLayer::new(LayerId(0), "");
            layers.set_and_swap(i, &mut l);
            let name = l.name.clone();
            l.set_id(LayerId(new_id));
            layers.set_and_swap(i, &mut l);
            seen.push(new_id);
            report.push((name, old_id, new_id));
            proof {
                assert(layers@ =~= before.update(i as int, layers@[i as int]));
                assert(report_view(report@) =~= rep_before.push((orig[i as int].name, old_id, new_id)));
            }
        } else {
            seen.push(old_id);
        }
        proof {
            assert(map_layers_view(layers@)[i as int] == (MapLayerV { id: LayerId(seen@[i as int]), ..orig[i as int] }));
            assert forall|k: int| 0 <= k < layers@.len() && k != i implies #[trigger] map_layers_view(layers@)[k] == map_layers_view(before)[k] by {
                assert(layers@[k] == before[k]);
            }
            assert forall|k: int| 0 <= k < i implies #[trigger] seen@[k] == seen_before[k] by {}
        }
        i = i + 1;
    }
    proof {
        assert(entries.take(i as int) =~= entries);
        assert(map_layers_view(layers@) =~= with_map_ids(orig, seen@));
    }
}

pub(crate) fn track_layer_ids(layers: &Vec<TrackLayer>) -> (ids: Vec<u64>)
    ensures
        ids@ == track_layer_keys(track_layers_view(layers@)),
{
    let mut ids: Vec<u64> = Vec::new();
    let mut i: usize = 0;
    while i < layers.len()
        invariant
            i <= layers.len(),
            ids@ =~= track_layer_keys(track_layers_view(layers@)).take(i as int),
        decreases layers.len() - i,
    {
        ids.push(layers[i].id.0);
        i = i + 1;
    }
    assert(ids@ =~= track_layer_keys(track_layers_view(layers@)));
    ids
}

/// Renumber repeated ids among one kind of layer, as `dedup_kind` says.
fn dedup_track_layers(layers: &mut Vec<TrackLayer>, next: &mut u64, report: &mut Vec<(String, u64, u64)>)
    requires
        dedup_kind(track_entries(track_layers_view(old(layers)@)), *old(next) as int).1 <= u64::MAX,
    ensures
        ({
            let (ids, n, rep) = dedup_kind(track_entries(track_layers_view(old(layers)@)), *old(next) as int);
            &&& track_layers_view(final(layers)@) == with_track_ids(track_layers_view(old(layers)@), ids)
            &&& *final(next) as int == n
            &&& report_view(final(report)@) == report_view(old(report)@) + rep
        }),
{
    let ghost orig = track_layers_view(layers@);
    let ghost entries = track_entries(orig);
    let ghost start = *next as int;
    let ghost rep0 = report_view(report@);
    let mut seen: Vec<u64> = Vec::new();
    let mut i: usize = 0;
    proof {
        assert(entries.take(0) =~= Seq::<(Seq<char>, u64)>::empty());
    }
    while i < layers.len()
        invariant
            i <= layers.len(),
            layers@.len() == orig.len(),
            entries == track_entries(orig),
            entries.len() == orig.len(),
            dedup_kind(entries, start).1 <= u64::MAX,
            ({
                let (ids, n, rep) = dedup_kind(entries.take(i as int), start);
                &&& seen@ == ids
                &&& *next as int == n
                &&& report_view(report@) == rep0 + rep
            }),
            forall|k: int| 0 <= k < i ==> #[trigger] track_layers_view(layers@)[k] == (TrackLayerV { id: LayerId(seen@[k]), ..orig[k] }),
            forall|k: int| i <= k < layers@.len() ==> #[trigger] track_layers_view(layers@)[k] == orig[k],
        decreases layers.len() - i,
    {
        proof {
            lemma_dedup_kind_shape(entries.take(i as int), start);
            lemma_dedup_kind_monotone(entries, start, i as int + 1);
            assert(entries.take(i as int + 1).drop_last() =~= entries.take(i as int));
            assert(entries.take(i as int + 1).last() == (orig[i as int].name, orig[i as int].id.0));
            assert(track_layers_view(layers@)[i as int] == orig[i as int]);
        }
        let old_id = layers[i].id.0;
        let ghost before = layers@;
        let ghost seen_before = seen@;
        let ghost rep_before = report_view(report@);
        if contains_id(&seen, old_id) {
            *next = *next + 1;
            let new_id = *next;
            let mut l = TrackLayer::new(LayerId(0), "");
            layers.set_and_swap(i, &mut l);
            let name = l.name.clone();
            l.set_id(LayerId(new_id));
            layers.set_and_swap(i, &mut l);
            seen.push(new_id);
            report.push((name, old_id, new_id));
            proof {
                assert(layers@ =~= before.update(i as int, layers@[i as int]));
                assert(report_view(report@) =~= rep_before.push((orig[i as int].name, old_id, new_id)));
            }
        } else {
            seen.push(old_id);
        }
        proof {
            assert(track_layers_view(layers@)[i as int] == (TrackLayerV { id: LayerId(seen@[i as int]), ..orig[i as int] }));
            assert forall|k: int| 0 <= k < layers@.len() && k != i implies #[trigger] track_layers_view(layers@)[k] == track_layers_view(before)[k] by {
                assert(layers@[k] == before[k]);
            }
            assert forall|k: int| 0 <= k < i implies #[trigger] seen@[k] == seen_before[k] by {}
        }
        i = i + 1;
    }
    proof {
        assert(entries.take(i as int) =~= entries);
        assert(track_layers_view(layers@) =~= with_track_ids(orig, seen@));
    }
}

pub(crate) fn waypoint_layer_ids(layers: &Vec<WaypointLayer>) -> (ids: Vec<u64>)
    ensures
        ids@ == waypoint_layer_keys(waypoint_layers_view(layers@)),
{
    let mut ids: Vec<u64> = Vec::new();
    let mut i: usize = 0;
    while i < layers.len()
        invariant
            i <= layers.len(),
            ids@ =~= waypoint_layer_keys(waypoint_layers_view(layers@)).take(i as int),
        decreases layers.len() - i,
    {
        ids.push(layers[i].id.0);
        i = i + 1;
    }
    assert(ids@ =~= waypoint_layer_keys(waypoint_layers_view(layers@)));
    ids
}

/// Renumber repeated ids among one kind of layer, as `dedup_kind` says.
fn dedup_waypoint_layers(layers: &mut Vec<WaypointLayer>, next: &mut u64, report: &mut Vec<(String, u64, u64)>)
    requires
        dedup_kind(waypoint_entries(waypoint_layers_view(old(layers)@)), *old(next) as int).1 <= u64::MAX,
    ensures
        ({
            let (ids, n, rep) = dedup_kind(waypoint_entries(waypoint_layers_view(old(layers)@)), *old(next) as int);
            &&& waypoint_layers_view(final(layers)@) == with_waypoint_ids(waypoint_layers_view(old(layers)@), ids)
            &&& *final(next) as int == n
            &&& report_view(final(report)@) == report_view(old(report)@) + rep
        }),
{
    let ghost orig = waypoint_layers_view(layers@);
    let ghost entries = waypoint_entries(orig);
    let ghost start = *next as int;
    let ghost rep0 = report_view(report@);
    let mut seen: Vec<u64> = Vec::new();
    let mut i: usize = 0;
    proof {
        assert(entries.take(0) =~= Seq::<(Seq<char>, u64)>::empty());
    }
    while i < layers.len()
        invariant
            i <= layers.len(),
            layers@.len() == orig.len(),
            entries == waypoint_entries(orig),
            entries.len() == orig.len(),
            dedup_kind(entries, start).1 <= u64::MAX,
            ({
                let (ids, n, rep) = dedup_kind(entries.take(i as int), start);
                &&& seen@ == ids
                &&& *next as int == n
                &&& report_view(report@) == rep0 + rep
            }),
            forall|k: int| 0 <= k < i ==> #[trigger] waypoint_layers_view(layers@)[k] == (WaypointLayerV { id: LayerId(seen@[k]), ..orig[k] }),
            forall|k: int| i <= k < layers@.len() ==> #[trigger] waypoint_layers_view(layers@)[k] == orig[k],
        decreases layers.len() - i,
    {
        proof {
            lemma_dedup_kind_shape(entries.take(i as int), start);
            lemma_dedup_kind_monotone(entries, start, i as int + 1);
            assert(entries.take(i as int + 1).drop_last() =~= entries.take(i as int));
            assert(entries.take(i as int + 1).last() == (orig[i as int].name, orig[i as int].id.0));
            assert(waypoint_layers_view(layers@)[i as int] == orig[i as int]);
        }
        let old_id = layers[i].id.0;
        let ghost before = layers@;
        let ghost seen_before = seen@;
        let ghost rep_before = report_view(report@);
        if contains_id(&seen, old_id) {
            *next = *next + 1;
            let new_id = *next;
            let mut l = WaypointLayer::new(LayerId(0), "");
            layers.set_and_swap(i, &mut l);
            let name = l.name.clone();
            l.set_id(LayerId(new_id));
            layers.set_and_swap(i, &mut l);
            seen.push(new_id);
            report.push((name, old_id, new_id));
            proof {
                assert(layers@ =~= before.update(i as int, layers@[i as int]));
                assert(report_view(report@) =~= rep_before.push((orig[i as int].name, old_id, new_id)));
            }
        } else {
            seen.push(old_id);
        }
        proof {
            assert(waypoint_layers_view(layers@)[i as int] == (WaypointLayerV { id: LayerId(seen@[i as int]), ..orig[i as int] }));
            assert forall|k: int| 0 <= k < layers@.len() && k != i implies #[trigger] waypoint_layers_view(layers@)[k] == waypoint_layers_view(before)[k] by {
                assert(layers@[k] == before[k]);
            }
            assert forall|k: int| 0 <= k < i implies #[trigger] seen@[k] == seen_before[k] by {}
        }
        i = i + 1;
    }
    proof {
        assert(entries.take(i as int) =~= entries);
        assert(waypoint_layers_view(layers@) =~= with_waypoint_ids(orig, seen@));
    }
}

impl Project {
    /// The highest layer id in use in any kind, 0 when there are no layers.
    pub fn highest_layer_id(&self) -> (m: u64)
        ensures
            m as int == highest_layer_id(self@),
    {
        let a = seq_max_exec(&map_layer_ids(&self.map_layers));
        let b = seq_max_exec(&track_layer_ids(&self.track_layers));
        let c = seq_max_exec(&waypoint_layer_ids(&self.waypoint_layers));
        let ab = if a > b { a } else { b };
        if ab > c { ab } else { c }
    }

    /// Give every layer an id no other layer of its kind holds, answering
    /// `(name, old id, new id)` for each layer renumbered. Layers of different
    /// kinds may share an id; new ids continue past the highest in use.
    pub fn deduplicate_layer_ids(&mut self) -> (renumbered: Vec<(String, u64, u64)>)
        requires
            dedup_fits(old(self)@),
        ensures
            final(self)@ == p_dedup(old(self)@).0,
            report_view(renumbered@) == p_dedup(old(self)@).1,
    {
        let ghost p0 = self@;
        let a = seq_max_exec(&map_layer_ids(&self.map_layers));
        let b = seq_max_exec(&track_layer_ids(&self.track_layers));
        let c = seq_max_exec(&waypoint_layer_ids(&self.waypoint_layers));
        let ab = if a > b { a } else { b };
        let mut next: u64 = if ab > c { ab } else { c };
        assert(next as int == highest_layer_id(p0));
        let mut renumbered: Vec<(String, u64, u64)> = Vec::new();
        let ghost (mids, n1, r1) = dedup_kind(map_entries(p0.map_layers), highest_layer_id(p0));
        let ghost (tids, n2, r2) = dedup_kind(track_entries(p0.track_layers), n1);
        proof {
            lemma_dedup_kind_shape(track_entries(p0.track_layers), n1);
            lemma_dedup_kind_shape(waypoint_entries(p0.waypoint_layers), n2);
            assert(report_view(renumbered@) =~= Seq::<(Seq<char>, u64, u64)>::empty());
        }
        dedup_map_layers(&mut self.map_layers, &mut next, &mut renumbered);
        dedup_track_layers(&mut self.track_layers, &mut next, &mut renumbered);
        dedup_waypoint_layers(&mut self.waypoint_layers, &mut next, &mut renumbered);
        proof {
            assert(self@ =~= p_dedup(p0).0);
            assert(report_view(renumbered@) =~= p_dedup(p0).1);
        }
        renumbered
    }
}

// ── what the repair promises ─────────────────────────────────────────────

pub proof fn lemma_seq_max_bounds(s: Seq<u64>)
    ensures
        forall|k: int| 0 <= k < s.len() ==> s[k] <= seq_max(s),
        0 <= seq_max(s) <= u64::MAX,
    decreases s.len(),
{
    if s.len() > 0 {
        lemma_seq_max_bounds(s.drop_last());
        assert forall|k: int| 0 <= k < s.len() implies s[k] <= seq_max(s) by {
            if k < s.len() - 1 {
                assert(s[k] == s.drop_last()[k]);
            }
        }
    }
}

proof fn lemma_dedup_kind_distinct(entries: Seq<(Seq<char>, u64)>, next: int)
    requires
        forall|k: int| 0 <= k < entries.len() ==> entries[k].1 <= next,
        dedup_kind(entries, next).1 <= u64::MAX,
    ensures
        dedup_kind(entries, next).0.no_duplicates(),
        forall|k: int| 0 <= k < entries.len() ==> dedup_kind(entries, next).0[k] <= dedup_kind(entries, next).1,
    decreases entries.len(),
{
    lemma_dedup_kind_shape(entries, next);
    if entries.len() > 0 {
        let rest = entries.drop_last();
        lemma_dedup_kind_monotone(entries, next, entries.len() - 1);
        assert(entries.take(entries.len() - 1) =~= rest);
        lemma_dedup_kind_shape(rest, next);
        lemma_dedup_kind_distinct(rest, next);
        let (ids, n, rep) = dedup_kind(rest, next);
        let (name, old) = entries.last();
        if ids.contains(old) {
            let ids2 = ids.push((n + 1) as u64);
            assert forall|a: int, b: int| 0 <= a < ids2.len() && 0 <= b < ids2.len() && a != b implies ids2[a] != ids2[b] by {
                if a < ids.len() && b < ids.len() {
                } else if a == ids.len() {
                    assert(ids[b] <= n);
                } else {
                    assert(ids[a] <= n);
                }
            }
        } else {
            let ids2 = ids.push(old);
            assert forall|a: int, b: int| 0 <= a < ids2.len() && 0 <= b < ids2.len() && a != b implies ids2[a] != ids2[b] by {
                if a < ids.len() && b < ids.len() {
                } else if a == ids.len() {
                    assert(ids2[b] == ids[b]);
                } else {
                    assert(ids2[a] == ids[a]);
                }
            }
        }
    }
}

proof fn lemma_dedup_kind_identity(entries: Seq<(Seq<char>, u64)>, next: int)
    requires
        Seq::new(entries.len(), |k: int| entries[k].1).no_duplicates(),
    ensures
        dedup_kind(entries, next) == (Seq::new(entries.len(), |k: int| entries[k].1), next, Seq::<(Seq<char>, u64, u64)>::empty()),
    decreases entries.len(),
{
    let keys = Seq::new(entries.len(), |k: int| entries[k].1);
    if entries.len() > 0 {
        let rest = entries.drop_last();
        let rkeys = Seq::new(rest.len(), |k: int| rest[k].1);
        assert(rkeys =~= keys.drop_last());
        assert(rkeys.no_duplicates());
        lemma_dedup_kind_identity(rest, next);
        assert(!rkeys.contains(entries.last().1)) by {
            if rkeys.contains(entries.last().1) {
                let j = choose|j: int| 0 <= j < rkeys.len() && rkeys[j] == entries.last().1;
                assert(keys[j] == keys[entries.len() - 1]);
            }
        }
        assert(rkeys.push(entries.last().1) =~= keys);
    } else {
        assert(keys =~= Seq::<u64>::empty());
    }
}

/// After the repair no two layers of one kind share an id.
pub proof fn law_dedup_gives_unique_ids(p: ProjectV)
    requires
        dedup_fits(p),
    ensures
        map_layer_keys(p_dedup(p).0.map_layers).no_duplicates(),
        track_layer_keys(p_dedup(p).0.track_layers).no_duplicates(),
        waypoint_layer_keys(p_dedup(p).0.waypoint_layers).no_duplicates(),
{
    let start = highest_layer_id(p);
    lemma_seq_max_bounds(map_layer_keys(p.map_layers));
    lemma_seq_max_bounds(track_layer_keys(p.track_layers));
    lemma_seq_max_bounds(waypoint_layer_keys(p.waypoint_layers));
    let me = map_entries(p.map_layers);
    let te = track_entries(p.track_layers);
    let we = waypoint_entries(p.waypoint_layers);
    let (mids, n1, r1) = dedup_kind(me, start);
    let (tids, n2, r2) = dedup_kind(te, n1);
    let (wids, n3, r3) = dedup_kind(we, n2);
    lemma_dedup_kind_shape(me, start);
    lemma_dedup_kind_shape(te, n1);
    lemma_dedup_kind_shape(we, n2);
    assert forall|k: int| 0 <= k < me.len() implies me[k].1 <= start by {
        assert(me[k].1 == map_layer_keys(p.map_layers)[k]);
    }
    assert forall|k: int| 0 <= k < te.len() implies te[k].1 <= n1 by {
        assert(te[k].1 == track_layer_keys(p.track_layers)[k]);
    }
    assert forall|k: int| 0 <= k < we.len() implies we[k].1 <= n2 by {
        assert(we[k].1 == waypoint_layer_keys(p.waypoint_layers)[k]);
    }
    lemma_dedup_kind_distinct(me, start);
    lemma_dedup_kind_distinct(te, n1);
    lemma_dedup_kind_distinct(we, n2);
    assert(map_layer_keys(p_dedup(p).0.map_layers) =~= mids);
    assert(track_layer_keys(p_dedup(p).0.track_layers) =~= tids);
    assert(waypoint_layer_keys(p_dedup(p).0.waypoint_layers) =~= wids);
}

/// A project whose layer ids are already unique within each kind comes
/// through the repair unchanged, with nothing reported.
pub proof fn law_dedup_leaves_healthy_project(p: ProjectV)
    requires
        map_layer_keys(p.map_layers).no_duplicates(),
        track_layer_keys(p.track_layers).no_duplicates(),
        waypoint_layer_keys(p.waypoint_layers).no_duplicates(),
    ensures
        dedup_fits(p),
        p_dedup(p).0 == p,
        p_dedup(p).1.len() == 0,
{
    let start = highest_layer_id(p);
    let me = map_entries(p.map_layers);
    let te = track_entries(p.track_layers);
    let we = waypoint_entries(p.waypoint_layers);
    assert(Seq::new(me.len(), |k: int| me[k].1) =~= map_layer_keys(p.map_layers));
    assert(Seq::new(te.len(), |k: int| te[k].1) =~= track_layer_keys(p.track_layers));
    assert(Seq::new(we.len(), |k: int| we[k].1) =~= waypoint_layer_keys(p.waypoint_layers));
    lemma_dedup_kind_identity(me, start);
    lemma_dedup_kind_identity(te, start);
    lemma_dedup_kind_identity(we, start);
    lemma_seq_max_bounds(map_layer_keys(p.map_layers));
    lemma_seq_max_bounds(track_layer_keys(p.track_layers));
    lemma_seq_max_bounds(waypoint_layer_keys(p.waypoint_layers));
    assert(with_map_ids(p.map_layers, map_layer_keys(p.map_layers)) =~= p.map_layers);
    assert(with_track_ids(p.track_layers, track_layer_keys(p.track_layers)) =~= p.track_layers);
    assert(with_waypoint_ids(p.waypoint_layers, waypoint_layer_keys(p.waypoint_layers)) =~= p.waypoint_layers);
    assert(p_dedup(p).0 =~= p);
    assert(p_dedup(p).1 =~= Seq::<(Seq<char>, u64, u64)>::empty());
}

/// For each layer of a kind, its name, its id before and its id after; kept
/// only where the id changed.
pub open spec fn renumbered(entries: Seq<(Seq<char>, u64)>, ids: Seq<u64>) -> Seq<(Seq<char>, u64, u64)> {
    Seq::new(entries.len(), |i: int| (entries[i].0, entries[i].1, ids[i])).filter(id_changed())
}

pub open spec fn id_changed() -> spec_fn((Seq<char>, u64, u64)) -> bool {
    |e: (Seq<char>, u64, u64)| e.1 != e.2
}

proof fn lemma_filter_changed(z: Seq<(Seq<char>, u64, u64)>)
    ensures
        z.len() == 0 ==> z.filter(id_changed()) == Seq::<(Seq<char>, u64, u64)>::empty(),
        z.len() > 0 ==> z.filter(id_changed()) == (if z.last().1 != z.last().2 {
            z.drop_last().filter(id_changed()).push(z.last())
        } else {
            z.drop_last().filter(id_changed())
        }),
{
    reveal(Seq::filter);
}

/// Within one kind, the first layer with an id keeps it, and a later one
/// with the same id gets a new number past `next`.
proof fn lemma_dedup_kind_ids(entries: Seq<(Seq<char>, u64)>, next: int)
    requires
        forall|k: int| 0 <= k < entries.len() ==> entries[k].1 <= next,
        dedup_kind(entries, next).1 <= u64::MAX,
    ensures
        ({
            let (ids, n, rep) = dedup_kind(entries, next);
            &&& ids.len() == entries.len()
            &&& forall|i: int| 0 <= i < entries.len() ==>
                    ((#[trigger] ids[i] == entries[i].1) <==> forall|j: int| 0 <= j < i ==> entries[j].1 != entries[i].1)
            &&& forall|i: int| 0 <= i < entries.len() && ids[i] != entries[i].1 ==> next < #[trigger] ids[i] <= n
        }),
    decreases entries.len(),
{
    lemma_dedup_kind_shape(entries, next);
    if entries.len() > 0 {
        let (ids, n, rep) = dedup_kind(entries, next);
        let d = entries.drop_last();
        lemma_dedup_kind_shape(d, next);
        let (ids_d, n_d, rep_d) = dedup_kind(d, next);
        assert(n_d <= n);
        lemma_dedup_kind_ids(d, next);
        let last = entries.len() - 1;
        let old = entries.last().1;
        assert(forall|i: int| 0 <= i < last ==> ids[i] == ids_d[i] && entries[i] == d[i]);
        assert(ids_d.contains(old) <==> exists|j: int| 0 <= j < last && entries[j].1 == old) by {
            if ids_d.contains(old) {
                let j = choose|j: int| 0 <= j < ids_d.len() && ids_d[j] == old;
                if ids_d[j] != d[j].1 {
                    assert(next < ids_d[j]);
                }
                assert(entries[j].1 == old);
            }
            if exists|j: int| 0 <= j < last && entries[j].1 == old {
                let w = choose|j: int| 0 <= j < last && entries[j].1 == old;
                lemma_first_occurrence(entries, old, w);
                let j0 = choose|j: int| 0 <= j <= w && entries[j].1 == old && forall|k: int| 0 <= k < j ==> entries[k].1 != old;
                assert(forall|k: int| 0 <= k < j0 ==> d[k].1 != d[j0].1);
                assert(ids_d[j0] == d[j0].1);
                assert(ids_d.contains(old));
            }
        }
        assert forall|i: int| 0 <= i < entries.len() implies
            ((#[trigger] ids[i] == entries[i].1) <==> forall|j: int| 0 <= j < i ==> entries[j].1 != entries[i].1) by {
            if i < last {
                assert(ids_d[i] == d[i].1 <==> forall|j: int| 0 <= j < i ==> d[j].1 != d[i].1);
            }
        }
    }
}

/// The report of one kind lists exactly the layers whose id changed, in
/// order.
proof fn lemma_dedup_kind_report(entries: Seq<(Seq<char>, u64)>, next: int)
    requires
        forall|k: int| 0 <= k < entries.len() ==> entries[k].1 <= next,
        dedup_kind(entries, next).1 <= u64::MAX,
    ensures
        dedup_kind(entries, next).2 == renumbered(entries, dedup_kind(entries, next).0),
    decreases entries.len(),
{
    lemma_dedup_kind_shape(entries, next);
    let (ids, n, rep) = dedup_kind(entries, next);
    let z = Seq::new(entries.len(), |i: int| (entries[i].0, entries[i].1, ids[i]));
    lemma_filter_changed(z);
    if entries.len() == 0 {
        assert(rep =~= Seq::<(Seq<char>, u64, u64)>::empty());
    } else {
        let d = entries.drop_last();
        lemma_dedup_kind_shape(d, next);
        let (ids_d, n_d, rep_d) = dedup_kind(d, next);
        lemma_dedup_kind_report(d, next);
        let zd = Seq::new(d.len(), |i: int| (d[i].0, d[i].1, ids_d[i]));
        assert(z.drop_last() =~= zd);
    }
}

proof fn lemma_first_occurrence(entries: Seq<(Seq<char>, u64)>, x: u64, w: int)
    requires
        0 <= w < entries.len(),
        entries[w].1 == x,
    ensures
        exists|j: int| 0 <= j <= w && entries[j].1 == x && forall|k: int| 0 <= k < j ==> entries[k].1 != x,
    decreases w,
{
    if exists|j: int| 0 <= j < w && entries[j].1 == x {
        let j = choose|j: int| 0 <= j < w && entries[j].1 == x;
        lemma_first_occurrence(entries, x, j);
    } else {
        assert(forall|k: int| 0 <= k < w ==> entries[k].1 != x);
    }
}

/// Repairing layer ids renumbers only repeats. Within each kind the first
/// layer with an id keeps it and every later layer with that id gets a new
/// number above the highest id in use before; names, contents and the
/// order of layers are unchanged; and the report lists, map layers first,
/// then track layers, then waypoint layers, exactly the renumbered layers
/// in their order, each with its name, its old id and its new one.
pub proof fn law_dedup_renumbers_only_repeats(p: ProjectV)
    requires
        dedup_fits(p),
    ensures
        ({
            let q = p_dedup(p).0;
            let m = highest_layer_id(p);
            &&& q == (ProjectV { map_layers: q.map_layers, track_layers: q.track_layers, waypoint_layers: q.waypoint_layers, ..p })
            &&& q.map_layers.len() == p.map_layers.len()
            &&& q.track_layers.len() == p.track_layers.len()
            &&& q.waypoint_layers.len() == p.waypoint_layers.len()
            &&& forall|i: int| 0 <= i < p.map_layers.len() ==> {
                &&& #[trigger] q.map_layers[i] == (MapLayerV { id: q.map_layers[i].id, ..p.map_layers[i] })
                &&& (q.map_layers[i].id == p.map_layers[i].id <==> forall|j: int| 0 <= j < i ==> p.map_layers[j].id != p.map_layers[i].id)
                &&& (q.map_layers[i].id != p.map_layers[i].id ==> m < q.map_layers[i].id.0)
            }
            &&& forall|i: int| 0 <= i < p.track_layers.len() ==> {
                &&& #[trigger] q.track_layers[i] == (TrackLayerV { id: q.track_layers[i].id, ..p.track_layers[i] })
                &&& (q.track_layers[i].id == p.track_layers[i].id <==> forall|j: int| 0 <= j < i ==> p.track_layers[j].id != p.track_layers[i].id)
                &&& (q.track_layers[i].id != p.track_layers[i].id ==> m < q.track_layers[i].id.0)
            }
            &&& forall|i: int| 0 <= i < p.waypoint_layers.len() ==> {
                &&& #[trigger] q.waypoint_layers[i] == (WaypointLayerV { id: q.waypoint_layers[i].id, ..p.waypoint_layers[i] })
                &&& (q.waypoint_layers[i].id == p.waypoint_layers[i].id <==> forall|j: int| 0 <= j < i ==> p.waypoint_layers[j].id != p.waypoint_layers[i].id)
                &&& (q.waypoint_layers[i].id != p.waypoint_layers[i].id ==> m < q.waypoint_layers[i].id.0)
            }
            &&& p_dedup(p).1 == renumbered(map_entries(p.map_layers), map_layer_keys(q.map_layers))
                + renumbered(track_entries(p.track_layers), track_layer_keys(q.track_layers))
                + renumbered(waypoint_entries(p.waypoint_layers), waypoint_layer_keys(q.waypoint_layers))
        }),
{
    let start = highest_layer_id(p);
    lemma_seq_max_bounds(map_layer_keys(p.map_layers));
    lemma_seq_max_bounds(track_layer_keys(p.track_layers));
    lemma_seq_max_bounds(waypoint_layer_keys(p.waypoint_layers));
    let me = map_entries(p.map_layers);
    let te = track_entries(p.track_layers);
    let we = waypoint_entries(p.waypoint_layers);
    let (mids, n1, r1) = dedup_kind(me, start);
    let (tids, n2, r2) = dedup_kind(te, n1);
    let (wids, n3, r3) = dedup_kind(we, n2);
    lemma_dedup_kind_shape(me, start);
    lemma_dedup_kind_shape(te, n1);
    lemma_dedup_kind_shape(we, n2);
    assert forall|k: int| 0 <= k < me.len() implies me[k].1 <= start by {
        assert(me[k].1 == map_layer_keys(p.map_layers)[k]);
    }
    assert forall|k: int| 0 <= k < te.len() implies te[k].1 <= n1 by {
        assert(te[k].1 == track_layer_keys(p.track_layers)[k]);
    }
    assert forall|k: int| 0 <= k < we.len() implies we[k].1 <= n2 by {
        assert(we[k].1 == waypoint_layer_keys(p.waypoint_layers)[k]);
    }
    lemma_dedup_kind_ids(me, start);
    lemma_dedup_kind_ids(te, n1);
    lemma_dedup_kind_ids(we, n2);
    lemma_dedup_kind_report(me, start);
    lemma_dedup_kind_report(te, n1);
    lemma_dedup_kind_report(we, n2);
    let q = p_dedup(p).0;
    assert(map_layer_keys(q.map_layers) =~= mids);
    assert(track_layer_keys(q.track_layers) =~= tids);
    assert(waypoint_layer_keys(q.waypoint_layers) =~= wids);
    assert forall|i: int| 0 <= i < p.map_layers.len() implies
        (q.map_layers[i].id == p.map_layers[i].id <==> forall|j: int| 0 <= j < i ==> p.map_layers[j].id != p.map_layers[i].id) by {
        assert(me[i].1 == p.map_layers[i].id.0);
        assert(mids[i] == me[i].1 <==> forall|j: int| 0 <= j < i ==> me[j].1 != me[i].1);
        assert(q.map_layers[i].id == LayerId(mids[i]));
        if forall|j: int| 0 <= j < i ==> p.map_layers[j].id != p.map_layers[i].id {
            assert forall|j: int| 0 <= j < i implies me[j].1 != me[i].1 by {
                assert(me[j].1 == p.map_layers[j].id.0);
                assert(p.map_layers[j].id != p.map_layers[i].id);
            }
        }
        if forall|j: int| 0 <= j < i ==> me[j].1 != me[i].1 {
            assert forall|j: int| 0 <= j < i implies p.map_layers[j].id != p.map_layers[i].id by {
                assert(me[j].1 == p.map_layers[j].id.0);
                assert(me[j].1 != me[i].1);
            }
        }
    }
    assert forall|i: int| 0 <= i < p.track_layers.len() implies
        (q.track_layers[i].id == p.track_layers[i].id <==> forall|j: int| 0 <= j < i ==> p.track_layers[j].id != p.track_layers[i].id) by {
        assert(te[i].1 == p.track_layers[i].id.0);
        assert(tids[i] == te[i].1 <==> forall|j: int| 0 <= j < i ==> te[j].1 != te[i].1);
        assert(q.track_layers[i].id == LayerId(tids[i]));
        if forall|j: int| 0 <= j < i ==> p.track_layers[j].id != p.track_layers[i].id {
            assert forall|j: int| 0 <= j < i implies te[j].1 != te[i].1 by {
                assert(te[j].1 == p.track_layers[j].id.0);
                assert(p.track_layers[j].id != p.track_layers[i].id);
            }
        }
        if forall|j: int| 0 <= j < i ==> te[j].1 != te[i].1 {
            assert forall|j: int| 0 <= j < i implies p.track_layers[j].id != p.track_layers[i].id by {
                assert(te[j].1 == p.track_layers[j].id.0);
                assert(te[j].1 != te[i].1);
            }
        }
    }
    assert forall|i: int| 0 <= i < p.waypoint_layers.len() implies
        (q.waypoint_layers[i].id == p.waypoint_layers[i].id <==> forall|j: int| 0 <= j < i ==> p.waypoint_layers[j].id != p.waypoint_layers[i].id) by {
        assert(we[i].1 == p.waypoint_layers[i].id.0);
        assert(wids[i] == we[i].1 <==> forall|j: int| 0 <= j < i ==> we[j].1 != we[i].1);
        assert(q.waypoint_layers[i].id == LayerId(wids[i]));
        if forall|j: int| 0 <= j < i ==> p.waypoint_layers[j].id != p.waypoint_layers[i].id {
            assert forall|j: int| 0 <= j < i implies we[j].1 != we[i].1 by {
                assert(we[j].1 == p.waypoint_layers[j].id.0);
                assert(p.waypoint_layers[j].id != p.waypoint_layers[i].id);
            }
        }
        if forall|j: int| 0 <= j < i ==> we[j].1 != we[i].1 {
            assert forall|j: int| 0 <= j < i implies p.waypoint_layers[j].id != p.waypoint_layers[i].id by {
                assert(we[j].1 == p.waypoint_layers[j].id.0);
                assert(we[j].1 != we[i].1);
            }
        }
    }
    assert forall|i: int| 0 <= i < p.track_layers.len() && q.track_layers[i].id != p.track_layers[i].id implies start < q.track_layers[i].id.0 by {
        assert(te[i].1 == p.track_layers[i].id.0);
        assert(n1 < tids[i]);
    }
    assert forall|i: int| 0 <= i < p.waypoint_layers.len() && q.waypoint_layers[i].id != p.waypoint_layers[i].id implies start < q.waypoint_layers[i].id.0 by {
        assert(we[i].1 == p.waypoint_layers[i].id.0);
        assert(n2 < wids[i]);
    }
    assert forall|i: int| 0 <= i < p.map_layers.len() && q.map_layers[i].id != p.map_layers[i].id implies start < q.map_layers[i].id.0 by {
        assert(me[i].1 == p.map_layers[i].id.0);
        assert(start < mids[i]);
    }
}

/// The new numbers in the report of one kind run upward, each past `next`
/// and none past the last number handed out.
proof fn lemma_dedup_kind_report_rises(entries: Seq<(Seq<char>, u64)>, next: int)
    requires
        0 <= next,
        dedup_kind(entries, next).1 <= u64::MAX,
    ensures
        ({
            let (ids, n, rep) = dedup_kind(entries, next);
            &&& forall|k: int| 0 <= k < rep.len() ==> next < #[trigger] rep[k].2 <= n
            &&& forall|a: int, b: int| 0 <= a < b < rep.len() ==> rep[a].2 < rep[b].2
        }),
    decreases entries.len(),
{
    lemma_dedup_kind_shape(entries, next);
    if entries.len() > 0 {
        let d = entries.drop_last();
        lemma_dedup_kind_shape(d, next);
        let (ids_d, n_d, rep_d) = dedup_kind(d, next);
        assert(n_d <= dedup_kind(entries, next).1);
        lemma_dedup_kind_report_rises(d, next);
    }
}

/// The new numbers a repair hands out run upward through the whole report,
/// map layers, track layers and waypoint layers alike, and each is above
/// the highest layer id in use before.
pub proof fn law_dedup_new_ids_rise(p: ProjectV)
    requires
        dedup_fits(p),
    ensures
        ({
            let rep = p_dedup(p).1;
            &&& forall|k: int| 0 <= k < rep.len() ==> highest_layer_id(p) < #[trigger] rep[k].2
            &&& forall|a: int, b: int| 0 <= a < b < rep.len() ==> rep[a].2 < rep[b].2
        }),
{
    let start = highest_layer_id(p);
    lemma_seq_max_bounds(map_layer_keys(p.map_layers));
    lemma_seq_max_bounds(track_layer_keys(p.track_layers));
    lemma_seq_max_bounds(waypoint_layer_keys(p.waypoint_layers));
    let me = map_entries(p.map_layers);
    let te = track_entries(p.track_layers);
    let we = waypoint_entries(p.waypoint_layers);
    let (mids, n1, r1) = dedup_kind(me, start);
    let (tids, n2, r2) = dedup_kind(te, n1);
    let (wids, n3, r3) = dedup_kind(we, n2);
    lemma_dedup_kind_shape(me, start);
    lemma_dedup_kind_shape(te, n1);
    lemma_dedup_kind_shape(we, n2);
    lemma_dedup_kind_report_rises(me, start);
    lemma_dedup_kind_report_rises(te, n1);
    lemma_dedup_kind_report_rises(we, n2);
    let rep = r1 + r2 + r3;
    assert(p_dedup(p).1 == rep);
    assert forall|k: int| 0 <= k < rep.len() implies start < #[trigger] rep[k].2 && rep[k].2 <= n3 by {
        if k < r1.len() {
            assert(rep[k] == r1[k]);
        } else if k < r1.len() + r2.len() {
            assert(rep[k] == r2[k - r1.len()]);
        } else {
            assert(rep[k] == r3[k - r1.len() - r2.len()]);
        }
    }
    assert forall|a: int, b: int| 0 <= a < b < rep.len() implies rep[a].2 < rep[b].2 by {
        let l1 = r1.len() as int;
        let l2 = r2.len() as int;
        if b < l1 {
            assert(rep[a] == r1[a] && rep[b] == r1[b]);
        } else if b < l1 + l2 {
            assert(rep[b] == r2[b - l1]);
            if a < l1 {
                assert(rep[a] == r1[a]);
            } else {
                assert(rep[a] == r2[a - l1]);
            }
        } else {
            assert(rep[b] == r3[b - l1 - l2]);
            if a < l1 {
                assert(rep[a] == r1[a]);
            } else if a < l1 + l2 {
                assert(rep[a] == r2[a - l1]);
            } else {
                assert(rep[a] == r3[a - l1 - l2]);
            }
        }
    }
}

} // verus!
