use vstd::prelude::*;
use crate::ids::WaypointId;
use crate::text::{trim, trim_str};

verus! {

pub open spec fn opt_str_view(o: Option<String>) -> Option<Seq<char>> {
    match o {
        Some(s) => Some(s@),
        None => None,
    }
}

pub open spec fn strings_view(v: Seq<String>) -> Seq<Seq<char>> {
    v.map_values(|s: String| s@)
}

/// What a waypoint is, for the contracts.
#[verifier::ext_equal]
pub struct WaypointV {
    pub id: WaypointId,
    pub name: Seq<char>,
    pub symbol: Option<Seq<char>>,
    pub latitude: u64,
    pub longitude: u64,
    pub visible: bool,
    pub color: Option<[u8; 4]>,
    pub description: Option<Seq<char>>,
    pub attachments: Seq<Seq<char>>,
}

/// A mark on the map.
///
/// Coordinates are the bit patterns of the `f64` degrees they were read as.
#[derive(Debug, PartialEq)]
pub struct Waypoint {
    pub id: WaypointId,
    pub name: String,
    pub symbol: Option<String>,
    pub latitude: u64,
    pub longitude: u64,
    /// Whether the mark is drawn. New marks are visible.
    pub visible: bool,
    /// RGBA, or `None` for whatever the map draws marks with.
    pub color: Option<[u8; 4]>,
    /// The note beside the mark: what a crew is sent to. `None` is a mark
    /// with nothing to say.
    pub description: Option<String>,
    /// Files that belong to the mark, as paths.
    pub attachments: Vec<String>,
}

impl View for Waypoint {
    type V = WaypointV;

    open spec fn view(&self) -> WaypointV {
        WaypointV {
            id: self.id,
            name: self.name@,
            symbol: opt_str_view(self.symbol),
            latitude: self.latitude,
            longitude: self.longitude,
            visible: self.visible,
            color: self.color,
            description: opt_str_view(self.description),
            attachments: strings_view(self.attachments@),
        }
    }
}

pub fn clone_opt_string(o: &Option<String>) -> (c: Option<String>)
    ensures
        opt_str_view(c) == opt_str_view(*o),
{
    match o {
        Some(s) => Some(s.clone()),
        None => None,
    }
}

pub fn clone_strings(v: &Vec<String>) -> (c: Vec<String>)
    ensures
        strings_view(c@) == strings_view(v@),
{
    let mut out: Vec<String> = Vec::new();
    let mut i: usize = 0;
    while i < v.len()
        invariant
            i <= v.len(),
            strings_view(out@) =~= strings_view(v@.subrange(0, i as int)),
        decreases v.len() - i,
    {
        let s = v[i].clone();
        let ghost prev = out@;
        out.push(s);
        proof {
            assert(strings_view(out@) =~= strings_view(prev).push(s@));
            assert(strings_view(v@.subrange(0, i as int + 1)) =~= strings_view(v@.subrange(0, i as int)).push(v@[i as int]@));
        }
        i = i + 1;
    }
    proof {
        assert(v@.subrange(0, v.len() as int) =~= v@);
    }
    out
}

impl Clone for Waypoint {
    fn clone(&self) -> (c: Self)
        ensures
            c@ == self@,
    {
        Waypoint {
            id: self.id,
            name: self.name.clone(),
            symbol: clone_opt_string(&self.symbol),
            latitude: self.latitude,
            longitude: self.longitude,
            visible: self.visible,
            color: self.color,
            description: clone_opt_string(&self.description),
            attachments: clone_strings(&self.attachments),
        }
    }
}

/// A note as it is kept: trimmed, and absent when nothing is left.
pub open spec fn normalised_description(d: Option<Seq<char>>) -> Option<Seq<char>> {
    match d {
        Some(s) => if trim(s).len() == 0 { None } else { Some(trim(s)) },
        None => None,
    }
}

/// The attachment list as it is kept: each path trimmed, blanks dropped, and
/// a path that is already there not added again.
pub open spec fn cleaned_attachments(paths: Seq<Seq<char>>) -> Seq<Seq<char>>
    decreases paths.len(),
{
    if paths.len() == 0 {
        Seq::empty()
    } else {
        let kept = cleaned_attachments(paths.drop_last());
        let t = trim(paths.last());
        if t.len() == 0 || kept.contains(t) {
            kept
        } else {
            kept.push(t)
        }
    }
}

pub(crate) fn contains_string(v: &Vec<String>, s: &String) -> (b: bool)
    ensures
        b == strings_view(v@).contains(s@),
{
    let mut i: usize = 0;
    while i < v.len()
        invariant
            i <= v.len(),
            forall|k: int| 0 <= k < i ==> v@[k]@ != s@,
        decreases v.len() - i,
    {
        if v[i] == *s {
            assert(strings_view(v@)[i as int] == s@);
            return true;
        }
        i = i + 1;
    }
    proof {
        if strings_view(v@).contains(s@) {
            let k = choose|k: int| 0 <= k < strings_view(v@).len() && strings_view(v@)[k] == s@;
            assert(v@[k]@ == s@);
        }
    }
    false
}

impl Waypoint {
    /// A new, visible, uncoloured mark with no symbol, note or files.
    pub fn new(id: WaypointId, name: &str, latitude: u64, longitude: u64) -> (w: Self)
        ensures
            w@ == (WaypointV {
                id,
                name: name@,
                symbol: None,
                latitude,
                longitude,
                visible: true,
                color: None,
                description: None,
                attachments: Seq::empty(),
            }),
    {
        let w = Waypoint {
            id,
            name: String::from_str(name),
            symbol: None,
            latitude,
            longitude,
            visible: true,
            color: None,
            description: None,
            attachments: Vec::new(),
        };
        proof {
            assert(strings_view(w.attachments@) =~= Seq::<Seq<char>>::empty());
        }
        w
    }

    pub fn id(&self) -> (id: WaypointId)
        ensures
            id == self.id,
    {
        self.id
    }

    pub fn name(&self) -> (n: &str)
        ensures
            n@ == self.name@,
    {
        self.name.as_str()
    }

    pub fn description(&self) -> (d: Option<&str>)
        ensures
            match d {
                Some(s) => self@.description == Some(s@),
                None => self@.description is None,
            },
    {
        match &self.description {
            Some(s) => Some(s.as_str()),
            None => None,
        }
    }

    /// Set the note, answering with what it was. A note that is blank once
    /// trimmed is no note.
    pub fn set_description(&mut self, description: Option<String>) -> (previous: Option<String>)
        ensures
            final(self)@ == (WaypointV { description: normalised_description(opt_str_view(description)), ..old(self)@ }),
            opt_str_view(previous) == old(self)@.description,
    {
        let normalised = match description {
            Some(d) => {
                let t = trim_str(d.as_str());
                if t.unicode_len() == 0 {
                    None
                } else {
                    Some(t)
                }
            },
            None => None,
        };
        let mut previous = normalised;
        std::mem::swap(&mut self.description, &mut previous);
        previous
    }

    pub fn attachments(&self) -> (a: &[String])
        ensures
            a@ == self.attachments@,
    {
        self.attachments.as_slice()
    }

    /// Replace the whole list of files, answering with the one it replaced.
    /// Blank entries are dropped and a path already in the list is not added
    /// twice.
    pub fn set_attachments(&mut self, attachments: Vec<String>) -> (previous: Vec<String>)
        ensures
            final(self)@ == (WaypointV { attachments: cleaned_attachments(strings_view(attachments@)), ..old(self)@ }),
            strings_view(previous@) == old(self)@.attachments,
    {
        let ghost paths = strings_view(attachments@);
        let mut cleaned: Vec<String> = Vec::new();
        let mut i: usize = 0;
        while i < attachments.len()
            invariant
                i <= attachments.len(),
                paths == strings_view(attachments@),
                strings_view(cleaned@) == cleaned_attachments(paths.take(i as int)),
            decreases attachments.len() - i,
        {
            let trimmed = trim_str(attachments[i].as_str());
            proof {
                assert(paths.take(i as int + 1).drop_last() =~= paths.take(i as int));
                assert(paths.take(i as int + 1).last() == attachments@[i as int]@);
            }
            if trimmed.unicode_len() != 0 && !contains_string(&cleaned, &trimmed) {
                let ghost prev = cleaned@;
                cleaned.push(trimmed);
                proof {
                    assert(strings_view(cleaned@) =~= strings_view(prev).push(trimmed@));
                }
            }
            i = i + 1;
        }
        proof {
            assert(paths.take(attachments.len() as int) =~= paths);
        }
        let mut previous = cleaned;
        std::mem::swap(&mut self.attachments, &mut previous);
        previous
    }

    pub fn symbol(&self) -> (s: Option<&str>)
        ensures
            match s {
                Some(v) => self@.symbol == Some(v@),
                None => self@.symbol is None,
            },
    {
        match &self.symbol {
            Some(s) => Some(s.as_str()),
            None => None,
        }
    }

    pub fn latitude(&self) -> (v: u64)
        ensures
            v == self.latitude,
    {
        self.latitude
    }

    pub fn longitude(&self) -> (v: u64)
        ensures
            v == self.longitude,
    {
        self.longitude
    }

    pub fn move_to(&mut self, latitude: u64, longitude: u64)
        ensures
            final(self)@ == (WaypointV { latitude, longitude, ..old(self)@ }),
    {
        self.latitude = latitude;
        self.longitude = longitude;
    }

    /// Rename, answering with the old name.
    pub fn set_name(&mut self, name: String) -> (previous: String)
        ensures
            final(self)@ == (WaypointV { name: name@, ..old(self)@ }),
            previous@ == old(self)@.name,
    {
        let mut previous = name;
        std::mem::swap(&mut self.name, &mut previous);
        previous
    }

    /// Set or clear the symbol, answering with the old one.
    pub fn set_symbol(&mut self, symbol: Option<String>) -> (previous: Option<String>)
        ensures
            final(self)@ == (WaypointV { symbol: opt_str_view(symbol), ..old(self)@ }),
            opt_str_view(previous) == old(self)@.symbol,
    {
        let mut previous = symbol;
        std::mem::swap(&mut self.symbol, &mut previous);
        previous
    }

    pub fn color(&self) -> (c: Option<[u8; 4]>)
        ensures
            c == self.color,
    {
        self.color
    }

    /// Set or clear the colour, answering with the old one.
    pub fn set_color(&mut self, color: Option<[u8; 4]>) -> (previous: Option<[u8; 4]>)
        ensures
            final(self)@ == (WaypointV { color, ..old(self)@ }),
            previous == old(self)@.color,
    {
        let previous = self.color;
        self.color = color;
        previous
    }

    pub fn visible(&self) -> (v: bool)
        ensures
            v == self.visible,
    {
        self.visible
    }

    /// Flip visibility and answer with the new value.
    pub fn toggle_visible(&mut self) -> (v: bool)
        ensures
            final(self)@ == (WaypointV { visible: !old(self)@.visible, ..old(self)@ }),
            v == !old(self)@.visible,
    {
        self.visible = !self.visible;
        self.visible
    }

    pub fn set_visible(&mut self, visible: bool)
        ensures
            final(self)@ == (WaypointV { visible, ..old(self)@ }),
    {
        self.visible = visible;
    }
}

/// Some path given trims to `x` before any path trims to `y`.
pub open spec fn given_first(paths: Seq<Seq<char>>, x: Seq<char>, y: Seq<char>) -> bool {
    exists|i: int| 0 <= i < paths.len() && trim(paths[i]) == x && forall|j: int| 0 <= j <= i ==> trim(paths[j]) != y
}

/// The attachment list a mark keeps names no path twice; it holds exactly
/// the paths given that are not blank once trimmed, each trimmed; and they
/// stand in the order in which they first appear among the paths given.
pub proof fn law_attachments_are_the_distinct_paths_given(paths: Seq<Seq<char>>)
    ensures
        cleaned_attachments(paths).no_duplicates(),
        forall|x: Seq<char>| #[trigger] cleaned_attachments(paths).contains(x) <==> (x.len() > 0 && exists|i: int|
            0 <= i < paths.len() && trim(paths[i]) == x),
        forall|a: int, b: int|
            #![trigger cleaned_attachments(paths)[a], cleaned_attachments(paths)[b]]
            0 <= a < b < cleaned_attachments(paths).len() ==> given_first(paths, cleaned_attachments(paths)[a], cleaned_attachments(paths)[b]),
    decreases paths.len(),
{
    let c = cleaned_attachments(paths);
    if paths.len() > 0 {
        let d = paths.drop_last();
        law_attachments_are_the_distinct_paths_given(d);
        let kept = cleaned_attachments(d);
        let t = trim(paths.last());
        let n = paths.len() - 1;
        assert forall|i: int| 0 <= i < d.len() implies paths[i] == d[i] by {}
        assert forall|x: Seq<char>| #[trigger] c.contains(x) <==> (x.len() > 0 && exists|i: int|
            0 <= i < paths.len() && trim(paths[i]) == x) by {
            if c.contains(x) {
                if kept.contains(x) {
                    let i = choose|i: int| 0 <= i < d.len() && trim(d[i]) == x;
                    assert(trim(paths[i]) == x);
                } else {
                    assert(c == kept.push(t));
                    let k = choose|k: int| 0 <= k < c.len() && c[k] == x;
                    assert(k == kept.len());
                    assert(trim(paths[n]) == x);
                }
            }
            if x.len() > 0 && exists|i: int| 0 <= i < paths.len() && trim(paths[i]) == x {
                let i = choose|i: int| 0 <= i < paths.len() && trim(paths[i]) == x;
                if i < n {
                    assert(trim(d[i]) == x);
                    assert(kept.contains(x));
                    let k = choose|k: int| 0 <= k < kept.len() && kept[k] == x;
                    if !(t.len() == 0 || kept.contains(t)) {
                        assert(c[k] == x);
                    }
                } else {
                    if !(t.len() == 0 || kept.contains(t)) {
                        assert(c[kept.len() as int] == x);
                    }
                }
            }
        }
        if !(t.len() == 0 || kept.contains(t)) {
            assert(c == kept.push(t));
            assert forall|a: int, b: int| 0 <= a < b < c.len() implies c[a] != c[b] by {
                if b == kept.len() {
                    assert(kept[a] == c[a]);
                } else {
                    assert(kept[a] == c[a] && kept[b] == c[b]);
                }
            }
            assert forall|a: int, b: int| #![trigger c[a], c[b]] 0 <= a < b < c.len() implies given_first(paths, c[a], c[b]) by {
                assert(kept[a] == c[a]);
                if b < kept.len() {
                    assert(kept[b] == c[b]);
                    assert(given_first(d, kept[a], kept[b]));
                    let i = choose|i: int| 0 <= i < d.len() && trim(d[i]) == kept[a]
                        && forall|j: int| 0 <= j <= i ==> trim(d[j]) != kept[b];
                    assert(trim(paths[i]) == c[a]);
                    assert forall|j: int| 0 <= j <= i implies trim(paths[j]) != c[b] by {
                        assert(paths[j] == d[j]);
                    }
                } else {
                    assert(kept.contains(kept[a]));
                    let i = choose|i: int| 0 <= i < d.len() && trim(d[i]) == kept[a];
                    assert(trim(paths[i]) == c[a]);
                    assert forall|j: int| 0 <= j <= i implies trim(paths[j]) != c[b] by {
                        assert(paths[j] == d[j]);
                        if trim(d[j]) == t {
                            assert(kept.contains(t));
                        }
                    }
                }
            }
        }
    }
}

} // verus!
