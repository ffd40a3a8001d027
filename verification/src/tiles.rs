use vstd::prelude::*;

verus! {

/// The bundle's zoom for a web map zoom, or `None` outside the bundle's
/// range. Bundles number zooms the other way round from the web map: their
/// zoom `db_min` is the most detailed, and matches web zoom `base_zoom`.
pub open spec fn db_zoom_for(web_z: u32, db_min: u32, db_max: u32, base_zoom: u32) -> Option<int> {
    let max_delta = if db_max >= db_min { db_max - db_min } else { 0 };
    let min_web_zoom = if base_zoom >= max_delta { base_zoom - max_delta } else { 0 };
    if web_z < min_web_zoom || web_z > base_zoom {
        None
    } else {
        Some(db_min + (base_zoom - web_z))
    }
}

/// Map a web (MapLibre) zoom level to the bundle's zoom level; see
/// `db_zoom_for`.
pub fn web_to_db_zoom(web_z: u32, db_min: u32, db_max: u32, base_zoom: u32) -> (z: Option<u32>)
    requires
        db_zoom_for(web_z, db_min, db_max, base_zoom) matches Some(v) ==> v <= u32::MAX,
    ensures
        match z {
            Some(v) => db_zoom_for(web_z, db_min, db_max, base_zoom) == Some(v as int),
            None => db_zoom_for(web_z, db_min, db_max, base_zoom) is None,
        },
{
    let max_delta = db_max.saturating_sub(db_min);
    let min_web_zoom = base_zoom.saturating_sub(max_delta);
    if web_z < min_web_zoom || web_z > base_zoom {
        return None;
    }
    Some(db_min + (base_zoom - web_z))
}

} // verus!
