//! Status-bar profiles: the stored bundle of configuration fragments, the
//! bundled default template, and the snapshot composer.

use vstd::prelude::*;
use vstd::string::*;

use crate::text::{clone_pair_vec, clone_string_vec, clone_style_vec, str_eq};

verus! {

/// Ordered placement of modules into the three bar regions.
#[derive(Debug)]
pub struct WaybarLayout {
    pub left: Vec<String>,
    pub center: Vec<String>,
    pub right: Vec<String>,
}

/// A named, complete configuration bundle for the status bar. `modules` maps
/// a module identifier to its configuration fragment (keys unique);
/// `passthrough` holds opaque raw fragments preserved verbatim;
/// `module_styles` maps a module identifier to an optional CSS override
/// (keys unique).
#[derive(Debug)]
pub struct WaybarProfile {
    pub id: String,
    pub name: String,
    pub layout: WaybarLayout,
    pub modules: Vec<(String, String)>,
    pub globals: String,
    pub passthrough: Vec<(String, String)>,
    pub style_css: String,
    pub module_styles: Vec<(String, Option<String>)>,
}

/// The flattened, caller-facing composition of one profile's fragments.
#[derive(Debug)]
pub struct WaybarConfigSnapshot {
    pub profile_id: String,
    pub profile_name: String,
    pub layout: WaybarLayout,
    pub modules: Vec<(String, String)>,
    pub globals: String,
    pub passthrough: Vec<(String, String)>,
    pub style_css: String,
    pub module_styles: Vec<(String, Option<String>)>,
}

/// A full replacement for the active profile's fragments: a whole-document
/// replace, never a field-level merge. A caller that wants to keep a field
/// must copy it forward itself.
#[derive(Debug)]
pub struct SaveWaybarConfigPayload {
    pub layout: WaybarLayout,
    pub modules: Vec<(String, String)>,
    pub globals: String,
    pub passthrough: Vec<(String, String)>,
    pub style_css: String,
    pub module_styles: Vec<(String, Option<String>)>,
}

/// One row of the profile listing.
#[derive(Debug)]
pub struct ProfileSummary {
    pub id: String,
    pub name: String,
    pub is_active: bool,
}

/// No two entries share a key.
pub open spec fn unique_pair_keys(s: Seq<(String, String)>) -> bool {
    forall|i: int, j: int| 0 <= i < j < s.len() ==> s[i].0@ != s[j].0@
}

/// No two entries share a key.
pub open spec fn unique_style_keys(s: Seq<(String, Option<String>)>) -> bool {
    forall|i: int, j: int| 0 <= i < j < s.len() ==> s[i].0@ != s[j].0@
}

/// The internal invariant of one stored profile: module configurations and
/// module style overrides are each keyed uniquely.
pub open spec fn profile_wf(p: WaybarProfile) -> bool {
    &&& unique_pair_keys(p.modules@)
    &&& unique_style_keys(p.module_styles@)
}

/// Whether some two entries share a key.
pub fn has_dup_pair_keys(v: &Vec<(String, String)>) -> (r: bool)
    ensures
        r == !unique_pair_keys(v@),
{
    let mut i: usize = 0;
    while i < v.len()
        invariant
            0 <= i <= v@.len(),
            forall|x: int, y: int| 0 <= x < y < i ==> v@[x].0@ != v@[y].0@,
        decreases v@.len() - i,
    {
        let mut k: usize = 0;
        while k < i
            invariant
                0 <= k <= i < v@.len(),
                forall|x: int| 0 <= x < k ==> v@[x].0@ != v@[i as int].0@,
            decreases i - k,
        {
            if str_eq(v[k].0.as_str(), v[i].0.as_str()) {
                return true;
            }
            k += 1;
        }
        i += 1;
    }
    false
}

/// Whether some two entries share a key.
pub fn has_dup_style_keys(v: &Vec<(String, Option<String>)>) -> (r: bool)
    ensures
        r == !unique_style_keys(v@),
{
    let mut i: usize = 0;
    while i < v.len()
        invariant
            0 <= i <= v@.len(),
            forall|x: int, y: int| 0 <= x < y < i ==> v@[x].0@ != v@[y].0@,
        decreases v@.len() - i,
    {
        let mut k: usize = 0;
        while k < i
            invariant
                0 <= k <= i < v@.len(),
                forall|x: int| 0 <= x < k ==> v@[x].0@ != v@[i as int].0@,
            decreases i - k,
        {
            if str_eq(v[k].0.as_str(), v[i].0.as_str()) {
                return true;
            }
            k += 1;
        }
        i += 1;
    }
    false
}

/// The bundled default template, under the given id and name: a clock on the
/// left, battery and network on the right, top placement, the stock
/// stylesheet, no passthrough and no per-module style overrides.
pub open spec fn is_template(p: WaybarProfile, id: Seq<char>, name: Seq<char>) -> bool {
    &&& p.id@ == id
    &&& p.name@ == name
    &&& p.layout.left@.len() == 1
    &&& p.layout.left@[0]@ == "clock"@
    &&& p.layout.center@.len() == 0
    &&& p.layout.right@.len() == 2
    &&& p.layout.right@[0]@ == "battery"@
    &&& p.layout.right@[1]@ == "network"@
    &&& p.modules@.len() == 3
    &&& p.modules@[0].0@ == "clock"@ && p.modules@[0].1@ == "format=%H:%M"@
    &&& p.modules@[1].0@ == "battery"@ && p.modules@[1].1@ == "format=capacity"@
    &&& p.modules@[2].0@ == "network"@ && p.modules@[2].1@ == "format=essid"@
    &&& p.globals@ == "position=top"@
    &&& p.passthrough@.len() == 0
    &&& p.style_css@ == "* { font-family: monospace; }"@
    &&& p.module_styles@.len() == 0
}

/// Materialize the bundled default template under the given id and name.
pub fn default_profile(id: String, name: String) -> (p: WaybarProfile)
    ensures
        is_template(p, id@, name@),
        profile_wf(p),
{
    let mut left: Vec<String> = Vec::new();
    left.push(String::from_str("clock"));
    let center: Vec<String> = Vec::new();
    let mut right: Vec<String> = Vec::new();
    right.push(String::from_str("battery"));
    right.push(String::from_str("network"));
    let mut modules: Vec<(String, String)> = Vec::new();
    modules.push((String::from_str("clock"), String::from_str("format=%H:%M")));
    modules.push((String::from_str("battery"), String::from_str("format=capacity")));
    modules.push((String::from_str("network"), String::from_str("format=essid")));
    let p = WaybarProfile {
        id,
        name,
        layout: WaybarLayout { left, center, right },
        modules,
        globals: String::from_str("position=top"),
        passthrough: Vec::new(),
        style_css: String::from_str("* { font-family: monospace; }"),
        module_styles: Vec::new(),
    };
    proof {
        reveal_strlit("clock");
        reveal_strlit("battery");
        reveal_strlit("network");
        assert("clock"@.len() == 5);
        assert("battery"@.len() == 7);
        assert("network"@.len() == 7);
        assert("battery"@[0] == 'b');
        assert("network"@[0] == 'n');
        assert(p.modules@.len() == 3);
        assert(p.modules@[0].0@ == "clock"@);
        assert(p.modules@[1].0@ == "battery"@);
        assert(p.modules@[2].0@ == "network"@);
    }
    p
}

/// The snapshot mirrors every fragment of the profile.
pub open spec fn snapshot_matches(s: WaybarConfigSnapshot, p: WaybarProfile) -> bool {
    &&& s.profile_id@ == p.id@
    &&& s.profile_name@ == p.name@
    &&& s.layout.left@ == p.layout.left@
    &&& s.layout.center@ == p.layout.center@
    &&& s.layout.right@ == p.layout.right@
    &&& s.modules@ == p.modules@
    &&& s.globals@ == p.globals@
    &&& s.passthrough@ == p.passthrough@
    &&& s.style_css@ == p.style_css@
    &&& s.module_styles@ == p.module_styles@
}

/// Compose a profile's fragments into one flattened snapshot for the caller.
/// A pure transform: the composer holds no state of its own.
pub fn compose_snapshot(p: &WaybarProfile) -> (s: WaybarConfigSnapshot)
    ensures
        snapshot_matches(s, *p),
{
    WaybarConfigSnapshot {
        profile_id: p.id.clone(),
        profile_name: p.name.clone(),
        layout: WaybarLayout {
            left: clone_string_vec(&p.layout.left),
            center: clone_string_vec(&p.layout.center),
            right: clone_string_vec(&p.layout.right),
        },
        modules: clone_pair_vec(&p.modules),
        globals: p.globals.clone(),
        passthrough: clone_pair_vec(&p.passthrough),
        style_css: p.style_css.clone(),
        module_styles: clone_style_vec(&p.module_styles),
    }
}

/// The profile after a whole-document replace of its fragments: id and name
/// kept, every fragment taken from the payload, none merged.
pub open spec fn payload_applied(
    p: WaybarProfile,
    old_p: WaybarProfile,
    payload: SaveWaybarConfigPayload,
) -> bool {
    &&& p.id@ == old_p.id@
    &&& p.name@ == old_p.name@
    &&& p.layout.left@ == payload.layout.left@
    &&& p.layout.center@ == payload.layout.center@
    &&& p.layout.right@ == payload.layout.right@
    &&& p.modules@ == payload.modules@
    &&& p.globals@ == payload.globals@
    &&& p.passthrough@ == payload.passthrough@
    &&& p.style_css@ == payload.style_css@
    &&& p.module_styles@ == payload.module_styles@
}

/// Decompose a payload onto an existing profile: a whole-document replace
/// that keeps only the profile's id and name.
pub fn apply_payload(p: &WaybarProfile, payload: &SaveWaybarConfigPayload) -> (r: WaybarProfile)
    ensures
        payload_applied(r, *p, *payload),
{
    WaybarProfile {
        id: p.id.clone(),
        name: p.name.clone(),
        layout: WaybarLayout {
            left: clone_string_vec(&payload.layout.left),
            center: clone_string_vec(&payload.layout.center),
            right: clone_string_vec(&payload.layout.right),
        },
        modules: clone_pair_vec(&payload.modules),
        globals: payload.globals.clone(),
        passthrough: clone_pair_vec(&payload.passthrough),
        style_css: payload.style_css.clone(),
        module_styles: clone_style_vec(&payload.module_styles),
    }
}

} // verus!
