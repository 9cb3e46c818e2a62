//! The profile repository and its operation surface: CRUD over named
//! profiles, the single active-profile pointer, snapshot load/save, and the
//! live-sync trigger after every change to the active profile's identity or
//! content.

use vstd::prelude::*;
use vstd::string::*;

use crate::errors::SettingsError;
use crate::live::{mirrors_profile, render_live_config, sync_live, LiveMirror};
use crate::profile::{
    apply_payload, compose_snapshot, default_profile, has_dup_pair_keys, has_dup_style_keys,
    is_template, payload_applied, profile_wf, snapshot_matches, unique_pair_keys,
    unique_style_keys, ProfileSummary, SaveWaybarConfigPayload, WaybarConfigSnapshot,
    WaybarProfile,
};
use crate::text::str_eq;

verus! {

// ---------------------------------------------------------------------------
// Stable ids derived from human-readable names.
// ---------------------------------------------------------------------------

/// How one character of a name contributes to the derived id: lowercase
/// letters and digits pass through, separators (space, underscore, hyphen)
/// become a hyphen, uppercase letters are lowered, everything else is
/// dropped.
pub open spec fn slug_char(c: char) -> Option<char> {
    let u = c as u32;
    if (97 <= u && u <= 122) || (48 <= u && u <= 57) {
        Some(c)
    } else if u == 32 || u == 95 || u == 45 {
        Some('-')
    } else if 65 <= u && u <= 90 {
        Some((((u + 32) as u8) as char))
    } else {
        None
    }
}

/// The stable id derived from a profile name.
pub open spec fn spec_slug(s: Seq<char>) -> Seq<char>
    decreases s.len(),
{
    if s.len() == 0 {
        Seq::empty()
    } else {
        spec_slug(s.drop_last()) + match slug_char(s.last()) {
            Some(c) => seq![c],
            None => Seq::<char>::empty(),
        }
    }
}

fn lower_str(c: char) -> (r: &'static str)
    requires
        65 <= c as u32 <= 90,
    ensures
        r@ == seq![((((c as u32) + 32) as u8) as char)],
{
    let r: &'static str = match c {
        'A' => "a",
        'B' => "b",
        'C' => "c",
        'D' => "d",
        'E' => "e",
        'F' => "f",
        'G' => "g",
        'H' => "h",
        'I' => "i",
        'J' => "j",
        'K' => "k",
        'L' => "l",
        'M' => "m",
        'N' => "n",
        'O' => "o",
        'P' => "p",
        'Q' => "q",
        'R' => "r",
        'S' => "s",
        'T' => "t",
        'U' => "u",
        'V' => "v",
        'W' => "w",
        'X' => "x",
        'Y' => "y",
        _ => "z",
    };
    proof {
        reveal_strlit("a");
        reveal_strlit("b");
        reveal_strlit("c");
        reveal_strlit("d");
        reveal_strlit("e");
        reveal_strlit("f");
        reveal_strlit("g");
        reveal_strlit("h");
        reveal_strlit("i");
        reveal_strlit("j");
        reveal_strlit("k");
        reveal_strlit("l");
        reveal_strlit("m");
        reveal_strlit("n");
        reveal_strlit("o");
        reveal_strlit("p");
        reveal_strlit("q");
        reveal_strlit("r");
        reveal_strlit("s");
        reveal_strlit("t");
        reveal_strlit("u");
        reveal_strlit("v");
        reveal_strlit("w");
        reveal_strlit("x");
        reveal_strlit("y");
        reveal_strlit("z");
        assert(r@ =~= seq![((((c as u32) + 32) as u8) as char)]);
    }
    r
}

/// Derive the stable id for a profile name.
pub fn slugify(name: &str) -> (r: String)
    ensures
        r@ == spec_slug(name@),
{
    let n = name.unicode_len();
    let mut out = String::new();
    let mut i: usize = 0;
    while i < n
        invariant
            0 <= i <= n,
            n == name@.len(),
            out@ == spec_slug(name@.take(i as int)),
        decreases n - i,
    {
        let c = name.get_char(i);
        let u = c as u32;
        proof {
            assert(name@.take(i + 1 as int).drop_last() =~= name@.take(i as int));
            assert(name@.take(i + 1 as int).last() == name@[i as int]);
        }
        if (97 <= u && u <= 122) || (48 <= u && u <= 57) {
            let piece = name.substring_char(i, i + 1);
            out.append(piece);
            proof {
                assert(piece@ =~= seq![name@[i as int]]);
            }
        } else if u == 32 || u == 95 || u == 45 {
            out.append("-");
            proof {
                reveal_strlit("-");
                assert("-"@ =~= seq!['-']);
            }
        } else if 65 <= u && u <= 90 {
            out.append(lower_str(c));
        }
        i += 1;
    }
    proof {
        assert(name@.take(n as int) =~= name@);
    }
    out
}

// ---------------------------------------------------------------------------
// The repository.
// ---------------------------------------------------------------------------

/// The profile listing: one summary row per profile, in stored order, plus
/// the active pointer.
#[derive(Debug)]
pub struct WaybarProfileListResponse {
    pub profiles: Vec<ProfileSummary>,
    pub active_profile_id: String,
}

/// What a mutating profile operation reports back: the refreshed listing and
/// the active pointer after the change.
#[derive(Debug)]
pub struct WaybarProfileChangeResponse {
    pub profiles: Vec<ProfileSummary>,
    pub active_profile_id: String,
}

/// The profile repository: the stored profile set (in creation order), the
/// persisted active-profile pointer, and the live mirror it feeds. The I/O
/// shim outside this crate moves this state to and from the profile
/// directory with atomic per-file replaces.
#[derive(Debug)]
pub struct WaybarConfigService {
    pub profiles: Vec<WaybarProfile>,
    pub active_id: String,
    pub live: LiveMirror,
}

impl WaybarConfigService {
    /// No two stored profiles share an id.
    pub open spec fn ids_unique(self) -> bool {
        forall|i: int, j: int|
            0 <= i < j < self.profiles@.len() ==> self.profiles@[i].id@ != self.profiles@[j].id@
    }

    /// Some stored profile has this id.
    pub open spec fn contains_id(self, id: Seq<char>) -> bool {
        exists|i: int| 0 <= i < self.profiles@.len() && self.profiles@[i].id@ == id
    }

    /// The index of the profile with this id (unambiguous when ids are
    /// unique).
    pub open spec fn index_of(self, id: Seq<char>) -> int {
        choose|i: int| 0 <= i < self.profiles@.len() && self.profiles@[i].id@ == id
    }

    /// Structural well-formedness of the stored set: at least one profile,
    /// unique ids, every profile internally well-formed. This much every
    /// loaded repository satisfies, even one whose active pointer dangles.
    pub open spec fn base_wf(self) -> bool {
        &&& self.profiles@.len() >= 1
        &&& self.ids_unique()
        &&& forall|i: int| 0 <= i < self.profiles@.len() ==> profile_wf(#[trigger] self.profiles@[i])
    }

    /// The repository invariant: well-formed storage and an active pointer
    /// that resolves to an existing profile.
    pub open spec fn wf(self) -> bool {
        &&& self.base_wf()
        &&& self.contains_id(self.active_id@)
    }

    /// The profile the active pointer resolves to.
    pub open spec fn active_profile(self) -> WaybarProfile {
        self.profiles@[self.index_of(self.active_id@)]
    }

    /// The live mirror holds exactly the active profile's rendered artifacts.
    pub open spec fn live_in_sync(self) -> bool {
        mirrors_profile(self.live, self.active_profile())
    }

    /// `rows` is the correct listing of this repository, in stored order.
    pub open spec fn summaries_match(self, rows: Seq<ProfileSummary>) -> bool {
        &&& rows.len() == self.profiles@.len()
        &&& forall|i: int|
            0 <= i < rows.len() ==> {
                &&& (#[trigger] rows[i]).id@ == self.profiles@[i].id@
                &&& rows[i].name@ == self.profiles@[i].name@
                &&& rows[i].is_active == (self.profiles@[i].id@ == self.active_id@)
            }
    }

    /// A fresh repository, as on first run: a single bundled default profile
    /// named "default", active, with the live mirror already synced to it.
    pub fn fresh() -> (s: Self)
        ensures
            s.wf(),
            s.profiles@.len() == 1,
            is_template(s.profiles@[0], "default"@, "default"@),
            s.active_id@ == "default"@,
            s.live_in_sync(),
    {
        let p = default_profile(String::from_str("default"), String::from_str("default"));
        let config_text = render_live_config(&p);
        let style_text = p.style_css.clone();
        let mut profiles: Vec<WaybarProfile> = Vec::new();
        profiles.push(p);
        let s = WaybarConfigService {
            profiles,
            active_id: String::from_str("default"),
            live: LiveMirror { config_text, style_text },
        };
        proof {
            assert(s.profiles@[0].id@ == s.active_id@);
            assert(s.contains_id(s.active_id@));
            let k = s.index_of(s.active_id@);
            assert(0 <= k < 1);
            assert(s.active_profile() == s.profiles@[0]);
        }
        s
    }

    /// The index of the profile with this id, if any.
    fn find_index(&self, id: &str) -> (r: Option<usize>)
        ensures
            match r {
                Some(k) => k < self.profiles@.len() && self.profiles@[k as int].id@ == id@
                    && self.contains_id(id@),
                None => !self.contains_id(id@),
            },
    {
        let mut i: usize = 0;
        while i < self.profiles.len()
            invariant
                0 <= i <= self.profiles@.len(),
                forall|k: int| 0 <= k < i ==> self.profiles@[k].id@ != id@,
            decreases self.profiles@.len() - i,
        {
            if str_eq(self.profiles[i].id.as_str(), id) {
                return Some(i);
            }
            i += 1;
        }
        None
    }

    /// One summary row per stored profile, in stored order.
    fn summaries(&self) -> (rows: Vec<ProfileSummary>)
        ensures
            self.summaries_match(rows@),
    {
        let mut rows: Vec<ProfileSummary> = Vec::new();
        let mut i: usize = 0;
        while i < self.profiles.len()
            invariant
                0 <= i <= self.profiles@.len(),
                rows@.len() == i,
                forall|k: int|
                    0 <= k < i ==> {
                        &&& (#[trigger] rows@[k]).id@ == self.profiles@[k].id@
                        &&& rows@[k].name@ == self.profiles@[k].name@
                        &&& rows@[k].is_active == (self.profiles@[k].id@ == self.active_id@)
                    },
            decreases self.profiles@.len() - i,
        {
            let is_active = str_eq(self.profiles[i].id.as_str(), self.active_id.as_str());
            rows.push(
                ProfileSummary {
                    id: self.profiles[i].id.clone(),
                    name: self.profiles[i].name.clone(),
                    is_active,
                },
            );
            i += 1;
        }
        rows
    }

    /// The profile listing: read-only, in stable stored (creation) order.
    pub fn list_profiles(&self) -> (r: WaybarProfileListResponse)
        ensures
            self.summaries_match(r.profiles@),
            r.active_profile_id@ == self.active_id@,
    {
        WaybarProfileListResponse {
            profiles: self.summaries(),
            active_profile_id: self.active_id.clone(),
        }
    }

    /// Create a profile from the bundled default template under an id
    /// derived from `name`. A name whose derived id is empty is rejected
    /// with `Validation`; an id collision is rejected with `Conflict`. The
    /// active pointer and the live mirror never change: creation does not
    /// activate.
    pub fn create_profile(&mut self, name: &str) -> (r: Result<
        WaybarProfileChangeResponse,
        SettingsError,
    >)
        requires
            old(self).base_wf(),
        ensures
            final(self).base_wf(),
            old(self).wf() ==> final(self).wf(),
            match r {
                Ok(resp) => {
                    &&& spec_slug(name@).len() > 0
                    &&& !old(self).contains_id(spec_slug(name@))
                    &&& final(self).profiles@.len() == old(self).profiles@.len() + 1
                    &&& final(self).profiles@.drop_last() == old(self).profiles@
                    &&& is_template(final(self).profiles@.last(), spec_slug(name@), name@)
                    &&& final(self).active_id@ == old(self).active_id@
                    &&& final(self).live == old(self).live
                    &&& final(self).summaries_match(resp.profiles@)
                    &&& resp.active_profile_id@ == final(self).active_id@
                },
                Err(e) => {
                    &&& *final(self) == *old(self)
                    &&& (e matches SettingsError::Validation(f) ==> f@ == "name"@ && spec_slug(
                        name@,
                    ).len() == 0)
                    &&& (e matches SettingsError::Conflict(_) ==> spec_slug(name@).len() > 0
                        && old(self).contains_id(spec_slug(name@)))
                    &&& (e is Validation || e is Conflict)
                },
            },
    {
        let id = slugify(name);
        if id.as_str().unicode_len() == 0 {
            return Err(SettingsError::Validation(String::from_str("name")));
        }
        if let Some(_) = self.find_index(id.as_str()) {
            return Err(SettingsError::Conflict(String::from_str("a profile with this id exists")));
        }
        let ghost old_self = *self;
        let p = default_profile(id, String::from_str(name));
        self.profiles.push(p);
        proof {
            assert(self.profiles@.drop_last() =~= old_self.profiles@);
            assert forall|i: int, j: int|
                0 <= i < j < self.profiles@.len() implies self.profiles@[i].id@
                != self.profiles@[j].id@ by {
                if j < self.profiles@.len() - 1 {
                    assert(old_self.profiles@[i].id@ != old_self.profiles@[j].id@);
                } else {
                    assert(self.profiles@[j].id@ == spec_slug(name@));
                    assert(!old_self.contains_id(spec_slug(name@)));
                    assert(self.profiles@[i] == old_self.profiles@[i]);
                }
            }
            if old_self.contains_id(old_self.active_id@) {
                let w = choose|i: int|
                    0 <= i < old_self.profiles@.len() && old_self.profiles@[i].id@
                        == old_self.active_id@;
                assert(self.profiles@[w].id@ == self.active_id@);
            }
        }
        let resp = WaybarProfileChangeResponse {
            profiles: self.summaries(),
            active_profile_id: self.active_id.clone(),
        };
        Ok(resp)
    }

    /// Mark an existing profile active and re-sync the live mirror to it.
    /// Fails with `NotFound`, changing nothing, exactly when the id is
    /// absent. Selecting the already-active profile is idempotent and by
    /// itself repairs a diverged live mirror.
    pub fn select_profile(&mut self, profile_id: &str) -> (r: Result<
        WaybarProfileChangeResponse,
        SettingsError,
    >)
        requires
            old(self).base_wf(),
        ensures
            final(self).base_wf(),
            match r {
                Ok(resp) => {
                    &&& old(self).contains_id(profile_id@)
                    &&& final(self).profiles@ == old(self).profiles@
                    &&& final(self).active_id@ == profile_id@
                    &&& final(self).wf()
                    &&& final(self).live_in_sync()
                    &&& final(self).summaries_match(resp.profiles@)
                    &&& resp.active_profile_id@ == profile_id@
                },
                Err(e) => {
                    &&& !old(self).contains_id(profile_id@)
                    &&& e matches SettingsError::NotFound(p) && p@ == profile_id@
                    &&& *final(self) == *old(self)
                },
            },
    {
        let k = match self.find_index(profile_id) {
            None => {
                return Err(SettingsError::NotFound(String::from_str(profile_id)));
            },
            Some(k) => k,
        };
        self.active_id = String::from_str(profile_id);
        sync_live(&mut self.live, &self.profiles[k]);
        proof {
            let idx = self.index_of(self.active_id@);
            assert(self.profiles@[k as int].id@ == self.active_id@);
            assert(self.contains_id(self.active_id@));
            assert(0 <= idx < self.profiles@.len() && self.profiles@[idx].id@ == self.active_id@);
            if idx != k {
                assert(self.profiles@[idx].id@ != self.profiles@[k as int].id@);
            }
            assert(self.active_profile() == self.profiles@[k as int]);
        }
        let resp = WaybarProfileChangeResponse {
            profiles: self.summaries(),
            active_profile_id: self.active_id.clone(),
        };
        Ok(resp)
    }

    /// Delete a stored profile. Fails with `NotFound` when the id is absent
    /// and with `Conflict` when it names the only remaining profile; both
    /// leave the repository unchanged. Deleting the active profile falls
    /// back deterministically to the first remaining profile in stored
    /// order and re-syncs the live mirror; deleting any other profile
    /// touches neither the active pointer nor the mirror.
    pub fn delete_profile(&mut self, profile_id: &str) -> (r: Result<
        WaybarProfileChangeResponse,
        SettingsError,
    >)
        requires
            old(self).base_wf(),
        ensures
            final(self).base_wf(),
            old(self).wf() ==> final(self).wf(),
            match r {
                Ok(resp) => {
                    &&& old(self).contains_id(profile_id@)
                    &&& old(self).profiles@.len() >= 2
                    &&& final(self).profiles@ == old(self).profiles@.remove(
                        old(self).index_of(profile_id@),
                    )
                    &&& !final(self).contains_id(profile_id@)
                    &&& (old(self).active_id@ != profile_id@ ==> final(self).active_id@ == old(self).active_id@ && final(self).live == old(self).live)
                    &&& (old(self).active_id@ == profile_id@ ==> {
                        &&& final(self).active_id@ == final(self).profiles@[0].id@
                        &&& final(self).wf()
                        &&& final(self).live_in_sync()
                    })
                    &&& final(self).summaries_match(resp.profiles@)
                    &&& resp.active_profile_id@ == final(self).active_id@
                },
                Err(e) => {
                    &&& *final(self) == *old(self)
                    &&& (e matches SettingsError::NotFound(p) ==> p@ == profile_id@ && !old(self).contains_id(profile_id@))
                    &&& (e matches SettingsError::Conflict(_) ==> old(self).contains_id(profile_id@)
                        && old(self).profiles@.len() == 1)
                    &&& (e is NotFound || e is Conflict)
                },
            },
    {
        let k = match self.find_index(profile_id) {
            None => {
                return Err(SettingsError::NotFound(String::from_str(profile_id)));
            },
            Some(k) => k,
        };
        if self.profiles.len() == 1 {
            return Err(
                SettingsError::Conflict(
                    String::from_str("the last remaining profile cannot be deleted"),
                ),
            );
        }
        let ghost old_self = *self;
        let was_active = str_eq(self.active_id.as_str(), profile_id);
        self.profiles.remove(k);
        proof {
            let ki = old_self.index_of(profile_id@);
            assert(0 <= ki < old_self.profiles@.len() && old_self.profiles@[ki].id@
                == profile_id@);
            if ki != k as int {
                assert(old_self.profiles@[ki].id@ != old_self.profiles@[k as int].id@);
            }
            assert(self.profiles@ == old_self.profiles@.remove(ki));
            assert forall|i: int| 0 <= i < self.profiles@.len() implies (#[trigger] self.profiles@[
                i
            ]).id@ != profile_id@ by {
                if i < k as int {
                    assert(self.profiles@[i] == old_self.profiles@[i]);
                } else {
                    assert(self.profiles@[i] == old_self.profiles@[i + 1]);
                }
            }
            assert(!self.contains_id(profile_id@));
            assert forall|i: int, j: int|
                0 <= i < j < self.profiles@.len() implies self.profiles@[i].id@
                != self.profiles@[j].id@ by {
                let oi = if i < k as int {
                    i
                } else {
                    i + 1
                };
                let oj = if j < k as int {
                    j
                } else {
                    j + 1
                };
                assert(self.profiles@[i] == old_self.profiles@[oi]);
                assert(self.profiles@[j] == old_self.profiles@[oj]);
                assert(old_self.profiles@[oi].id@ != old_self.profiles@[oj].id@);
            }
            assert forall|i: int| 0 <= i < self.profiles@.len() implies profile_wf(
                #[trigger] self.profiles@[i],
            ) by {
                if i < k as int {
                    assert(self.profiles@[i] == old_self.profiles@[i]);
                } else {
                    assert(self.profiles@[i] == old_self.profiles@[i + 1]);
                }
            }
        }
        if was_active {
            self.active_id = self.profiles[0].id.clone();
            sync_live(&mut self.live, &self.profiles[0]);
            proof {
                assert(self.profiles@[0].id@ == self.active_id@);
                assert(self.contains_id(self.active_id@));
                let idx = self.index_of(self.active_id@);
                if idx != 0 {
                    assert(self.profiles@[0].id@ != self.profiles@[idx].id@);
                }
                assert(self.active_profile() == self.profiles@[0]);
            }
        } else {
            proof {
                if old_self.contains_id(old_self.active_id@) {
                    let w = choose|i: int|
                        0 <= i < old_self.profiles@.len() && old_self.profiles@[i].id@
                            == old_self.active_id@;
                    assert(old_self.profiles@[w].id@ != profile_id@);
                    let ki = old_self.index_of(profile_id@);
                    assert(w != ki);
                    let nw = if w < ki {
                        w
                    } else {
                        w - 1
                    };
                    assert(self.profiles@[nw].id@ == self.active_id@);
                    assert(self.contains_id(self.active_id@));
                }
            }
        }
        let resp = WaybarProfileChangeResponse {
            profiles: self.summaries(),
            active_profile_id: self.active_id.clone(),
        };
        Ok(resp)
    }

    /// Compose the active profile's fragments into a snapshot. Read-only.
    /// Fails with `NotFound` exactly when the active pointer references a
    /// missing profile (a broken store is surfaced, never silently
    /// repaired).
    pub fn load_snapshot(&self) -> (r: Result<WaybarConfigSnapshot, SettingsError>)
        requires
            self.base_wf(),
        ensures
            match r {
                Ok(snap) => self.contains_id(self.active_id@) && snapshot_matches(
                    snap,
                    self.active_profile(),
                ),
                Err(e) => !self.contains_id(self.active_id@) && (e
                    matches SettingsError::NotFound(p) && p@ == self.active_id@),
            },
    {
        let k = match self.find_index(self.active_id.as_str()) {
            None => {
                return Err(SettingsError::NotFound(self.active_id.clone()));
            },
            Some(k) => k,
        };
        proof {
            let idx = self.index_of(self.active_id@);
            if idx != k {
                assert(self.profiles@[idx].id@ != self.profiles@[k as int].id@);
            }
        }
        Ok(compose_snapshot(&self.profiles[k]))
    }

    /// Replace the active profile's fragments wholesale from the payload
    /// (id and name kept, nothing merged), re-sync the live mirror, then
    /// re-read and return the now-current snapshot. Fails with `NotFound`
    /// when the active pointer dangles and with `Validation` when the
    /// payload's module or module-style keys collide; both leave the
    /// repository unchanged. An empty `module_styles` in the payload clears
    /// the stored overrides: that is the defined whole-replace semantics.
    pub fn save_snapshot(&mut self, payload: &SaveWaybarConfigPayload) -> (r: Result<
        WaybarConfigSnapshot,
        SettingsError,
    >)
        requires
            old(self).base_wf(),
        ensures
            final(self).base_wf(),
            old(self).wf() ==> final(self).wf(),
            match r {
                Ok(snap) => {
                    &&& old(self).contains_id(old(self).active_id@)
                    &&& unique_pair_keys(payload.modules@)
                    &&& unique_style_keys(payload.module_styles@)
                    &&& final(self).active_id@ == old(self).active_id@
                    &&& final(self).profiles@.len() == old(self).profiles@.len()
                    &&& ({
                        let k = old(self).index_of(old(self).active_id@);
                        &&& forall|i: int|
                            0 <= i < old(self).profiles@.len() && i != k ==> final(self).profiles@[i] == old(self).profiles@[i]
                        &&& payload_applied(
                            final(self).profiles@[k],
                            old(self).profiles@[k],
                            *payload,
                        )
                        &&& snapshot_matches(snap, final(self).profiles@[k])
                    })
                    &&& final(self).live_in_sync()
                },
                Err(e) => {
                    &&& *final(self) == *old(self)
                    &&& (e matches SettingsError::NotFound(p) ==> p@ == old(self).active_id@ && !old(self).contains_id(old(self).active_id@))
                    &&& (e matches SettingsError::Validation(f) ==> old(self).contains_id(
                        old(self).active_id@,
                    ) && ((f@ == "modules"@ && !unique_pair_keys(payload.modules@)) || (f@
                        == "module_styles"@ && unique_pair_keys(payload.modules@)
                        && !unique_style_keys(payload.module_styles@))))
                    &&& (e is NotFound || e is Validation)
                },
            },
    {
        let k = match self.find_index(self.active_id.as_str()) {
            None => {
                return Err(SettingsError::NotFound(self.active_id.clone()));
            },
            Some(k) => k,
        };
        if has_dup_pair_keys(&payload.modules) {
            return Err(SettingsError::Validation(String::from_str("modules")));
        }
        if has_dup_style_keys(&payload.module_styles) {
            return Err(SettingsError::Validation(String::from_str("module_styles")));
        }
        let ghost old_self = *self;
        let newp = apply_payload(&self.profiles[k], payload);
        self.profiles.remove(k);
        self.profiles.insert(k, newp);
        proof {
            assert(self.profiles@ =~= old_self.profiles@.update(k as int, newp));
            let ki = old_self.index_of(old_self.active_id@);
            if ki != k as int {
                assert(old_self.profiles@[ki].id@ != old_self.profiles@[k as int].id@);
            }
            assert forall|i: int, j: int|
                0 <= i < j < self.profiles@.len() implies self.profiles@[i].id@
                != self.profiles@[j].id@ by {
                assert(self.profiles@[i].id@ == old_self.profiles@[i].id@);
                assert(self.profiles@[j].id@ == old_self.profiles@[j].id@);
                assert(old_self.profiles@[i].id@ != old_self.profiles@[j].id@);
            }
            assert forall|i: int| 0 <= i < self.profiles@.len() implies profile_wf(
                #[trigger] self.profiles@[i],
            ) by {
                if i != k as int {
                    assert(self.profiles@[i] == old_self.profiles@[i]);
                }
            }
            assert(self.profiles@[k as int].id@ == self.active_id@);
            assert(self.contains_id(self.active_id@));
            let idx = self.index_of(self.active_id@);
            if idx != k as int {
                assert(self.profiles@[idx].id@ != self.profiles@[k as int].id@);
            }
            assert(self.active_profile() == self.profiles@[k as int]);
        }
        sync_live(&mut self.live, &self.profiles[k]);
        let snap = compose_snapshot(&self.profiles[k]);
        Ok(snap)
    }

    /// Overwrite the active profile's fragments with the bundled default
    /// template, keeping its id and name, and re-sync the live mirror.
    /// Fails with `NotFound`, changing nothing, exactly when the active
    /// pointer dangles.
    pub fn reset_active_profile_to_defaults(&mut self) -> (r: Result<
        WaybarConfigSnapshot,
        SettingsError,
    >)
        requires
            old(self).base_wf(),
        ensures
            final(self).base_wf(),
            old(self).wf() ==> final(self).wf(),
            match r {
                Ok(snap) => {
                    &&& old(self).contains_id(old(self).active_id@)
                    &&& final(self).active_id@ == old(self).active_id@
                    &&& final(self).profiles@.len() == old(self).profiles@.len()
                    &&& ({
                        let k = old(self).index_of(old(self).active_id@);
                        &&& forall|i: int|
                            0 <= i < old(self).profiles@.len() && i != k ==> final(self).profiles@[i] == old(self).profiles@[i]
                        &&& is_template(
                            final(self).profiles@[k],
                            old(self).profiles@[k].id@,
                            old(self).profiles@[k].name@,
                        )
                        &&& snapshot_matches(snap, final(self).profiles@[k])
                    })
                    &&& final(self).live_in_sync()
                },
                Err(e) => {
                    &&& *final(self) == *old(self)
                    &&& e matches SettingsError::NotFound(p) && p@ == old(self).active_id@
                    &&& !old(self).contains_id(old(self).active_id@)
                },
            },
    {
        let k = match self.find_index(self.active_id.as_str()) {
            None => {
                return Err(SettingsError::NotFound(self.active_id.clone()));
            },
            Some(k) => k,
        };
        let ghost old_self = *self;
        let tmpl = default_profile(self.profiles[k].id.clone(), self.profiles[k].name.clone());
        self.profiles.remove(k);
        self.profiles.insert(k, tmpl);
        proof {
            assert(self.profiles@ =~= old_self.profiles@.update(k as int, tmpl));
            let ki = old_self.index_of(old_self.active_id@);
            if ki != k as int {
                assert(old_self.profiles@[ki].id@ != old_self.profiles@[k as int].id@);
            }
            assert forall|i: int, j: int|
                0 <= i < j < self.profiles@.len() implies self.profiles@[i].id@
                != self.profiles@[j].id@ by {
                assert(self.profiles@[i].id@ == old_self.profiles@[i].id@);
                assert(self.profiles@[j].id@ == old_self.profiles@[j].id@);
                assert(old_self.profiles@[i].id@ != old_self.profiles@[j].id@);
            }
            assert forall|i: int| 0 <= i < self.profiles@.len() implies profile_wf(
                #[trigger] self.profiles@[i],
            ) by {
                if i != k as int {
                    assert(self.profiles@[i] == old_self.profiles@[i]);
                }
            }
            assert(self.profiles@[k as int].id@ == self.active_id@);
            assert(self.contains_id(self.active_id@));
            let idx = self.index_of(self.active_id@);
            if idx != k as int {
                assert(self.profiles@[idx].id@ != self.profiles@[k as int].id@);
            }
            assert(self.active_profile() == self.profiles@[k as int]);
        }
        sync_live(&mut self.live, &self.profiles[k]);
        let snap = compose_snapshot(&self.profiles[k]);
        Ok(snap)
    }

    /// The active profile's global stylesheet text. Read-only; fails with
    /// `NotFound` exactly when the active pointer dangles.
    pub fn get_style_css(&self) -> (r: Result<String, SettingsError>)
        requires
            self.base_wf(),
        ensures
            match r {
                Ok(css) => self.contains_id(self.active_id@) && css@
                    == self.active_profile().style_css@,
                Err(e) => !self.contains_id(self.active_id@) && (e
                    matches SettingsError::NotFound(p) && p@ == self.active_id@),
            },
    {
        let k = match self.find_index(self.active_id.as_str()) {
            None => {
                return Err(SettingsError::NotFound(self.active_id.clone()));
            },
            Some(k) => k,
        };
        proof {
            let idx = self.index_of(self.active_id@);
            if idx != k {
                assert(self.profiles@[idx].id@ != self.profiles@[k as int].id@);
            }
        }
        Ok(self.profiles[k].style_css.clone())
    }

    /// Replace the active profile's global stylesheet: a whole-document
    /// save that copies the current fragments forward and submits the new
    /// CSS with empty per-module overrides, so stored overrides are cleared
    /// (the defined whole-replace semantics). Re-syncs the live mirror and
    /// returns the stylesheet as re-read after the write.
    pub fn save_style_css(&mut self, style_css: &str) -> (r: Result<String, SettingsError>)
        requires
            old(self).base_wf(),
        ensures
            final(self).base_wf(),
            old(self).wf() ==> final(self).wf(),
            match r {
                Ok(css) => {
                    &&& old(self).contains_id(old(self).active_id@)
                    &&& css@ == style_css@
                    &&& final(self).active_id@ == old(self).active_id@
                    &&& final(self).profiles@.len() == old(self).profiles@.len()
                    &&& ({
                        let k = old(self).index_of(old(self).active_id@);
                        &&& forall|i: int|
                            0 <= i < old(self).profiles@.len() && i != k ==> final(self).profiles@[i] == old(self).profiles@[i]
                        &&& final(self).profiles@[k].style_css@ == style_css@
                        &&& final(self).profiles@[k].module_styles@.len() == 0
                        &&& final(self).profiles@[k].modules@ == old(self).profiles@[k].modules@
                        &&& final(self).profiles@[k].layout.left@ == old(self).profiles@[k].layout.left@
                        &&& final(self).profiles@[k].layout.center@ == old(self).profiles@[k].layout.center@
                        &&& final(self).profiles@[k].layout.right@ == old(self).profiles@[k].layout.right@
                        &&& final(self).profiles@[k].globals@ == old(self).profiles@[k].globals@
                        &&& final(self).profiles@[k].passthrough@ == old(self).profiles@[k].passthrough@
                    })
                    &&& final(self).live_in_sync()
                },
                Err(e) => {
                    &&& *final(self) == *old(self)
                    &&& e matches SettingsError::NotFound(p) && p@ == old(self).active_id@
                    &&& !old(self).contains_id(old(self).active_id@)
                },
            },
    {
        let k = match self.find_index(self.active_id.as_str()) {
            None => {
                return Err(SettingsError::NotFound(self.active_id.clone()));
            },
            Some(k) => k,
        };
        proof {
            let idx = self.index_of(self.active_id@);
            if idx != k {
                assert(self.profiles@[idx].id@ != self.profiles@[k as int].id@);
            }
        }
        let payload = SaveWaybarConfigPayload {
            layout: crate::profile::WaybarLayout {
                left: crate::text::clone_string_vec(&self.profiles[k].layout.left),
                center: crate::text::clone_string_vec(&self.profiles[k].layout.center),
                right: crate::text::clone_string_vec(&self.profiles[k].layout.right),
            },
            modules: crate::text::clone_pair_vec(&self.profiles[k].modules),
            globals: self.profiles[k].globals.clone(),
            passthrough: crate::text::clone_pair_vec(&self.profiles[k].passthrough),
            style_css: String::from_str(style_css),
            module_styles: Vec::new(),
        };
        let snap = match self.save_snapshot(&payload) {
            Ok(s) => s,
            Err(e) => {
                return Err(e);
            },
        };
        Ok(snap.style_css)
    }

    /// Assemble a repository from stored parts, as read back from disk.
    /// Accepts exactly the structurally well-formed sets (non-empty, unique
    /// ids, each profile internally well-formed) and refuses everything
    /// else as `Corrupted`. The active pointer is taken as stored, even
    /// when it dangles: a dangling pointer surfaces later as `NotFound`,
    /// and `select_profile` repairs it.
    pub fn from_parts(profiles: Vec<WaybarProfile>, active_id: String, live: LiveMirror) -> (r:
        Result<Self, SettingsError>)
        ensures
            match r {
                Ok(s) => {
                    &&& parts_wf(profiles@)
                    &&& s.profiles@ == profiles@
                    &&& s.active_id@ == active_id@
                    &&& s.live == live
                    &&& s.base_wf()
                },
                Err(e) => e is Corrupted && !parts_wf(profiles@),
            },
    {
        if profiles.len() == 0 {
            return Err(SettingsError::Corrupted);
        }
        if has_dup_ids(&profiles) {
            return Err(SettingsError::Corrupted);
        }
        let mut i: usize = 0;
        while i < profiles.len()
            invariant
                0 <= i <= profiles@.len(),
                forall|q: int| 0 <= q < i ==> profile_wf(#[trigger] profiles@[q]),
        decreases profiles@.len() - i,
        {
            if has_dup_pair_keys(&profiles[i].modules) {
                return Err(SettingsError::Corrupted);
            }
            if has_dup_style_keys(&profiles[i].module_styles) {
                return Err(SettingsError::Corrupted);
            }
            i += 1;
        }
        Ok(WaybarConfigService { profiles, active_id, live })
    }
}

/// Structural well-formedness of a stored profile set: non-empty, ids
/// pairwise distinct, every profile internally well-formed.
pub open spec fn parts_wf(ps: Seq<WaybarProfile>) -> bool {
    &&& ps.len() >= 1
    &&& forall|i: int, j: int| 0 <= i < j < ps.len() ==> ps[i].id@ != ps[j].id@
    &&& forall|i: int| 0 <= i < ps.len() ==> profile_wf(#[trigger] ps[i])
}

/// Whether some two profiles share an id.
fn has_dup_ids(v: &Vec<WaybarProfile>) -> (r: bool)
    ensures
        r == !(forall|i: int, j: int| 0 <= i < j < v@.len() ==> v@[i].id@ != v@[j].id@),
{
    let mut i: usize = 0;
    while i < v.len()
        invariant
            0 <= i <= v@.len(),
            forall|x: int, y: int| 0 <= x < y < i ==> v@[x].id@ != v@[y].id@,
        decreases v@.len() - i,
    {
        let mut k: usize = 0;
        while k < i
            invariant
                0 <= k <= i < v@.len(),
                forall|x: int| 0 <= x < k ==> v@[x].id@ != v@[i as int].id@,
            decreases i - k,
        {
            if str_eq(v[k].id.as_str(), v[i].id.as_str()) {
                return true;
            }
            k += 1;
        }
        i += 1;
    }
    false
}

/// Repository invariant law: a well-formed repository holds at least one
/// profile, and its single active pointer resolves to an existing profile,
/// the one `active_profile` denotes. Every mutating operation above
/// preserves `wf`, so this holds after any sequence of creates, deletes and
/// selects starting from a well-formed repository.
pub proof fn lemma_repository_invariant(s: WaybarConfigService)
    requires
        s.wf(),
    ensures
        s.profiles@.len() >= 1,
        s.contains_id(s.active_id@),
        0 <= s.index_of(s.active_id@) < s.profiles@.len(),
        s.active_profile().id@ == s.active_id@,
{
    let w = choose|i: int|
        0 <= i < s.profiles@.len() && s.profiles@[i].id@ == s.active_id@;
    assert(0 <= w < s.profiles@.len());
}

} // verus!
