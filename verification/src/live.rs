//! Live sync: the modeled contents of the fixed-location files the external
//! status-bar rendering process reads, and the renderer that produces them
//! from a profile.

use vstd::prelude::*;
use vstd::string::*;

use crate::profile::WaybarProfile;

verus! {

/// The modeled live destination: one rendered configuration file and one
/// stylesheet. The I/O shim outside this crate moves each text to its fixed
/// path with an atomic replace, so the rendering process never observes a
/// half-written file.
#[derive(Debug)]
pub struct LiveMirror {
    pub config_text: String,
    pub style_text: String,
}

/// One line per entry, each entry's text followed by a newline.
pub open spec fn lines_of(s: Seq<String>) -> Seq<char>
    decreases s.len(),
{
    if s.len() == 0 {
        Seq::empty()
    } else {
        lines_of(s.drop_last()) + s.last()@ + "\n"@
    }
}

/// One `key=value` line per entry.
pub open spec fn pair_lines_of(s: Seq<(String, String)>) -> Seq<char>
    decreases s.len(),
{
    if s.len() == 0 {
        Seq::empty()
    } else {
        pair_lines_of(s.drop_last()) + s.last().0@ + "="@ + s.last().1@ + "\n"@
    }
}

/// The rendered live configuration of a profile: its fragments laid out in
/// fixed sections, in stored order.
pub open spec fn spec_live_config(p: WaybarProfile) -> Seq<char> {
    "[globals]\n"@ + p.globals@ + "\n[left]\n"@ + lines_of(p.layout.left@) + "[center]\n"@
        + lines_of(p.layout.center@) + "[right]\n"@ + lines_of(p.layout.right@) + "[modules]\n"@
        + pair_lines_of(p.modules@) + "[passthrough]\n"@ + pair_lines_of(p.passthrough@)
}

fn append_lines(out: &mut String, v: &Vec<String>)
    ensures
        final(out)@ == old(out)@ + lines_of(v@),
{
    let ghost base = out@;
    let mut i: usize = 0;
    while i < v.len()
        invariant
            0 <= i <= v@.len(),
            out@ == base + lines_of(v@.take(i as int)),
        decreases v@.len() - i,
    {
        out.append(v[i].as_str());
        out.append("\n");
        proof {
            assert(v@.take(i + 1 as int).drop_last() =~= v@.take(i as int));
            assert(v@.take(i + 1 as int).last() == v@[i as int]);
        }
        i += 1;
    }
    proof {
        assert(v@.take(v@.len() as int) =~= v@);
    }
}

fn append_pair_lines(out: &mut String, v: &Vec<(String, String)>)
    ensures
        final(out)@ == old(out)@ + pair_lines_of(v@),
{
    let ghost base = out@;
    let mut i: usize = 0;
    while i < v.len()
        invariant
            0 <= i <= v@.len(),
            out@ == base + pair_lines_of(v@.take(i as int)),
        decreases v@.len() - i,
    {
        out.append(v[i].0.as_str());
        out.append("=");
        out.append(v[i].1.as_str());
        out.append("\n");
        proof {
            assert(v@.take(i + 1 as int).drop_last() =~= v@.take(i as int));
            assert(v@.take(i + 1 as int).last() == v@[i as int]);
        }
        i += 1;
    }
    proof {
        assert(v@.take(v@.len() as int) =~= v@);
    }
}

/// Render a profile's live configuration text.
pub fn render_live_config(p: &WaybarProfile) -> (r: String)
    ensures
        r@ == spec_live_config(*p),
{
    let mut out = String::new();
    out.append("[globals]\n");
    out.append(p.globals.as_str());
    out.append("\n[left]\n");
    append_lines(&mut out, &p.layout.left);
    out.append("[center]\n");
    append_lines(&mut out, &p.layout.center);
    out.append("[right]\n");
    append_lines(&mut out, &p.layout.right);
    out.append("[modules]\n");
    append_pair_lines(&mut out, &p.modules);
    out.append("[passthrough]\n");
    append_pair_lines(&mut out, &p.passthrough);
    proof {
        assert(out@ =~= spec_live_config(*p));
    }
    out
}

/// The mirror holds exactly the rendered artifacts of `p`.
pub open spec fn mirrors_profile(live: LiveMirror, p: WaybarProfile) -> bool {
    &&& live.config_text@ == spec_live_config(p)
    &&& live.style_text@ == p.style_css@
}

/// Live-sync idempotence law: the mirror of a profile is a function of the
/// profile alone, so any two mirrors synced to the same profile hold the
/// same texts — re-running a sync changes nothing, and one sync alone is
/// enough to repair a diverged mirror.
pub proof fn lemma_sync_idempotent(l1: LiveMirror, l2: LiveMirror, p: WaybarProfile)
    requires
        mirrors_profile(l1, p),
        mirrors_profile(l2, p),
    ensures
        l1.config_text@ == l2.config_text@,
        l1.style_text@ == l2.style_text@,
{
}

/// Copy a profile's rendered artifacts into the live mirror. Rendering is a
/// function of the profile alone, so re-running this on the same profile is
/// idempotent and by itself repairs any divergence of the mirror.
pub fn sync_live(live: &mut LiveMirror, p: &WaybarProfile)
    ensures
        mirrors_profile(*final(live), *p),
{
    live.config_text = render_live_config(p);
    live.style_text = p.style_css.clone();
}

} // verus!
