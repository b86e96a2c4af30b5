//! VPN block. A network link whose name matches a configured glob (`zt*`,
//! `wg*`, `tun*`, `tap*` by default) counts as an active VPN when its carrier
//! is `1` or, for links without a carrier file, its operstate is `up`
//! (ZeroTier, WireGuard and tun links report operstate `unknown` while
//! carrying traffic, so the carrier is the reliable signal).
use vstd::prelude::*;

use crate::config::Config;
use crate::icons::{glyph, Icons};
use crate::state::{icon_text_view, is_plain_block, Block};
use crate::text::{concat, dec, str_eq, strs, u64_string};
use crate::util::{glob, glob_match};

verus! {

/// One entry of the network class: its name and the trimmed first lines of
/// its `operstate` and `carrier` files (empty when unreadable).
pub struct VpnLink {
    pub name: String,
    pub operstate: String,
    pub carrier: String,
}

/// `name` matches one of the patterns.
pub open spec fn is_vpn_view(patterns: Seq<Seq<char>>, name: Seq<char>) -> bool {
    exists|i: int| 0 <= i < patterns.len() && glob(#[trigger] patterns[i], name)
}

/// Whether a link name counts as a VPN under the configured patterns.
pub fn is_vpn(cfg: &Config, name: &str) -> (r: bool)
    ensures
        r == is_vpn_view(strs(cfg.modules.vpn.patterns@), name@),
{
    let ps = &cfg.modules.vpn.patterns;
    let mut i: usize = 0;
    while i < ps.len()
        invariant
            i <= ps@.len(),
            ps@ == cfg.modules.vpn.patterns@,
            forall|j: int| 0 <= j < i ==> !glob(#[trigger] strs(ps@)[j], name@),
        decreases ps.len() - i,
    {
        assert(strs(ps@)[i as int] == ps@[i as int]@);
        if glob_match(ps[i].as_str(), name) {
            assert(glob(strs(ps@)[i as int], name@));
            return true;
        }
        i += 1;
    }
    false
}

/// The link carries traffic.
pub open spec fn link_up(l: VpnLink) -> bool {
    l.operstate@ == "up"@ || l.carrier@ == "1"@
}

/// The number of VPN links of `links` that are up.
pub open spec fn active_count(patterns: Seq<Seq<char>>, links: Seq<VpnLink>) -> nat
    decreases links.len(),
{
    if links.len() == 0 {
        0
    } else {
        active_count(patterns, links.drop_last()) + if is_vpn_view(patterns, links.last().name@)
            && link_up(links.last()) {
            1nat
        } else {
            0nat
        }
    }
}

/// `Off`, `On`, or `On ×<n>` for several.
pub open spec fn vpn_text(n: nat) -> Seq<char> {
    if n == 0 {
        "Off"@
    } else if n == 1 {
        "On"@
    } else {
        "On ×"@ + dec(n)
    }
}

/// The VPN block over the entries of the network class: with no active VPN
/// and `show_when_off` unset an empty block (which hides it); else the `vpn`
/// icon and the state, named `vpn`.
pub fn vpn_block(cfg: &Config, icons: &Icons, links: &[VpnLink]) -> (b: Block)
    ensures
        ({
            let n = active_count(strs(cfg.modules.vpn.patterns@), links@);
            if n == 0 && !cfg.modules.vpn.show_when_off {
                is_plain_block(b, seq![])
            } else {
                (b.name matches Some(nm) && nm@ == "vpn"@)
                    && is_plain_block(Block { name: None, ..b }, icon_text_view(glyph(*icons, "vpn"@), vpn_text(n)))
            }
        }),
{
    let ghost ps = strs(cfg.modules.vpn.patterns@);
    let mut active: u64 = 0;
    let mut i: usize = 0;
    assert(links@.take(0) =~= seq![]);
    while i < links.len()
        invariant
            i <= links@.len(),
            ps == strs(cfg.modules.vpn.patterns@),
            active == active_count(ps, links@.take(i as int)),
            active <= i,
        decreases links.len() - i,
    {
        let ghost t = links@.take(i + 1);
        assert(t.last() == links@[i as int]);
        assert(t.drop_last() =~= links@.take(i as int));
        let l = &links[i];
        if is_vpn(cfg, l.name.as_str()) {
            if str_eq(l.operstate.as_str(), "up") || str_eq(l.carrier.as_str(), "1") {
                active += 1;
            }
        }
        i += 1;
    }
    assert(links@.take(i as int) =~= links@);
    if active == 0 && !cfg.modules.vpn.show_when_off {
        let b = Block::text("");
        proof {
            reveal_strlit("");
            assert(b.full_text@ =~= seq![]);
        }
        return b;
    }
    let text = if active == 0 {
        crate::text::owned("Off")
    } else if active == 1 {
        crate::text::owned("On")
    } else {
        let n = u64_string(active);
        concat("On ×", n.as_str())
    };
    Block::icon_text(icons.get("vpn"), text.as_str()).with_name("vpn")
}

} // verus!
