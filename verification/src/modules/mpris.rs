//! Now-playing block. The MPRIS players (from the session D-Bus) are read at
//! the program's edge; choosing the player and rendering its text happen here.
use vstd::prelude::*;

use crate::config::Config;
use crate::icons::{glyph, Icons};
use crate::state::{icon_text_view, is_plain_block, Block};
use crate::text::{
    from_chars, is_prefix, owned, replace, replace_str, slice_chars, starts_with, str_eq, to_chars,
    trim, trim_str,
};

verus! {

/// What one player reported: `PlaybackStatus` and the `xesam:title` /
/// first `xesam:artist` of its metadata.
pub struct PlayerInfo {
    pub status: String,
    pub title: String,
    pub artist: String,
}

/// `s` cut to `max` visible characters, the last being `…`; `max == 0` means
/// no limit.
pub open spec fn cut(s: Seq<char>, max: nat) -> Seq<char> {
    if max == 0 || s.len() <= max {
        s
    } else {
        s.take(max - 1) + seq!['…']
    }
}

pub fn truncate(s: &str, max: usize) -> (r: String)
    ensures
        r@ == cut(s@, max as nat),
{
    let v = to_chars(s);
    if max == 0 || v.len() <= max {
        return owned(s);
    }
    let mut out = slice_chars(&v, 0, max - 1);
    out.push('…');
    from_chars(&out)
}

/// The now-playing text: the title alone when there is no artist, else the
/// `format` template with `{artist}` and `{title}` replaced (both trimmed);
/// then cut to `max_len`.
pub open spec fn now_playing(info: PlayerInfo, cfg: Config) -> Seq<char> {
    let artist = trim(info.artist@);
    let title = trim(info.title@);
    let raw = if artist.len() == 0 {
        title
    } else {
        replace(replace(cfg.modules.mpris.format@, "{artist}"@, artist), "{title}"@, title)
    };
    cut(raw, cfg.modules.mpris.max_len as nat)
}

pub fn build_text(info: &PlayerInfo, cfg: &Config) -> (r: String)
    ensures
        r@ == now_playing(*info, *cfg),
{
    let artist = trim_str(info.artist.as_str());
    let title = trim_str(info.title.as_str());
    let raw = if artist.as_str().is_empty() {
        title
    } else {
        proof {
            reveal_strlit("{artist}");
            reveal_strlit("{title}");
        }
        let a = replace_str(cfg.modules.mpris.format.as_str(), "{artist}", artist.as_str());
        replace_str(a.as_str(), "{title}", title.as_str())
    };
    truncate(raw.as_str(), cfg.modules.mpris.max_len)
}

/// Whether a session bus name is an MPRIS player's.
pub fn is_player_bus(name: &str) -> (r: bool)
    ensures
        r == is_prefix("org.mpris.MediaPlayer2."@, name@),
{
    starts_with(&to_chars(name), &to_chars("org.mpris.MediaPlayer2."))
}

/// The player to show: the first `Playing` one, else the first one.
pub open spec fn chosen(players: Seq<PlayerInfo>) -> Option<PlayerInfo> {
    if players.len() == 0 {
        None
    } else if exists|i: int| 0 <= i < players.len() && (#[trigger] players[i]).status@ == "Playing"@ {
        Some(players[first_playing(players)])
    } else {
        Some(players[0])
    }
}

/// The index of the first `Playing` player (the length when there is none).
pub open spec fn first_playing(players: Seq<PlayerInfo>) -> int
    decreases players.len(),
{
    if players.len() == 0 {
        0
    } else if players[0].status@ == "Playing"@ {
        0
    } else {
        1 + first_playing(players.drop_first())
    }
}

proof fn lemma_first_playing(players: Seq<PlayerInfo>, k: int)
    requires
        0 <= k <= players.len(),
        forall|m: int| 0 <= m < k ==> (#[trigger] players[m]).status@ != "Playing"@,
        k < players.len() ==> players[k].status@ == "Playing"@,
    ensures
        first_playing(players) == k,
    decreases k,
{
    if k > 0 {
        assert forall|m: int| 0 <= m < k - 1 implies (#[trigger] players.drop_first()[m]).status@
            != "Playing"@ by {
            assert(players.drop_first()[m] == players[m + 1]);
        }
        lemma_first_playing(players.drop_first(), k - 1);
    }
}

/// The now-playing block for the readable players, named `mpris`: a playing
/// player shows the music icon and its text; otherwise the idle icon only when
/// `show_when_stopped`, else nothing (as with no player at all).
pub fn snapshot(players: &[PlayerInfo], cfg: &Config, icons: &Icons) -> (r: Option<Block>)
    ensures
        match chosen(players@) {
            None => r is None,
            Some(info) => if info.status@ != "Playing"@ {
                if cfg.modules.mpris.show_when_stopped {
                    r matches Some(b) && (b.name matches Some(n) && n@ == "mpris"@) && is_plain_block(
                        Block { name: None, ..b },
                        glyph(*icons, "music"@),
                    )
                } else {
                    r is None
                }
            } else {
                r matches Some(b) && (b.name matches Some(n) && n@ == "mpris"@) && is_plain_block(
                    Block { name: None, ..b },
                    if now_playing(info, *cfg).len() == 0 {
                        glyph(*icons, "music"@)
                    } else {
                        icon_text_view(glyph(*icons, "music"@), now_playing(info, *cfg))
                    },
                )
            },
        },
{
    if players.len() == 0 {
        return None;
    }
    let mut idx: usize = 0;
    while idx < players.len() && !str_eq(players[idx].status.as_str(), "Playing")
        invariant
            idx <= players@.len(),
            forall|m: int| 0 <= m < idx ==> (#[trigger] players@[m]).status@ != "Playing"@,
        decreases players.len() - idx,
    {
        idx += 1;
    }
    proof {
        lemma_first_playing(players@, idx as int);
    }
    let info = if idx < players.len() {
        &players[idx]
    } else {
        &players[0]
    };
    if !str_eq(info.status.as_str(), "Playing") {
        if cfg.modules.mpris.show_when_stopped {
            return Some(Block::text(icons.get("music")).with_name("mpris"));
        }
        return None;
    }
    let text = build_text(info, cfg);
    let block = if text.as_str().is_empty() {
        Block::text(icons.get("music"))
    } else {
        Block::icon_text(icons.get("music"), text.as_str())
    };
    Some(block.with_name("mpris"))
}

} // verus!

verus! {

/// The now-playing text never has more than `max_len` visible characters
/// (`max_len == 0` means no limit), and a text that fits is left whole.
pub proof fn lemma_now_playing_fits(info: PlayerInfo, cfg: Config)
    ensures
        cfg.modules.mpris.max_len > 0 ==> now_playing(info, cfg).len() <= cfg.modules.mpris.max_len,
{
}

/// A text within the limit is not cut; a longer one keeps its first
/// `max - 1` characters and ends in `…`.
pub proof fn lemma_cut_shape(s: Seq<char>, max: nat)
    ensures
        max == 0 || s.len() <= max ==> cut(s, max) == s,
        max > 0 && s.len() > max ==> cut(s, max).len() == max && cut(s, max).last() == '…'
            && cut(s, max).take(max - 1) == s.take(max - 1),
{
    if max > 0 && s.len() > max {
        assert(cut(s, max).take(max - 1) =~= s.take(max - 1));
    }
}

} // verus!
