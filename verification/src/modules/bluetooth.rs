//! Bluetooth block. The BlueZ objects (from D-Bus) or the `bluetoothctl show`
//! output are read at the program's edge; the block is decided here.
use vstd::prelude::*;

use crate::icons::{glyph, Icons};
use crate::state::{icon_text_view, is_plain_block, Block};
use crate::text::{
    eq_ignore_ascii_case, eq_ignore_ascii_case_chars, from_chars, is_prefix, lines, lines_of,
    owned, slice_chars, starts_with, to_chars, trim, trim_chars, views,
};

verus! {

/// `s` cut to `max` characters with a trailing `…` when it is longer.
pub open spec fn cut(s: Seq<char>, max: nat) -> Seq<char> {
    if s.len() <= max {
        s
    } else {
        s.take(max as int) + seq!['…']
    }
}

pub fn truncate(s: &str, max: usize) -> (r: String)
    ensures
        r@ == cut(s@, max as nat),
{
    let v = to_chars(s);
    if v.len() <= max {
        return owned(s);
    }
    let mut out = slice_chars(&v, 0, max);
    out.push('…');
    from_chars(&out)
}

/// A BlueZ device: whether it is connected, and its `Name` (or `Alias`) when
/// that is a string.
pub struct BtDevice {
    pub connected: bool,
    pub name: Option<String>,
}

/// One BlueZ object: its `Adapter1` interface (with whether `Powered` is
/// true) and its `Device1` interface, when it has them.
pub struct BtObject {
    pub adapter_powered: Option<bool>,
    pub device: Option<BtDevice>,
}

pub open spec fn has_adapter(objs: Seq<BtObject>) -> bool {
    exists|i: int| 0 <= i < objs.len() && (#[trigger] objs[i]).adapter_powered is Some
}

pub open spec fn any_powered(objs: Seq<BtObject>) -> bool {
    exists|i: int| 0 <= i < objs.len() && (#[trigger] objs[i]).adapter_powered == Some(true)
}

/// The name of the first connected device that has one.
pub open spec fn connected_name(objs: Seq<BtObject>) -> Option<Seq<char>>
    decreases objs.len(),
{
    if objs.len() == 0 {
        None
    } else {
        match objs[0].device {
            Some(d) => if d.connected && d.name is Some {
                Some(d.name->0@)
            } else {
                connected_name(objs.drop_first())
            },
            None => connected_name(objs.drop_first()),
        }
    }
}

/// The text of the bluetooth block: a connected device's name (cut to 14
/// characters), else `On` when an adapter is powered, else the bare off icon.
pub open spec fn bt_text(objs: Seq<BtObject>, icons: Icons) -> Seq<char> {
    match connected_name(objs) {
        Some(n) => icon_text_view(glyph(icons, "bt_connected"@), cut(n, 14)),
        None => if any_powered(objs) {
            icon_text_view(glyph(icons, "bt_on"@), "On"@)
        } else {
            glyph(icons, "bt_off"@)
        },
    }
}

/// The bluetooth block for a snapshot of all BlueZ objects, named `bt`;
/// nothing when there is no adapter at all (no phantom "off").
pub fn snapshot(objs: &[BtObject], icons: &Icons) -> (r: Option<Block>)
    ensures
        !has_adapter(objs@) <==> r is None,
        r matches Some(b) ==> (b.name matches Some(n) && n@ == "bt"@) && is_plain_block(
            Block { name: None, ..b },
            bt_text(objs@, *icons),
        ),
{
    let mut seen = false;
    let mut powered = false;
    let mut name: Option<String> = None;
    let mut i: usize = 0;
    assert(objs@.skip(0) =~= objs@);
    while i < objs.len()
        invariant
            i <= objs@.len(),
            seen == exists|k: int| 0 <= k < i && (#[trigger] objs@[k]).adapter_powered is Some,
            powered == exists|k: int| 0 <= k < i && (#[trigger] objs@[k]).adapter_powered == Some(true),
            connected_name(objs@) == match name {
                Some(n) => Some(n@),
                None => connected_name(objs@.skip(i as int)),
            },
        decreases objs.len() - i,
    {
        let o = &objs[i];
        let ghost rest = objs@.skip(i as int);
        assert(rest.drop_first() =~= objs@.skip(i + 1));
        assert(rest[0] == objs@[i as int]);
        match o.adapter_powered {
            Some(p) => {
                seen = true;
                if p {
                    powered = true;
                }
            },
            None => {},
        }
        if name.is_none() {
            match &o.device {
                Some(d) => {
                    if d.connected {
                        match &d.name {
                            Some(n) => {
                                name = Some(n.clone());
                            },
                            None => {},
                        }
                    }
                },
                None => {},
            }
        }
        i += 1;
    }
    if !seen {
        return None;
    }
    let block = match name {
        Some(n) => {
            let t = truncate(n.as_str(), 14);
            Block::icon_text(icons.get("bt_connected"), t.as_str())
        },
        None => if powered {
            Block::icon_text(icons.get("bt_on"), "On")
        } else {
            Block::text(icons.get("bt_off"))
        },
    };
    Some(block.with_name("bt"))
}

/// `(has_controller, powered)` after the `bluetoothctl show` lines `ls`: a
/// line starting `Controller` marks a controller; a `Powered:` line sets the
/// power from whether its value is `yes` (any case).
pub open spec fn btctl_fold(ls: Seq<Seq<char>>, seen: bool, powered: bool) -> (bool, bool)
    decreases ls.len(),
{
    if ls.len() == 0 {
        (seen, powered)
    } else {
        let t = trim(ls[0]);
        if is_prefix("Controller"@, t) {
            btctl_fold(ls.drop_first(), true, powered)
        } else if is_prefix("Powered:"@, t) {
            btctl_fold(
                ls.drop_first(),
                seen,
                eq_ignore_ascii_case(trim(t.skip("Powered:"@.len() as int)), "yes"@),
            )
        } else {
            btctl_fold(ls.drop_first(), seen, powered)
        }
    }
}

/// The adapter-power block from `bluetoothctl show` output: nothing without a
/// controller; `On` when powered, else the bare off icon; named `bt`.
pub fn btctl_block(out: &str, icons: &Icons) -> (r: Option<Block>)
    ensures
        !btctl_fold(lines(out@), false, false).0 <==> r is None,
        r matches Some(b) ==> (b.name matches Some(n) && n@ == "bt"@) && is_plain_block(
            Block { name: None, ..b },
            if btctl_fold(lines(out@), false, false).1 {
                icon_text_view(glyph(*icons, "bt_on"@), "On"@)
            } else {
                glyph(*icons, "bt_off"@)
            },
        ),
{
    let text = to_chars(out);
    let ls = lines_of(&text);
    let ctl = to_chars("Controller");
    let pw = to_chars("Powered:");
    let yes = to_chars("yes");
    let mut seen = false;
    let mut powered = false;
    let mut i: usize = 0;
    assert(views(ls@).skip(0) =~= views(ls@));
    while i < ls.len()
        invariant
            i <= ls@.len(),
            views(ls@) == lines(out@),
            ctl@ == "Controller"@,
            pw@ == "Powered:"@,
            yes@ == "yes"@,
            btctl_fold(lines(out@), false, false) == btctl_fold(views(ls@).skip(i as int), seen, powered),
        decreases ls.len() - i,
    {
        let ghost rest = views(ls@).skip(i as int);
        assert(rest.drop_first() =~= views(ls@).skip(i + 1));
        assert(rest[0] == ls@[i as int]@);
        let t = trim_chars(&ls[i]);
        if starts_with(&t, &ctl) {
            seen = true;
        } else if starts_with(&t, &pw) {
            let tl = t.len();
            let after = slice_chars(&t, pw.len(), tl);
            assert(after@ =~= t@.skip(pw@.len() as int));
            let v = trim_chars(&after);
            powered = eq_ignore_ascii_case_chars(&v, &yes);
        }
        i += 1;
    }
    assert(views(ls@).skip(i as int) =~= seq![]);
    if !seen {
        return None;
    }
    let block = if powered {
        Block::icon_text(icons.get("bt_on"), "On")
    } else {
        Block::text(icons.get("bt_off"))
    };
    Some(block.with_name("bt"))
}

} // verus!

verus! {

/// The object holds a device that is connected.
pub open spec fn holds_connected_device(o: BtObject) -> bool {
    match o.device {
        Some(d) => d.connected,
        None => false,
    }
}

/// The object holds a connected device named `n`.
pub open spec fn connected_device_named(o: BtObject, n: Seq<char>) -> bool {
    match o.device {
        Some(d) => d.connected && match d.name {
            Some(m) => m@ == n,
            None => false,
        },
        None => false,
    }
}

proof fn lemma_connected_name_source(objs: Seq<BtObject>)
    ensures
        connected_name(objs) matches Some(n) ==> exists|i: int|
            0 <= i < objs.len() && connected_device_named(#[trigger] objs[i], n),
    decreases objs.len(),
{
    if objs.len() > 0 {
        let t = objs.drop_first();
        lemma_connected_name_source(t);
        match objs[0].device {
            Some(d) => if d.connected && d.name is Some {
                assert(connected_device_named(objs[0], d.name->0@));
            } else if connected_name(t) is Some {
                let i = choose|i: int| 0 <= i < t.len() && connected_device_named(#[trigger] t[i], connected_name(t)->0);
                assert(objs[i + 1] == t[i]);
            },
            None => if connected_name(t) is Some {
                let i = choose|i: int| 0 <= i < t.len() && connected_device_named(#[trigger] t[i], connected_name(t)->0);
                assert(objs[i + 1] == t[i]);
            },
        }
    }
}

/// A device name is shown only for a connected device: the name in the
/// text is that of some object's connected device, and when no object holds
/// a connected device the text is `On` (an adapter is powered) or the bare
/// off icon.
pub proof fn lemma_bt_shows_only_connected_devices(objs: Seq<BtObject>, icons: Icons)
    ensures
        connected_name(objs) matches Some(n) ==> exists|i: int|
            0 <= i < objs.len() && connected_device_named(#[trigger] objs[i], n),
        (forall|i: int| 0 <= i < objs.len() ==> !holds_connected_device(#[trigger] objs[i])) ==> bt_text(
            objs,
            icons,
        ) == if exists|i: int| 0 <= i < objs.len() && (#[trigger] objs[i]).adapter_powered == Some(true) {
            icon_text_view(glyph(icons, "bt_on"@), "On"@)
        } else {
            glyph(icons, "bt_off"@)
        },
{
    lemma_connected_name_source(objs);
}

} // verus!
