//! The symbol shown on a key chip for each key name.
use vstd::prelude::*;
use vstd::string::*;

use crate::text::{chars_eq, chars_of, split_chars, split_spec, string_of};

verus! {

/// The symbol for a key name; a name without one is shown as itself.
pub open spec fn key_symbol_spec(key: Seq<char>) -> Seq<char> {
    if key == "Super"@ || key == "Mod4"@ {
        "\u{2318}"@
    } else if key == "Alt"@ || key == "Mod1"@ {
        "\u{2325}"@
    } else if key == "Ctrl"@ || key == "Control"@ {
        "\u{2303}"@
    } else if key == "Shift"@ {
        "\u{21E7}"@
    } else if key == "Mod2"@ || key == "Mod3"@ || key == "Mod5"@ {
        "\u{2318}"@
    } else if key == "Return"@ || key == "Enter"@ {
        "\u{23CE}"@
    } else if key == "Escape"@ || key == "Escape_LC"@ {
        "\u{238B}"@
    } else if key == "BackSpace"@ || key == "BackSpace_LC"@ {
        "\u{232B}"@
    } else if key == "Tab"@ || key == "Tab_LC"@ {
        "\u{21E5}"@
    } else if key == "Delete"@ || key == "Delete_LC"@ {
        "\u{2326}"@
    } else if key == "Insert"@ {
        "\u{2380}"@
    } else if key == "Left"@ {
        "\u{2190}"@
    } else if key == "Right"@ {
        "\u{2192}"@
    } else if key == "Up"@ {
        "\u{2191}"@
    } else if key == "Down"@ {
        "\u{2193}"@
    } else if key == "Home"@ {
        "\u{2196}"@
    } else if key == "End"@ {
        "\u{2198}"@
    } else if key == "Page_Up"@ {
        "\u{21DE}"@
    } else if key == "Page_Down"@ {
        "\u{21DF}"@
    } else if key == "Caps_Lock"@ {
        "\u{21EA}"@
    } else if key == "Num_Lock"@ {
        "\u{2327}"@
    } else if key == "Scroll_Lock"@ {
        "\u{21C7}"@
    } else if key == "Print"@ {
        "\u{2399}"@
    } else if key == "Pause"@ {
        "\u{23F8}"@
    } else if key == "Menu"@ {
        "\u{2630}"@
    } else if key == "F1"@ {
        "F1"@
    } else if key == "F2"@ {
        "F2"@
    } else if key == "F3"@ {
        "F3"@
    } else if key == "F4"@ {
        "F4"@
    } else if key == "F5"@ {
        "F5"@
    } else if key == "F6"@ {
        "F6"@
    } else if key == "F7"@ {
        "F7"@
    } else if key == "F8"@ {
        "F8"@
    } else if key == "F9"@ {
        "F9"@
    } else if key == "F10"@ {
        "F10"@
    } else if key == "F11"@ {
        "F11"@
    } else if key == "F12"@ {
        "F12"@
    } else if key == "space"@ || key == "Space"@ {
        "\u{2423}"@
    } else if key == "XF86PowerOff"@ {
        "\u{23FB}"@
    } else if key == "Power"@ {
        "\u{23FB}"@
    } else if key == "XF86AudioMute"@ || key == "Mute"@ {
        "\u{1F507}"@
    } else if key == "XF86AudioLowerVolume"@ || key == "Volume_Down"@ {
        "\u{1F509}"@
    } else if key == "XF86AudioRaiseVolume"@ || key == "Volume_Up"@ {
        "\u{1F50A}"@
    } else if key == "XF86AudioPlay"@ || key == "Play"@ {
        "\u{25B6}"@
    } else if key == "XF86AudioPause"@ || key == "PausePlayback"@ {
        "\u{23F8}"@
    } else if key == "XF86AudioStop"@ || key == "Stop"@ {
        "\u{25A0}"@
    } else if key == "XF86AudioNext"@ || key == "Next"@ {
        "\u{23ED}"@
    } else if key == "XF86AudioPrev"@ || key == "Prev"@ {
        "\u{23EE}"@
    } else if key == "XF86AudioRewind"@ || key == "Rewind"@ {
        "\u{23EA}"@
    } else if key == "XF86AudioForward"@ || key == "Forward"@ {
        "\u{23E9}"@
    } else if key == "XF86MonBrightnessUp"@ || key == "Brightness_Up"@ {
        "\u{2600}"@
    } else if key == "XF86MonBrightnessDown"@ || key == "Brightness_Down"@ {
        "\u{263E}"@
    } else if key == "XF86Search"@ {
        "\u{1F50D}"@
    } else if key == "XF86Explorer"@ || key == "XF86LaunchA"@ {
        "\u{1F4C2}"@
    } else if key == "XF86Calculator"@ {
        "\u{1F9EE}"@
    } else if key == "XF86Mail"@ {
        "\u{2709}"@
    } else if key == "XF86Favorites"@ {
        "\u{2605}"@
    } else if key == "XF86WWW"@ || key == "XF86LaunchB"@ {
        "\u{1F310}"@
    } else if key == "XF86Display"@ {
        "\u{21C3}"@
    } else if key == "XF86WLAN"@ || key == "XF86Network"@ {
        "\u{1F4F6}"@
    } else {
        key
    }
}

fn is_name(key: &Vec<char>, name: &str) -> (r: bool)
    ensures
        r == (key@ == name@),
{
    chars_eq(key, &chars_of(name))
}

/// The symbol shown for a key name: modifier, editing, navigation, lock,
/// media and other keys have a symbol of their own; any other name is shown
/// as itself.
pub fn key_to_symbol<'a>(key: &'a str) -> (r: &'a str)
    ensures
        r@ == key_symbol_spec(key@),
{
    let k = chars_of(key);
    if is_name(&k, "Super") || is_name(&k, "Mod4") {
        return "\u{2318}";
    }
    if is_name(&k, "Alt") || is_name(&k, "Mod1") {
        return "\u{2325}";
    }
    if is_name(&k, "Ctrl") || is_name(&k, "Control") {
        return "\u{2303}";
    }
    if is_name(&k, "Shift") {
        return "\u{21E7}";
    }
    if is_name(&k, "Mod2") || is_name(&k, "Mod3") || is_name(&k, "Mod5") {
        return "\u{2318}";
    }
    if is_name(&k, "Return") || is_name(&k, "Enter") {
        return "\u{23CE}";
    }
    if is_name(&k, "Escape") || is_name(&k, "Escape_LC") {
        return "\u{238B}";
    }
    if is_name(&k, "BackSpace") || is_name(&k, "BackSpace_LC") {
        return "\u{232B}";
    }
    if is_name(&k, "Tab") || is_name(&k, "Tab_LC") {
        return "\u{21E5}";
    }
    if is_name(&k, "Delete") || is_name(&k, "Delete_LC") {
        return "\u{2326}";
    }
    if is_name(&k, "Insert") {
        return "\u{2380}";
    }
    if is_name(&k, "Left") {
        return "\u{2190}";
    }
    if is_name(&k, "Right") {
        return "\u{2192}";
    }
    if is_name(&k, "Up") {
        return "\u{2191}";
    }
    if is_name(&k, "Down") {
        return "\u{2193}";
    }
    if is_name(&k, "Home") {
        return "\u{2196}";
    }
    if is_name(&k, "End") {
        return "\u{2198}";
    }
    if is_name(&k, "Page_Up") {
        return "\u{21DE}";
    }
    if is_name(&k, "Page_Down") {
        return "\u{21DF}";
    }
    if is_name(&k, "Caps_Lock") {
        return "\u{21EA}";
    }
    if is_name(&k, "Num_Lock") {
        return "\u{2327}";
    }
    if is_name(&k, "Scroll_Lock") {
        return "\u{21C7}";
    }
    if is_name(&k, "Print") {
        return "\u{2399}";
    }
    if is_name(&k, "Pause") {
        return "\u{23F8}";
    }
    if is_name(&k, "Menu") {
        return "\u{2630}";
    }
    if is_name(&k, "F1") {
        return "F1";
    }
    if is_name(&k, "F2") {
        return "F2";
    }
    if is_name(&k, "F3") {
        return "F3";
    }
    if is_name(&k, "F4") {
        return "F4";
    }
    if is_name(&k, "F5") {
        return "F5";
    }
    if is_name(&k, "F6") {
        return "F6";
    }
    if is_name(&k, "F7") {
        return "F7";
    }
    if is_name(&k, "F8") {
        return "F8";
    }
    if is_name(&k, "F9") {
        return "F9";
    }
    if is_name(&k, "F10") {
        return "F10";
    }
    if is_name(&k, "F11") {
        return "F11";
    }
    if is_name(&k, "F12") {
        return "F12";
    }
    if is_name(&k, "space") || is_name(&k, "Space") {
        return "\u{2423}";
    }
    if is_name(&k, "XF86PowerOff") {
        return "\u{23FB}";
    }
    if is_name(&k, "Power") {
        return "\u{23FB}";
    }
    if is_name(&k, "XF86AudioMute") || is_name(&k, "Mute") {
        return "\u{1F507}";
    }
    if is_name(&k, "XF86AudioLowerVolume") || is_name(&k, "Volume_Down") {
        return "\u{1F509}";
    }
    if is_name(&k, "XF86AudioRaiseVolume") || is_name(&k, "Volume_Up") {
        return "\u{1F50A}";
    }
    if is_name(&k, "XF86AudioPlay") || is_name(&k, "Play") {
        return "\u{25B6}";
    }
    if is_name(&k, "XF86AudioPause") || is_name(&k, "PausePlayback") {
        return "\u{23F8}";
    }
    if is_name(&k, "XF86AudioStop") || is_name(&k, "Stop") {
        return "\u{25A0}";
    }
    if is_name(&k, "XF86AudioNext") || is_name(&k, "Next") {
        return "\u{23ED}";
    }
    if is_name(&k, "XF86AudioPrev") || is_name(&k, "Prev") {
        return "\u{23EE}";
    }
    if is_name(&k, "XF86AudioRewind") || is_name(&k, "Rewind") {
        return "\u{23EA}";
    }
    if is_name(&k, "XF86AudioForward") || is_name(&k, "Forward") {
        return "\u{23E9}";
    }
    if is_name(&k, "XF86MonBrightnessUp") || is_name(&k, "Brightness_Up") {
        return "\u{2600}";
    }
    if is_name(&k, "XF86MonBrightnessDown") || is_name(&k, "Brightness_Down") {
        return "\u{263E}";
    }
    if is_name(&k, "XF86Search") {
        return "\u{1F50D}";
    }
    if is_name(&k, "XF86Explorer") || is_name(&k, "XF86LaunchA") {
        return "\u{1F4C2}";
    }
    if is_name(&k, "XF86Calculator") {
        return "\u{1F9EE}";
    }
    if is_name(&k, "XF86Mail") {
        return "\u{2709}";
    }
    if is_name(&k, "XF86Favorites") {
        return "\u{2605}";
    }
    if is_name(&k, "XF86WWW") || is_name(&k, "XF86LaunchB") {
        return "\u{1F310}";
    }
    if is_name(&k, "XF86Display") {
        return "\u{21C3}";
    }
    if is_name(&k, "XF86WLAN") || is_name(&k, "XF86Network") {
        return "\u{1F4F6}";
    }
    key
}

/// The symbols of the chips of a key combination, one per `+`-separated part.
pub open spec fn key_chip_spec(keys: Seq<char>) -> Seq<Seq<char>> {
    split_spec(keys, '+').map_values(|p: Seq<char>| key_symbol_spec(p))
}

/// The symbols shown on the chips of a key combination, one per `+`-separated
/// part, in order.
pub fn key_chip_symbols(keys: &str) -> (r: Vec<String>)
    ensures
        r@.map_values(|s: String| s@) == key_chip_spec(keys@),
{
    let v = chars_of(keys);
    let parts = split_chars(&v, '+');
    let ghost target = key_chip_spec(keys@);
    let mut out: Vec<String> = Vec::new();
    let mut i: usize = 0;
    while i < parts.len()
        invariant
            i <= parts.len(),
            parts@.len() == split_spec(keys@, '+').len(),
            forall|k: int|
                0 <= k < parts@.len() ==> #[trigger] parts@[k]@ == split_spec(keys@, '+')[k],
            target == key_chip_spec(keys@),
            out@.map_values(|s: String| s@) == target.take(i as int),
        decreases parts.len() - i,
    {
        let p = string_of(&parts[i], 0, parts[i].len());
        assert(p@ =~= parts@[i as int]@);
        let sym = String::from_str(key_to_symbol(p.as_str()));
        let ghost prev = out@;
        out.push(sym);
        assert(out@.map_values(|s: String| s@) =~= prev.map_values(|s: String| s@).push(sym@));
        assert(target[i as int] == key_symbol_spec(split_spec(keys@, '+')[i as int]));
        assert(out@.map_values(|s: String| s@) =~= target.take(i + 1));
        i += 1;
    }
    assert(target.take(parts.len() as int) =~= target);
    out
}

} // verus!
