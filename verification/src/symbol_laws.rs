//! The symbol of each named key, entry by entry.
use vstd::prelude::*;

use crate::symbols::key_symbol_spec;

verus! {

/// The key names of the symbol table are told apart: by their lengths, and
/// names of one length by a character where they differ.
proof fn lemma_key_names_told_apart()
    ensures
        "Super"@.len() == 5,
        "Mod4"@.len() == 4,
        "Alt"@.len() == 3,
        "Mod1"@.len() == 4,
        "Ctrl"@.len() == 4,
        "Control"@.len() == 7,
        "Shift"@.len() == 5,
        "Mod2"@.len() == 4,
        "Mod3"@.len() == 4,
        "Mod5"@.len() == 4,
        "Return"@.len() == 6,
        "Enter"@.len() == 5,
        "Escape"@.len() == 6,
        "Escape_LC"@.len() == 9,
        "BackSpace"@.len() == 9,
        "BackSpace_LC"@.len() == 12,
        "Tab"@.len() == 3,
        "Tab_LC"@.len() == 6,
        "Delete"@.len() == 6,
        "Delete_LC"@.len() == 9,
        "Insert"@.len() == 6,
        "Left"@.len() == 4,
        "Right"@.len() == 5,
        "Up"@.len() == 2,
        "Down"@.len() == 4,
        "Home"@.len() == 4,
        "End"@.len() == 3,
        "Page_Up"@.len() == 7,
        "Page_Down"@.len() == 9,
        "Caps_Lock"@.len() == 9,
        "Num_Lock"@.len() == 8,
        "Scroll_Lock"@.len() == 11,
        "Print"@.len() == 5,
        "Pause"@.len() == 5,
        "Menu"@.len() == 4,
        "F1"@.len() == 2,
        "F2"@.len() == 2,
        "F3"@.len() == 2,
        "F4"@.len() == 2,
        "F5"@.len() == 2,
        "F6"@.len() == 2,
        "F7"@.len() == 2,
        "F8"@.len() == 2,
        "F9"@.len() == 2,
        "F10"@.len() == 3,
        "F11"@.len() == 3,
        "F12"@.len() == 3,
        "space"@.len() == 5,
        "Space"@.len() == 5,
        "XF86PowerOff"@.len() == 12,
        "Power"@.len() == 5,
        "XF86AudioMute"@.len() == 13,
        "Mute"@.len() == 4,
        "XF86AudioLowerVolume"@.len() == 20,
        "Volume_Down"@.len() == 11,
        "XF86AudioRaiseVolume"@.len() == 20,
        "Volume_Up"@.len() == 9,
        "XF86AudioPlay"@.len() == 13,
        "Play"@.len() == 4,
        "XF86AudioPause"@.len() == 14,
        "PausePlayback"@.len() == 13,
        "XF86AudioStop"@.len() == 13,
        "Stop"@.len() == 4,
        "XF86AudioNext"@.len() == 13,
        "Next"@.len() == 4,
        "XF86AudioPrev"@.len() == 13,
        "Prev"@.len() == 4,
        "XF86AudioRewind"@.len() == 15,
        "Rewind"@.len() == 6,
        "XF86AudioForward"@.len() == 16,
        "Forward"@.len() == 7,
        "XF86MonBrightnessUp"@.len() == 19,
        "Brightness_Up"@.len() == 13,
        "XF86MonBrightnessDown"@.len() == 21,
        "Brightness_Down"@.len() == 15,
        "XF86Search"@.len() == 10,
        "XF86Explorer"@.len() == 12,
        "XF86LaunchA"@.len() == 11,
        "XF86Calculator"@.len() == 14,
        "XF86Mail"@.len() == 8,
        "XF86Favorites"@.len() == 13,
        "XF86WWW"@.len() == 7,
        "XF86LaunchB"@.len() == 11,
        "XF86Display"@.len() == 11,
        "XF86WLAN"@.len() == 8,
        "XF86Network"@.len() == 11,
        "Super"@[1] != "Shift"@[1],
        "Super"@[0] != "Enter"@[0],
        "Super"@[0] != "Right"@[0],
        "Super"@[0] != "Print"@[0],
        "Super"@[0] != "Pause"@[0],
        "Super"@[0] != "space"@[0],
        "Super"@[1] != "Space"@[1],
        "Super"@[0] != "Power"@[0],
        "Mod4"@[3] != "Mod1"@[3],
        "Mod4"@[0] != "Ctrl"@[0],
        "Mod4"@[3] != "Mod2"@[3],
        "Mod4"@[3] != "Mod3"@[3],
        "Mod4"@[3] != "Mod5"@[3],
        "Mod4"@[0] != "Left"@[0],
        "Mod4"@[0] != "Down"@[0],
        "Mod4"@[0] != "Home"@[0],
        "Mod4"@[1] != "Menu"@[1],
        "Mod4"@[1] != "Mute"@[1],
        "Mod4"@[0] != "Play"@[0],
        "Mod4"@[0] != "Stop"@[0],
        "Mod4"@[0] != "Next"@[0],
        "Mod4"@[0] != "Prev"@[0],
        "Alt"@[0] != "Tab"@[0],
        "Alt"@[0] != "End"@[0],
        "Alt"@[0] != "F10"@[0],
        "Alt"@[0] != "F11"@[0],
        "Alt"@[0] != "F12"@[0],
        "Mod1"@[0] != "Ctrl"@[0],
        "Mod1"@[3] != "Mod2"@[3],
        "Mod1"@[3] != "Mod3"@[3],
        "Mod1"@[3] != "Mod5"@[3],
        "Mod1"@[0] != "Left"@[0],
        "Mod1"@[0] != "Down"@[0],
        "Mod1"@[0] != "Home"@[0],
        "Mod1"@[1] != "Menu"@[1],
        "Mod1"@[1] != "Mute"@[1],
        "Mod1"@[0] != "Play"@[0],
        "Mod1"@[0] != "Stop"@[0],
        "Mod1"@[0] != "Next"@[0],
        "Mod1"@[0] != "Prev"@[0],
        "Ctrl"@[0] != "Mod2"@[0],
        "Ctrl"@[0] != "Mod3"@[0],
        "Ctrl"@[0] != "Mod5"@[0],
        "Ctrl"@[0] != "Left"@[0],
        "Ctrl"@[0] != "Down"@[0],
        "Ctrl"@[0] != "Home"@[0],
        "Ctrl"@[0] != "Menu"@[0],
        "Ctrl"@[0] != "Mute"@[0],
        "Ctrl"@[0] != "Play"@[0],
        "Ctrl"@[0] != "Stop"@[0],
        "Ctrl"@[0] != "Next"@[0],
        "Ctrl"@[0] != "Prev"@[0],
        "Control"@[0] != "Page_Up"@[0],
        "Control"@[0] != "Forward"@[0],
        "Control"@[0] != "XF86WWW"@[0],
        "Shift"@[0] != "Enter"@[0],
        "Shift"@[0] != "Right"@[0],
        "Shift"@[0] != "Print"@[0],
        "Shift"@[0] != "Pause"@[0],
        "Shift"@[0] != "space"@[0],
        "Shift"@[1] != "Space"@[1],
        "Shift"@[0] != "Power"@[0],
        "Mod2"@[3] != "Mod3"@[3],
        "Mod2"@[3] != "Mod5"@[3],
        "Mod2"@[0] != "Left"@[0],
        "Mod2"@[0] != "Down"@[0],
        "Mod2"@[0] != "Home"@[0],
        "Mod2"@[1] != "Menu"@[1],
        "Mod2"@[1] != "Mute"@[1],
        "Mod2"@[0] != "Play"@[0],
        "Mod2"@[0] != "Stop"@[0],
        "Mod2"@[0] != "Next"@[0],
        "Mod2"@[0] != "Prev"@[0],
        "Mod3"@[3] != "Mod5"@[3],
        "Mod3"@[0] != "Left"@[0],
        "Mod3"@[0] != "Down"@[0],
        "Mod3"@[0] != "Home"@[0],
        "Mod3"@[1] != "Menu"@[1],
        "Mod3"@[1] != "Mute"@[1],
        "Mod3"@[0] != "Play"@[0],
        "Mod3"@[0] != "Stop"@[0],
        "Mod3"@[0] != "Next"@[0],
        "Mod3"@[0] != "Prev"@[0],
        "Mod5"@[0] != "Left"@[0],
        "Mod5"@[0] != "Down"@[0],
        "Mod5"@[0] != "Home"@[0],
        "Mod5"@[1] != "Menu"@[1],
        "Mod5"@[1] != "Mute"@[1],
        "Mod5"@[0] != "Play"@[0],
        "Mod5"@[0] != "Stop"@[0],
        "Mod5"@[0] != "Next"@[0],
        "Mod5"@[0] != "Prev"@[0],
        "Return"@[0] != "Escape"@[0],
        "Return"@[0] != "Tab_LC"@[0],
        "Return"@[0] != "Delete"@[0],
        "Return"@[0] != "Insert"@[0],
        "Return"@[2] != "Rewind"@[2],
        "Enter"@[0] != "Right"@[0],
        "Enter"@[0] != "Print"@[0],
        "Enter"@[0] != "Pause"@[0],
        "Enter"@[0] != "space"@[0],
        "Enter"@[0] != "Space"@[0],
        "Enter"@[0] != "Power"@[0],
        "Escape"@[0] != "Tab_LC"@[0],
        "Escape"@[0] != "Delete"@[0],
        "Escape"@[0] != "Insert"@[0],
        "Escape"@[0] != "Rewind"@[0],
        "Escape_LC"@[0] != "BackSpace"@[0],
        "Escape_LC"@[0] != "Delete_LC"@[0],
        "Escape_LC"@[0] != "Page_Down"@[0],
        "Escape_LC"@[0] != "Caps_Lock"@[0],
        "Escape_LC"@[0] != "Volume_Up"@[0],
        "BackSpace"@[0] != "Delete_LC"@[0],
        "BackSpace"@[0] != "Page_Down"@[0],
        "BackSpace"@[0] != "Caps_Lock"@[0],
        "BackSpace"@[0] != "Volume_Up"@[0],
        "BackSpace_LC"@[0] != "XF86PowerOff"@[0],
        "BackSpace_LC"@[0] != "XF86Explorer"@[0],
        "Tab"@[0] != "End"@[0],
        "Tab"@[0] != "F10"@[0],
        "Tab"@[0] != "F11"@[0],
        "Tab"@[0] != "F12"@[0],
        "Tab_LC"@[0] != "Delete"@[0],
        "Tab_LC"@[0] != "Insert"@[0],
        "Tab_LC"@[0] != "Rewind"@[0],
        "Delete"@[0] != "Insert"@[0],
        "Delete"@[0] != "Rewind"@[0],
        "Delete_LC"@[0] != "Page_Down"@[0],
        "Delete_LC"@[0] != "Caps_Lock"@[0],
        "Delete_LC"@[0] != "Volume_Up"@[0],
        "Insert"@[0] != "Rewind"@[0],
        "Left"@[0] != "Down"@[0],
        "Left"@[0] != "Home"@[0],
        "Left"@[0] != "Menu"@[0],
        "Left"@[0] != "Mute"@[0],
        "Left"@[0] != "Play"@[0],
        "Left"@[0] != "Stop"@[0],
        "Left"@[0] != "Next"@[0],
        "Left"@[0] != "Prev"@[0],
        "Right"@[0] != "Print"@[0],
        "Right"@[0] != "Pause"@[0],
        "Right"@[0] != "space"@[0],
        "Right"@[0] != "Space"@[0],
        "Right"@[0] != "Power"@[0],
        "Up"@[0] != "F1"@[0],
        "Up"@[0] != "F2"@[0],
        "Up"@[0] != "F3"@[0],
        "Up"@[0] != "F4"@[0],
        "Up"@[0] != "F5"@[0],
        "Up"@[0] != "F6"@[0],
        "Up"@[0] != "F7"@[0],
        "Up"@[0] != "F8"@[0],
        "Up"@[0] != "F9"@[0],
        "Down"@[0] != "Home"@[0],
        "Down"@[0] != "Menu"@[0],
        "Down"@[0] != "Mute"@[0],
        "Down"@[0] != "Play"@[0],
        "Down"@[0] != "Stop"@[0],
        "Down"@[0] != "Next"@[0],
        "Down"@[0] != "Prev"@[0],
        "Home"@[0] != "Menu"@[0],
        "Home"@[0] != "Mute"@[0],
        "Home"@[0] != "Play"@[0],
        "Home"@[0] != "Stop"@[0],
        "Home"@[0] != "Next"@[0],
        "Home"@[0] != "Prev"@[0],
        "End"@[0] != "F10"@[0],
        "End"@[0] != "F11"@[0],
        "End"@[0] != "F12"@[0],
        "Page_Up"@[0] != "Forward"@[0],
        "Page_Up"@[0] != "XF86WWW"@[0],
        "Page_Down"@[0] != "Caps_Lock"@[0],
        "Page_Down"@[0] != "Volume_Up"@[0],
        "Caps_Lock"@[0] != "Volume_Up"@[0],
        "Num_Lock"@[0] != "XF86Mail"@[0],
        "Num_Lock"@[0] != "XF86WLAN"@[0],
        "Scroll_Lock"@[0] != "Volume_Down"@[0],
        "Scroll_Lock"@[0] != "XF86LaunchA"@[0],
        "Scroll_Lock"@[0] != "XF86LaunchB"@[0],
        "Scroll_Lock"@[0] != "XF86Display"@[0],
        "Scroll_Lock"@[0] != "XF86Network"@[0],
        "Print"@[1] != "Pause"@[1],
        "Print"@[0] != "space"@[0],
        "Print"@[0] != "Space"@[0],
        "Print"@[1] != "Power"@[1],
        "Pause"@[0] != "space"@[0],
        "Pause"@[0] != "Space"@[0],
        "Pause"@[1] != "Power"@[1],
        "Menu"@[1] != "Mute"@[1],
        "Menu"@[0] != "Play"@[0],
        "Menu"@[0] != "Stop"@[0],
        "Menu"@[0] != "Next"@[0],
        "Menu"@[0] != "Prev"@[0],
        "F1"@[1] != "F2"@[1],
        "F1"@[1] != "F3"@[1],
        "F1"@[1] != "F4"@[1],
        "F1"@[1] != "F5"@[1],
        "F1"@[1] != "F6"@[1],
        "F1"@[1] != "F7"@[1],
        "F1"@[1] != "F8"@[1],
        "F1"@[1] != "F9"@[1],
        "F2"@[1] != "F3"@[1],
        "F2"@[1] != "F4"@[1],
        "F2"@[1] != "F5"@[1],
        "F2"@[1] != "F6"@[1],
        "F2"@[1] != "F7"@[1],
        "F2"@[1] != "F8"@[1],
        "F2"@[1] != "F9"@[1],
        "F3"@[1] != "F4"@[1],
        "F3"@[1] != "F5"@[1],
        "F3"@[1] != "F6"@[1],
        "F3"@[1] != "F7"@[1],
        "F3"@[1] != "F8"@[1],
        "F3"@[1] != "F9"@[1],
        "F4"@[1] != "F5"@[1],
        "F4"@[1] != "F6"@[1],
        "F4"@[1] != "F7"@[1],
        "F4"@[1] != "F8"@[1],
        "F4"@[1] != "F9"@[1],
        "F5"@[1] != "F6"@[1],
        "F5"@[1] != "F7"@[1],
        "F5"@[1] != "F8"@[1],
        "F5"@[1] != "F9"@[1],
        "F6"@[1] != "F7"@[1],
        "F6"@[1] != "F8"@[1],
        "F6"@[1] != "F9"@[1],
        "F7"@[1] != "F8"@[1],
        "F7"@[1] != "F9"@[1],
        "F8"@[1] != "F9"@[1],
        "F10"@[2] != "F11"@[2],
        "F10"@[2] != "F12"@[2],
        "F11"@[2] != "F12"@[2],
        "space"@[0] != "Space"@[0],
        "space"@[0] != "Power"@[0],
        "Space"@[0] != "Power"@[0],
        "XF86PowerOff"@[4] != "XF86Explorer"@[4],
        "XF86AudioMute"@[9] != "XF86AudioPlay"@[9],
        "XF86AudioMute"@[0] != "PausePlayback"@[0],
        "XF86AudioMute"@[9] != "XF86AudioStop"@[9],
        "XF86AudioMute"@[9] != "XF86AudioNext"@[9],
        "XF86AudioMute"@[9] != "XF86AudioPrev"@[9],
        "XF86AudioMute"@[0] != "Brightness_Up"@[0],
        "XF86AudioMute"@[4] != "XF86Favorites"@[4],
        "Mute"@[0] != "Play"@[0],
        "Mute"@[0] != "Stop"@[0],
        "Mute"@[0] != "Next"@[0],
        "Mute"@[0] != "Prev"@[0],
        "XF86AudioLowerVolume"@[9] != "XF86AudioRaiseVolume"@[9],
        "Volume_Down"@[0] != "XF86LaunchA"@[0],
        "Volume_Down"@[0] != "XF86LaunchB"@[0],
        "Volume_Down"@[0] != "XF86Display"@[0],
        "Volume_Down"@[0] != "XF86Network"@[0],
        "XF86AudioPlay"@[0] != "PausePlayback"@[0],
        "XF86AudioPlay"@[9] != "XF86AudioStop"@[9],
        "XF86AudioPlay"@[9] != "XF86AudioNext"@[9],
        "XF86AudioPlay"@[10] != "XF86AudioPrev"@[10],
        "XF86AudioPlay"@[0] != "Brightness_Up"@[0],
        "XF86AudioPlay"@[4] != "XF86Favorites"@[4],
        "Play"@[0] != "Stop"@[0],
        "Play"@[0] != "Next"@[0],
        "Play"@[1] != "Prev"@[1],
        "XF86AudioPause"@[4] != "XF86Calculator"@[4],
        "PausePlayback"@[0] != "XF86AudioStop"@[0],
        "PausePlayback"@[0] != "XF86AudioNext"@[0],
        "PausePlayback"@[0] != "XF86AudioPrev"@[0],
        "PausePlayback"@[0] != "Brightness_Up"@[0],
        "PausePlayback"@[0] != "XF86Favorites"@[0],
        "XF86AudioStop"@[9] != "XF86AudioNext"@[9],
        "XF86AudioStop"@[9] != "XF86AudioPrev"@[9],
        "XF86AudioStop"@[0] != "Brightness_Up"@[0],
        "XF86AudioStop"@[4] != "XF86Favorites"@[4],
        "Stop"@[0] != "Next"@[0],
        "Stop"@[0] != "Prev"@[0],
        "XF86AudioNext"@[9] != "XF86AudioPrev"@[9],
        "XF86AudioNext"@[0] != "Brightness_Up"@[0],
        "XF86AudioNext"@[4] != "XF86Favorites"@[4],
        "Next"@[0] != "Prev"@[0],
        "XF86AudioPrev"@[0] != "Brightness_Up"@[0],
        "XF86AudioPrev"@[4] != "XF86Favorites"@[4],
        "XF86AudioRewind"@[0] != "Brightness_Down"@[0],
        "Forward"@[0] != "XF86WWW"@[0],
        "Brightness_Up"@[0] != "XF86Favorites"@[0],
        "XF86LaunchA"@[10] != "XF86LaunchB"@[10],
        "XF86LaunchA"@[4] != "XF86Display"@[4],
        "XF86LaunchA"@[4] != "XF86Network"@[4],
        "XF86Mail"@[4] != "XF86WLAN"@[4],
        "XF86LaunchB"@[4] != "XF86Display"@[4],
        "XF86LaunchB"@[4] != "XF86Network"@[4],
        "XF86Display"@[4] != "XF86Network"@[4],
{
    reveal_strlit("Super");
    reveal_strlit("Mod4");
    reveal_strlit("Alt");
    reveal_strlit("Mod1");
    reveal_strlit("Ctrl");
    reveal_strlit("Control");
    reveal_strlit("Shift");
    reveal_strlit("Mod2");
    reveal_strlit("Mod3");
    reveal_strlit("Mod5");
    reveal_strlit("Return");
    reveal_strlit("Enter");
    reveal_strlit("Escape");
    reveal_strlit("Escape_LC");
    reveal_strlit("BackSpace");
    reveal_strlit("BackSpace_LC");
    reveal_strlit("Tab");
    reveal_strlit("Tab_LC");
    reveal_strlit("Delete");
    reveal_strlit("Delete_LC");
    reveal_strlit("Insert");
    reveal_strlit("Left");
    reveal_strlit("Right");
    reveal_strlit("Up");
    reveal_strlit("Down");
    reveal_strlit("Home");
    reveal_strlit("End");
    reveal_strlit("Page_Up");
    reveal_strlit("Page_Down");
    reveal_strlit("Caps_Lock");
    reveal_strlit("Num_Lock");
    reveal_strlit("Scroll_Lock");
    reveal_strlit("Print");
    reveal_strlit("Pause");
    reveal_strlit("Menu");
    reveal_strlit("F1");
    reveal_strlit("F2");
    reveal_strlit("F3");
    reveal_strlit("F4");
    reveal_strlit("F5");
    reveal_strlit("F6");
    reveal_strlit("F7");
    reveal_strlit("F8");
    reveal_strlit("F9");
    reveal_strlit("F10");
    reveal_strlit("F11");
    reveal_strlit("F12");
    reveal_strlit("space");
    reveal_strlit("Space");
    reveal_strlit("XF86PowerOff");
    reveal_strlit("Power");
    reveal_strlit("XF86AudioMute");
    reveal_strlit("Mute");
    reveal_strlit("XF86AudioLowerVolume");
    reveal_strlit("Volume_Down");
    reveal_strlit("XF86AudioRaiseVolume");
    reveal_strlit("Volume_Up");
    reveal_strlit("XF86AudioPlay");
    reveal_strlit("Play");
    reveal_strlit("XF86AudioPause");
    reveal_strlit("PausePlayback");
    reveal_strlit("XF86AudioStop");
    reveal_strlit("Stop");
    reveal_strlit("XF86AudioNext");
    reveal_strlit("Next");
    reveal_strlit("XF86AudioPrev");
    reveal_strlit("Prev");
    reveal_strlit("XF86AudioRewind");
    reveal_strlit("Rewind");
    reveal_strlit("XF86AudioForward");
    reveal_strlit("Forward");
    reveal_strlit("XF86MonBrightnessUp");
    reveal_strlit("Brightness_Up");
    reveal_strlit("XF86MonBrightnessDown");
    reveal_strlit("Brightness_Down");
    reveal_strlit("XF86Search");
    reveal_strlit("XF86Explorer");
    reveal_strlit("XF86LaunchA");
    reveal_strlit("XF86Calculator");
    reveal_strlit("XF86Mail");
    reveal_strlit("XF86Favorites");
    reveal_strlit("XF86WWW");
    reveal_strlit("XF86LaunchB");
    reveal_strlit("XF86Display");
    reveal_strlit("XF86WLAN");
    reveal_strlit("XF86Network");
}

/// Each named key shows its own symbol: modifiers, editing keys, arrows in
/// their own direction, lock, print and menu keys, function keys, space,
/// power, volume, media, brightness and launcher keys.
pub proof fn law_key_symbols()
    ensures
        key_symbol_spec("Super"@) == "\u{2318}"@,
        key_symbol_spec("Mod4"@) == "\u{2318}"@,
        key_symbol_spec("Alt"@) == "\u{2325}"@,
        key_symbol_spec("Mod1"@) == "\u{2325}"@,
        key_symbol_spec("Ctrl"@) == "\u{2303}"@,
        key_symbol_spec("Control"@) == "\u{2303}"@,
        key_symbol_spec("Shift"@) == "\u{21E7}"@,
        key_symbol_spec("Mod2"@) == "\u{2318}"@,
        key_symbol_spec("Mod3"@) == "\u{2318}"@,
        key_symbol_spec("Mod5"@) == "\u{2318}"@,
        key_symbol_spec("Return"@) == "\u{23CE}"@,
        key_symbol_spec("Enter"@) == "\u{23CE}"@,
        key_symbol_spec("Escape"@) == "\u{238B}"@,
        key_symbol_spec("Escape_LC"@) == "\u{238B}"@,
        key_symbol_spec("BackSpace"@) == "\u{232B}"@,
        key_symbol_spec("BackSpace_LC"@) == "\u{232B}"@,
        key_symbol_spec("Tab"@) == "\u{21E5}"@,
        key_symbol_spec("Tab_LC"@) == "\u{21E5}"@,
        key_symbol_spec("Delete"@) == "\u{2326}"@,
        key_symbol_spec("Delete_LC"@) == "\u{2326}"@,
        key_symbol_spec("Insert"@) == "\u{2380}"@,
        key_symbol_spec("Left"@) == "\u{2190}"@,
        key_symbol_spec("Right"@) == "\u{2192}"@,
        key_symbol_spec("Up"@) == "\u{2191}"@,
        key_symbol_spec("Down"@) == "\u{2193}"@,
        key_symbol_spec("Home"@) == "\u{2196}"@,
        key_symbol_spec("End"@) == "\u{2198}"@,
        key_symbol_spec("Page_Up"@) == "\u{21DE}"@,
        key_symbol_spec("Page_Down"@) == "\u{21DF}"@,
        key_symbol_spec("Caps_Lock"@) == "\u{21EA}"@,
        key_symbol_spec("Num_Lock"@) == "\u{2327}"@,
        key_symbol_spec("Scroll_Lock"@) == "\u{21C7}"@,
        key_symbol_spec("Print"@) == "\u{2399}"@,
        key_symbol_spec("Pause"@) == "\u{23F8}"@,
        key_symbol_spec("Menu"@) == "\u{2630}"@,
        key_symbol_spec("F1"@) == "F1"@,
        key_symbol_spec("F2"@) == "F2"@,
        key_symbol_spec("F3"@) == "F3"@,
        key_symbol_spec("F4"@) == "F4"@,
        key_symbol_spec("F5"@) == "F5"@,
        key_symbol_spec("F6"@) == "F6"@,
        key_symbol_spec("F7"@) == "F7"@,
        key_symbol_spec("F8"@) == "F8"@,
        key_symbol_spec("F9"@) == "F9"@,
        key_symbol_spec("F10"@) == "F10"@,
        key_symbol_spec("F11"@) == "F11"@,
        key_symbol_spec("F12"@) == "F12"@,
        key_symbol_spec("space"@) == "\u{2423}"@,
        key_symbol_spec("Space"@) == "\u{2423}"@,
        key_symbol_spec("XF86PowerOff"@) == "\u{23FB}"@,
        key_symbol_spec("Power"@) == "\u{23FB}"@,
        key_symbol_spec("XF86AudioMute"@) == "\u{1F507}"@,
        key_symbol_spec("Mute"@) == "\u{1F507}"@,
        key_symbol_spec("XF86AudioLowerVolume"@) == "\u{1F509}"@,
        key_symbol_spec("Volume_Down"@) == "\u{1F509}"@,
        key_symbol_spec("XF86AudioRaiseVolume"@) == "\u{1F50A}"@,
        key_symbol_spec("Volume_Up"@) == "\u{1F50A}"@,
        key_symbol_spec("XF86AudioPlay"@) == "\u{25B6}"@,
        key_symbol_spec("Play"@) == "\u{25B6}"@,
        key_symbol_spec("XF86AudioPause"@) == "\u{23F8}"@,
        key_symbol_spec("PausePlayback"@) == "\u{23F8}"@,
        key_symbol_spec("XF86AudioStop"@) == "\u{25A0}"@,
        key_symbol_spec("Stop"@) == "\u{25A0}"@,
        key_symbol_spec("XF86AudioNext"@) == "\u{23ED}"@,
        key_symbol_spec("Next"@) == "\u{23ED}"@,
        key_symbol_spec("XF86AudioPrev"@) == "\u{23EE}"@,
        key_symbol_spec("Prev"@) == "\u{23EE}"@,
        key_symbol_spec("XF86AudioRewind"@) == "\u{23EA}"@,
        key_symbol_spec("Rewind"@) == "\u{23EA}"@,
        key_symbol_spec("XF86AudioForward"@) == "\u{23E9}"@,
        key_symbol_spec("Forward"@) == "\u{23E9}"@,
        key_symbol_spec("XF86MonBrightnessUp"@) == "\u{2600}"@,
        key_symbol_spec("Brightness_Up"@) == "\u{2600}"@,
        key_symbol_spec("XF86MonBrightnessDown"@) == "\u{263E}"@,
        key_symbol_spec("Brightness_Down"@) == "\u{263E}"@,
        key_symbol_spec("XF86Search"@) == "\u{1F50D}"@,
        key_symbol_spec("XF86Explorer"@) == "\u{1F4C2}"@,
        key_symbol_spec("XF86LaunchA"@) == "\u{1F4C2}"@,
        key_symbol_spec("XF86Calculator"@) == "\u{1F9EE}"@,
        key_symbol_spec("XF86Mail"@) == "\u{2709}"@,
        key_symbol_spec("XF86Favorites"@) == "\u{2605}"@,
        key_symbol_spec("XF86WWW"@) == "\u{1F310}"@,
        key_symbol_spec("XF86LaunchB"@) == "\u{1F310}"@,
        key_symbol_spec("XF86Display"@) == "\u{21C3}"@,
        key_symbol_spec("XF86WLAN"@) == "\u{1F4F6}"@,
        key_symbol_spec("XF86Network"@) == "\u{1F4F6}"@,
{
    lemma_key_names_told_apart();
}

} // verus!
