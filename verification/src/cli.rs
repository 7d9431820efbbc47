//! The command line: its arguments, the `--dump` listing, and the
//! configuration that `swaymsg -t get_config` reports.
use vstd::prelude::*;
use vstd::string::*;

use crate::config::{Binding, BindingView};
use crate::text::{push_char, str_eq};

verus! {

/// The arguments as plain text.
pub open spec fn args_view(args: Seq<String>) -> Seq<Seq<char>> {
    args.map_values(|a: String| a@)
}

/// Whether the arguments ask for the usage text.
pub open spec fn wants_help_spec(args: Seq<Seq<char>>) -> bool {
    exists|i: int| 0 <= i < args.len() && (#[trigger] args[i] == "-h"@ || args[i] == "--help"@)
}

/// Whether the arguments ask for the bindings to be listed on standard output.
pub open spec fn wants_dump_spec(args: Seq<Seq<char>>) -> bool {
    exists|i: int| 0 <= i < args.len() && #[trigger] args[i] == "--dump"@
}

/// Reads the arguments from position `i` on, `path` being the configuration
/// path given so far: `-c`/`--config` takes the next argument as the path,
/// `-h`, `--help` and `--dump` are passed over, anything else is refused.
pub open spec fn config_path_from(args: Seq<Seq<char>>, i: int, path: Option<Seq<char>>) -> Result<
    Option<Seq<char>>,
    Seq<char>,
>
    decreases args.len() - i,
{
    if i < 0 || i >= args.len() {
        Ok(path)
    } else if args[i] == "-c"@ || args[i] == "--config"@ {
        if i + 1 >= args.len() {
            Err("missing path after -c/--config"@)
        } else {
            config_path_from(args, i + 2, Some(args[i + 1]))
        }
    } else if args[i] == "-h"@ || args[i] == "--help"@ || args[i] == "--dump"@ {
        config_path_from(args, i + 1, path)
    } else {
        Err("unknown argument: "@ + args[i])
    }
}

/// The configuration path that the arguments give, if any, or why they are refused.
pub open spec fn config_path_spec(args: Seq<Seq<char>>) -> Result<Option<Seq<char>>, Seq<char>> {
    config_path_from(args, 0, None)
}

/// The text of an optional string inside a result.
pub open spec fn path_result_view(r: Result<Option<String>, String>) -> Result<
    Option<Seq<char>>,
    Seq<char>,
> {
    match r {
        Ok(Some(p)) => Ok(Some(p@)),
        Ok(None) => Ok(None),
        Err(e) => Err(e@),
    }
}

/// The text of a result of strings.
pub open spec fn text_result_view(r: Result<String, String>) -> Result<Seq<char>, Seq<char>> {
    match r {
        Ok(s) => Ok(s@),
        Err(e) => Err(e@),
    }
}

/// Whether some argument is one of the two given.
fn any_arg(args: &Vec<String>, a: &str, b: &str) -> (r: bool)
    ensures
        r == exists|i: int|
            0 <= i < args@.len() && (#[trigger] args_view(args@)[i] == a@ || args_view(args@)[i]
                == b@),
{
    let ghost av = args_view(args@);
    let mut i: usize = 0;
    while i < args.len()
        invariant
            i <= args.len(),
            av == args_view(args@),
            forall|k: int| 0 <= k < i ==> !(#[trigger] av[k] == a@ || av[k] == b@),
        decreases args.len() - i,
    {
        if str_eq(args[i].as_str(), a) || str_eq(args[i].as_str(), b) {
            assert(av[i as int] == args@[i as int]@);
            return true;
        }
        i += 1;
    }
    false
}

/// Whether the arguments ask for the usage text (`-h` or `--help`).
pub fn wants_help(args: &Vec<String>) -> (r: bool)
    ensures
        r == wants_help_spec(args_view(args@)),
{
    any_arg(args, "-h", "--help")
}

/// Whether the arguments ask for the `--dump` listing.
pub fn wants_dump(args: &Vec<String>) -> (r: bool)
    ensures
        r == wants_dump_spec(args_view(args@)),
{
    any_arg(args, "--dump", "--dump")
}

/// The configuration path that the arguments give (`-c <path>` or
/// `--config <path>`, the last one counting), or the message that refuses them.
pub fn config_path(args: &Vec<String>) -> (r: Result<Option<String>, String>)
    ensures
        path_result_view(r) == config_path_spec(args_view(args@)),
{
    let ghost av = args_view(args@);
    let mut path: Option<String> = None;
    let mut i: usize = 0;
    while i < args.len()
        invariant
            av == args_view(args@),
            config_path_from(av, i as int, match path {
                Some(p) => Some(p@),
                None => None,
            }) == config_path_spec(av),
        decreases args.len() - i,
    {
        let a = args[i].as_str();
        assert(av[i as int] == a@);
        if str_eq(a, "-c") || str_eq(a, "--config") {
            if i + 1 >= args.len() {
                return Err(String::from_str("missing path after -c/--config"));
            }
            path = Some(args[i + 1].clone());
            assert(av[i + 1] == args@[i + 1]@);
            i += 2;
        } else if str_eq(a, "-h") || str_eq(a, "--help") || str_eq(a, "--dump") {
            i += 1;
        } else {
            let mut msg = String::from_str("unknown argument: ");
            msg.append(a);
            return Err(msg);
        }
    }
    match path {
        Some(p) => Ok(Some(p)),
        None => Ok(None),
    }
}

/// The width that the key column of the `--dump` listing is padded to.
pub const KEY_COLUMN_WIDTH: usize = 24;

/// `s` followed by spaces up to `width` characters.
pub open spec fn pad_right(s: Seq<char>, width: nat) -> Seq<char> {
    if s.len() >= width {
        s
    } else {
        s + Seq::new((width - s.len()) as nat, |i: int| ' ')
    }
}

/// A line of the `--dump` listing: `[mode] ` when the binding has a mode, the
/// keys padded to the key column, a space and the command.
pub open spec fn dump_line_spec(b: BindingView) -> Seq<char> {
    let body = pad_right(b.keys, KEY_COLUMN_WIDTH as nat) + seq![' '] + b.command;
    match b.mode {
        Some(m) => seq!['['] + m + "] "@ + body,
        None => body,
    }
}

/// The line that `--dump` prints for a binding.
pub fn dump_line(b: &Binding) -> (r: String)
    ensures
        r@ == dump_line_spec(b@),
{
    let mut out = String::new();
    match &b.mode {
        Some(m) => {
            push_char(&mut out, '[');
            out.append(m.as_str());
            out.append("] ");
        },
        None => {},
    }
    let ghost before = out@;
    out.append(b.keys.as_str());
    let n = b.keys.as_str().unicode_len();
    let mut k = n;
    while k < KEY_COLUMN_WIDTH
        invariant
            n == b.keys@.len(),
            n <= k <= KEY_COLUMN_WIDTH || (n > KEY_COLUMN_WIDTH && k == n),
            out@ == before + b.keys@ + Seq::new((k - n) as nat, |i: int| ' '),
        decreases KEY_COLUMN_WIDTH - k,
    {
        push_char(&mut out, ' ');
        k += 1;
        assert(out@ =~= before + b.keys@ + Seq::new((k - n) as nat, |i: int| ' '));
    }
    assert(before + b.keys@ + Seq::new((k - n) as nat, |i: int| ' ') =~= before + pad_right(
        b.keys@,
        KEY_COLUMN_WIDTH as nat,
    ));
    push_char(&mut out, ' ');
    out.append(b.command.as_str());
    proof {
        if b.mode is None {
            assert(before =~= Seq::<char>::empty());
        }
        assert(out@ =~= dump_line_spec(b@));
    }
    out
}

/// Names what `serde_json::from_slice` makes of `json` as a `serde_json::Value`,
/// read for the string under the top-level `key`: the text of the error when
/// `from_slice` fails; otherwise the string, or nothing when the value is not
/// an object with a string under `key`.
pub uninterp spec fn json_string_field(json: Seq<u8>, key: Seq<char>) -> Result<
    Option<Seq<char>>,
    Seq<char>,
>;

/// `serde_json::from_slice` into a `serde_json::Value`, then `Value::get(key)`
/// and `Value::as_str`; a parse error comes back as its text. What it returns
/// is named by `json_string_field`; nothing more is claimed of JSON here.
#[verifier::external_body]
fn read_json_string_field(json: &[u8], key: &str) -> (r: Result<Option<String>, String>)
    ensures
        path_result_view(r) == json_string_field(json@, key@),
{
    match serde_json::from_slice::<serde_json::Value>(json) {
        Ok(v) => Ok(v.get(key).and_then(|f| f.as_str()).map(|s| s.to_string())),
        Err(e) => Err(e.to_string()),
    }
}

/// The configuration text, or the message for the user, given what was found
/// under `"config"` in the output of `swaymsg -t get_config`.
pub open spec fn swaymsg_config_spec(field: Result<Option<Seq<char>>, Seq<char>>) -> Result<
    Seq<char>,
    Seq<char>,
> {
    match field {
        Ok(Some(config)) => Ok(config),
        Ok(None) => Err("swaymsg output missing \"config\" field"@),
        Err(e) => Err("failed to parse swaymsg output: "@ + e),
    }
}

/// The configuration text, or the message for the user, from what was read
/// under `"config"` of the output of `swaymsg -t get_config`.
pub fn config_from_field(field: Result<Option<String>, String>) -> (r: Result<String, String>)
    ensures
        text_result_view(r) == swaymsg_config_spec(path_result_view(field)),
{
    match field {
        Ok(Some(config)) => Ok(config),
        Ok(None) => Err(String::from_str("swaymsg output missing \"config\" field")),
        Err(e) => {
            let mut msg = String::from_str("failed to parse swaymsg output: ");
            msg.append(e.as_str());
            Err(msg)
        },
    }
}

/// The configuration text in the output of `swaymsg -t get_config`, or the
/// message for the user.
pub fn config_from_swaymsg_output(stdout: &[u8]) -> (r: Result<String, String>)
    ensures
        text_result_view(r) == swaymsg_config_spec(json_string_field(stdout@, "config"@)),
{
    config_from_field(read_json_string_field(stdout, "config"))
}

} // verus!
