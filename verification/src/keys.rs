//! Key combinations: resolving `$variables`, naming modifiers, key symbols.
use vstd::prelude::*;
use vstd::string::*;

use crate::text::{chars_of, join_spec, join_with, split_chars, split_spec, starts_with_char, str_eq, string_of};
use crate::vars::Vars;

verus! {

/// At most this many further lookups follow a value that names another variable.
pub const MAX_VAR_HOPS: u32 = 16;

/// Follows `value` through the table while it names a defined variable, at most
/// `MAX_VAR_HOPS - hops` more times.
pub open spec fn follow_vars(value: Seq<char>, vars: Map<Seq<char>, Seq<char>>, hops: nat) -> Seq<char>
    decreases MAX_VAR_HOPS - hops,
{
    if value.len() > 0 && value[0] == '$' && vars.contains_key(value) && hops < MAX_VAR_HOPS {
        follow_vars(vars[value], vars, hops + 1)
    } else {
        value
    }
}

/// One `+`-separated part of a key combination with its variables resolved.
pub open spec fn resolve_part_spec(part: Seq<char>, vars: Map<Seq<char>, Seq<char>>) -> Seq<char> {
    if part.len() > 0 && part[0] == '$' {
        let first = if vars.contains_key(part) {
            vars[part]
        } else {
            part
        };
        follow_vars(first, vars, 0)
    } else {
        part
    }
}

/// A key combination with each `$`-part resolved.
pub open spec fn resolve_keys_spec(keys: Seq<char>, vars: Map<Seq<char>, Seq<char>>) -> Seq<char> {
    join_spec(split_spec(keys, '+').map_values(|p: Seq<char>| resolve_part_spec(p, vars)), '+')
}

/// The display name of a modifier; other key names are kept.
pub open spec fn display_part_spec(part: Seq<char>) -> Seq<char> {
    if part == "Mod4"@ {
        "Super"@
    } else if part == "Mod1"@ {
        "Alt"@
    } else if part == "Mod2"@ {
        "Mod2"@
    } else if part == "Mod3"@ {
        "Mod3"@
    } else if part == "Mod5"@ {
        "Mod5"@
    } else if part == "Control"@ {
        "Ctrl"@
    } else {
        part
    }
}

/// A key combination with its modifiers given their display names.
pub open spec fn display_keys_spec(keys: Seq<char>) -> Seq<char> {
    join_spec(split_spec(keys, '+').map_values(|p: Seq<char>| display_part_spec(p)), '+')
}

fn resolve_part(part: String, vars: &Vars) -> (r: String)
    ensures
        r@ == resolve_part_spec(part@, vars@),
{
    if starts_with_char(part.as_str(), '$') {
        let mut value = match vars.get(part.as_str()) {
            Some(v) => v.clone(),
            None => part,
        };
        let mut hops: u32 = 0;
        while starts_with_char(value.as_str(), '$') && vars.contains_key(value.as_str()) && hops
            < MAX_VAR_HOPS
            invariant
                hops <= MAX_VAR_HOPS,
                follow_vars(value@, vars@, hops as nat) == resolve_part_spec(part@, vars@),
            decreases MAX_VAR_HOPS - hops,
        {
            value = match vars.get(value.as_str()) {
                Some(v) => v.clone(),
                None => value,
            };
            hops += 1;
        }
        value
    } else {
        part
    }
}

/// Resolves `$variables` in a `+`-separated key combination; a variable that
/// names another variable is followed, at most `MAX_VAR_HOPS` times.
pub fn resolve_keys(s: &str, vars: &Vars) -> (r: String)
    ensures
        r@ == resolve_keys_spec(s@, vars@),
{
    let v = chars_of(s);
    let parts = split_chars(&v, '+');
    let ghost mapped = split_spec(s@, '+').map_values(|p: Seq<char>| resolve_part_spec(p, vars@));
    let mut out: Vec<String> = Vec::new();
    let mut i: usize = 0;
    while i < parts.len()
        invariant
            i <= parts.len(),
            parts@.len() == split_spec(s@, '+').len(),
            forall|k: int| 0 <= k < parts@.len() ==> #[trigger] parts@[k]@ == split_spec(s@, '+')[k],
            mapped == split_spec(s@, '+').map_values(|p: Seq<char>| resolve_part_spec(p, vars@)),
            out@.map_values(|p: String| p@) == mapped.take(i as int),
        decreases parts.len() - i,
    {
        let p = string_of(&parts[i], 0, parts[i].len());
        assert(p@ =~= parts@[i as int]@);
        let rp = resolve_part(p, vars);
        let ghost prev = out@;
        out.push(rp);
        assert(out@.map_values(|p: String| p@) =~= prev.map_values(|p: String| p@).push(rp@));
        assert(mapped[i as int] == resolve_part_spec(split_spec(s@, '+')[i as int], vars@));
        assert(out@.map_values(|p: String| p@) =~= mapped.take(i + 1));
        i += 1;
    }
    assert(mapped.take(parts.len() as int) =~= mapped);
    join_with(&out, '+')
}

fn display_part<'a>(part: &'a str) -> (r: &'a str)
    ensures
        r@ == display_part_spec(part@),
{
    if str_eq(part, "Mod4") {
        "Super"
    } else if str_eq(part, "Mod1") {
        "Alt"
    } else if str_eq(part, "Mod2") {
        "Mod2"
    } else if str_eq(part, "Mod3") {
        "Mod3"
    } else if str_eq(part, "Mod5") {
        "Mod5"
    } else if str_eq(part, "Control") {
        "Ctrl"
    } else {
        part
    }
}

/// Gives the modifiers of a `+`-separated key combination their display names
/// (`Mod4` is `Super`, `Mod1` is `Alt`, `Control` is `Ctrl`).
pub fn display_keys(keys: &str) -> (r: String)
    ensures
        r@ == display_keys_spec(keys@),
{
    let v = chars_of(keys);
    let parts = split_chars(&v, '+');
    let ghost mapped = split_spec(keys@, '+').map_values(|p: Seq<char>| display_part_spec(p));
    let mut out: Vec<String> = Vec::new();
    let mut i: usize = 0;
    while i < parts.len()
        invariant
            i <= parts.len(),
            parts@.len() == split_spec(keys@, '+').len(),
            forall|k: int|
                0 <= k < parts@.len() ==> #[trigger] parts@[k]@ == split_spec(keys@, '+')[k],
            mapped == split_spec(keys@, '+').map_values(|p: Seq<char>| display_part_spec(p)),
            out@.map_values(|p: String| p@) == mapped.take(i as int),
        decreases parts.len() - i,
    {
        let p = string_of(&parts[i], 0, parts[i].len());
        assert(p@ =~= parts@[i as int]@);
        let d = String::from_str(display_part(p.as_str()));
        let ghost prev = out@;
        out.push(d);
        assert(out@.map_values(|p: String| p@) =~= prev.map_values(|p: String| p@).push(d@));
        assert(mapped[i as int] == display_part_spec(split_spec(keys@, '+')[i as int]));
        assert(out@.map_values(|p: String| p@) =~= mapped.take(i + 1));
        i += 1;
    }
    assert(mapped.take(parts.len() as int) =~= mapped);
    join_with(&out, '+')
}

} // verus!
